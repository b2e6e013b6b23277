use write_pipeline::action::{Action, Outcome};
use write_pipeline::apply::Apply;
use write_pipeline::channel::ResponseChannel;
use write_pipeline::effect::Effect;
use write_pipeline::engine::MemEngine;
use write_pipeline::entries::CommittedEntry;
use write_pipeline::errors::Error;
use write_pipeline::metadata::{ColumnFamily, Region, RegionEpoch, WriteHeader};
use write_pipeline::peer::{Config, Peer, StoreContext};
use write_pipeline::request::WriteRequest;

fn epoch() -> RegionEpoch {
    RegionEpoch { conf_ver: 1, version: 1 }
}

fn region() -> Region {
    Region { id: 1, epoch: epoch(), start_key: vec![], end_key: b"n".to_vec() }
}

fn header(term: u64) -> WriteHeader {
    WriteHeader { region_id: 1, epoch: epoch(), term, peer_id: 1 }
}

fn put(key: &[u8], value: &[u8]) -> WriteRequest {
    let mut req = WriteRequest::new();
    req.put(ColumnFamily::Default, key, value);
    req
}

/// Proposes what the peer asks for, at consecutive indices, and gives the
/// committed entries together with every answer that was given on the way.
fn commit(peer: &mut Peer, next_index: &mut u64, answers: &mut Vec<(u64, Option<Error>)>) -> Vec<CommittedEntry> {
    let mut payloads: Vec<(u64, Vec<u8>)> = Vec::new();
    for effect in peer.take_effects() {
        match effect {
            Effect::Propose { data, channels, call_proposed_on_success } => {
                payloads.push((*next_index, data));
                peer.post_propose_command(Ok(*next_index), channels, call_proposed_on_success);
                *next_index += 1;
            }
            Effect::ReportError { ch, error } => answers.push((ch.id, Some(error))),
            Effect::NotifyProposed { .. } | Effect::UnsafeWrite { .. } => {}
        }
    }
    let _ = peer.take_effects();
    let proposals = peer.take_proposals();
    assert_eq!(proposals.len(), payloads.len());
    proposals
        .into_iter()
        .zip(payloads)
        .map(|(proposal, (index, data))| {
            assert_eq!(proposal.index, index);
            CommittedEntry { index, data, channels: proposal.channels }
        })
        .collect()
}

#[test]
fn writes_reach_storage_in_submission_order_and_every_client_is_answered() {
    let ctx = StoreContext { cfg: Config { raft_entry_max_size: 1000 } };
    let mut peer = Peer::new(region());
    let mut apply = Apply::new(region(), [0, 0, 0], 1 << 20);
    let mut engine = MemEngine::new();
    let mut next_index = 5;
    let mut answers: Vec<(u64, Option<Error>)> = Vec::new();

    // a key outside the partition is turned down before a batch is begun
    peer.on_simple_write(&ctx, header(1), put(b"z", b"1"), ResponseChannel::new(3));
    peer.on_simple_write(&ctx, header(1), put(b"a", b"1"), ResponseChannel::new(1));
    peer.on_simple_write(&ctx, header(1), put(b"b", b"1"), ResponseChannel::new(2));
    peer.on_simple_write(&ctx, header(1), put(b"a", b"2"), ResponseChannel::new(4));
    // another term: the batch of 1, 2 and 4 goes first
    peer.on_simple_write(&ctx, header(2), put(b"a", b"3"), ResponseChannel::new(5));
    let mut del = WriteRequest::new();
    del.delete(ColumnFamily::Default, b"b");
    peer.on_simple_write(&ctx, header(2), del, ResponseChannel::new(6));
    peer.propose_pending_writes(&ctx);

    let entries = commit(&mut peer, &mut next_index, &mut answers);
    assert_eq!(entries.iter().map(|e| e.index).collect::<Vec<_>>(), vec![5, 6]);
    assert_eq!(apply.apply_committed_entries(entries), Ok(()));
    for action in apply.take_actions() {
        engine.carry_out(&action);
        if let Action::Report { ch, outcome } = action {
            answers.push((
                ch.id,
                match outcome {
                    Outcome::Applied => None,
                    Outcome::Failed { error } => Some(error),
                },
            ));
        }
    }

    assert_eq!(engine.get(ColumnFamily::Default, b"za"), Some(b"3".to_vec()));
    assert_eq!(engine.get(ColumnFamily::Default, b"zb"), None);
    assert_eq!(engine.get(ColumnFamily::Default, b"zz"), None);
    assert_eq!(engine.write_count(), 5);
    assert_eq!(apply.modifications(), [6, 0, 0]);

    answers.sort_by_key(|a| a.0);
    assert_eq!(
        answers,
        vec![
            (1, None),
            (2, None),
            (3, Some(Error::KeyNotInRegion { key: b"z".to_vec(), region_id: 1 })),
            (4, None),
            (5, None),
            (6, None),
        ]
    );
}

#[test]
fn request_that_joins_a_batch_shares_the_fate_of_the_batch() {
    let ctx = StoreContext { cfg: Config { raft_entry_max_size: 1000 } };
    let mut peer = Peer::new(region());
    let mut apply = Apply::new(region(), [0, 0, 0], 1 << 20);
    let mut next_index = 5;
    let mut answers: Vec<(u64, Option<Error>)> = Vec::new();
    peer.on_simple_write(&ctx, header(1), put(b"a", b"1"), ResponseChannel::new(1));
    // joins the batch under the header that was validated with it
    peer.on_simple_write(&ctx, header(1), put(b"z", b"1"), ResponseChannel::new(2));
    peer.propose_pending_writes(&ctx);
    let entries = commit(&mut peer, &mut next_index, &mut answers);
    assert!(answers.is_empty());
    assert_eq!(apply.apply_committed_entries(entries), Ok(()));
    let stray = || Outcome::Failed {
        error: Error::KeyNotInRegion { key: b"z".to_vec(), region_id: 1 },
    };
    assert_eq!(
        apply.take_actions(),
        vec![
            Action::Report { ch: ResponseChannel::new(1), outcome: stray() },
            Action::Report { ch: ResponseChannel::new(2), outcome: stray() },
        ]
    );
    assert_eq!(apply.modifications(), [0, 0, 0]);
}

#[test]
fn replay_after_a_restart_leaves_storage_as_it_is() {
    let ctx = StoreContext { cfg: Config { raft_entry_max_size: 1000 } };
    let mut peer = Peer::new(region());
    let mut engine = MemEngine::new();
    let mut next_index = 9;
    let mut answers = Vec::new();
    peer.on_simple_write(&ctx, header(1), put(b"a", b"1"), ResponseChannel::new(1));
    peer.propose_pending_writes(&ctx);
    let entries = commit(&mut peer, &mut next_index, &mut answers);
    let again: Vec<CommittedEntry> = entries
        .iter()
        .map(|e| CommittedEntry { index: e.index, data: e.data.clone(), channels: vec![] })
        .collect();

    let mut apply = Apply::new(region(), [0, 0, 0], 1 << 20);
    assert_eq!(apply.apply_committed_entries(entries), Ok(()));
    for action in apply.take_actions() {
        engine.carry_out(&action);
    }
    assert_eq!(engine.write_count(), 1);

    let mut restarted = Apply::new(region(), apply.modifications(), 1 << 20);
    assert_eq!(restarted.apply_committed_entries(again), Ok(()));
    assert!(restarted.take_actions().is_empty());
    assert_eq!(engine.write_count(), 1);
    assert_eq!(engine.get(ColumnFamily::Default, b"za"), Some(b"1".to_vec()));
}

#[test]
fn unlogged_write_goes_from_the_peer_to_storage() {
    let ctx = StoreContext { cfg: Config { raft_entry_max_size: 1000 } };
    let mut peer = Peer::new(region());
    peer.set_apply_scheduler(true);
    peer.on_unsafe_write(&ctx, put(b"k", b"v"));
    let data = match peer.take_effects().pop() {
        Some(Effect::UnsafeWrite { data }) => data,
        other => panic!("not an unlogged write: {:?}", other),
    };
    let mut apply = Apply::new(region(), [7, 7, 7], 1 << 20);
    assert_eq!(apply.apply_unsafe_write(&data), Ok(()));
    apply.flush();
    let mut engine = MemEngine::new();
    for action in apply.take_actions() {
        engine.carry_out(&action);
    }
    assert_eq!(engine.get(ColumnFamily::Default, b"zk"), Some(b"v".to_vec()));
    assert_eq!(apply.modifications(), [7, 7, 7]);
}
