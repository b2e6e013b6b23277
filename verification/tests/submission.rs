use write_pipeline::channel::ResponseChannel;
use write_pipeline::control::ConflictMarker;
use write_pipeline::effect::Effect;
use write_pipeline::errors::Error;
use write_pipeline::metadata::{ColumnFamily, Region, RegionEpoch, WriteHeader};
use write_pipeline::parse::decode_batch;
use write_pipeline::peer::{size_limit_of, Config, Peer, Proposal, StoreContext};
use write_pipeline::proposals::take_channels_for;
use write_pipeline::request::WriteRequest;
use write_pipeline::write_op::WriteOp;

fn epoch() -> RegionEpoch {
    RegionEpoch { conf_ver: 1, version: 3 }
}

fn region() -> Region {
    Region { id: 7, epoch: epoch(), start_key: b"a".to_vec(), end_key: b"m".to_vec() }
}

fn header() -> WriteHeader {
    WriteHeader { region_id: 7, epoch: epoch(), term: 5, peer_id: 2 }
}

fn ctx() -> StoreContext {
    StoreContext { cfg: Config { raft_entry_max_size: 1000 } }
}

fn put(key: &[u8], value: &[u8]) -> WriteRequest {
    let mut req = WriteRequest::new();
    req.put(ColumnFamily::Default, key, value);
    req
}

fn put_op(key: &[u8], value: &[u8]) -> WriteOp {
    WriteOp::Put { cf: ColumnFamily::Default, key: key.to_vec(), value: value.to_vec() }
}

fn ch(id: u64) -> ResponseChannel {
    ResponseChannel::new(id)
}

fn proposed_ops(effect: &Effect) -> Vec<WriteOp> {
    match effect {
        Effect::Propose { data, .. } => decode_batch(data).expect("a payload").1,
        other => panic!("not a proposal: {:?}", other),
    }
}

#[test]
fn size_limit_is_two_fifths_of_the_largest_entry() {
    assert_eq!(size_limit_of(&Config { raft_entry_max_size: 1000 }), 400);
    assert_eq!(size_limit_of(&Config { raft_entry_max_size: 0 }), 0);
    assert_eq!(size_limit_of(&Config { raft_entry_max_size: 4 }), 1);
    assert_eq!(size_limit_of(&Config { raft_entry_max_size: 7 }), 2);
    assert_eq!(size_limit_of(&Config { raft_entry_max_size: 8 * 1024 * 1024 }), 3355443);
    let largest = (u64::MAX as u128 * 2 / 5) as u64;
    let expected = if largest > usize::MAX as u64 { usize::MAX } else { largest as usize };
    assert_eq!(size_limit_of(&Config { raft_entry_max_size: u64::MAX }), expected);
}

#[test]
fn new_peer_serves_and_holds_nothing() {
    let peer = Peer::new(region());
    assert!(peer.serving());
    assert!(!peer.has_ready());
    assert!(!peer.applied_to_current_term());
    assert!(peer.pending_writes().is_none());
    assert!(peer.effects().is_empty());
    assert_eq!(peer.region(), &region());
    assert_eq!(peer.proposal_control().check_conflict(), None);
    assert_eq!(peer.proposal_control().epoch(), epoch());
}

#[test]
fn first_request_starts_a_batch_and_nothing_is_proposed_yet() {
    let mut peer = Peer::new(region());
    peer.on_simple_write(&ctx(), header(), put(b"k1", b"v1"), ch(1));
    assert!(peer.has_ready());
    assert!(peer.effects().is_empty());
    let batch = peer.pending_writes().expect("a pending batch");
    assert_eq!(batch.header(), &header());
    assert_eq!(batch.size_limit(), 400);
    assert!(!batch.notify_proposed());
    assert_eq!(batch.channels(), &vec![ch(1)]);
    assert_eq!(batch.body().ops(), &vec![put_op(b"k1", b"v1")]);
}

#[test]
fn requests_under_one_header_share_a_batch_in_submission_order() {
    let mut peer = Peer::new(region());
    peer.on_simple_write(&ctx(), header(), put(b"k1", b"v1"), ch(1));
    peer.on_simple_write(&ctx(), header(), put(b"k2", b"v2"), ch(2));
    peer.on_simple_write(&ctx(), header(), put(b"k1", b"v3"), ch(3));
    assert!(peer.effects().is_empty());
    peer.propose_pending_writes(&ctx());
    assert!(peer.pending_writes().is_none());
    let effects = peer.take_effects();
    assert_eq!(effects.len(), 1);
    assert_eq!(
        proposed_ops(&effects[0]),
        vec![put_op(b"k1", b"v1"), put_op(b"k2", b"v2"), put_op(b"k1", b"v3")]
    );
    match &effects[0] {
        Effect::Propose { data, channels, call_proposed_on_success } => {
            assert_eq!(channels, &vec![ch(1), ch(2), ch(3)]);
            assert!(!*call_proposed_on_success);
            assert_eq!(decode_batch(data).unwrap().0, header());
        }
        _ => unreachable!(),
    }
    assert!(peer.effects().is_empty());
}

#[test]
fn flush_without_a_batch_does_nothing() {
    let mut peer = Peer::new(region());
    peer.propose_pending_writes(&ctx());
    assert!(peer.effects().is_empty());
    assert!(peer.pending_writes().is_none());
    assert!(!peer.has_ready());
}

#[test]
fn replica_that_does_not_serve_answers_at_once() {
    let mut peer = Peer::new(region());
    peer.on_simple_write(&ctx(), header(), put(b"k0", b"v0"), ch(1));
    peer.destroy();
    let _ = peer.take_effects();
    assert!(!peer.serving());
    peer.on_simple_write(&ctx(), header(), put(b"k1", b"v1"), ch(9));
    assert_eq!(
        peer.take_effects(),
        vec![Effect::ReportError { ch: ch(9), error: Error::RegionNotFound { region_id: 7 } }]
    );
    assert!(peer.pending_writes().is_none());
}

#[test]
fn stale_epoch_is_answered_and_leaves_the_batch_alone() {
    let mut peer = Peer::new(region());
    peer.on_simple_write(&ctx(), header(), put(b"k1", b"v1"), ch(1));
    let mut stale = header();
    stale.epoch.version = 2;
    peer.on_simple_write(&ctx(), stale, put(b"k2", b"v2"), ch(2));
    assert_eq!(
        peer.take_effects(),
        vec![Effect::ReportError {
            ch: ch(2),
            error: Error::EpochNotMatch { region_id: 7, current: epoch() },
        }]
    );
    let batch = peer.pending_writes().expect("the batch is still pending");
    assert_eq!(batch.channels(), &vec![ch(1)]);
    assert_eq!(batch.body().len(), 1);
}

#[test]
fn membership_version_alone_does_not_make_a_request_stale() {
    let mut peer = Peer::new(region());
    let mut h = header();
    h.epoch.conf_ver = 9;
    peer.on_simple_write(&ctx(), h, put(b"k1", b"v1"), ch(1));
    assert!(peer.effects().is_empty());
    assert!(peer.pending_writes().is_some());
}

#[test]
fn key_outside_the_partition_is_answered() {
    let mut peer = Peer::new(region());
    let mut req = WriteRequest::new();
    req.put(ColumnFamily::Default, b"b", b"1");
    req.delete(ColumnFamily::Default, b"x");
    req.put(ColumnFamily::Default, b"z", b"2");
    peer.on_simple_write(&ctx(), header(), req, ch(1));
    assert_eq!(
        peer.take_effects(),
        vec![Effect::ReportError {
            ch: ch(1),
            error: Error::KeyNotInRegion { key: b"x".to_vec(), region_id: 7 },
        }]
    );
    assert!(peer.pending_writes().is_none());
    assert!(!peer.has_ready());
}

#[test]
fn validation_passes_ranges_and_files_to_the_apply_side() {
    let peer = Peer::new(region());
    let mut req = WriteRequest::new();
    req.delete_range(ColumnFamily::Default, b"0", b"zzz", false);
    req.ingest(vec![]);
    assert_eq!(peer.validate_command(&header(), &req), Ok(()));
    req.put(ColumnFamily::Default, b"m", b"");
    assert_eq!(
        peer.validate_command(&header(), &req),
        Err(Error::KeyNotInRegion { key: b"m".to_vec(), region_id: 7 })
    );
}

#[test]
fn another_header_flushes_the_batch_first() {
    let mut peer = Peer::new(region());
    peer.on_simple_write(&ctx(), header(), put(b"k1", b"v1"), ch(1));
    let mut next_term = header();
    next_term.term = 6;
    peer.on_simple_write(&ctx(), next_term, put(b"k2", b"v2"), ch(2));
    let effects = peer.take_effects();
    assert_eq!(effects.len(), 1);
    assert_eq!(proposed_ops(&effects[0]), vec![put_op(b"k1", b"v1")]);
    let batch = peer.pending_writes().expect("the second request is pending");
    assert_eq!(batch.header(), &next_term);
    assert_eq!(batch.channels(), &vec![ch(2)]);
    assert_eq!(batch.body().ops(), &vec![put_op(b"k2", b"v2")]);
}

#[test]
fn batch_at_its_limit_is_flushed_before_more_is_taken() {
    // limit 400: header and count take 48, each put below takes 120
    let value = [7u8; 100];
    let mut peer = Peer::new(region());
    peer.on_simple_write(&ctx(), header(), put(b"k1", &value), ch(1));
    peer.on_simple_write(&ctx(), header(), put(b"k2", &value), ch(2));
    assert_eq!(peer.pending_writes().unwrap().data_size(), 48 + 2 * 120);
    assert!(peer.effects().is_empty());
    // a third put would make 408
    peer.on_simple_write(&ctx(), header(), put(b"k3", &value), ch(3));
    let effects = peer.take_effects();
    assert_eq!(effects.len(), 1);
    assert_eq!(proposed_ops(&effects[0]), vec![put_op(b"k1", &value), put_op(b"k2", &value)]);
    match &effects[0] {
        Effect::Propose { data, channels, .. } => {
            assert!(data.len() < 400);
            assert_eq!(channels, &vec![ch(1), ch(2)]);
        }
        _ => unreachable!(),
    }
    let batch = peer.pending_writes().unwrap();
    assert_eq!(batch.channels(), &vec![ch(3)]);
    assert_eq!(batch.body().ops(), &vec![put_op(b"k3", &value)]);
}

#[test]
fn request_that_lands_exactly_on_the_limit_does_not_join() {
    // 48 + 118 + x < 400 must hold to join
    let mut peer = Peer::new(region());
    peer.on_simple_write(&ctx(), header(), put(b"k", &[0u8; 99]), ch(1));
    assert_eq!(peer.pending_writes().unwrap().data_size(), 48 + 118);
    // 18 + 1 + 215 = 234: 166 + 234 = 400
    peer.on_simple_write(&ctx(), header(), put(b"j", &[0u8; 215]), ch(2));
    assert_eq!(peer.effects().len(), 1);
    assert_eq!(peer.pending_writes().unwrap().channels(), &vec![ch(2)]);

    let mut peer = Peer::new(region());
    peer.on_simple_write(&ctx(), header(), put(b"k", &[0u8; 99]), ch(1));
    // one byte less: 399
    peer.on_simple_write(&ctx(), header(), put(b"j", &[0u8; 214]), ch(2));
    assert!(peer.effects().is_empty());
    assert_eq!(peer.pending_writes().unwrap().data_size(), 399);
    assert_eq!(peer.pending_writes().unwrap().channels(), &vec![ch(1), ch(2)]);
}

#[test]
fn single_request_beyond_the_limit_still_gets_its_batch() {
    let mut peer = Peer::new(region());
    peer.on_simple_write(&ctx(), header(), put(b"k", &[1u8; 500]), ch(1));
    assert!(peer.effects().is_empty());
    assert_eq!(peer.pending_writes().unwrap().data_size(), 48 + 18 + 1 + 500);
    peer.on_simple_write(&ctx(), header(), put(b"j", b""), ch(2));
    let effects = peer.take_effects();
    assert_eq!(effects.len(), 1);
    assert_eq!(proposed_ops(&effects[0]), vec![put_op(b"k", &[1u8; 500])]);
    assert_eq!(peer.pending_writes().unwrap().channels(), &vec![ch(2)]);
}

#[test]
fn epoch_change_before_the_flush_rejects_the_whole_batch() {
    let mut peer = Peer::new(region());
    peer.on_simple_write(&ctx(), header(), put(b"k1", b"v1"), ch(1));
    peer.on_simple_write(&ctx(), header(), put(b"k2", b"v2"), ch(2));
    assert!(peer.effects().is_empty());
    // a boundary change moves the partition to the next version
    let moved = RegionEpoch { conf_ver: 1, version: 4 };
    peer.set_region(Region { epoch: moved, ..region() });
    peer.propose_pending_writes(&ctx());
    let error = || Error::EpochNotMatch { region_id: 7, current: moved };
    assert_eq!(
        peer.take_effects(),
        vec![
            Effect::ReportError { ch: ch(1), error: error() },
            Effect::ReportError { ch: ch(2), error: error() },
        ]
    );
    assert!(peer.pending_writes().is_none());
    // and a second flush has nothing left to say
    peer.propose_pending_writes(&ctx());
    assert!(peer.effects().is_empty());
}

#[test]
fn batch_whose_channels_were_told_is_proposed_without_a_second_look() {
    let mut peer = Peer::new(region());
    peer.set_applied_to_current_term(true);
    peer.on_simple_write(&ctx(), header(), put(b"k1", b"v1"), ch(1));
    peer.on_simple_write(&ctx(), header(), put(b"k2", b"v2"), ch(2));
    assert_eq!(
        peer.take_effects(),
        vec![Effect::NotifyProposed { channel: 1 }, Effect::NotifyProposed { channel: 2 }]
    );
    assert!(peer.pending_writes().unwrap().notify_proposed());
    peer.set_region(Region { epoch: RegionEpoch { conf_ver: 1, version: 4 }, ..region() });
    peer.propose_pending_writes(&ctx());
    let effects = peer.take_effects();
    assert_eq!(effects.len(), 1);
    match &effects[0] {
        Effect::Propose { channels, call_proposed_on_success, .. } => {
            assert_eq!(channels, &vec![ch(1), ch(2)]);
            assert!(!*call_proposed_on_success);
        }
        other => panic!("not a proposal: {:?}", other),
    }
}

#[test]
fn proposal_asks_for_the_notice_once_the_term_is_caught_up() {
    let mut peer = Peer::new(region());
    peer.on_simple_write(&ctx(), header(), put(b"k1", b"v1"), ch(1));
    peer.set_applied_to_current_term(true);
    peer.propose_pending_writes(&ctx());
    match &peer.take_effects()[0] {
        Effect::Propose { call_proposed_on_success, .. } => assert!(*call_proposed_on_success),
        other => panic!("not a proposal: {:?}", other),
    }
}

#[test]
fn pending_boundary_change_parks_the_channel() {
    let mut peer = Peer::new(region());
    peer.proposal_control_mut().record_boundary_change();
    assert_eq!(
        peer.proposal_control().check_conflict(),
        Some(ConflictMarker::BoundaryChangePending)
    );
    peer.on_simple_write(&ctx(), header(), put(b"k1", b"v1"), ch(1));
    peer.on_simple_write(&ctx(), header(), put(b"k2", b"v2"), ch(2));
    assert!(peer.effects().is_empty());
    assert!(peer.pending_writes().is_none());
    assert_eq!(peer.proposal_control().delayed_len(), 2);
    let redrive = peer.proposal_control_mut().resolve(RegionEpoch { conf_ver: 1, version: 4 });
    assert_eq!(redrive, vec![ch(1), ch(2)]);
    assert_eq!(peer.proposal_control().check_conflict(), None);
    assert_eq!(peer.proposal_control().delayed_len(), 0);
    assert_eq!(peer.proposal_control().epoch(), RegionEpoch { conf_ver: 1, version: 4 });
}

#[test]
fn earlier_batch_is_flushed_even_when_the_next_request_is_parked() {
    let mut peer = Peer::new(region());
    peer.on_simple_write(&ctx(), header(), put(b"k1", b"v1"), ch(1));
    peer.proposal_control_mut().record_boundary_change();
    let mut next_term = header();
    next_term.term = 6;
    peer.on_simple_write(&ctx(), next_term, put(b"k2", b"v2"), ch(2));
    let effects = peer.take_effects();
    assert_eq!(effects.len(), 1);
    assert_eq!(proposed_ops(&effects[0]), vec![put_op(b"k1", b"v1")]);
    assert!(peer.pending_writes().is_none());
    assert_eq!(peer.proposal_control().delayed_len(), 1);
}

#[test]
fn merge_refuses_the_request() {
    let refused = |ch: ResponseChannel| Effect::ReportError {
        ch,
        error: Error::ProposalInMergingMode { region_id: 7 },
    };
    let mut peer = Peer::new(region());
    peer.proposal_control_mut().record_prepare_merge();
    assert!(peer.proposal_control().has_pending_prepare_merge());
    assert!(!peer.proposal_control().is_merging());
    peer.on_simple_write(&ctx(), header(), put(b"k1", b"v1"), ch(1));
    assert_eq!(peer.take_effects(), vec![refused(ch(1))]);
    assert!(peer.pending_writes().is_none());

    peer.proposal_control_mut().enter_merging();
    assert!(!peer.proposal_control().has_pending_prepare_merge());
    assert!(peer.proposal_control().is_merging());
    peer.on_simple_write(&ctx(), header(), put(b"k1", b"v1"), ch(2));
    assert_eq!(peer.take_effects(), vec![refused(ch(2))]);
    assert_eq!(peer.proposal_control().delayed_len(), 0);

    // a boundary change that is proposed during a merge does not hide the merge
    peer.proposal_control_mut().record_boundary_change();
    assert_eq!(peer.proposal_control().check_conflict(), None);
    assert!(peer.proposal_control().is_merging());

    let _ = peer.proposal_control_mut().resolve(epoch());
    peer.on_simple_write(&ctx(), header(), put(b"k1", b"v1"), ch(3));
    assert!(peer.effects().is_empty());
    assert!(peer.pending_writes().is_some());
}

#[test]
fn boundary_change_takes_precedence_over_a_prepared_merge() {
    let mut peer = Peer::new(region());
    peer.proposal_control_mut().record_boundary_change();
    peer.proposal_control_mut().record_prepare_merge();
    peer.on_simple_write(&ctx(), header(), put(b"k1", b"v1"), ch(1));
    assert!(peer.effects().is_empty());
    assert_eq!(peer.proposal_control().delayed_len(), 1);
}

#[test]
fn unsafe_write_goes_to_the_apply_side_under_an_empty_header() {
    let mut peer = Peer::new(region());
    peer.set_apply_scheduler(true);
    peer.on_simple_write(&ctx(), header(), put(b"k0", b"v0"), ch(1));
    let mut req = WriteRequest::new();
    req.put(ColumnFamily::Default, b"zzz", b"out of range is not looked at");
    req.delete(ColumnFamily::Lock, b"k");
    peer.on_unsafe_write(&ctx(), req);
    let effects = peer.take_effects();
    assert_eq!(effects.len(), 1);
    match &effects[0] {
        Effect::UnsafeWrite { data } => {
            let (h, ops) = decode_batch(data).unwrap();
            assert_eq!(h, WriteHeader::empty());
            assert_eq!(
                ops,
                vec![
                    put_op(b"zzz", b"out of range is not looked at"),
                    WriteOp::Delete { cf: ColumnFamily::Lock, key: b"k".to_vec() },
                ]
            );
        }
        other => panic!("not an unlogged write: {:?}", other),
    }
    // the pending batch is not touched
    assert_eq!(peer.pending_writes().unwrap().channels(), &vec![ch(1)]);
}

#[test]
fn unsafe_write_is_dropped_without_scheduler_or_service() {
    let mut peer = Peer::new(region());
    peer.on_unsafe_write(&ctx(), put(b"k", b"v"));
    assert!(peer.effects().is_empty());
    peer.set_apply_scheduler(true);
    peer.destroy();
    peer.on_unsafe_write(&ctx(), put(b"k", b"v"));
    assert!(peer.effects().is_empty());
}

#[test]
fn refused_proposal_answers_each_channel_once() {
    let mut peer = Peer::new(region());
    peer.post_propose_command(
        Err(Error::ProposalDropped { region_id: 7 }),
        vec![ch(1), ch(2), ch(3)],
        true,
    );
    let dropped = |ch| Effect::ReportError { ch, error: Error::ProposalDropped { region_id: 7 } };
    assert_eq!(peer.take_effects(), vec![dropped(ch(1)), dropped(ch(2)), dropped(ch(3))]);
    assert!(peer.take_proposals().is_empty());
    assert!(!peer.has_ready());
}

#[test]
fn accepted_proposal_keeps_its_channels_for_the_entry() {
    let mut peer = Peer::new(region());
    peer.post_propose_command(Ok(11), vec![ch(1), ch(2)], true);
    peer.post_propose_command(Ok(12), vec![ch(3)], false);
    assert!(peer.has_ready());
    peer.reset_has_ready();
    assert!(!peer.has_ready());
    peer.set_has_ready();
    assert!(peer.has_ready());
    assert_eq!(
        peer.take_effects(),
        vec![Effect::NotifyProposed { channel: 1 }, Effect::NotifyProposed { channel: 2 }]
    );
    assert_eq!(
        peer.take_proposals(),
        vec![
            Proposal { index: 11, channels: vec![ch(1), ch(2)] },
            Proposal { index: 12, channels: vec![ch(3)] },
        ]
    );
    assert!(peer.take_proposals().is_empty());
}

#[test]
fn destroy_answers_every_channel_that_is_held() {
    let mut peer = Peer::new(region());
    peer.post_propose_command(Ok(11), vec![ch(1), ch(2)], false);
    peer.on_simple_write(&ctx(), header(), put(b"k1", b"v1"), ch(3));
    peer.on_simple_write(&ctx(), header(), put(b"k2", b"v2"), ch(4));
    peer.proposal_control_mut().record_boundary_change();
    let mut next_term = header();
    next_term.term = 6;
    // flushes the batch of 3 and 4 and parks 5
    peer.on_simple_write(&ctx(), next_term, put(b"k3", b"v3"), ch(5));
    let _ = peer.proposal_control_mut().resolve(epoch());
    peer.on_simple_write(&ctx(), next_term, put(b"k4", b"v4"), ch(6));
    peer.proposal_control_mut().record_boundary_change();
    peer.proposal_control_mut().delay_channel(ch(7));
    let before = peer.take_effects();
    assert_eq!(before.len(), 1);

    peer.destroy();
    let gone = |ch| Effect::ReportError { ch, error: Error::RegionNotFound { region_id: 7 } };
    assert_eq!(
        peer.take_effects(),
        vec![gone(ch(1)), gone(ch(2)), gone(ch(6)), gone(ch(7))]
    );
    assert!(!peer.serving());
    assert!(peer.pending_writes().is_none());
    assert!(peer.take_proposals().is_empty());
    assert_eq!(peer.proposal_control().delayed_len(), 0);
    // the marker is not for the peer to clear
    assert_eq!(
        peer.proposal_control().check_conflict(),
        Some(ConflictMarker::BoundaryChangePending)
    );
    peer.destroy();
    assert!(peer.effects().is_empty());
}

#[test]
fn every_submitted_channel_ends_in_exactly_one_place() {
    let mut peer = Peer::new(region());
    let mut stale = header();
    stale.epoch.version = 1;
    peer.on_simple_write(&ctx(), header(), put(b"k1", b"v1"), ch(1));
    peer.on_simple_write(&ctx(), stale, put(b"k2", b"v2"), ch(2));
    peer.on_simple_write(&ctx(), header(), put(b"zz", b"v3"), ch(3));
    peer.on_simple_write(&ctx(), header(), put(b"k4", b"v4"), ch(4));
    peer.propose_pending_writes(&ctx());
    peer.proposal_control_mut().record_boundary_change();
    peer.on_simple_write(&ctx(), header(), put(b"k5", b"v5"), ch(5));
    let mut seen: Vec<u64> = Vec::new();
    for effect in peer.take_effects() {
        match effect {
            Effect::ReportError { ch, .. } => seen.push(ch.id),
            Effect::Propose { channels, .. } => seen.extend(channels.iter().map(|c| c.id)),
            Effect::NotifyProposed { .. } | Effect::UnsafeWrite { .. } => {}
        }
    }
    seen.extend(peer.proposal_control_mut().take_delayed().iter().map(|c| c.id));
    seen.sort();
    assert_eq!(seen, vec![1, 2, 3, 4, 5]);
}

#[test]
fn commit_settles_the_proposals_up_to_its_index() {
    let proposal = |index, ids: &[u64]| Proposal {
        index,
        channels: ids.iter().map(|id| ch(*id)).collect(),
    };
    let mut queue = vec![
        proposal(11, &[1, 2]),
        proposal(12, &[3]),
        proposal(13, &[4, 5]),
        proposal(14, &[]),
        proposal(15, &[6]),
    ];
    let (committed, passed) = take_channels_for(&mut queue, 13);
    assert_eq!(committed, vec![ch(4), ch(5)]);
    assert_eq!(passed, vec![ch(1), ch(2), ch(3)]);
    assert_eq!(queue, vec![proposal(14, &[]), proposal(15, &[6])]);
    // an entry that was not proposed here
    let (committed, passed) = take_channels_for(&mut queue, 10);
    assert!(committed.is_empty() && passed.is_empty());
    assert_eq!(queue.len(), 2);
    let (committed, passed) = take_channels_for(&mut queue, 16);
    assert!(committed.is_empty());
    assert_eq!(passed, vec![ch(6)]);
    assert!(queue.is_empty());
}

#[test]
fn committed_entry_takes_its_channels_and_passed_proposals_are_answered() {
    let mut peer = Peer::new(region());
    peer.post_propose_command(Ok(11), vec![ch(1), ch(2)], false);
    peer.post_propose_command(Ok(12), vec![ch(3)], false);
    peer.post_propose_command(Ok(14), vec![ch(4)], false);
    // another leader's entry took index 11; ours at 12 is committed
    assert_eq!(peer.on_committed(12), vec![ch(3)]);
    let dropped = |ch| Effect::ReportError { ch, error: Error::ProposalDropped { region_id: 7 } };
    assert_eq!(peer.take_effects(), vec![dropped(ch(1)), dropped(ch(2))]);
    assert_eq!(peer.on_committed(13), vec![]);
    assert!(peer.effects().is_empty());
    assert_eq!(peer.on_committed(14), vec![ch(4)]);
    assert!(peer.take_proposals().is_empty());
}
