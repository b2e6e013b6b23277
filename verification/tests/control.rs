use write_pipeline::channel::ResponseChannel;
use write_pipeline::control::{ConflictMarker, ProposalControl};
use write_pipeline::effect::Effect;
use write_pipeline::errors::Error;
use write_pipeline::metadata::{ColumnFamily, Region, RegionEpoch, WriteHeader};
use write_pipeline::peer::{Config, Peer, StoreContext};
use write_pipeline::request::WriteRequest;

fn epoch() -> RegionEpoch {
    RegionEpoch { conf_ver: 2, version: 8 }
}

fn ch(id: u64) -> ResponseChannel {
    ResponseChannel::new(id)
}

#[test]
fn control_starts_without_conflict() {
    let control = ProposalControl::new(epoch());
    assert_eq!(control.epoch(), epoch());
    assert_eq!(control.check_conflict(), None);
    assert!(!control.has_pending_prepare_merge());
    assert!(!control.is_merging());
    assert_eq!(control.delayed_len(), 0);
}

#[test]
fn conflict_stays_until_it_is_resolved() {
    let mut control = ProposalControl::new(epoch());
    control.record_boundary_change();
    for id in 0..4 {
        assert_eq!(control.check_conflict(), Some(ConflictMarker::BoundaryChangePending));
        control.delay_channel(ch(id));
    }
    control.record_boundary_change();
    assert_eq!(control.check_conflict(), Some(ConflictMarker::BoundaryChangePending));
    assert_eq!(control.delayed_len(), 4);
    let next = RegionEpoch { conf_ver: 2, version: 9 };
    assert_eq!(control.resolve(next), vec![ch(0), ch(1), ch(2), ch(3)]);
    assert_eq!(control.check_conflict(), None);
    assert_eq!(control.epoch(), next);
    assert_eq!(control.delayed_len(), 0);
    assert_eq!(control.resolve(next), vec![]);
}

#[test]
fn merge_goes_from_prepared_to_merging_to_resolved() {
    let mut control = ProposalControl::new(epoch());
    control.record_prepare_merge();
    assert!(control.has_pending_prepare_merge());
    assert!(!control.is_merging());
    assert_eq!(control.check_conflict(), None);
    control.enter_merging();
    assert!(!control.has_pending_prepare_merge());
    assert!(control.is_merging());
    assert_eq!(control.check_conflict(), None);
    control.delay_channel(ch(1));
    assert_eq!(control.take_delayed(), vec![ch(1)]);
    assert!(control.is_merging());
    assert_eq!(control.resolve(epoch()), vec![]);
    assert!(!control.is_merging());
    assert!(!control.has_pending_prepare_merge());
}

#[test]
fn merge_replaces_a_pending_boundary_change() {
    let mut control = ProposalControl::new(epoch());
    control.record_boundary_change();
    control.enter_merging();
    assert_eq!(control.check_conflict(), None);
    assert!(control.is_merging());
}

#[test]
fn parked_request_is_driven_again_once_the_change_settles() {
    let before = RegionEpoch { conf_ver: 1, version: 3 };
    let after = RegionEpoch { conf_ver: 1, version: 4 };
    let region = |epoch| Region { id: 7, epoch, start_key: vec![], end_key: vec![] };
    let header = |epoch| WriteHeader { region_id: 7, epoch, term: 5, peer_id: 2 };
    let ctx = StoreContext { cfg: Config { raft_entry_max_size: 1000 } };
    let request = || {
        let mut req = WriteRequest::new();
        req.put(ColumnFamily::Default, b"k", b"v");
        req
    };
    let mut peer = Peer::new(region(before));
    peer.proposal_control_mut().record_boundary_change();
    peer.on_simple_write(&ctx, header(before), request(), ch(1));
    assert_eq!(peer.proposal_control().delayed_len(), 1);

    // the boundary change is applied
    peer.set_region(region(after));
    let parked = peer.proposal_control_mut().resolve(after);
    assert_eq!(parked, vec![ch(1)]);
    let mut parked = parked;
    peer.redrive_write(&ctx, header(before), request(), parked.pop().unwrap());
    assert!(peer.effects().is_empty());
    assert_eq!(peer.pending_writes().unwrap().channels(), &vec![ch(1)]);
    // the request still carries the old epoch: the flush finds it out
    peer.propose_pending_writes(&ctx);
    assert_eq!(
        peer.take_effects(),
        vec![Effect::ReportError {
            ch: ch(1),
            error: Error::EpochNotMatch { region_id: 7, current: after },
        }]
    );
}

#[test]
fn redriven_request_goes_behind_the_pending_batch() {
    let e = RegionEpoch { conf_ver: 1, version: 3 };
    let region = Region { id: 7, epoch: e, start_key: vec![], end_key: vec![] };
    let header = WriteHeader { region_id: 7, epoch: e, term: 5, peer_id: 2 };
    let ctx = StoreContext { cfg: Config { raft_entry_max_size: 1000 } };
    let request = |key: &[u8]| {
        let mut req = WriteRequest::new();
        req.put(ColumnFamily::Default, key, b"v");
        req
    };
    let mut peer = Peer::new(region);
    peer.on_simple_write(&ctx, header, request(b"first"), ch(1));
    peer.redrive_write(&ctx, header, request(b"second"), ch(2));
    let effects = peer.take_effects();
    assert_eq!(effects.len(), 1);
    match &effects[0] {
        Effect::Propose { channels, .. } => assert_eq!(channels, &vec![ch(1)]),
        other => panic!("not a proposal: {:?}", other),
    }
    assert_eq!(peer.pending_writes().unwrap().channels(), &vec![ch(2)]);
}
