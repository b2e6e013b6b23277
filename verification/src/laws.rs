//! Laws of the pipeline.
//!
//! Each law is stated over the values of the types and over the functions
//! that the contracts of the executable code are stated with, so that it
//! holds of every run of that code.

use vstd::prelude::*;
use crate::action::{ActionView, OutcomeView, outcome_of, reports};
use crate::apply::ApplyView;
use crate::batch::{WriteBatchView, batch_size, headers_match};
use crate::channel::ResponseChannel;
use crate::effect::{EffectView, notify_all, reject_all};
use crate::entries::CommittedEntryView;
use crate::errors::ErrorView;
use crate::keys::{NORMAL_REQ_CHECK_CONF_VER, NORMAL_REQ_CHECK_VER, epoch_stale};
use crate::metadata::WriteHeader;
use crate::apply_laws::extends;
use crate::peer::{PeerView, ProposalView, amendable, proposal_channels, validation_error};
use crate::proposals::{Standing, lemma_channels_push, picked};
use crate::roundtrip::lemma_enc_ops_concat;
use crate::size::ops_size;
use crate::wire::enc_batch;
use crate::write_op::WriteOpView;

verus! {

/// The channels that `effects` answer for good, in the order of the answers.
pub open spec fn answered(effects: Seq<EffectView>) -> Seq<ResponseChannel>
    decreases effects.len(),
{
    if effects.len() == 0 {
        Seq::empty()
    } else {
        answered(effects.drop_last()) + (match effects.last() {
            EffectView::ReportError { ch, error } => seq![ch],
            _ => Seq::empty(),
        })
    }
}

/// The channels that `effects` hand to the log together with a proposal.
pub open spec fn handed_on(effects: Seq<EffectView>) -> Seq<ResponseChannel>
    decreases effects.len(),
{
    if effects.len() == 0 {
        Seq::empty()
    } else {
        handed_on(effects.drop_last()) + (match effects.last() {
            EffectView::Propose { data, channels, call_proposed_on_success } => channels,
            _ => Seq::empty(),
        })
    }
}

/// The channels that `actions` answer for good, in the order of the answers.
pub open spec fn reported(actions: Seq<ActionView>) -> Seq<ResponseChannel>
    decreases actions.len(),
{
    if actions.len() == 0 {
        Seq::empty()
    } else {
        reported(actions.drop_last()) + (match actions.last() {
            ActionView::Report { ch, outcome } => seq![ch],
            _ => Seq::empty(),
        })
    }
}

/// The channels of `entries`, in order.
pub open spec fn entry_channels(entries: Seq<CommittedEntryView>) -> Seq<ResponseChannel>
    decreases entries.len(),
{
    if entries.len() == 0 {
        Seq::empty()
    } else {
        entries[0].channels + entry_channels(entries.drop_first())
    }
}

proof fn lemma_answered_concat(a: Seq<EffectView>, b: Seq<EffectView>)
    ensures
        answered(a + b) == answered(a) + answered(b),
    decreases b.len(),
{
    if b.len() == 0 {
        assert(a + b == a);
    } else {
        assert((a + b).drop_last() == a + b.drop_last());
        lemma_answered_concat(a, b.drop_last());
    }
}

proof fn lemma_handed_on_concat(a: Seq<EffectView>, b: Seq<EffectView>)
    ensures
        handed_on(a + b) == handed_on(a) + handed_on(b),
    decreases b.len(),
{
    if b.len() == 0 {
        assert(a + b == a);
    } else {
        assert((a + b).drop_last() == a + b.drop_last());
        lemma_handed_on_concat(a, b.drop_last());
    }
}

proof fn lemma_reported_concat(a: Seq<ActionView>, b: Seq<ActionView>)
    ensures
        reported(a + b) == reported(a) + reported(b),
    decreases b.len(),
{
    if b.len() == 0 {
        assert(a + b == a);
    } else {
        assert((a + b).drop_last() == a + b.drop_last());
        lemma_reported_concat(a, b.drop_last());
    }
}

/// Rejecting a list of channels answers each of them once, in order, and
/// hands none of them on.
pub proof fn lemma_reject_all_answers_each(channels: Seq<ResponseChannel>, error: ErrorView)
    ensures
        answered(reject_all(channels, error)) == channels,
        handed_on(reject_all(channels, error)) == Seq::<ResponseChannel>::empty(),
    decreases channels.len(),
{
    let all = reject_all(channels, error);
    if channels.len() > 0 {
        assert(all.drop_last() == reject_all(channels.drop_last(), error));
        lemma_reject_all_answers_each(channels.drop_last(), error);
        assert(channels == channels.drop_last() + seq![channels.last()]);
    }
}

/// A notice of proposal answers no channel for good.
proof fn lemma_notify_all_answers_none(channels: Seq<ResponseChannel>)
    ensures
        answered(notify_all(channels)) == Seq::<ResponseChannel>::empty(),
        handed_on(notify_all(channels)) == Seq::<ResponseChannel>::empty(),
    decreases channels.len(),
{
    let all = notify_all(channels);
    if channels.len() > 0 {
        assert(all.drop_last() == notify_all(channels.drop_last()));
        lemma_notify_all_answers_none(channels.drop_last());
    }
}

/// The answers to the channels of an entry answer each of them once, in
/// order.
pub proof fn lemma_reports_answer_each(channels: Seq<ResponseChannel>, outcome: OutcomeView)
    ensures
        reported(reports(channels, outcome)) == channels,
    decreases channels.len(),
{
    let all = reports(channels, outcome);
    if channels.len() > 0 {
        assert(all.drop_last() == reports(channels.drop_last(), outcome));
        lemma_reports_answer_each(channels.drop_last(), outcome);
        assert(channels == channels.drop_last() + seq![channels.last()]);
    }
}

/// What a flush adds to the effects of `peer`.
pub open spec fn flush_effects(peer: PeerView) -> Seq<EffectView> {
    peer.flushed().effects.skip(peer.effects.len() as int)
}

/// Flushing accounts for every channel of the batch exactly once: either
/// each channel is answered with the epoch mismatch and none travels on, or
/// all of them travel with the one proposal and none is answered yet. No
/// channel stays behind with the peer.
pub proof fn law_flush_accounts_for_each_channel(peer: PeerView)
    requires
        peer.pending is Some,
    ensures
        peer.flushed().pending is None,
        peer.flushed().effects == peer.effects + flush_effects(peer),
        answered(flush_effects(peer)) + handed_on(flush_effects(peer))
            == peer.pending.unwrap().channels,
        answered(flush_effects(peer)).len() == 0 || handed_on(flush_effects(peer)).len() == 0,
        answered(flush_effects(peer)).len() + handed_on(flush_effects(peer)).len()
            == peer.pending.unwrap().channels.len(),
{
    let batch = peer.pending.unwrap();
    let added = flush_effects(peer);
    if !batch.notify_proposed && epoch_stale(
        batch.header.epoch,
        peer.region.epoch,
        NORMAL_REQ_CHECK_CONF_VER,
        NORMAL_REQ_CHECK_VER,
    ) {
        let error = ErrorView::EpochNotMatch {
            region_id: peer.region.id,
            current: peer.region.epoch,
        };
        assert(added == reject_all(batch.channels, error));
        lemma_reject_all_answers_each(batch.channels, error);
    } else {
        let proposal = EffectView::Propose {
            data: enc_batch(batch.header, batch.ops),
            channels: batch.channels,
            call_proposed_on_success: !batch.notify_proposed && peer.applied_to_current_term,
        };
        assert(added == seq![proposal]);
        assert(added.drop_last() == Seq::<EffectView>::empty());
        assert(added.last() == proposal);
        assert(answered(Seq::<EffectView>::empty()) == Seq::<ResponseChannel>::empty());
        assert(handed_on(Seq::<EffectView>::empty()) == Seq::<ResponseChannel>::empty());
        assert(answered(added) == Seq::<ResponseChannel>::empty());
        assert(handed_on(added) == batch.channels);
    }
}

/// A proposal that the log refuses is answered on each of its channels once;
/// one that it accepts keeps all of them, unanswered, for the entry.
pub proof fn law_proposal_accounts_for_each_channel(
    peer: PeerView,
    res: Result<u64, ErrorView>,
    channels: Seq<ResponseChannel>,
    call_proposed_on_success: bool,
)
    ensures
        ({
            let after = peer.proposed(res, channels, call_proposed_on_success);
            let added = after.effects.skip(peer.effects.len() as int);
            &&& after.effects == peer.effects + added
            &&& res is Err ==> answered(added) == channels && after.proposals == peer.proposals
            &&& res is Ok ==> answered(added).len() == 0 && after.proposals
                == peer.proposals.push(
                crate::peer::ProposalView { index: res->Ok_0, channels },
            )
        }),
{
    let after = peer.proposed(res, channels, call_proposed_on_success);
    let added = after.effects.skip(peer.effects.len() as int);
    match res {
        Err(error) => {
            assert(added == reject_all(channels, error));
            lemma_reject_all_answers_each(channels, error);
        },
        Ok(index) => {
            if call_proposed_on_success {
                assert(added == notify_all(channels));
                lemma_notify_all_answers_none(channels);
            } else {
                assert(added == Seq::<EffectView>::empty());
            }
        },
    }
}

/// Destroying a peer answers every channel that it holds once, and leaves it
/// with none.
pub proof fn law_destroy_answers_each_channel(peer: PeerView)
    ensures
        ({
            let after = peer.destroyed();
            let added = after.effects.skip(peer.effects.len() as int);
            &&& after.effects == peer.effects + added
            &&& answered(added) == peer.outstanding()
            &&& after.outstanding().len() == 0
        }),
{
    let after = peer.destroyed();
    let added = after.effects.skip(peer.effects.len() as int);
    let error = ErrorView::RegionNotFound { region_id: peer.region.id };
    assert(added == reject_all(peer.outstanding(), error));
    lemma_reject_all_answers_each(peer.outstanding(), error);
    assert(crate::peer::proposal_channels(after.proposals) == Seq::<ResponseChannel>::empty());
}

/// A commit accounts for every channel of every proposal: each channel
/// travels with the entry, is answered because the log has passed its
/// proposal, or stays with a proposal whose entry is still to come.
pub proof fn law_commit_accounts_for_each_channel(peer: PeerView, index: u64)
    ensures
        ({
            let after = peer.committed(index);
            let added = after.effects.skip(peer.effects.len() as int);
            let travelling = proposal_channels(picked(peer.proposals, index, Standing::Committed));
            &&& after.effects == peer.effects + added
            &&& answered(added) == proposal_channels(
                picked(peer.proposals, index, Standing::Passed),
            )
            &&& handed_on(added).len() == 0
            &&& travelling.len() + answered(added).len() + proposal_channels(
                after.proposals,
            ).len() == proposal_channels(peer.proposals).len()
        }),
{
    let after = peer.committed(index);
    let added = after.effects.skip(peer.effects.len() as int);
    let passed = proposal_channels(picked(peer.proposals, index, Standing::Passed));
    let error = ErrorView::ProposalDropped { region_id: peer.region.id };
    assert(added == reject_all(passed, error));
    lemma_reject_all_answers_each(passed, error);
    lemma_picked_channels_add_up(peer.proposals, index);
}

/// The channels of a queue are those of its three parts, counted together.
proof fn lemma_picked_channels_add_up(queue: Seq<ProposalView>, index: u64)
    ensures
        proposal_channels(picked(queue, index, Standing::Committed)).len() + proposal_channels(
            picked(queue, index, Standing::Passed),
        ).len() + proposal_channels(picked(queue, index, Standing::Waiting)).len()
            == proposal_channels(queue).len(),
    decreases queue.len(),
{
    if queue.len() > 0 {
        let rest = queue.drop_last();
        lemma_picked_channels_add_up(rest, index);
        lemma_channels_push(picked(rest, index, Standing::Committed), queue.last());
        lemma_channels_push(picked(rest, index, Standing::Passed), queue.last());
        lemma_channels_push(picked(rest, index, Standing::Waiting), queue.last());
    }
}

/// A run of entries that ends without a fatal condition owes one answer to
/// each channel of each entry, in the order of the entries.
pub proof fn law_run_answers_each_channel(state: ApplyView, entries: Seq<CommittedEntryView>)
    requires
        state.run(entries).fatal is None,
    ensures
        reported(state.run(entries).reports) == entry_channels(entries),
        reported(state.run(entries).reports).len() == entry_channels(entries).len(),
    decreases entries.len(),
{
    if entries.len() > 0 {
        let step = state.entry(entries[0].index, entries[0].data).unwrap();
        let rest = step.state.run(entries.drop_first());
        let mine = reports(entries[0].channels, outcome_of(step.error));
        law_run_answers_each_channel(step.state, entries.drop_first());
        lemma_reports_answer_each(entries[0].channels, outcome_of(step.error));
        lemma_reported_concat(mine, rest.reports);
    }
}

/// With the operations `ops` behind its own, the pending batch of `peer`
/// would reach its limit.
pub open spec fn over_limit(peer: PeerView, ops: Seq<WriteOpView>) -> bool {
    peer.pending matches Some(batch) && batch_size(batch.ops) + ops_size(ops) >= batch.size_limit
}

/// A pending batch that holds more than one request is under its limit.
pub open spec fn within_limit(peer: PeerView) -> bool {
    peer.pending matches Some(batch) ==> batch.channels.len() <= 1 || batch_size(batch.ops)
        < batch.size_limit
}

/// How many channels the effects of `peer` have answered or handed to the
/// log, and how many `peer` holds.
pub open spec fn accounted(peer: PeerView) -> nat {
    answered(peer.effects).len() + handed_on(peer.effects).len() + peer.outstanding().len()
}

/// A request joins the pending batch only under a header of the same
/// partition, epoch and term, and only while the batch stays under its
/// limit. It then stands behind the requests that are there, which keep
/// their order, and nothing else changes.
pub proof fn law_amend_keeps_order(
    peer: PeerView,
    size_limit: usize,
    header: WriteHeader,
    ops: Seq<WriteOpView>,
    ch: ResponseChannel,
)
    requires
        peer.serving,
        peer.pending is Some,
    ensures
        ({
            let batch = peer.pending.unwrap();
            let after = peer.submitted(size_limit, header, ops, ch);
            &&& !headers_match(batch.header, header) ==> !amendable(peer.pending, header, ops)
            &&& over_limit(peer, ops) ==> !amendable(peer.pending, header, ops)
            &&& headers_match(batch.header, header) && !over_limit(peer, ops) ==> amendable(
                peer.pending,
                header,
                ops,
            )
            &&& amendable(peer.pending, header, ops) ==> {
                &&& after.pending is Some
                &&& after.pending.unwrap().header == batch.header
                &&& after.pending.unwrap().ops == batch.ops + ops
                &&& after.pending.unwrap().ops.take(batch.ops.len() as int) == batch.ops
                &&& after.pending.unwrap().channels == batch.channels.push(ch)
                &&& handed_on(after.effects) == handed_on(peer.effects)
                &&& answered(after.effects) == answered(peer.effects)
            }
        }),
{
    let batch = peer.pending.unwrap();
    let after = peer.submitted(size_limit, header, ops, ch);
    if amendable(peer.pending, header, ops) {
        assert((batch.ops + ops).take(batch.ops.len() as int) == batch.ops);
        if batch.notify_proposed {
            assert(after.effects.drop_last() == peer.effects);
        }
    }
}

/// Once a request would take the pending batch to its limit, the batch is
/// flushed before anything more is taken: the request is either turned down
/// and the batch left as it is, or the batch is flushed first and the
/// request is held against proposal control on its own.
pub proof fn law_full_batch_is_flushed_first(
    peer: PeerView,
    size_limit: usize,
    header: WriteHeader,
    ops: Seq<WriteOpView>,
    ch: ResponseChannel,
)
    requires
        peer.serving,
        over_limit(peer, ops),
    ensures
        ({
            let after = peer.submitted(size_limit, header, ops, ch);
            &&& validation_error(peer.region, header, ops) is Some ==> after.pending
                == peer.pending
            &&& validation_error(peer.region, header, ops) is None ==> {
                &&& after == peer.flushed().routed(size_limit, header, ops, ch)
                &&& extends(after.effects, peer.flushed().effects)
                &&& after.pending matches Some(started) ==> started.ops == ops
                    && started.channels == seq![ch]
            }
        }),
{
    let flushed = peer.flushed();
    let after = flushed.routed(size_limit, header, ops, ch);
    assert(after.effects.take(flushed.effects.len() as int) == flushed.effects);
}

/// An earlier batch is never proposed after a later one. Effects are only
/// ever put behind those that are there, and whenever a request starts a
/// new pending batch, the batch that was pending has been flushed: its
/// proposal, if it is proposed at all, stands in the effects already.
pub proof fn law_earlier_batch_goes_first(
    peer: PeerView,
    size_limit: usize,
    header: WriteHeader,
    ops: Seq<WriteOpView>,
    ch: ResponseChannel,
)
    ensures
        ({
            let after = peer.submitted(size_limit, header, ops, ch);
            &&& extends(after.effects, peer.effects)
            &&& extends(peer.flushed().effects, peer.effects)
            &&& after.proposals == peer.proposals
            &&& peer.pending matches Some(batch) ==> {
                ||| after.pending == Some(
                    WriteBatchView {
                        ops: batch.ops + ops,
                        channels: batch.channels.push(ch),
                        ..batch
                    },
                )
                ||| after.pending == peer.pending
                ||| extends(after.effects, peer.flushed().effects) && (after.pending is None
                    || after.pending.unwrap().ops == ops)
            }
        }),
{
    let flushed = peer.flushed();
    let after = peer.submitted(size_limit, header, ops, ch);
    assert(flushed.effects.take(peer.effects.len() as int) == peer.effects);
    assert(after.effects.take(peer.effects.len() as int) == peer.effects);
    if peer.serving && !amendable(peer.pending, header, ops) && validation_error(
        peer.region,
        header,
        ops,
    ) is None {
        assert(after.effects.take(flushed.effects.len() as int) == flushed.effects);
    }
}

/// While a boundary change is pending or a merge is under way, no request
/// starts a batch. During a boundary change the channel of a valid request
/// is parked, not dropped; during a merge it is answered with
/// `ProposalInMergingMode`.
pub proof fn law_conflict_blocks_new_batches(
    peer: PeerView,
    size_limit: usize,
    header: WriteHeader,
    ops: Seq<WriteOpView>,
    ch: ResponseChannel,
)
    requires
        peer.serving,
        !amendable(peer.pending, header, ops),
        !peer.control.admits_proposals(),
    ensures
        ({
            let after = peer.submitted(size_limit, header, ops, ch);
            let valid = validation_error(peer.region, header, ops) is None;
            &&& after.pending is None || after.pending == peer.pending
            &&& after.control.marker == peer.control.marker
            &&& after.control.pending_prepare_merge == peer.control.pending_prepare_merge
            &&& valid && peer.control.has_conflict() ==> after.control.delayed
                == peer.control.delayed.push(ch) && after.effects == peer.flushed().effects
            &&& valid && !peer.control.has_conflict() ==> after.control.delayed
                == peer.control.delayed && after.effects.last() == (EffectView::ReportError {
                ch,
                error: ErrorView::ProposalInMergingMode { region_id: peer.region.id },
            })
        }),
{
}

/// A pending batch that holds more than one request is under its limit, and
/// stays so whatever is submitted.
pub proof fn law_pending_batch_stays_within_limit(
    peer: PeerView,
    size_limit: usize,
    header: WriteHeader,
    ops: Seq<WriteOpView>,
    ch: ResponseChannel,
)
    requires
        within_limit(peer),
    ensures
        within_limit(peer.submitted(size_limit, header, ops, ch)),
        within_limit(peer.flushed()),
{
    if peer.serving && amendable(peer.pending, header, ops) {
        lemma_enc_ops_concat(peer.pending.unwrap().ops, ops);
    }
}

/// Submitting a request adds exactly one channel to those that are answered,
/// handed on or held: the channel of the request is in one place, and no
/// other channel is lost or doubled.
pub proof fn law_submission_accounts_for_the_channel(
    peer: PeerView,
    size_limit: usize,
    header: WriteHeader,
    ops: Seq<WriteOpView>,
    ch: ResponseChannel,
)
    ensures
        accounted(peer.submitted(size_limit, header, ops, ch)) == accounted(peer) + 1,
        accounted(peer.flushed()) == accounted(peer),
{
    lemma_flush_keeps_account(peer);
    let after = peer.submitted(size_limit, header, ops, ch);
    if !peer.serving {
        lemma_emit_account(peer.effects, after.effects.last());
    } else if amendable(peer.pending, header, ops) {
        let batch = peer.pending.unwrap();
        if batch.notify_proposed {
            lemma_emit_account(
                peer.effects,
                EffectView::NotifyProposed { channel: ch.id },
            );
        }
    } else {
        match validation_error(peer.region, header, ops) {
            Some(error) => {
                lemma_emit_account(peer.effects, EffectView::ReportError { ch, error });
            },
            None => {
                let flushed = peer.flushed();
                if flushed.control.has_conflict() {
                } else if flushed.control.in_merge() {
                    lemma_emit_account(flushed.effects, after.effects.last());
                } else {
                    if flushed.applied_to_current_term {
                        lemma_emit_account(
                            flushed.effects,
                            EffectView::NotifyProposed { channel: ch.id },
                        );
                    }
                }
            },
        }
    }
}

proof fn lemma_emit_account(effects: Seq<EffectView>, effect: EffectView)
    ensures
        answered(effects.push(effect)) == answered(effects) + (match effect {
            EffectView::ReportError { ch, error } => seq![ch],
            _ => Seq::empty(),
        }),
        handed_on(effects.push(effect)) == handed_on(effects) + (match effect {
            EffectView::Propose { data, channels, call_proposed_on_success } => channels,
            _ => Seq::empty(),
        }),
{
    assert(effects.push(effect).drop_last() == effects);
}

proof fn lemma_flush_keeps_account(peer: PeerView)
    ensures
        accounted(peer.flushed()) == accounted(peer),
        peer.flushed().proposals == peer.proposals,
        peer.flushed().control == peer.control,
{
    if peer.pending is Some {
        law_flush_accounts_for_each_channel(peer);
        lemma_answered_concat(peer.effects, flush_effects(peer));
        lemma_handed_on_concat(peer.effects, flush_effects(peer));
    }
}

} // verus!
