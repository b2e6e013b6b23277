//! Write submission: the leader side of the pipeline.
//!
//! Requests are gathered into a pending batch while they share a header and
//! the batch stays small; otherwise the pending batch is flushed first, so
//! that an earlier batch is never proposed after a later one.

use vstd::prelude::*;
use crate::batch::{WriteBatch, WriteBatchView, batch_size, headers_match};
use crate::channel::ResponseChannel;
use crate::control::{ProposalControl, ProposalControlView};
use crate::effect::{Effect, EffectView, effect_views, emit, notify_all, reject_all, report_all};
use crate::errors::{Error, ErrorView};
use crate::keys::{
    NORMAL_REQ_CHECK_CONF_VER,
    NORMAL_REQ_CHECK_VER,
    check_key_in_region,
    compare_region_epoch,
    epoch_stale,
    key_in_range,
};
use crate::metadata::{Region, RegionView, WriteHeader};
use crate::proposals::{Standing, picked, take_channels_for};
use crate::request::WriteRequest;
use crate::size::{ops_size, sat};
use crate::wire::enc_batch;
use crate::write_op::{WriteOp, WriteOpView, op_views};

verus! {

/// A batch may fill two fifths of the largest log entry: this is the
/// numerator of that fraction.
pub const MAX_PROPOSAL_SIZE_NUM: u64 = 2;

/// The denominator of the fraction of the largest log entry that a batch may
/// fill.
pub const MAX_PROPOSAL_SIZE_DEN: u64 = 5;

/// What is configured for the store.
pub struct Config {
    /// Largest payload that the log takes as one entry.
    pub raft_entry_max_size: u64,
}

/// What the replicas of one store share.
pub struct StoreContext {
    pub cfg: Config,
}

/// The size that a pending batch has to stay under.
pub open spec fn proposal_size_limit(raft_entry_max_size: u64) -> usize {
    sat(raft_entry_max_size * MAX_PROPOSAL_SIZE_NUM / (MAX_PROPOSAL_SIZE_DEN as int))
}

/// The key that makes an operation subject to the range check at submission.
pub open spec fn checked_key(op: WriteOpView) -> Option<Seq<u8>> {
    match op {
        WriteOpView::Put { cf, key, value } => Some(key),
        WriteOpView::Delete { cf, key } => Some(key),
        _ => None,
    }
}

/// The first key among `ops` that lies outside `[start, end)`.
pub open spec fn first_stray_key(ops: Seq<WriteOpView>, start: Seq<u8>, end: Seq<u8>) -> Option<
    Seq<u8>,
>
    decreases ops.len(),
{
    if ops.len() == 0 {
        None
    } else {
        match checked_key(ops[0]) {
            Some(key) => if key_in_range(key, start, end) {
                first_stray_key(ops.drop_first(), start, end)
            } else {
                Some(key)
            },
            None => first_stray_key(ops.drop_first(), start, end),
        }
    }
}

/// Why a request is turned down when it is held against the partition: its
/// epoch is stale, or one of its keys lies outside the partition.
pub open spec fn validation_error(
    region: RegionView,
    header: WriteHeader,
    ops: Seq<WriteOpView>,
) -> Option<ErrorView> {
    if epoch_stale(
        header.epoch,
        region.epoch,
        NORMAL_REQ_CHECK_CONF_VER,
        NORMAL_REQ_CHECK_VER,
    ) {
        Some(ErrorView::EpochNotMatch { region_id: region.id, current: region.epoch })
    } else {
        match first_stray_key(ops, region.start_key, region.end_key) {
            Some(key) => Some(ErrorView::KeyNotInRegion { key, region_id: region.id }),
            None => None,
        }
    }
}

/// The request can join the pending batch.
pub open spec fn amendable(
    pending: Option<WriteBatchView>,
    header: WriteHeader,
    ops: Seq<WriteOpView>,
) -> bool {
    pending matches Some(batch) && headers_match(batch.header, header) && batch_size(batch.ops)
        + ops_size(ops) < batch.size_limit
}

/// A batch that the log has accepted at `index`, with the channels to answer
/// once the entry is applied.
#[derive(Debug, PartialEq, Eq)]
pub struct Proposal {
    pub index: u64,
    pub channels: Vec<ResponseChannel>,
}

/// Mathematical value of a [`Proposal`].
pub struct ProposalView {
    pub index: u64,
    pub channels: Seq<ResponseChannel>,
}

impl View for Proposal {
    type V = ProposalView;

    open spec fn view(&self) -> ProposalView {
        ProposalView { index: self.index, channels: self.channels@ }
    }
}

/// The values of a list of proposals, in order.
pub open spec fn proposal_views(proposals: Seq<Proposal>) -> Seq<ProposalView> {
    proposals.map_values(|p: Proposal| p@)
}

/// The channels of `proposals`, in order.
pub open spec fn proposal_channels(proposals: Seq<ProposalView>) -> Seq<ResponseChannel>
    decreases proposals.len(),
{
    if proposals.len() == 0 {
        Seq::empty()
    } else {
        proposal_channels(proposals.drop_last()) + proposals.last().channels
    }
}

/// The replica of one partition, as far as write submission is concerned.
pub struct Peer {
    region: Region,
    serving: bool,
    applied_to_current_term: bool,
    has_ready: bool,
    has_apply_scheduler: bool,
    proposal_control: ProposalControl,
    pending: Option<WriteBatch>,
    proposals: Vec<Proposal>,
    effects: Vec<Effect>,
}

/// Mathematical value of a [`Peer`].
pub struct PeerView {
    pub region: RegionView,
    pub serving: bool,
    pub applied_to_current_term: bool,
    pub has_ready: bool,
    pub has_apply_scheduler: bool,
    pub control: ProposalControlView,
    /// The batch that gathers requests and is not proposed yet.
    pub pending: Option<WriteBatchView>,
    /// The batches that the log has accepted, oldest first.
    pub proposals: Seq<ProposalView>,
    /// What is left to be carried out, oldest first.
    pub effects: Seq<EffectView>,
}

impl PeerView {
    /// The peer once `effect` is asked for.
    pub open spec fn emit(self, effect: EffectView) -> PeerView {
        PeerView { effects: self.effects.push(effect), ..self }
    }

    /// The peer once its pending batch is flushed.
    ///
    /// A batch whose channels were told of the proposal when they joined has
    /// passed the conflict check then and is proposed as it is. Any other
    /// batch is held against the partition's epoch once more: if the epoch
    /// moved on, every channel of the batch is answered with the mismatch and
    /// nothing is proposed.
    pub open spec fn flushed(self) -> PeerView {
        match self.pending {
            None => self,
            Some(batch) => if !batch.notify_proposed && epoch_stale(
                batch.header.epoch,
                self.region.epoch,
                NORMAL_REQ_CHECK_CONF_VER,
                NORMAL_REQ_CHECK_VER,
            ) {
                PeerView {
                    pending: None,
                    effects: self.effects + reject_all(
                        batch.channels,
                        ErrorView::EpochNotMatch {
                            region_id: self.region.id,
                            current: self.region.epoch,
                        },
                    ),
                    ..self
                }
            } else {
                PeerView {
                    pending: None,
                    effects: self.effects.push(
                        EffectView::Propose {
                            data: enc_batch(batch.header, batch.ops),
                            channels: batch.channels,
                            call_proposed_on_success: !batch.notify_proposed
                                && self.applied_to_current_term,
                        },
                    ),
                    ..self
                }
            },
        }
    }

    /// The peer once the request is held against proposal control: parked
    /// while a boundary change is pending, refused during a merge, and the
    /// first request of a new pending batch otherwise.
    pub open spec fn routed(
        self,
        size_limit: usize,
        header: WriteHeader,
        ops: Seq<WriteOpView>,
        ch: ResponseChannel,
    ) -> PeerView {
        if self.control.has_conflict() {
            PeerView {
                control: ProposalControlView {
                    delayed: self.control.delayed.push(ch),
                    ..self.control
                },
                ..self
            }
        } else if self.control.in_merge() {
            self.emit(
                EffectView::ReportError {
                    ch,
                    error: ErrorView::ProposalInMergingMode { region_id: self.region.id },
                },
            )
        } else {
            PeerView {
                pending: Some(
                    WriteBatchView {
                        header,
                        ops,
                        channels: seq![ch],
                        size_limit,
                        notify_proposed: self.applied_to_current_term,
                    },
                ),
                has_ready: true,
                effects: if self.applied_to_current_term {
                    self.effects.push(EffectView::NotifyProposed { channel: ch.id })
                } else {
                    self.effects
                },
                ..self
            }
        }
    }

    /// The peer once it has taken the request in.
    pub open spec fn submitted(
        self,
        size_limit: usize,
        header: WriteHeader,
        ops: Seq<WriteOpView>,
        ch: ResponseChannel,
    ) -> PeerView {
        if !self.serving {
            self.emit(
                EffectView::ReportError {
                    ch,
                    error: ErrorView::RegionNotFound { region_id: self.region.id },
                },
            )
        } else if amendable(self.pending, header, ops) {
            let batch = self.pending.unwrap();
            PeerView {
                pending: Some(
                    WriteBatchView {
                        ops: batch.ops + ops,
                        channels: batch.channels.push(ch),
                        ..batch
                    },
                ),
                has_ready: true,
                effects: if batch.notify_proposed {
                    self.effects.push(EffectView::NotifyProposed { channel: ch.id })
                } else {
                    self.effects
                },
                ..self
            }
        } else {
            match validation_error(self.region, header, ops) {
                Some(error) => self.emit(EffectView::ReportError { ch, error }),
                None => self.flushed().routed(size_limit, header, ops, ch),
            }
        }
    }

    /// The peer once the log has answered a proposal with `res`: the index of
    /// the entry, or the reason for which it refused.
    pub open spec fn proposed(
        self,
        res: Result<u64, ErrorView>,
        channels: Seq<ResponseChannel>,
        call_proposed_on_success: bool,
    ) -> PeerView {
        match res {
            Err(error) => PeerView { effects: self.effects + reject_all(channels, error), ..self },
            Ok(index) => PeerView {
                proposals: self.proposals.push(ProposalView { index, channels }),
                has_ready: true,
                effects: if call_proposed_on_success {
                    self.effects + notify_all(channels)
                } else {
                    self.effects
                },
                ..self
            },
        }
    }

    /// The peer once the log has committed the entry at `index`: the
    /// proposal at `index` leaves with its channels, every proposal that the
    /// log has passed is answered with `ProposalDropped`, and the proposals
    /// whose entries are still to come stay.
    pub open spec fn committed(self, index: u64) -> PeerView {
        PeerView {
            proposals: picked(self.proposals, index, Standing::Waiting),
            effects: self.effects + reject_all(
                proposal_channels(picked(self.proposals, index, Standing::Passed)),
                ErrorView::ProposalDropped { region_id: self.region.id },
            ),
            ..self
        }
    }

    /// The channels that the peer holds: those of the batches that the log
    /// has accepted, those of the pending batch, and those that wait for a
    /// boundary change.
    pub open spec fn outstanding(self) -> Seq<ResponseChannel> {
        proposal_channels(self.proposals) + (match self.pending {
            Some(batch) => batch.channels,
            None => Seq::empty(),
        }) + self.control.delayed
    }

    /// The peer once it is destroyed: it serves no more, and every channel it
    /// held is answered with `RegionNotFound`.
    pub open spec fn destroyed(self) -> PeerView {
        PeerView {
            serving: false,
            pending: None,
            proposals: Seq::empty(),
            control: ProposalControlView { delayed: Seq::empty(), ..self.control },
            effects: self.effects + reject_all(
                self.outstanding(),
                ErrorView::RegionNotFound { region_id: self.region.id },
            ),
            ..self
        }
    }

    /// The peer once it has taken in a write that goes past the log.
    pub open spec fn unsafe_written(self, ops: Seq<WriteOpView>) -> PeerView {
        if self.serving && self.has_apply_scheduler {
            self.emit(EffectView::UnsafeWrite { data: enc_batch(WriteHeader::empty_spec(), ops) })
        } else {
            self
        }
    }
}

impl View for Peer {
    type V = PeerView;

    closed spec fn view(&self) -> PeerView {
        PeerView {
            region: self.region@,
            serving: self.serving,
            applied_to_current_term: self.applied_to_current_term,
            has_ready: self.has_ready,
            has_apply_scheduler: self.has_apply_scheduler,
            control: self.proposal_control@,
            pending: match self.pending {
                Some(batch) => Some(batch@),
                None => None,
            },
            proposals: proposal_views(self.proposals@),
            effects: effect_views(self.effects@),
        }
    }
}

/// The limit for a pending batch under the configuration `cfg`.
pub fn size_limit_of(cfg: &Config) -> (limit: usize)
    ensures
        limit == proposal_size_limit(cfg.raft_entry_max_size),
{
    let max = cfg.raft_entry_max_size;
    let limit: u64 = max / MAX_PROPOSAL_SIZE_DEN * MAX_PROPOSAL_SIZE_NUM + max
        % MAX_PROPOSAL_SIZE_DEN * MAX_PROPOSAL_SIZE_NUM / MAX_PROPOSAL_SIZE_DEN;
    if limit > usize::MAX as u64 {
        usize::MAX
    } else {
        limit as usize
    }
}

impl Peer {
    /// A serving replica of `region` with nothing pending. It has not applied
    /// an entry of its term yet and has no apply scheduler.
    pub fn new(region: Region) -> (peer: Peer)
        ensures
            peer@ == (PeerView {
                region: region@,
                serving: true,
                applied_to_current_term: false,
                has_ready: false,
                has_apply_scheduler: false,
                control: ProposalControlView {
                    epoch: region.epoch,
                    marker: crate::control::ConflictMarker::Clear,
                    pending_prepare_merge: false,
                    delayed: Seq::empty(),
                },
                pending: None,
                proposals: Seq::empty(),
                effects: Seq::empty(),
            }),
    {
        let proposal_control = ProposalControl::new(region.epoch);
        let peer = Peer {
            region,
            serving: true,
            applied_to_current_term: false,
            has_ready: false,
            has_apply_scheduler: false,
            proposal_control,
            pending: None,
            proposals: Vec::new(),
            effects: Vec::new(),
        };
        assert(effect_views(peer.effects@) == Seq::<EffectView>::empty());
        assert(proposal_views(peer.proposals@) == Seq::<ProposalView>::empty());
        peer
    }

    /// The partition as the replica knows it.
    pub fn region(&self) -> (region: &Region)
        ensures
            region@ == self@.region,
    {
        &self.region
    }

    /// The partition has a new range or epoch.
    pub fn set_region(&mut self, region: Region)
        ensures
            final(self)@ == (PeerView { region: region@, ..old(self)@ }),
    {
        self.region = region;
    }

    /// Whether the replica takes requests.
    pub fn serving(&self) -> (serving: bool)
        ensures
            serving == self@.serving,
    {
        self.serving
    }

    /// Whether an entry of the current term is applied.
    pub fn applied_to_current_term(&self) -> (applied: bool)
        ensures
            applied == self@.applied_to_current_term,
    {
        self.applied_to_current_term
    }

    /// Says whether an entry of the current term is applied.
    pub fn set_applied_to_current_term(&mut self, applied: bool)
        ensures
            final(self)@ == (PeerView { applied_to_current_term: applied, ..old(self)@ }),
    {
        self.applied_to_current_term = applied;
    }

    /// Says whether there is an apply side to hand unlogged writes to.
    pub fn set_apply_scheduler(&mut self, attached: bool)
        ensures
            final(self)@ == (PeerView { has_apply_scheduler: attached, ..old(self)@ }),
    {
        self.has_apply_scheduler = attached;
    }

    /// Whether the replica has work for its next round.
    pub fn has_ready(&self) -> (ready: bool)
        ensures
            ready == self@.has_ready,
    {
        self.has_ready
    }

    /// Signals work for the next round.
    pub fn set_has_ready(&mut self)
        ensures
            final(self)@ == (PeerView { has_ready: true, ..old(self)@ }),
    {
        self.has_ready = true;
    }

    /// Ends a round: the work that was signalled is taken up.
    pub fn reset_has_ready(&mut self)
        ensures
            final(self)@ == (PeerView { has_ready: false, ..old(self)@ }),
    {
        self.has_ready = false;
    }

    /// The proposal control state, to read.
    pub fn proposal_control(&self) -> (control: &ProposalControl)
        ensures
            control@ == self@.control,
    {
        &self.proposal_control
    }

    /// The proposal control state, for the control logic to change.
    pub fn proposal_control_mut(&mut self) -> (control: &mut ProposalControl)
        ensures
            control@ == old(self)@.control,
            final(self)@ == (PeerView { control: final(control)@, ..old(self)@ }),
    {
        &mut self.proposal_control
    }

    /// The batch that gathers requests, if there is one.
    pub fn pending_writes(&self) -> (pending: Option<&WriteBatch>)
        ensures
            match self@.pending {
                Some(batch) => pending is Some && pending.unwrap()@ == batch,
                None => pending is None,
            },
    {
        self.pending.as_ref()
    }

    /// What is left to be carried out, oldest first.
    pub fn effects(&self) -> (effects: &Vec<Effect>)
        ensures
            effect_views(effects@) == self@.effects,
    {
        &self.effects
    }

    /// Hands out what is left to be carried out, oldest first.
    pub fn take_effects(&mut self) -> (effects: Vec<Effect>)
        ensures
            effect_views(effects@) == old(self)@.effects,
            final(self)@ == (PeerView { effects: Seq::empty(), ..old(self)@ }),
    {
        let mut effects: Vec<Effect> = Vec::new();
        core::mem::swap(&mut self.effects, &mut effects);
        assert(effect_views(self.effects@) == Seq::<EffectView>::empty());
        effects
    }

    /// Hands out the batches that the log has accepted, oldest first, for
    /// their channels to travel with the committed entries.
    pub fn take_proposals(&mut self) -> (proposals: Vec<Proposal>)
        ensures
            proposal_views(proposals@) == old(self)@.proposals,
            final(self)@ == (PeerView { proposals: Seq::empty(), ..old(self)@ }),
    {
        let mut proposals: Vec<Proposal> = Vec::new();
        core::mem::swap(&mut self.proposals, &mut proposals);
        assert(proposal_views(self.proposals@) == Seq::<ProposalView>::empty());
        proposals
    }

    /// Takes in that the log has committed the entry at `index`. Gives the
    /// channels of the proposal at `index`, which travel with the entry to
    /// the apply side; an entry that this replica did not propose has none.
    /// The proposals that the log has passed are answered.
    pub fn on_committed(&mut self, index: u64) -> (channels: Vec<ResponseChannel>)
        ensures
            channels@ == proposal_channels(
                picked(old(self)@.proposals, index, Standing::Committed),
            ),
            final(self)@ == old(self)@.committed(index),
    {
        let (channels, passed) = take_channels_for(&mut self.proposals, index);
        let error = Error::ProposalDropped { region_id: self.region.id };
        report_all(&mut self.effects, passed, &error);
        channels
    }

    /// Takes in the answer of the log to a proposal. A proposal that the log
    /// refused is answered on each of its channels. One that it accepted is
    /// kept until its entry is applied.
    pub fn post_propose_command(
        &mut self,
        res: Result<u64, Error>,
        channels: Vec<ResponseChannel>,
        call_proposed_on_success: bool,
    )
        ensures
            final(self)@ == old(self)@.proposed(
                match res {
                    Ok(index) => Ok(index),
                    Err(error) => Err(error@),
                },
                channels@,
                call_proposed_on_success,
            ),
    {
        let index = match res {
            Ok(index) => index,
            Err(error) => {
                report_all(&mut self.effects, channels, &error);
                return ;
            },
        };
        if call_proposed_on_success {
            let ghost before = effect_views(self.effects@);
            let mut i: usize = 0;
            assert(before + notify_all(channels@).take(0) == before);
            while i < channels.len()
                invariant
                    i <= channels.len(),
                    self@ == (PeerView {
                        effects: before + notify_all(channels@).take(i as int),
                        ..old(self)@
                    }),
                decreases channels.len() - i,
            {
                emit(&mut self.effects, Effect::NotifyProposed { channel: channels[i].id });
                assert(notify_all(channels@).take(i + 1) == notify_all(channels@).take(
                    i as int,
                ).push(notify_all(channels@)[i as int]));
                i += 1;
            }
            assert(notify_all(channels@).take(i as int) == notify_all(channels@));
        }
        let ghost queued = self.proposals@;
        let proposal = Proposal { index, channels };
        self.proposals.push(proposal);
        assert(proposal_views(queued.push(proposal)) == proposal_views(queued).push(proposal@));
        self.has_ready = true;
    }

    /// Destroys the replica. No channel is left without an answer.
    pub fn destroy(&mut self)
        ensures
            final(self)@ == old(self)@.destroyed(),
    {
        let error = Error::RegionNotFound { region_id: self.region.id };
        let ghost start = effect_views(self.effects@);
        let ghost queued = proposal_views(self.proposals@);
        let mut proposals: Vec<Proposal> = Vec::new();
        core::mem::swap(&mut self.proposals, &mut proposals);
        assert(proposal_views(self.proposals@) == Seq::<ProposalView>::empty());
        assert(proposal_channels(queued.take(0)) == Seq::<ResponseChannel>::empty());
        assert(start + reject_all(Seq::<ResponseChannel>::empty(), error@) == start);
        for proposal in it: proposals
            invariant
                proposal_views(it.seq()) == queued,
                error@ == (ErrorView::RegionNotFound { region_id: old(self)@.region.id }),
                self@ == (PeerView {
                    proposals: Seq::empty(),
                    effects: start + reject_all(
                        proposal_channels(queued.take(it.index() as int)),
                        error@,
                    ),
                    ..old(self)@
                }),
        {
            let ghost i = it.index() as int;
            let ghost done = proposal_channels(queued.take(i));
            let Proposal { index, channels } = proposal;
            report_all(&mut self.effects, channels, &error);
            proof {
                assert(queued.take(i + 1).drop_last() == queued.take(i));
                assert(queued.take(i + 1).last().channels == channels@);
                assert(proposal_channels(queued.take(i + 1)) == done + channels@);
                assert(reject_all(done + channels@, error@) == reject_all(done, error@)
                    + reject_all(channels@, error@));
                assert(start + reject_all(done + channels@, error@) == start + reject_all(
                    done,
                    error@,
                ) + reject_all(channels@, error@));
            }
        }
        assert(queued.take(queued.len() as int) == queued);
        let ghost accepted = proposal_channels(queued);
        let ghost batched = match old(self)@.pending {
            Some(batch) => batch.channels,
            None => Seq::empty(),
        };
        match self.pending.take() {
            Some(batch) => {
                let (_, channels) = batch.encode();
                report_all(&mut self.effects, channels, &error);
            },
            None => {},
        }
        proof {
            assert(reject_all(Seq::<ResponseChannel>::empty(), error@) == Seq::<
                EffectView,
            >::empty());
            assert(reject_all(accepted + batched, error@) == reject_all(accepted, error@)
                + reject_all(batched, error@));
            assert(effect_views(self.effects@) == start + reject_all(accepted + batched, error@));
        }
        let delayed = self.proposal_control.take_delayed();
        proof {
            assert(reject_all(accepted + batched + delayed@, error@) == reject_all(
                accepted + batched,
                error@,
            ) + reject_all(delayed@, error@));
            assert(start + reject_all(accepted + batched + delayed@, error@) == start
                + reject_all(accepted + batched, error@) + reject_all(delayed@, error@));
        }
        report_all(&mut self.effects, delayed, &error);
        self.serving = false;
    }

    /// Holds a request against the partition's epoch and key range.
    pub fn validate_command(&self, header: &WriteHeader, data: &WriteRequest) -> (res: Result<
        (),
        Error,
    >)
        ensures
            match validation_error(self@.region, *header, data@) {
                Some(error) => res is Err && res->Err_0@ == error,
                None => res is Ok,
            },
    {
        match compare_region_epoch(
            header.epoch,
            &self.region,
            NORMAL_REQ_CHECK_CONF_VER,
            NORMAL_REQ_CHECK_VER,
        ) {
            Err(e) => { return Err(e); },
            Ok(()) => {},
        }
        let ops = data.ops();
        let ghost start = self.region.start_key@;
        let ghost end = self.region.end_key@;
        let mut i: usize = 0;
        assert(op_views(ops@).skip(0) == op_views(ops@));
        while i < ops.len()
            invariant
                i <= ops.len(),
                start == self.region.start_key@,
                end == self.region.end_key@,
                op_views(ops@) == data@,
                !epoch_stale(
                    header.epoch,
                    self.region.epoch,
                    NORMAL_REQ_CHECK_CONF_VER,
                    NORMAL_REQ_CHECK_VER,
                ),
                first_stray_key(op_views(ops@), start, end) == first_stray_key(
                    op_views(ops@).skip(i as int),
                    start,
                    end,
                ),
            decreases ops.len() - i,
        {
            proof {
                let left = op_views(ops@).skip(i as int);
                assert(left[0] == ops@[i as int]@);
                assert(left.drop_first() == op_views(ops@).skip(i + 1));
            }
            match &ops[i] {
                WriteOp::Put { cf, key, value } => {
                    match check_key_in_region(key.as_slice(), &self.region) {
                        Err(e) => { return Err(e); },
                        Ok(()) => {},
                    }
                },
                WriteOp::Delete { cf, key } => {
                    match check_key_in_region(key.as_slice(), &self.region) {
                        Err(e) => { return Err(e); },
                        Ok(()) => {},
                    }
                },
                _ => {},
            }
            i += 1;
        }
        Ok(())
    }

    /// Takes in the write request `data` of a client, to be answered on `ch`.
    ///
    /// - A replica that does not serve answers with `RegionNotFound`.
    /// - A request that fits the pending batch joins it, under the header
    ///   that was validated when the batch was begun. Nothing is proposed
    ///   yet: more requests may come before the batch is flushed.
    /// - Any other request is validated; a request that fails is answered
    ///   with the error and changes nothing else.
    /// - The pending batch is flushed.
    /// - While a boundary change is pending the channel is parked.
    /// - During a merge the request is refused with `ProposalInMergingMode`.
    /// - Otherwise the request starts a new pending batch.
    pub fn on_simple_write(
        &mut self,
        ctx: &StoreContext,
        header: WriteHeader,
        data: WriteRequest,
        ch: ResponseChannel,
    )
        ensures
            final(self)@ == old(self)@.submitted(
                proposal_size_limit(ctx.cfg.raft_entry_max_size),
                header,
                data@,
                ch,
            ),
    {
        if !self.serving {
            let error = Error::RegionNotFound { region_id: self.region.id };
            emit(&mut self.effects, Effect::ReportError { ch, error });
            return ;
        }
        let mut amended = false;
        match &mut self.pending {
            Some(batch) => {
                amended = batch.amend(&header, &data);
            },
            None => {},
        }
        if amended {
            let channel = ch.id;
            let mut notify = false;
            match &mut self.pending {
                Some(batch) => {
                    notify = batch.add_response_channel(ch);
                },
                None => {},
            }
            if notify {
                emit(&mut self.effects, Effect::NotifyProposed { channel });
            }
            self.has_ready = true;
            return ;
        }
        match self.validate_command(&header, &data) {
            Err(error) => {
                emit(&mut self.effects, Effect::ReportError { ch, error });
                return ;
            },
            Ok(()) => {},
        }
        // An earlier batch is proposed before a later one.
        self.propose_pending_writes(ctx);
        self.route(ctx, header, data, ch);
    }

    /// Takes up again a request whose channel was parked and has been handed
    /// out when the boundary change settled. The request was validated when
    /// it came in first; it is held against proposal control once more,
    /// behind whatever is pending.
    pub fn redrive_write(
        &mut self,
        ctx: &StoreContext,
        header: WriteHeader,
        data: WriteRequest,
        ch: ResponseChannel,
    )
        ensures
            final(self)@ == old(self)@.flushed().routed(
                proposal_size_limit(ctx.cfg.raft_entry_max_size),
                header,
                data@,
                ch,
            ),
    {
        self.propose_pending_writes(ctx);
        self.route(ctx, header, data, ch);
    }

    /// Holds a request against proposal control: parks it, refuses it, or
    /// lets it start the pending batch.
    fn route(
        &mut self,
        ctx: &StoreContext,
        header: WriteHeader,
        data: WriteRequest,
        ch: ResponseChannel,
    )
        ensures
            final(self)@ == old(self)@.routed(
                proposal_size_limit(ctx.cfg.raft_entry_max_size),
                header,
                data@,
                ch,
            ),
    {
        if self.proposal_control.check_conflict().is_some() {
            self.proposal_control.delay_channel(ch);
            return ;
        }
        if self.proposal_control.has_pending_prepare_merge() || self.proposal_control.is_merging() {
            let error = Error::ProposalInMergingMode { region_id: self.region.id };
            emit(&mut self.effects, Effect::ReportError { ch, error });
            return ;
        }
        // What proposal control says can be relied on only once an entry of
        // the current term is applied.
        let call_proposed_on_success = self.applied_to_current_term;
        let channel = ch.id;
        let mut batch = WriteBatch::new(
            header,
            data,
            size_limit_of(&ctx.cfg),
            call_proposed_on_success,
        );
        let notify = batch.add_response_channel(ch);
        if notify {
            emit(&mut self.effects, Effect::NotifyProposed { channel });
        }
        self.has_ready = true;
        self.pending = Some(batch);
        assert(Seq::<ResponseChannel>::empty().push(ch) == seq![ch]);
    }

    /// Takes in a write that needs no ordering by the log: it is encoded
    /// alone, under an empty header, and handed to the apply side. A replica
    /// that does not serve, or has no apply scheduler, drops it.
    pub fn on_unsafe_write(&mut self, ctx: &StoreContext, data: WriteRequest)
        ensures
            final(self)@ == old(self)@.unsafe_written(data@),
    {
        if !self.serving {
            return ;
        }
        let limit: usize = if ctx.cfg.raft_entry_max_size > usize::MAX as u64 {
            usize::MAX
        } else {
            ctx.cfg.raft_entry_max_size as usize
        };
        let (bin, _) = WriteBatch::new(WriteHeader::empty(), data, limit, false).encode();
        if self.has_apply_scheduler {
            emit(&mut self.effects, Effect::UnsafeWrite { data: bin });
        }
    }

    /// Flushes the pending batch, if there is one.
    pub fn propose_pending_writes(&mut self, ctx: &StoreContext)
        ensures
            final(self)@ == old(self)@.flushed(),
    {
        match self.pending.take() {
            Some(batch) => {
                let call_proposed_on_success = if batch.notify_proposed() {
                    // The batch has passed the conflict check and its
                    // channels were told.
                    false
                } else {
                    // The epoch may have changed since the batch was begun.
                    let res = compare_region_epoch(
                        batch.header().epoch,
                        &self.region,
                        NORMAL_REQ_CHECK_CONF_VER,
                        NORMAL_REQ_CHECK_VER,
                    );
                    match res {
                        Err(e) => {
                            let (_, chs) = batch.encode();
                            report_all(&mut self.effects, chs, &e);
                            return ;
                        },
                        Ok(()) => {},
                    }
                    // The comparison can be relied on only once an entry of the
                    // current term is applied.
                    self.applied_to_current_term
                };
                let (data, channels) = batch.encode();
                emit(
                    &mut self.effects,
                    Effect::Propose { data, channels, call_proposed_on_success },
                );
            },
            None => {},
        }
    }
}

} // verus!
