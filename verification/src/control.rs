//! Proposal control: what a partition knows of boundary changes and merges
//! that are under way, and the channels that wait for them to settle.
//!
//! The state is changed by the partition's own control logic only. Write
//! submission reads it before every proposal. The change that settles a
//! conflict happens elsewhere; this module is told of it through
//! [`ProposalControl::resolve`].

use vstd::prelude::*;
use crate::channel::ResponseChannel;
use crate::metadata::RegionEpoch;

verus! {

/// What stands in the way of a new proposal.
#[derive(Clone, Copy, Debug, PartialEq, Eq, Structural)]
pub enum ConflictMarker {
    /// Nothing.
    Clear,
    /// A boundary change was proposed and is not applied yet: the epoch of a
    /// proposal made now would be stale by the time it commits.
    BoundaryChangePending,
    /// The partition is merging into another.
    Merging,
}

/// The proposal control state of one partition.
pub struct ProposalControl {
    epoch: RegionEpoch,
    marker: ConflictMarker,
    pending_prepare_merge: bool,
    delayed: Vec<ResponseChannel>,
}

/// Mathematical value of a [`ProposalControl`].
pub struct ProposalControlView {
    /// The epoch at which the state was last settled.
    pub epoch: RegionEpoch,
    pub marker: ConflictMarker,
    pub pending_prepare_merge: bool,
    /// The channels that wait, oldest first.
    pub delayed: Seq<ResponseChannel>,
}

impl ProposalControlView {
    /// A proposal made now has to wait.
    pub open spec fn has_conflict(self) -> bool {
        self.marker is BoundaryChangePending
    }

    /// A proposal made now is refused.
    pub open spec fn in_merge(self) -> bool {
        self.pending_prepare_merge || self.marker is Merging
    }

    /// A proposal made now may go ahead.
    pub open spec fn admits_proposals(self) -> bool {
        !self.has_conflict() && !self.in_merge()
    }
}

impl View for ProposalControl {
    type V = ProposalControlView;

    closed spec fn view(&self) -> ProposalControlView {
        ProposalControlView {
            epoch: self.epoch,
            marker: self.marker,
            pending_prepare_merge: self.pending_prepare_merge,
            delayed: self.delayed@,
        }
    }
}

impl ProposalControl {
    /// A state without conflict for a partition at `epoch`.
    pub fn new(epoch: RegionEpoch) -> (control: ProposalControl)
        ensures
            control@ == (ProposalControlView {
                epoch,
                marker: ConflictMarker::Clear,
                pending_prepare_merge: false,
                delayed: Seq::empty(),
            }),
    {
        ProposalControl {
            epoch,
            marker: ConflictMarker::Clear,
            pending_prepare_merge: false,
            delayed: Vec::new(),
        }
    }

    /// The conflict that a proposal made now would run into, if any. The
    /// caller parks the request with [`ProposalControl::delay_channel`]; it
    /// does not drop it.
    pub fn check_conflict(&self) -> (conflict: Option<ConflictMarker>)
        ensures
            self@.has_conflict() ==> conflict == Some(ConflictMarker::BoundaryChangePending),
            !self@.has_conflict() ==> conflict is None,
    {
        match self.marker {
            ConflictMarker::BoundaryChangePending => Some(ConflictMarker::BoundaryChangePending),
            _ => None,
        }
    }

    /// Whether the preparation of a merge is proposed and not applied yet.
    pub fn has_pending_prepare_merge(&self) -> (pending: bool)
        ensures
            pending == self@.pending_prepare_merge,
    {
        self.pending_prepare_merge
    }

    /// Whether the partition is merging into another.
    pub fn is_merging(&self) -> (merging: bool)
        ensures
            merging == (self@.marker is Merging),
    {
        match self.marker {
            ConflictMarker::Merging => true,
            _ => false,
        }
    }

    /// The epoch at which the state was last settled.
    pub fn epoch(&self) -> (epoch: RegionEpoch)
        ensures
            epoch == self@.epoch,
    {
        self.epoch
    }

    /// Number of channels that wait.
    pub fn delayed_len(&self) -> (n: usize)
        ensures
            n == self@.delayed.len(),
    {
        self.delayed.len()
    }

    /// Parks `ch` behind the channels that wait already.
    pub fn delay_channel(&mut self, ch: ResponseChannel)
        ensures
            final(self)@ == (ProposalControlView {
                delayed: old(self)@.delayed.push(ch),
                ..old(self)@
            }),
    {
        self.delayed.push(ch);
    }

    /// Hands out the channels that wait, oldest first, and leaves the rest of
    /// the state as it is.
    pub fn take_delayed(&mut self) -> (delayed: Vec<ResponseChannel>)
        ensures
            delayed@ == old(self)@.delayed,
            final(self)@ == (ProposalControlView { delayed: Seq::empty(), ..old(self)@ }),
    {
        let mut delayed: Vec<ResponseChannel> = Vec::new();
        core::mem::swap(&mut self.delayed, &mut delayed);
        delayed
    }

    /// A boundary change was proposed. A merge that is under way stays the
    /// stronger obstacle.
    pub fn record_boundary_change(&mut self)
        ensures
            final(self)@ == (ProposalControlView {
                marker: if old(self)@.marker is Merging {
                    ConflictMarker::Merging
                } else {
                    ConflictMarker::BoundaryChangePending
                },
                ..old(self)@
            }),
    {
        match self.marker {
            ConflictMarker::Merging => {},
            _ => {
                self.marker = ConflictMarker::BoundaryChangePending;
            },
        }
    }

    /// The preparation of a merge was proposed.
    pub fn record_prepare_merge(&mut self)
        ensures
            final(self)@ == (ProposalControlView { pending_prepare_merge: true, ..old(self)@ }),
    {
        self.pending_prepare_merge = true;
    }

    /// The preparation of a merge was applied: the partition is merging.
    pub fn enter_merging(&mut self)
        ensures
            final(self)@ == (ProposalControlView {
                marker: ConflictMarker::Merging,
                pending_prepare_merge: false,
                ..old(self)@
            }),
    {
        self.marker = ConflictMarker::Merging;
        self.pending_prepare_merge = false;
    }

    /// The change that stood in the way has settled and left the partition at
    /// `epoch`. Clears the state and hands out the channels that waited, in
    /// the order in which they were parked, for their requests to be driven
    /// again.
    pub fn resolve(&mut self, epoch: RegionEpoch) -> (redrive: Vec<ResponseChannel>)
        ensures
            redrive@ == old(self)@.delayed,
            final(self)@ == (ProposalControlView {
                epoch,
                marker: ConflictMarker::Clear,
                pending_prepare_merge: false,
                delayed: Seq::empty(),
            }),
    {
        let mut redrive: Vec<ResponseChannel> = Vec::new();
        core::mem::swap(&mut self.delayed, &mut redrive);
        self.epoch = epoch;
        self.marker = ConflictMarker::Clear;
        self.pending_prepare_merge = false;
        redrive
    }
}

} // verus!
