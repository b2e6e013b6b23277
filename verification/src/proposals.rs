//! The proposals that wait for their entries.
//!
//! The log accepts a proposal at an index and later commits an entry at that
//! index. If the entry is the proposal's, the channels of the proposal travel
//! with it to the apply side. A proposal whose index the log has passed with
//! another entry will never be applied, and its channels are answered.

use vstd::prelude::*;
use crate::channel::ResponseChannel;
use crate::peer::{Proposal, ProposalView, proposal_channels, proposal_views};

verus! {

/// Where a proposal stands when the entry at `index` is committed.
pub enum Standing {
    /// The log has passed its index.
    Passed,
    /// The entry is its own.
    Committed,
    /// Its entry is still to come.
    Waiting,
}

/// Where `proposal` stands when the entry at `index` is committed.
pub open spec fn standing(proposal: ProposalView, index: u64) -> Standing {
    if proposal.index < index {
        Standing::Passed
    } else if proposal.index == index {
        Standing::Committed
    } else {
        Standing::Waiting
    }
}

/// The proposals of `queue` that stand as `which` says when the entry at
/// `index` is committed, in their order.
pub open spec fn picked(queue: Seq<ProposalView>, index: u64, which: Standing) -> Seq<
    ProposalView,
>
    decreases queue.len(),
{
    if queue.len() == 0 {
        Seq::empty()
    } else if standing(queue.last(), index) == which {
        picked(queue.drop_last(), index, which).push(queue.last())
    } else {
        picked(queue.drop_last(), index, which)
    }
}

/// The channels of one more proposal come behind those of the others.
pub proof fn lemma_channels_push(queue: Seq<ProposalView>, proposal: ProposalView)
    ensures
        proposal_channels(queue.push(proposal)) == proposal_channels(queue) + proposal.channels,
{
    assert(queue.push(proposal).drop_last() == queue);
}

/// Takes from `queue` what the commit of the entry at `index` settles: the
/// channels of the proposal at `index`, which travel with the entry, and the
/// channels of the proposals with a smaller index, which are never applied.
/// The proposals with a larger index stay, in their order.
pub fn take_channels_for(queue: &mut Vec<Proposal>, index: u64) -> (out: (
    Vec<ResponseChannel>,
    Vec<ResponseChannel>,
))
    ensures
        out.0@ == proposal_channels(
            picked(proposal_views(old(queue)@), index, Standing::Committed),
        ),
        out.1@ == proposal_channels(picked(proposal_views(old(queue)@), index, Standing::Passed)),
        proposal_views(final(queue)@) == picked(
            proposal_views(old(queue)@),
            index,
            Standing::Waiting,
        ),
{
    let ghost all = proposal_views(queue@);
    let mut taken: Vec<Proposal> = Vec::new();
    core::mem::swap(queue, &mut taken);
    let mut committed: Vec<ResponseChannel> = Vec::new();
    let mut passed: Vec<ResponseChannel> = Vec::new();
    proof {
        assert(all.take(0) == Seq::<ProposalView>::empty());
        assert(proposal_views(queue@) == Seq::<ProposalView>::empty());
    }
    for proposal in it: taken
        invariant
            proposal_views(it.seq()) == all,
            committed@ == proposal_channels(
                picked(all.take(it.index() as int), index, Standing::Committed),
            ),
            passed@ == proposal_channels(
                picked(all.take(it.index() as int), index, Standing::Passed),
            ),
            proposal_views(queue@) == picked(
                all.take(it.index() as int),
                index,
                Standing::Waiting,
            ),
    {
        let ghost i = it.index() as int;
        let ghost waiting = queue@;
        proof {
            assert(all.take(i + 1).drop_last() == all.take(i));
            assert(all.take(i + 1).last() == proposal@);
            lemma_channels_push(picked(all.take(i), index, Standing::Committed), proposal@);
            lemma_channels_push(picked(all.take(i), index, Standing::Passed), proposal@);
        }
        if proposal.index < index {
            let Proposal { index: _, mut channels } = proposal;
            passed.append(&mut channels);
        } else if proposal.index == index {
            let Proposal { index: _, mut channels } = proposal;
            committed.append(&mut channels);
        } else {
            queue.push(proposal);
            assert(proposal_views(waiting.push(proposal)) == proposal_views(waiting).push(
                proposal@,
            ));
        }
    }
    assert(all.take(all.len() as int) == all);
    (committed, passed)
}

} // verus!
