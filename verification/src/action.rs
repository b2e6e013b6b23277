//! What the applying side asks of the storage engine, of the ingestion
//! validator and of the response channels.
//!
//! The apply engine does no I/O. It appends what has to be done to a list,
//! and whoever drives it carries the list out in order. If an action fails,
//! [`Action::on_failure`] says what that means.

use vstd::prelude::*;
use crate::channel::ResponseChannel;
use crate::errors::{Error, ErrorView, Fatal};
use crate::metadata::ColumnFamily;
use crate::write_op::{SstMeta, SstMetaView, sst_views};

verus! {

/// One staged change. Keys are engine keys.
#[derive(Debug, PartialEq, Eq)]
pub enum Mutation {
    Put { cf: ColumnFamily, key: Vec<u8>, value: Vec<u8> },
    Delete { cf: ColumnFamily, key: Vec<u8> },
}

/// Mathematical value of a [`Mutation`].
pub enum MutationView {
    Put { cf: ColumnFamily, key: Seq<u8>, value: Seq<u8> },
    Delete { cf: ColumnFamily, key: Seq<u8> },
}

impl View for Mutation {
    type V = MutationView;

    open spec fn view(&self) -> MutationView {
        match *self {
            Mutation::Put { cf, key, value } => MutationView::Put { cf, key: key@, value: value@ },
            Mutation::Delete { cf, key } => MutationView::Delete { cf, key: key@ },
        }
    }
}

/// The values of a list of mutations, in order.
pub open spec fn mutation_views(mutations: Seq<Mutation>) -> Seq<MutationView> {
    mutations.map_values(|m: Mutation| m@)
}

/// How a request ended on the applying side.
#[derive(Debug, PartialEq, Eq)]
pub enum Outcome {
    Applied,
    Failed { error: Error },
}

/// Mathematical value of an [`Outcome`].
pub enum OutcomeView {
    Applied,
    Failed { error: ErrorView },
}

impl View for Outcome {
    type V = OutcomeView;

    open spec fn view(&self) -> OutcomeView {
        match *self {
            Outcome::Applied => OutcomeView::Applied,
            Outcome::Failed { error } => OutcomeView::Failed { error: error@ },
        }
    }
}

impl Outcome {
    /// A copy of the outcome, for when one outcome answers several channels.
    pub fn duplicate(&self) -> (copy: Outcome)
        ensures
            copy@ == self@,
    {
        match self {
            Outcome::Applied => Outcome::Applied,
            Outcome::Failed { error } => Outcome::Failed { error: error.duplicate() },
        }
    }
}

/// One thing that the apply engine asks to be done.
#[derive(Debug, PartialEq, Eq)]
pub enum Action {
    /// Write the mutations to the engine as one atomic batch.
    Write { batch: Vec<Mutation> },
    /// Have the validator check the integrity of the file.
    ValidateSst { sst: SstMeta },
    /// Delete the file and reclaim what backs it.
    DeleteSst { sst: SstMeta },
    /// Ingest the files, which were all validated, in one atomic step.
    Ingest { ssts: Vec<SstMeta> },
    /// Terminal: answer `ch` with `outcome`. A channel that has not heard
    /// that its request was proposed learns of it with this answer.
    Report { ch: ResponseChannel, outcome: Outcome },
}

/// Mathematical value of an [`Action`].
pub enum ActionView {
    Write { batch: Seq<MutationView> },
    ValidateSst { sst: SstMetaView },
    DeleteSst { sst: SstMetaView },
    Ingest { ssts: Seq<SstMetaView> },
    Report { ch: ResponseChannel, outcome: OutcomeView },
}

impl View for Action {
    type V = ActionView;

    open spec fn view(&self) -> ActionView {
        match *self {
            Action::Write { batch } => ActionView::Write { batch: mutation_views(batch@) },
            Action::ValidateSst { sst } => ActionView::ValidateSst { sst: sst@ },
            Action::DeleteSst { sst } => ActionView::DeleteSst { sst: sst@ },
            Action::Ingest { ssts } => ActionView::Ingest { ssts: sst_views(ssts@) },
            Action::Report { ch, outcome } => ActionView::Report { ch, outcome: outcome@ },
        }
    }
}

/// The values of a list of actions, in order.
pub open spec fn action_views(actions: Seq<Action>) -> Seq<ActionView> {
    actions.map_values(|a: Action| a@)
}

/// What the failure of an action means.
pub open spec fn failure_of(action: ActionView) -> Option<Fatal> {
    match action {
        ActionView::Write { .. } => Some(Fatal::StorageFailure),
        ActionView::Ingest { .. } => Some(Fatal::StorageFailure),
        ActionView::ValidateSst { .. } => Some(Fatal::CorruptedResource),
        ActionView::DeleteSst { .. } => None,
        ActionView::Report { .. } => None,
    }
}

impl Action {
    /// What it means that this action failed when it was carried out.
    ///
    /// An engine that cannot take a write or an ingestion that was validated,
    /// and a file that passed the range check and is corrupt all the same,
    /// are fatal: the replica cannot go on without the risk of diverging from
    /// its peers. That a rejected file cannot be deleted, or a channel not
    /// be reached, is of no consequence.
    pub fn on_failure(&self) -> (fatal: Option<Fatal>)
        ensures
            fatal == failure_of(self@),
    {
        match self {
            Action::Write { .. } => Some(Fatal::StorageFailure),
            Action::Ingest { .. } => Some(Fatal::StorageFailure),
            Action::ValidateSst { .. } => Some(Fatal::CorruptedResource),
            Action::DeleteSst { .. } => None,
            Action::Report { .. } => None,
        }
    }
}

/// One terminal answer for each of `channels`, in their order.
pub open spec fn reports(channels: Seq<ResponseChannel>, outcome: OutcomeView) -> Seq<ActionView> {
    Seq::new(channels.len(), |i: int| ActionView::Report { ch: channels[i], outcome })
}

/// The outcome that goes with `error`.
pub open spec fn outcome_of(error: Option<ErrorView>) -> OutcomeView {
    match error {
        Some(error) => OutcomeView::Failed { error },
        None => OutcomeView::Applied,
    }
}

/// Appends an answer of `outcome` for each of `channels`.
pub fn push_reports(actions: &mut Vec<Action>, channels: Vec<ResponseChannel>, outcome: &Outcome)
    ensures
        action_views(final(actions)@) == action_views(old(actions)@) + reports(
            channels@,
            outcome@,
        ),
{
    let ghost all = channels@;
    let ghost n = channels@.len();
    assert(action_views(actions@) == action_views(old(actions)@) + reports(all, outcome@).take(0));
    for ch in it: channels
        invariant
            it.seq() == all,
            action_views(actions@) == action_views(old(actions)@) + reports(all, outcome@).take(
                it.index() as int,
            ),
    {
        let ghost i = it.index() as int;
        push_action(actions, Action::Report { ch, outcome: outcome.duplicate() });
        assert(reports(all, outcome@).take(i + 1) == reports(all, outcome@).take(i).push(
            reports(all, outcome@)[i],
        ));
    }
    assert(reports(all, outcome@).take(n as int) == reports(all, outcome@));
}

/// Moves the actions of `more` behind those of `actions`.
pub fn append_actions(actions: &mut Vec<Action>, more: &mut Vec<Action>)
    ensures
        action_views(final(actions)@) == action_views(old(actions)@) + action_views(old(more)@),
        final(more)@.len() == 0,
{
    actions.append(more);
    assert(action_views(actions@) == action_views(old(actions)@) + action_views(old(more)@));
}

/// Appends `action`.
pub fn push_action(actions: &mut Vec<Action>, action: Action)
    ensures
        action_views(final(actions)@) == action_views(old(actions)@).push(action@),
{
    actions.push(action);
    assert(action_views(actions@) == action_views(old(actions)@).push(action@));
}

} // verus!
