//! Applying committed entries.
//!
//! Entries are applied strictly in the order in which the log delivers them,
//! and the operations of an entry in the order in which they were written.
//! The operations of an entry share its index, so whether they are skipped is
//! decided for all of them by the table as the entry found it: an entry that
//! was applied before is skipped whole, and one that is new is applied whole.
//! An entry is applied whole or not at all in another sense too: its
//! operations are held against the partition first, and if one of them fails,
//! none of them is staged.
//! The channels of an entry are answered after the buffer is flushed, so that
//! no client hears of a write that is not handed to the engine.

use vstd::prelude::*;
use crate::action::{Action, ActionView, Outcome, action_views, outcome_of, reports};
use crate::apply::{
    Apply,
    ApplyView,
    IndexTable,
    Step,
    applied_before,
    first_unfit,
    result_is,
    table_of,
};
use crate::channel::ResponseChannel;
use crate::errors::{Error, ErrorView, Fatal};
use crate::metadata::DATA_CFS_LEN;
use crate::keys::{
    NORMAL_REQ_CHECK_CONF_VER,
    NORMAL_REQ_CHECK_VER,
    check_key_in_region,
    compare_region_epoch,
    epoch_stale,
};
use crate::sst::check_sst_for_ingestion;
use crate::parse::{decode_batch, parse_batch};
use crate::write_op::{WriteOp, WriteOpView, duplicate_ssts, op_views, sst_views};

verus! {

/// An entry that the log has committed, with the channels of its requests.
#[derive(Debug, PartialEq, Eq)]
pub struct CommittedEntry {
    pub index: u64,
    pub data: Vec<u8>,
    pub channels: Vec<ResponseChannel>,
}

/// Mathematical value of a [`CommittedEntry`].
pub struct CommittedEntryView {
    pub index: u64,
    pub data: Seq<u8>,
    pub channels: Seq<ResponseChannel>,
}

impl View for CommittedEntry {
    type V = CommittedEntryView;

    open spec fn view(&self) -> CommittedEntryView {
        CommittedEntryView { index: self.index, data: self.data@, channels: self.channels@ }
    }
}

/// The values of a list of entries, in order.
pub open spec fn entry_views(entries: Seq<CommittedEntry>) -> Seq<CommittedEntryView> {
    entries.map_values(|e: CommittedEntry| e@)
}

/// What a run of entries made of the state, the answers that are owed to the
/// channels of those entries, and the fatal condition that ended the run.
pub struct Run {
    pub state: ApplyView,
    pub reports: Seq<ActionView>,
    pub fatal: Option<Fatal>,
}

impl ApplyView {
    /// One operation at `index`.
    pub open spec fn op(self, index: u64, op: WriteOpView) -> Step {
        match op {
            WriteOpView::Put { cf, key, value } => self.put(cf, index, key, value),
            WriteOpView::Delete { cf, key } => self.delete(cf, index, key),
            WriteOpView::DeleteRange { cf, start_key, end_key, notify_only } => self.delete_range(
                cf,
                index,
            ),
            WriteOpView::Ingest { ssts } => self.ingest(ssts),
        }
    }

    /// One operation of an entry at `index` that found the table `seen`:
    /// whether the operation is skipped is decided by `seen`, not by what the
    /// operations of the entry before it have recorded.
    pub open spec fn op_seen(self, seen: IndexTable, index: u64, op: WriteOpView) -> Step {
        match op {
            WriteOpView::Put { cf, key, value } => self.put_unless(
                applied_before(seen, cf, index),
                cf,
                Some(index),
                key,
                value,
            ),
            WriteOpView::Delete { cf, key } => self.delete_unless(
                applied_before(seen, cf, index),
                cf,
                Some(index),
                key,
            ),
            WriteOpView::DeleteRange { cf, start_key, end_key, notify_only } => self.delete_range_unless(
                applied_before(seen, cf, index),
                cf,
                Some(index),
            ),
            WriteOpView::Ingest { ssts } => self.ingest(ssts),
        }
    }

    /// Position of the first of `ops` that fails at `index`, or the length of
    /// `ops` if none of them fails. Whether an operation of an entry fails
    /// depends on the partition and on the table as the entry found it.
    pub open spec fn first_failing(self, index: u64, ops: Seq<WriteOpView>) -> int
        decreases ops.len(),
    {
        if ops.len() == 0 {
            0
        } else if self.op(index, ops[0]).error is Some {
            0
        } else {
            1 + self.first_failing(index, ops.drop_first())
        }
    }

    /// The operations of an entry that found the table `seen`, one after the
    /// other, in order, up to and including the first that fails.
    pub open spec fn ops_seen(self, seen: IndexTable, index: u64, ops: Seq<WriteOpView>) -> Step
        decreases ops.len(),
    {
        if ops.len() == 0 {
            Step { state: self, error: None }
        } else {
            let first = self.op_seen(seen, index, ops[0]);
            if first.error is Some {
                first
            } else {
                first.state.ops_seen(seen, index, ops.drop_first())
            }
        }
    }

    /// The state once the buffer is flushed if it has grown to the threshold.
    pub open spec fn settled(self) -> ApplyView {
        if self.staged_bytes >= self.flush_threshold {
            self.flushed()
        } else {
            self
        }
    }

    /// The entry with payload `data` at `index`, or `None` where `data` is no
    /// payload.
    ///
    /// An entry whose boundary version is not the partition's is turned down
    /// as a whole. So is an entry with an operation that fails: the entry
    /// ends with the error of the first such operation, and of all its
    /// operations only that one leaves a trace, which is the deletion of the
    /// file that made an ingestion fail. Otherwise every operation is
    /// applied, and the buffer is flushed if it has grown to the threshold.
    pub open spec fn entry(self, index: u64, data: Seq<u8>) -> Option<Step> {
        match parse_batch(data) {
            None => None,
            Some((header, ops)) => Some(
                if epoch_stale(
                    header.epoch,
                    self.region.epoch,
                    NORMAL_REQ_CHECK_CONF_VER,
                    NORMAL_REQ_CHECK_VER,
                ) {
                    Step {
                        state: self,
                        error: Some(
                            ErrorView::EpochNotMatch {
                                region_id: self.region.id,
                                current: self.region.epoch,
                            },
                        ),
                    }
                } else {
                    let k = self.first_failing(index, ops);
                    if k < ops.len() {
                        self.op(index, ops[k])
                    } else {
                        Step {
                            state: self.ops_seen(self.modifications, index, ops).state.settled(),
                            error: None,
                        }
                    }
                },
            ),
        }
    }

    /// The entries in order, up to the first whose payload is malformed.
    pub open spec fn run(self, entries: Seq<CommittedEntryView>) -> Run
        decreases entries.len(),
    {
        if entries.len() == 0 {
            Run { state: self, reports: Seq::empty(), fatal: None }
        } else {
            match self.entry(entries[0].index, entries[0].data) {
                None => Run {
                    state: self,
                    reports: Seq::empty(),
                    fatal: Some(Fatal::MalformedPayload),
                },
                Some(step) => {
                    let rest = step.state.run(entries.drop_first());
                    Run {
                        state: rest.state,
                        reports: reports(entries[0].channels, outcome_of(step.error))
                            + rest.reports,
                        fatal: rest.fatal,
                    }
                },
            }
        }
    }

    /// One operation of a write that went past the log. It has no index: it
    /// is never skipped and leaves the table as it is. Bulk files are not
    /// ingested this way.
    pub open spec fn op_unlogged(self, op: WriteOpView) -> Step {
        match op {
            WriteOpView::Put { cf, key, value } => self.put_unless(false, cf, None, key, value),
            WriteOpView::Delete { cf, key } => self.delete_unless(false, cf, None, key),
            WriteOpView::DeleteRange { cf, start_key, end_key, notify_only } => self.delete_range_unless(
                false,
                cf,
                None,
            ),
            WriteOpView::Ingest { ssts } => Step { state: self, error: None },
        }
    }

    /// The operations of a write that went past the log. Such a write has no
    /// one to answer to: an operation that fails is passed over.
    pub open spec fn unlogged(self, ops: Seq<WriteOpView>) -> ApplyView
        decreases ops.len(),
    {
        if ops.len() == 0 {
            self
        } else {
            self.op_unlogged(ops[0]).state.unlogged(ops.drop_first())
        }
    }
}

/// Whether an operation of an entry fails, and with what, depends on the
/// partition and on the table as the entry found it. No operation changes
/// the partition.
pub proof fn lemma_failure_is_stable(
    a: ApplyView,
    b: ApplyView,
    seen: IndexTable,
    index: u64,
    op: WriteOpView,
)
    requires
        a.region == b.region,
    ensures
        a.op_seen(seen, index, op).error == b.op_seen(seen, index, op).error,
        b.op_seen(seen, index, op).state.region == b.region,
        a.op(index, op) == a.op_seen(a.modifications, index, op),
{
}

/// Before the first operation that fails, none fails.
pub proof fn lemma_none_fails(state: ApplyView, index: u64, ops: Seq<WriteOpView>)
    ensures
        0 <= state.first_failing(index, ops) <= ops.len(),
        forall|j: int|
            0 <= j < state.first_failing(index, ops) ==> state.op(
                index,
                #[trigger] ops[j],
            ).error is None,
        state.first_failing(index, ops) < ops.len() ==> state.op(
            index,
            ops[state.first_failing(index, ops)],
        ).error is Some,
    decreases ops.len(),
{
    if ops.len() > 0 && state.op(index, ops[0]).error is None {
        let rest = ops.drop_first();
        lemma_none_fails(state, index, rest);
        assert forall|j: int| 0 <= j < state.first_failing(index, ops) implies state.op(
            index,
            #[trigger] ops[j],
        ).error is None by {
            if j > 0 {
                assert(ops[j] == rest[j - 1]);
            }
        }
        if state.first_failing(index, ops) < ops.len() {
            assert(ops[state.first_failing(index, ops)] == rest[state.first_failing(index, rest)]);
        }
    }
}

impl Apply {
    /// Applies one operation that was decided at log index `index`.
    pub fn apply_op(&mut self, index: u64, op: &WriteOp) -> (res: Result<(), Error>)
        ensures
            result_is(res, old(self)@.op(index, op@).error),
            final(self)@ == old(self)@.op(index, op@).state,
    {
        match op {
            WriteOp::Put { cf, key, value } => self.apply_put(
                *cf,
                index,
                key.as_slice(),
                value.as_slice(),
            ),
            WriteOp::Delete { cf, key } => self.apply_delete(*cf, index, key.as_slice()),
            WriteOp::DeleteRange { cf, start_key, end_key, notify_only } => self.apply_delete_range(
                *cf,
                index,
                start_key.as_slice(),
                end_key.as_slice(),
                *notify_only,
            ),
            WriteOp::Ingest { ssts } => self.apply_ingest(duplicate_ssts(ssts)),
        }
    }

    /// Applies one operation of an entry at `index` that found the table
    /// `seen`.
    pub(crate) fn apply_op_seen(
        &mut self,
        seen: &[u64; DATA_CFS_LEN],
        index: u64,
        op: &WriteOp,
    ) -> (res: Result<(), Error>)
        ensures
            result_is(res, old(self)@.op_seen(table_of(seen@), index, op@).error),
            final(self)@ == old(self)@.op_seen(table_of(seen@), index, op@).state,
    {
        match op {
            WriteOp::Put { cf, key, value } => self.put_unless(
                index <= seen[cf.offset()],
                *cf,
                Some(index),
                key.as_slice(),
                value.as_slice(),
            ),
            WriteOp::Delete { cf, key } => self.delete_unless(
                index <= seen[cf.offset()],
                *cf,
                Some(index),
                key.as_slice(),
            ),
            WriteOp::DeleteRange { cf, start_key, end_key, notify_only } => {
                self.delete_range_unless(index <= seen[cf.offset()], *cf, Some(index));
                Ok(())
            },
            WriteOp::Ingest { ssts } => self.apply_ingest(duplicate_ssts(ssts)),
        }
    }

    /// Flushes the buffer if it has grown to the threshold.
    pub fn maybe_flush(&mut self)
        ensures
            final(self)@ == old(self)@.settled(),
    {
        if self.staged_bytes() >= self.flush_threshold() {
            self.flush();
        }
    }

    /// Holds one operation against the partition without applying it: says
    /// whether the operation would fail at `index`, and with what.
    pub fn check_op(&self, index: u64, op: &WriteOp) -> (res: Result<(), Error>)
        ensures
            result_is(res, self@.op(index, op@).error),
    {
        match op {
            WriteOp::Put { cf, key, value } => {
                if self.should_skip(*cf, index) {
                    Ok(())
                } else {
                    check_key_in_region(key.as_slice(), self.region())
                }
            },
            WriteOp::Delete { cf, key } => {
                if self.should_skip(*cf, index) {
                    Ok(())
                } else {
                    check_key_in_region(key.as_slice(), self.region())
                }
            },
            WriteOp::DeleteRange { cf, start_key, end_key, notify_only } => Ok(()),
            WriteOp::Ingest { ssts } => {
                let ghost all = sst_views(ssts@);
                let mut i: usize = 0;
                assert(all.skip(0) == all);
                while i < ssts.len()
                    invariant
                        i <= ssts.len(),
                        all == sst_views(ssts@),
                        op@ == (WriteOpView::Ingest { ssts: all }),
                        first_unfit(all, self@.region) == i + first_unfit(
                            all.skip(i as int),
                            self@.region,
                        ),
                    decreases ssts.len() - i,
                {
                    proof {
                        let left = all.skip(i as int);
                        assert(left[0] == ssts@[i as int]@);
                        assert(left.drop_first() == all.skip(i + 1));
                    }
                    match check_sst_for_ingestion(&ssts[i], self.region()) {
                        Err(e) => { return Err(e); },
                        Ok(()) => {},
                    }
                    i += 1;
                }
                assert(all.skip(i as int).len() == 0);
                Ok(())
            },
        }
    }

    /// Decodes the payload of the entry at `index` and applies its
    /// operations in order, if none of them fails. A payload that cannot be
    /// decoded is fatal: the pipeline wrote it itself, so it can only have
    /// been damaged.
    pub fn apply_entry(&mut self, index: u64, data: &[u8]) -> (res: Result<Outcome, Fatal>)
        ensures
            match old(self)@.entry(index, data@) {
                Some(step) => res is Ok && res->Ok_0@ == outcome_of(step.error) && final(self)@
                    == step.state,
                None => res == Err::<Outcome, Fatal>(Fatal::MalformedPayload) && final(self)@
                    == old(self)@,
            },
    {
        let (header, ops) = match decode_batch(data) {
            Some(x) => x,
            None => { return Err(Fatal::MalformedPayload); },
        };
        match compare_region_epoch(
            header.epoch,
            self.region(),
            NORMAL_REQ_CHECK_CONF_VER,
            NORMAL_REQ_CHECK_VER,
        ) {
            Err(error) => { return Ok(Outcome::Failed { error }); },
            Ok(()) => {},
        }
        let ghost all = op_views(ops@);
        let ghost start = self@;
        let mut i: usize = 0;
        assert(all.skip(0) == all);
        while i < ops.len()
            invariant
                i <= ops.len(),
                all == op_views(ops@),
                self@ == start,
                start == old(self)@,
                parse_batch(data@) == Some((header, all)),
                !epoch_stale(
                    header.epoch,
                    start.region.epoch,
                    NORMAL_REQ_CHECK_CONF_VER,
                    NORMAL_REQ_CHECK_VER,
                ),
                start.first_failing(index, all) == i + start.first_failing(
                    index,
                    all.skip(i as int),
                ),
            decreases ops.len() - i,
        {
            proof {
                let left = all.skip(i as int);
                assert(left[0] == ops@[i as int]@);
                assert(left.drop_first() == all.skip(i + 1));
            }
            match self.check_op(index, &ops[i]) {
                Err(error) => {
                    // Nothing of the entry is staged. What is left to do is
                    // what the failure itself asks for.
                    let _ = self.apply_op(index, &ops[i]);
                    return Ok(Outcome::Failed { error });
                },
                Ok(()) => {},
            }
            i += 1;
        }
        proof {
            assert(all.skip(i as int).len() == 0);
            lemma_none_fails(start, index, all);
        }
        // The operations share the index of the entry: what the entry found
        // recorded decides for all of them whether they are skipped.
        let seen = self.modifications();
        let mut i: usize = 0;
        while i < ops.len()
            invariant
                i <= ops.len(),
                all == op_views(ops@),
                self@.region == start.region,
                table_of(seen@) == start.modifications,
                forall|j: int| 0 <= j < all.len() ==> start.op(index, #[trigger] all[j]).error is None,
                start.ops_seen(table_of(seen@), index, all) == self@.ops_seen(
                    table_of(seen@),
                    index,
                    all.skip(i as int),
                ),
            decreases ops.len() - i,
        {
            proof {
                let left = all.skip(i as int);
                assert(left[0] == ops@[i as int]@);
                assert(left.drop_first() == all.skip(i + 1));
                lemma_failure_is_stable(start, self@, table_of(seen@), index, all[i as int]);
            }
            let _ = self.apply_op_seen(&seen, index, &ops[i]);
            i += 1;
        }
        assert(all.skip(i as int).len() == 0);
        self.maybe_flush();
        Ok(Outcome::Applied)
    }

    /// Applies the operations of a write that went past the log.
    pub fn apply_unsafe_write(&mut self, data: &[u8]) -> (res: Result<(), Fatal>)
        ensures
            match parse_batch(data@) {
                Some((header, ops)) => res is Ok && final(self)@ == old(self)@.unlogged(ops),
                None => res == Err::<(), Fatal>(Fatal::MalformedPayload) && final(self)@ == old(
                    self,
                )@,
            },
    {
        let (header, ops) = match decode_batch(data) {
            Some(x) => x,
            None => { return Err(Fatal::MalformedPayload); },
        };
        let ghost all = op_views(ops@);
        let mut i: usize = 0;
        assert(all.skip(0) == all);
        while i < ops.len()
            invariant
                i <= ops.len(),
                all == op_views(ops@),
                old(self)@.unlogged(all) == self@.unlogged(all.skip(i as int)),
            decreases ops.len() - i,
        {
            proof {
                let left = all.skip(i as int);
                assert(left[0] == ops@[i as int]@);
                assert(left.drop_first() == all.skip(i + 1));
            }
            match &ops[i] {
                WriteOp::Put { cf, key, value } => {
                    let _ = self.put_unless(false, *cf, None, key.as_slice(), value.as_slice());
                },
                WriteOp::Delete { cf, key } => {
                    let _ = self.delete_unless(false, *cf, None, key.as_slice());
                },
                WriteOp::DeleteRange { cf, start_key, end_key, notify_only } => {
                    self.delete_range_unless(false, *cf, None);
                },
                WriteOp::Ingest { ssts } => {},
            }
            i += 1;
        }
        Ok(())
    }

    /// Applies `entries` in order, flushes the buffer, and then answers the
    /// channels of each entry with the outcome of that entry.
    ///
    /// When an entry is malformed, the run ends there: the entries before it
    /// are applied, but nothing is flushed and no channel is answered.
    pub fn apply_committed_entries(&mut self, entries: Vec<CommittedEntry>) -> (res: Result<
        (),
        Fatal,
    >)
        ensures
            match old(self)@.run(entry_views(entries@)).fatal {
                None => res is Ok && final(self)@ == (ApplyView {
                    actions: old(self)@.run(entry_views(entries@)).state.flushed().actions + old(
                        self,
                    )@.run(entry_views(entries@)).reports,
                    ..old(self)@.run(entry_views(entries@)).state.flushed()
                }),
                Some(fatal) => res == Err::<(), Fatal>(fatal) && final(self)@ == old(self)@.run(
                    entry_views(entries@),
                ).state,
            },
    {
        let ghost all = entry_views(entries@);
        let ghost goal = old(self)@.run(all);
        let mut owed: Vec<Action> = Vec::new();
        assert(all.skip(0) == all);
        assert(action_views(owed@) + goal.reports == goal.reports);
        for entry in it: entries
            invariant
                entry_views(it.seq()) == all,
                goal == old(self)@.run(all),
                goal == (Run {
                    state: self@.run(all.skip(it.index() as int)).state,
                    reports: action_views(owed@) + self@.run(all.skip(it.index() as int)).reports,
                    fatal: self@.run(all.skip(it.index() as int)).fatal,
                }),
        {
            let ghost i = it.index() as int;
            let ghost before = self@;
            let ghost listed = action_views(owed@);
            proof {
                let left = all.skip(i);
                assert(left[0] == entry@);
                assert(left.drop_first() == all.skip(i + 1));
            }
            let CommittedEntry { index, data, channels } = entry;
            let outcome = match self.apply_entry(index, data.as_slice()) {
                Ok(outcome) => outcome,
                Err(fatal) => {
                    return Err(fatal);
                },
            };
            crate::action::push_reports(&mut owed, channels, &outcome);
            proof {
                let rest = self@.run(all.skip(i + 1));
                let mine = reports(channels@, outcome@);
                assert((listed + mine) + rest.reports == listed + (mine + rest.reports));
            }
        }
        proof {
            assert(all.skip(all.len() as int).len() == 0);
            assert(action_views(owed@) + Seq::<ActionView>::empty() == action_views(owed@));
        }
        self.flush();
        self.enqueue(&mut owed);
        Ok(())
    }
}

} // verus!
