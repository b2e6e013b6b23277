//! The apply engine: executes committed operations against local storage,
//! each of them once.
//!
//! Entries arrive in log order, and the log may deliver again what was
//! applied already. For each column family the engine keeps the index of the
//! last write that it applied there. An operation whose index is not beyond
//! that index is skipped. The operations of one entry share the index of the
//! entry: whether they are skipped is decided for all of them by the table as
//! the entry found it. Puts and deletes are staged in a write buffer that is
//! opened on the first mutation and written out as one atomic batch when it
//! is flushed.

use vstd::prelude::*;
use crate::action::{
    Action,
    ActionView,
    Mutation,
    MutationView,
    Outcome,
    action_views,
    append_actions,
    mutation_views,
    push_action,
    push_reports,
    reports,
};
use crate::channel::ResponseChannel;
use crate::errors::{Error, ErrorView};
use crate::keys::{check_key_in_region, copy_bytes, data_key, data_key_spec, key_in_range};
use crate::metadata::{ColumnFamily, DATA_CFS_LEN, Region, RegionView};
use crate::size::{sat, sat_add};
use crate::sst::{check_sst_for_ingestion, sst_check_error};
use crate::write_op::{SstMeta, SstMetaView, sst_views};

verus! {

/// `n` as a saturating `i64`.
pub open spec fn clamp_i64(n: int) -> i64 {
    if n >= i64::MAX {
        i64::MAX
    } else if n <= i64::MIN {
        i64::MIN
    } else {
        n as i64
    }
}

/// One validation request for each descriptor, in order.
pub open spec fn validations(ssts: Seq<SstMetaView>) -> Seq<ActionView> {
    Seq::new(ssts.len(), |i: int| ActionView::ValidateSst { sst: ssts[i] })
}

/// Position of the first descriptor that may not be ingested into `region`,
/// or the length of `ssts` if each of them may.
pub open spec fn first_unfit(ssts: Seq<SstMetaView>, region: RegionView) -> int
    decreases ssts.len(),
{
    if ssts.len() == 0 {
        0
    } else if sst_check_error(ssts[0], region) is Some {
        0
    } else {
        1 + first_unfit(ssts.drop_first(), region)
    }
}

/// The apply engine of one partition. It is owned by the one task that
/// applies the entries of that partition.
pub struct Apply {
    region: Region,
    modifications: [u64; DATA_CFS_LEN],
    write_batch: Option<Vec<Mutation>>,
    staged_bytes: usize,
    size_diff_hint: i64,
    flush_threshold: usize,
    actions: Vec<Action>,
}

/// Mathematical value of an [`Apply`].
pub struct ApplyView {
    pub region: RegionView,
    /// For each column family, the index of the last write applied to it.
    pub modifications: IndexTable,
    /// The staged mutations, oldest first; `None` while the buffer is closed.
    pub write_batch: Option<Seq<MutationView>>,
    /// Bytes of keys and values staged since the buffer was opened.
    pub staged_bytes: usize,
    /// By how many bytes the applied writes have grown the partition.
    pub size_diff_hint: i64,
    /// Staged bytes from which on the buffer is flushed after an entry.
    pub flush_threshold: usize,
    /// What is left to be carried out, oldest first.
    pub actions: Seq<ActionView>,
}

/// An index for each column family.
pub struct IndexTable {
    pub default: u64,
    pub lock: u64,
    pub write: u64,
}

impl IndexTable {
    /// The index of `cf`.
    pub open spec fn at(self, cf: ColumnFamily) -> u64 {
        match cf {
            ColumnFamily::Default => self.default,
            ColumnFamily::Lock => self.lock,
            ColumnFamily::Write => self.write,
        }
    }

    /// The table with `index` for `cf` and the other indices as they are.
    pub open spec fn with(self, cf: ColumnFamily, index: u64) -> IndexTable {
        match cf {
            ColumnFamily::Default => IndexTable { default: index, ..self },
            ColumnFamily::Lock => IndexTable { lock: index, ..self },
            ColumnFamily::Write => IndexTable { write: index, ..self },
        }
    }
}

/// The table that `entries` holds, each column family at its offset.
pub open spec fn table_of(entries: Seq<u64>) -> IndexTable {
    IndexTable { default: entries[0], lock: entries[1], write: entries[2] }
}

/// By the table `table`, an operation at `index` on `cf` was applied before.
pub open spec fn applied_before(table: IndexTable, cf: ColumnFamily, index: u64) -> bool {
    index <= table.at(cf)
}

/// What an operation made of the state, and the error it ended with.
pub struct Step {
    pub state: ApplyView,
    pub error: Option<ErrorView>,
}

impl ApplyView {
    /// The state of an engine that starts for `region` and has applied the
    /// writes of each column family up to `modifications`.
    pub open spec fn started(
        region: RegionView,
        modifications: IndexTable,
        flush_threshold: usize,
    ) -> ApplyView {
        ApplyView {
            region,
            modifications,
            write_batch: None,
            staged_bytes: 0,
            size_diff_hint: 0,
            flush_threshold,
            actions: Seq::empty(),
        }
    }

    /// The staged mutations, none while the buffer is closed.
    pub open spec fn staged(self) -> Seq<MutationView> {
        match self.write_batch {
            Some(batch) => batch,
            None => Seq::empty(),
        }
    }

    /// An operation at `index` on `cf` was applied before: its index is not
    /// beyond the index of the last write applied to `cf`.
    pub open spec fn skips(self, cf: ColumnFamily, index: u64) -> bool {
        index <= self.modifications.at(cf)
    }

    /// The table once a write at `index` on `cf` is applied: the entry of
    /// `cf` moves up to `index` and never back.
    pub open spec fn recorded(self, cf: ColumnFamily, index: u64) -> IndexTable {
        if index > self.modifications.at(cf) {
            self.modifications.with(cf, index)
        } else {
            self.modifications
        }
    }

    /// The table once a write on `cf` is applied that was decided at `index`,
    /// or that went past the log and has no index: such a write leaves the
    /// table as it is.
    pub open spec fn noted(self, cf: ColumnFamily, index: Option<u64>) -> IndexTable {
        match index {
            Some(index) => self.recorded(cf, index),
            None => self.modifications,
        }
    }

    /// The state once `action` is asked for.
    pub open spec fn act(self, action: ActionView) -> ApplyView {
        ApplyView { actions: self.actions.push(action), ..self }
    }

    /// The state once `mutation`, of `bytes` bytes, is staged.
    pub open spec fn stage(self, mutation: MutationView, bytes: int) -> ApplyView {
        ApplyView {
            write_batch: Some(self.staged().push(mutation)),
            staged_bytes: sat(self.staged_bytes + bytes),
            ..self
        }
    }

    /// The state once the buffer is flushed and closed.
    pub open spec fn flushed(self) -> ApplyView {
        ApplyView {
            write_batch: None,
            staged_bytes: 0,
            actions: if self.staged().len() > 0 {
                self.actions.push(ActionView::Write { batch: self.staged() })
            } else {
                self.actions
            },
            ..self
        }
    }

    /// A put of `value` under `key` at `index`.
    pub open spec fn put(self, cf: ColumnFamily, index: u64, key: Seq<u8>, value: Seq<u8>) -> Step {
        self.put_unless(self.skips(cf, index), cf, Some(index), key, value)
    }

    /// A delete of `key` at `index`.
    pub open spec fn delete(self, cf: ColumnFamily, index: u64, key: Seq<u8>) -> Step {
        self.delete_unless(self.skips(cf, index), cf, Some(index), key)
    }

    /// A delete of a key range at `index`: the index is recorded, no key is
    /// touched.
    pub open spec fn delete_range(self, cf: ColumnFamily, index: u64) -> Step {
        self.delete_range_unless(self.skips(cf, index), cf, Some(index))
    }

    /// A put that is skipped if `skip` says so: a skipped put changes nothing
    /// and does not fail, whatever its key. A put that is applied records its
    /// index, if it has one.
    pub open spec fn put_unless(
        self,
        skip: bool,
        cf: ColumnFamily,
        index: Option<u64>,
        key: Seq<u8>,
        value: Seq<u8>,
    ) -> Step {
        if skip {
            Step { state: self, error: None }
        } else if !key_in_range(key, self.region.start_key, self.region.end_key) {
            Step {
                state: self,
                error: Some(ErrorView::KeyNotInRegion { key, region_id: self.region.id }),
            }
        } else {
            let engine_key = data_key_spec(key);
            let bytes = (engine_key.len() + value.len()) as int;
            Step {
                state: ApplyView {
                    size_diff_hint: clamp_i64(self.size_diff_hint + bytes),
                    modifications: self.noted(cf, index),
                    ..self.stage(MutationView::Put { cf, key: engine_key, value }, bytes)
                },
                error: None,
            }
        }
    }

    /// A delete that is skipped if `skip` says so.
    pub open spec fn delete_unless(
        self,
        skip: bool,
        cf: ColumnFamily,
        index: Option<u64>,
        key: Seq<u8>,
    ) -> Step {
        if skip {
            Step { state: self, error: None }
        } else if !key_in_range(key, self.region.start_key, self.region.end_key) {
            Step {
                state: self,
                error: Some(ErrorView::KeyNotInRegion { key, region_id: self.region.id }),
            }
        } else {
            let engine_key = data_key_spec(key);
            let bytes = engine_key.len() as int;
            Step {
                state: ApplyView {
                    size_diff_hint: clamp_i64(self.size_diff_hint - bytes),
                    modifications: self.noted(cf, index),
                    ..self.stage(MutationView::Delete { cf, key: engine_key }, bytes)
                },
                error: None,
            }
        }
    }

    /// A delete of a key range that is skipped if `skip` says so.
    pub open spec fn delete_range_unless(
        self,
        skip: bool,
        cf: ColumnFamily,
        index: Option<u64>,
    ) -> Step {
        if skip {
            Step { state: self, error: None }
        } else {
            Step {
                state: ApplyView { modifications: self.noted(cf, index), ..self },
                error: None,
            }
        }
    }

    /// The ingestion of the files that `ssts` describes.
    ///
    /// The descriptors are taken in order. Each one that may be ingested is
    /// handed to the validator. The first one that may not is deleted and
    /// ends the ingestion with its error: the buffer is not flushed and no
    /// file is ingested. If all of them may, the buffer is flushed and then
    /// the files are ingested together.
    pub open spec fn ingest(self, ssts: Seq<SstMetaView>) -> Step {
        let k = first_unfit(ssts, self.region);
        if k < ssts.len() {
            Step {
                state: ApplyView {
                    actions: (self.actions + validations(ssts.take(k))).push(
                        ActionView::DeleteSst { sst: ssts[k] },
                    ),
                    ..self
                },
                error: sst_check_error(ssts[k], self.region),
            }
        } else {
            let validated = ApplyView { actions: self.actions + validations(ssts), ..self };
            Step { state: validated.flushed().act(ActionView::Ingest { ssts }), error: None }
        }
    }
}

/// `res` is the result that goes with `error`.
pub open spec fn result_is(res: Result<(), Error>, error: Option<ErrorView>) -> bool {
    match error {
        Some(e) => res is Err && res->Err_0@ == e,
        None => res is Ok,
    }
}

impl View for Apply {
    type V = ApplyView;

    closed spec fn view(&self) -> ApplyView {
        ApplyView {
            region: self.region@,
            modifications: table_of(self.modifications@),
            write_batch: match self.write_batch {
                Some(batch) => Some(mutation_views(batch@)),
                None => None,
            },
            staged_bytes: self.staged_bytes,
            size_diff_hint: self.size_diff_hint,
            flush_threshold: self.flush_threshold,
            actions: action_views(self.actions@),
        }
    }
}

/// `hint + grow - shrink`, saturating.
fn moved_hint(hint: i64, grow: usize, shrink: usize) -> (moved: i64)
    ensures
        moved == clamp_i64(hint + grow - shrink),
{
    let wide: i128 = hint as i128 + grow as i128 - shrink as i128;
    if wide >= i64::MAX as i128 {
        i64::MAX
    } else if wide <= i64::MIN as i128 {
        i64::MIN
    } else {
        wide as i64
    }
}

impl Apply {
    /// An apply engine for `region` that has applied the writes of each
    /// column family up to `modifications`. Nothing is staged.
    pub fn new(region: Region, modifications: [u64; DATA_CFS_LEN], flush_threshold: usize) -> (apply:
        Apply)
        ensures
            apply@ == ApplyView::started(region@, table_of(modifications@), flush_threshold),
    {
        let apply = Apply {
            region,
            modifications,
            write_batch: None,
            staged_bytes: 0,
            size_diff_hint: 0,
            flush_threshold,
            actions: Vec::new(),
        };
        assert(action_views(apply.actions@) == Seq::<ActionView>::empty());
        apply
    }

    /// The partition as the engine knows it.
    pub fn region(&self) -> (region: &Region)
        ensures
            region@ == self@.region,
    {
        &self.region
    }

    /// The partition has a new range or epoch.
    pub fn set_region(&mut self, region: Region)
        ensures
            final(self)@ == (ApplyView { region: region@, ..old(self)@ }),
    {
        self.region = region;
    }

    /// For each column family, the index of the last write applied to it.
    pub fn modifications(&self) -> (table: [u64; DATA_CFS_LEN])
        ensures
            table_of(table@) == self@.modifications,
    {
        self.modifications
    }

    /// By how many bytes the applied writes have grown the partition.
    pub fn size_diff_hint(&self) -> (hint: i64)
        ensures
            hint == self@.size_diff_hint,
    {
        self.size_diff_hint
    }

    /// Bytes of keys and values staged since the buffer was opened.
    pub fn staged_bytes(&self) -> (bytes: usize)
        ensures
            bytes == self@.staged_bytes,
    {
        self.staged_bytes
    }

    /// Staged bytes from which on the buffer is flushed after an entry.
    pub fn flush_threshold(&self) -> (bytes: usize)
        ensures
            bytes == self@.flush_threshold,
    {
        self.flush_threshold
    }

    /// The staged mutations, oldest first, while the buffer is open.
    pub fn write_batch(&self) -> (batch: Option<&Vec<Mutation>>)
        ensures
            match self@.write_batch {
                Some(staged) => batch is Some && mutation_views(batch.unwrap()@) == staged,
                None => batch is None,
            },
    {
        self.write_batch.as_ref()
    }

    /// The actions that are left to be carried out, oldest first.
    pub fn actions(&self) -> (actions: &Vec<Action>)
        ensures
            action_views(actions@) == self@.actions,
    {
        &self.actions
    }

    /// Hands out the actions that are left to be carried out, oldest first.
    pub fn take_actions(&mut self) -> (actions: Vec<Action>)
        ensures
            action_views(actions@) == old(self)@.actions,
            final(self)@ == (ApplyView { actions: Seq::empty(), ..old(self)@ }),
    {
        let mut actions: Vec<Action> = Vec::new();
        core::mem::swap(&mut self.actions, &mut actions);
        assert(action_views(self.actions@) == Seq::<ActionView>::empty());
        actions
    }

    /// Answers each of `channels` with `outcome`.
    pub fn answer(&mut self, channels: Vec<ResponseChannel>, outcome: &Outcome)
        ensures
            final(self)@ == (ApplyView {
                actions: old(self)@.actions + reports(channels@, outcome@),
                ..old(self)@
            }),
    {
        push_reports(&mut self.actions, channels, outcome);
    }

    /// Moves `more` behind the actions that are left to be carried out.
    pub fn enqueue(&mut self, more: &mut Vec<Action>)
        ensures
            final(self)@ == (ApplyView {
                actions: old(self)@.actions + action_views(old(more)@),
                ..old(self)@
            }),
            final(more)@.len() == 0,
    {
        append_actions(&mut self.actions, more);
    }

    /// Whether an operation at `index` on `cf` was applied before.
    pub fn should_skip(&self, cf: ColumnFamily, index: u64) -> (skip: bool)
        ensures
            skip == self@.skips(cf, index),
    {
        index <= self.modifications[cf.offset()]
    }

    /// Opens the write buffer unless it is open.
    pub fn ensure_write_buffer(&mut self)
        ensures
            final(self)@ == (ApplyView { write_batch: Some(old(self)@.staged()), ..old(self)@ }),
    {
        if self.write_batch.is_none() {
            self.write_batch = Some(Vec::new());
            assert(mutation_views(Seq::<Mutation>::empty()) == Seq::<MutationView>::empty());
        }
    }

    /// Stages `mutation` in the open or newly opened buffer.
    fn stage(&mut self, mutation: Mutation, bytes: usize)
        ensures
            final(self)@ == old(self)@.stage(mutation@, bytes as int),
    {
        self.ensure_write_buffer();
        match &mut self.write_batch {
            Some(batch) => {
                let ghost before = batch@;
                batch.push(mutation);
                assert(mutation_views(before.push(mutation)) == mutation_views(before).push(
                    mutation@,
                ));
            },
            None => {},
        }
        self.staged_bytes = sat_add(self.staged_bytes, bytes);
    }

    /// Records that a write on `cf` is applied, under the index at which it
    /// was decided, if it has one.
    fn track(&mut self, cf: ColumnFamily, index: Option<u64>)
        ensures
            final(self)@ == (ApplyView {
                modifications: old(self)@.noted(cf, index),
                ..old(self)@
            }),
    {
        match index {
            Some(index) => {
                let off = cf.offset();
                if index > self.modifications[off] {
                    self.modifications[off] = index;
                }
            },
            None => {},
        }
    }

    /// Hands the staged mutations over as one atomic write and closes the
    /// buffer. An empty buffer is closed without a write.
    pub fn flush(&mut self)
        ensures
            final(self)@ == old(self)@.flushed(),
    {
        match self.write_batch.take() {
            Some(batch) => {
                if batch.len() > 0 {
                    push_action(&mut self.actions, Action::Write { batch });
                }
            },
            None => {},
        }
        self.staged_bytes = 0;
    }

    /// Applies a put of `value` under `key`, decided at log index `index`.
    /// A put whose index is not beyond the index recorded for `cf` is
    /// skipped: it changes nothing and does not fail.
    pub fn apply_put(&mut self, cf: ColumnFamily, index: u64, key: &[u8], value: &[u8]) -> (res:
        Result<(), Error>)
        ensures
            result_is(res, old(self)@.put(cf, index, key@, value@).error),
            final(self)@ == old(self)@.put(cf, index, key@, value@).state,
    {
        let skip = self.should_skip(cf, index);
        self.put_unless(skip, cf, Some(index), key, value)
    }

    /// Applies a put unless `skip` holds. The caller decides the skip: by
    /// the table as it stands, or for the operations of one entry by the
    /// table as the entry found it. A put without an index went past the
    /// log and is not recorded.
    pub(crate) fn put_unless(
        &mut self,
        skip: bool,
        cf: ColumnFamily,
        index: Option<u64>,
        key: &[u8],
        value: &[u8],
    ) -> (res: Result<(), Error>)
        ensures
            result_is(res, old(self)@.put_unless(skip, cf, index, key@, value@).error),
            final(self)@ == old(self)@.put_unless(skip, cf, index, key@, value@).state,
    {
        if skip {
            return Ok(());
        }
        match check_key_in_region(key, &self.region) {
            Err(e) => { return Err(e); },
            Ok(()) => {},
        }
        // The engine key carries a prefix, so that no stored key is an
        // unbounded upper end.
        let engine_key = data_key(key);
        let key_len = engine_key.len();
        let value_len = value.len();
        assert(key_len + value_len == data_key_spec(key@).len() + value@.len());
        self.size_diff_hint = moved_hint(moved_hint(self.size_diff_hint, key_len, 0), value_len, 0);
        let bytes = sat_add(key_len, value_len);
        self.stage(Mutation::Put { cf, key: engine_key, value: copy_bytes(value) }, bytes);
        self.track(cf, index);
        Ok(())
    }

    /// Applies a delete of `key`, decided at log index `index`. A delete
    /// whose index is not beyond the index recorded for `cf` is skipped.
    pub fn apply_delete(&mut self, cf: ColumnFamily, index: u64, key: &[u8]) -> (res: Result<
        (),
        Error,
    >)
        ensures
            result_is(res, old(self)@.delete(cf, index, key@).error),
            final(self)@ == old(self)@.delete(cf, index, key@).state,
    {
        let skip = self.should_skip(cf, index);
        self.delete_unless(skip, cf, Some(index), key)
    }

    /// Applies a delete unless `skip` holds.
    pub(crate) fn delete_unless(
        &mut self,
        skip: bool,
        cf: ColumnFamily,
        index: Option<u64>,
        key: &[u8],
    ) -> (res: Result<(), Error>)
        ensures
            result_is(res, old(self)@.delete_unless(skip, cf, index, key@).error),
            final(self)@ == old(self)@.delete_unless(skip, cf, index, key@).state,
    {
        if skip {
            return Ok(());
        }
        match check_key_in_region(key, &self.region) {
            Err(e) => { return Err(e); },
            Ok(()) => {},
        }
        let engine_key = data_key(key);
        let key_len = engine_key.len();
        self.size_diff_hint = moved_hint(self.size_diff_hint, 0, key_len);
        self.stage(Mutation::Delete { cf, key: engine_key }, key_len);
        self.track(cf, index);
        Ok(())
    }

    /// Applies a delete of the keys in `[start_key, end_key)`, decided at log
    /// index `index`.
    ///
    /// The operation is accepted and its index is recorded. The range itself
    /// is left alone: deleting ranges is the business of the cleanup that
    /// follows a boundary change, not of this pipeline.
    pub fn apply_delete_range(
        &mut self,
        cf: ColumnFamily,
        index: u64,
        start_key: &[u8],
        end_key: &[u8],
        notify_only: bool,
    ) -> (res: Result<(), Error>)
        ensures
            res is Ok,
            final(self)@ == old(self)@.delete_range(cf, index).state,
    {
        let skip = self.should_skip(cf, index);
        self.delete_range_unless(skip, cf, Some(index));
        Ok(())
    }

    /// Records a delete of a key range unless `skip` holds.
    pub(crate) fn delete_range_unless(
        &mut self,
        skip: bool,
        cf: ColumnFamily,
        index: Option<u64>,
    )
        ensures
            final(self)@ == old(self)@.delete_range_unless(skip, cf, index).state,
    {
        if !skip {
            self.track(cf, index);
        }
    }

    /// Applies the ingestion of the files that `ssts` describes.
    pub fn apply_ingest(&mut self, ssts: Vec<SstMeta>) -> (res: Result<(), Error>)
        ensures
            result_is(res, old(self)@.ingest(sst_views(ssts@)).error),
            final(self)@ == old(self)@.ingest(sst_views(ssts@)).state,
    {
        let ghost all = sst_views(ssts@);
        let ghost region = self.region@;
        let mut i: usize = 0;
        proof {
            assert(all.skip(0) == all);
            assert(old(self)@.actions + validations(all.take(0)) == old(self)@.actions);
        }
        while i < ssts.len()
            invariant
                i <= ssts.len(),
                all == sst_views(ssts@),
                region == self.region@,
                region == old(self)@.region,
                first_unfit(all, region) == i + first_unfit(all.skip(i as int), region),
                self@ == (ApplyView {
                    actions: old(self)@.actions + validations(all.take(i as int)),
                    ..old(self)@
                }),
            decreases ssts.len() - i,
        {
            proof {
                let left = all.skip(i as int);
                assert(left[0] == ssts@[i as int]@);
                assert(left.drop_first() == all.skip(i + 1));
            }
            match check_sst_for_ingestion(&ssts[i], &self.region) {
                Err(e) => {
                    // The file is of no use here; whether it can be deleted
                    // changes nothing.
                    push_action(&mut self.actions, Action::DeleteSst { sst: ssts[i].duplicate() });
                    return Err(e);
                },
                Ok(()) => {},
            }
            push_action(&mut self.actions, Action::ValidateSst { sst: ssts[i].duplicate() });
            proof {
                assert(validations(all.take(i + 1)) == validations(all.take(i as int)).push(
                    ActionView::ValidateSst { sst: all[i as int] },
                ));
            }
            i += 1;
        }
        proof {
            assert(all.take(i as int) == all);
            assert(all.skip(i as int).len() == 0);
        }
        // An ingestion cannot share a batch with buffered mutations.
        self.flush();
        push_action(&mut self.actions, Action::Ingest { ssts });
        Ok(())
    }
}

} // verus!
