//! Laws of the apply engine: writes reach the engine once, and in the order
//! in which the operations were decided.
//!
//! An operation that stands alone is skipped by the table as it stands. An
//! operation of an entry is skipped by the table as the entry found it, which
//! the laws below call `seen`; for the first operation of an entry the two
//! are the same.

use vstd::prelude::*;
use crate::action::{ActionView, MutationView};
use crate::apply::{ApplyView, IndexTable, Step, applied_before, first_unfit, validations};
use crate::engine::{ingested, value_after, written};
use crate::entries::{CommittedEntryView, lemma_failure_is_stable, lemma_none_fails};
use crate::keys::{
    NORMAL_REQ_CHECK_CONF_VER,
    NORMAL_REQ_CHECK_VER,
    data_key_spec,
    epoch_stale,
    key_in_range,
};
use crate::metadata::{ColumnFamily, RegionView, WriteHeader};
use crate::roundtrip::{law_decode_inverts_encode, ops_fit};
use crate::wire::enc_batch;
use crate::write_op::{SstMetaView, WriteOpView};

verus! {

/// The engine that starts anew with what `state` has recorded as applied.
pub open spec fn restarted(state: ApplyView) -> ApplyView {
    ApplyView::started(state.region, state.modifications, state.flush_threshold)
}

/// Every mutation that the state has handed or will hand to the engine, in
/// the order in which the engine gets them: those of the writes that are
/// listed, then those that are staged.
pub open spec fn write_log(state: ApplyView) -> Seq<MutationView> {
    written(state.actions) + state.staged()
}

/// `after` is `before` with something behind it.
pub open spec fn extends<T>(after: Seq<T>, before: Seq<T>) -> bool {
    before.len() <= after.len() && after.take(before.len() as int) == before
}

/// The column family of an operation that is skipped by its index.
pub open spec fn family(op: WriteOpView) -> Option<ColumnFamily> {
    match op {
        WriteOpView::Put { cf, key, value } => Some(cf),
        WriteOpView::Delete { cf, key } => Some(cf),
        WriteOpView::DeleteRange { cf, start_key, end_key, notify_only } => Some(cf),
        WriteOpView::Ingest { ssts } => None,
    }
}

/// The mutation that an operation stages when it is applied.
pub open spec fn mutation_of(op: WriteOpView) -> Option<MutationView> {
    match op {
        WriteOpView::Put { cf, key, value } => Some(
            MutationView::Put { cf, key: data_key_spec(key), value },
        ),
        WriteOpView::Delete { cf, key } => Some(
            MutationView::Delete { cf, key: data_key_spec(key) },
        ),
        _ => None,
    }
}

/// An operation at `index` of an entry that found the table `seen` stages its
/// mutation: it is a put or a delete that `seen` does not skip and whose key
/// lies in the partition.
pub open spec fn stages_seen(region: RegionView, seen: IndexTable, index: u64, op: WriteOpView) -> bool {
    match op {
        WriteOpView::Put { cf, key, value } => !applied_before(seen, cf, index) && key_in_range(
            key,
            region.start_key,
            region.end_key,
        ),
        WriteOpView::Delete { cf, key } => !applied_before(seen, cf, index) && key_in_range(
            key,
            region.start_key,
            region.end_key,
        ),
        _ => false,
    }
}

/// An operation at `index` that stands alone stages its mutation in `state`:
/// it is a put or a delete whose index is beyond the index recorded for its
/// column family and whose key lies in the partition.
pub open spec fn stages(state: ApplyView, index: u64, op: WriteOpView) -> bool {
    stages_seen(state.region, state.modifications, index, op)
}

/// The mutations that the operations `ops` of an entry at `index` stage, in
/// order, when the entry has found the table `seen`.
pub open spec fn staged_by(
    region: RegionView,
    seen: IndexTable,
    index: u64,
    ops: Seq<WriteOpView>,
) -> Seq<MutationView>
    decreases ops.len(),
{
    if ops.len() == 0 {
        Seq::empty()
    } else {
        (if stages_seen(region, seen, index, ops[0]) {
            seq![mutation_of(ops[0]).unwrap()]
        } else {
            Seq::empty()
        }) + staged_by(region, seen, index, ops.drop_first())
    }
}

/// What two lists of actions write is what the first writes, then what the
/// second writes.
pub proof fn lemma_written_concat(a: Seq<ActionView>, b: Seq<ActionView>)
    ensures
        written(a + b) == written(a) + written(b),
        ingested(a + b) == ingested(a) + ingested(b),
    decreases b.len(),
{
    if b.len() == 0 {
        assert(a + b == a);
    } else {
        assert((a + b).drop_last() == a + b.drop_last());
        lemma_written_concat(a, b.drop_last());
    }
}

/// One more action adds what it writes or ingests, if anything.
pub proof fn lemma_written_push(a: Seq<ActionView>, action: ActionView)
    ensures
        written(a.push(action)) == written(a) + (match action {
            ActionView::Write { batch } => batch,
            _ => Seq::empty(),
        }),
        ingested(a.push(action)) == ingested(a) + (match action {
            ActionView::Ingest { ssts } => ssts,
            _ => Seq::empty(),
        }),
{
    assert(a.push(action).drop_last() == a);
}

/// Asking for validations writes nothing and ingests nothing.
pub proof fn lemma_validations_write_nothing(ssts: Seq<SstMetaView>)
    ensures
        written(validations(ssts)) == Seq::<MutationView>::empty(),
        ingested(validations(ssts)) == Seq::<SstMetaView>::empty(),
    decreases ssts.len(),
{
    if ssts.len() > 0 {
        assert(validations(ssts).drop_last() == validations(ssts.drop_last()));
        lemma_validations_write_nothing(ssts.drop_last());
    }
}

/// What extends an extension of `a` extends `a`.
pub proof fn lemma_extends_transitive<T>(a: Seq<T>, b: Seq<T>, c: Seq<T>)
    requires
        extends(b, a),
        extends(c, b),
    ensures
        extends(c, a),
{
    assert(c.take(a.len() as int) == c.take(b.len() as int).take(a.len() as int));
}

/// A flush changes neither which mutations reach the engine nor their
/// order: it moves the staged ones into a write.
pub proof fn law_flush_keeps_write_log(state: ApplyView)
    ensures
        write_log(state.flushed()) == write_log(state),
        ingested(state.flushed().actions) == ingested(state.actions),
        state.flushed().write_batch is None,
        state.flushed().modifications == state.modifications,
{
    if state.staged().len() > 0 {
        lemma_written_push(state.actions, ActionView::Write { batch: state.staged() });
    }
    assert(write_log(state.flushed()) == write_log(state));
}

/// Replaying changes nothing: an operation whose index is not beyond the
/// index that is recorded for its column family leaves the whole state as it
/// is, and with it what is and what will be stored. It does not fail either,
/// whatever its key.
pub proof fn law_replayed_operation_changes_nothing(state: ApplyView, index: u64, op: WriteOpView)
    requires
        replayed(state, index, op),
    ensures
        state.op(index, op) == (Step { state, error: None }),
        write_log(state.op(index, op).state) == write_log(state),
{
}

/// Applying an operation a second time at its index changes nothing: the
/// operation is applied once.
pub proof fn law_apply_twice_is_apply_once(state: ApplyView, index: u64, op: WriteOpView)
    requires
        op !is Ingest,
    ensures
        state.op(index, op).state.op(index, op).state == state.op(index, op).state,
        state.op(index, op).error is None ==> state.op(index, op).state.op(index, op).error
            is None,
{
}

/// Once an operation is applied at an index, every operation on its column
/// family whose index is not beyond that index is skipped, the operation
/// itself among them.
pub proof fn law_applied_index_skips_what_is_not_beyond(
    state: ApplyView,
    index: u64,
    op: WriteOpView,
    stale: u64,
    later: WriteOpView,
)
    requires
        family(op) is Some,
        family(later) == family(op),
        stale <= index,
        state.op(index, op).error is None,
    ensures
        state.op(index, op).state.skips(family(op).unwrap(), stale),
        state.op(index, op).state.op(stale, later) == (Step {
            state: state.op(index, op).state,
            error: None,
        }),
{
}

/// What was applied once is a replay ever after: an engine that starts anew
/// with what another has recorded skips every operation that the other has
/// applied through the log, and is left unchanged by it.
pub proof fn law_restart_skips_what_was_applied(state: ApplyView, index: u64, op: WriteOpView)
    requires
        family(op) is Some,
        state.op(index, op).error is None,
    ensures
        restarted(state.op(index, op).state).skips(family(op).unwrap(), index),
        restarted(state.op(index, op).state).op(index, op) == (Step {
            state: restarted(state.op(index, op).state),
            error: None,
        }),
{
}

/// The index that is recorded for a column family never decreases, whether
/// an operation stands alone or belongs to an entry.
pub proof fn law_modification_index_never_decreases(
    state: ApplyView,
    seen: IndexTable,
    index: u64,
    op: WriteOpView,
    cf: ColumnFamily,
)
    ensures
        state.op_seen(seen, index, op).state.modifications.at(cf)
            >= state.modifications.at(cf),
        state.op(index, op) == state.op_seen(state.modifications, index, op),
{
    match op {
        WriteOpView::Ingest { ssts } => {
            law_ingest_writes_nothing_new(state, ssts);
        },
        _ => {},
    }
}

/// An ingestion hands no mutation to the engine that was not staged before.
/// One that is turned down goes further: it flushes nothing, ingests nothing,
/// and its last request is the deletion of the file that did not fit.
pub proof fn law_ingest_writes_nothing_new(state: ApplyView, ssts: Seq<SstMetaView>)
    ensures
        write_log(state.ingest(ssts).state) == write_log(state),
        state.ingest(ssts).state.modifications == state.modifications,
        state.ingest(ssts).error is Some <==> first_unfit(ssts, state.region) < ssts.len(),
        state.ingest(ssts).error is Some ==> {
            &&& written(state.ingest(ssts).state.actions) == written(state.actions)
            &&& ingested(state.ingest(ssts).state.actions) == ingested(state.actions)
            &&& state.ingest(ssts).state.write_batch == state.write_batch
            &&& state.ingest(ssts).state.actions.last() == (ActionView::DeleteSst {
                sst: ssts[first_unfit(ssts, state.region)],
            })
        },
        state.ingest(ssts).error is None ==> ingested(state.ingest(ssts).state.actions)
            == ingested(state.actions) + ssts,
{
    let k = first_unfit(ssts, state.region);
    lemma_first_unfit(ssts, state.region);
    if k < ssts.len() {
        let asked = state.actions + validations(ssts.take(k));
        lemma_validations_write_nothing(ssts.take(k));
        lemma_written_concat(state.actions, validations(ssts.take(k)));
        lemma_written_push(asked, ActionView::DeleteSst { sst: ssts[k] });
        assert(written(state.ingest(ssts).state.actions) == written(state.actions));
    } else {
        let validated = ApplyView { actions: state.actions + validations(ssts), ..state };
        lemma_validations_write_nothing(ssts);
        lemma_written_concat(state.actions, validations(ssts));
        law_flush_keeps_write_log(validated);
        lemma_written_push(validated.flushed().actions, ActionView::Ingest { ssts });
        assert(write_log(validated) == write_log(state));
        assert(write_log(state.ingest(ssts).state) == write_log(validated.flushed()));
    }
}

/// `first_unfit` is the position of the first descriptor that fails the
/// check: every descriptor before it passes, and it fails itself unless it is
/// the length of the list.
pub proof fn lemma_first_unfit(ssts: Seq<SstMetaView>, region: crate::metadata::RegionView)
    ensures
        0 <= first_unfit(ssts, region) <= ssts.len(),
        forall|j: int|
            0 <= j < first_unfit(ssts, region) ==> crate::sst::sst_check_error(
                #[trigger] ssts[j],
                region,
            ) is None,
        first_unfit(ssts, region) < ssts.len() ==> crate::sst::sst_check_error(
            ssts[first_unfit(ssts, region)],
            region,
        ) is Some,
    decreases ssts.len(),
{
    if ssts.len() > 0 && crate::sst::sst_check_error(ssts[0], region) is None {
        let rest = ssts.drop_first();
        lemma_first_unfit(rest, region);
        assert forall|j: int| 0 <= j < first_unfit(ssts, region) implies crate::sst::sst_check_error(
            #[trigger] ssts[j],
            region,
        ) is None by {
            if j > 0 {
                assert(ssts[j] == rest[j - 1]);
            }
        }
        if first_unfit(ssts, region) < ssts.len() {
            assert(ssts[first_unfit(ssts, region)] == rest[first_unfit(rest, region)]);
        }
    }
}

/// An operation puts at most its own mutation behind those that reach the
/// engine, and touches none of them. A put or a delete that is not skipped
/// and whose key lies in the partition puts its mutation there; any
/// other operation, a delete of a range among them, puts nothing there.
pub proof fn law_operation_appends_its_mutation(
    state: ApplyView,
    seen: IndexTable,
    index: u64,
    op: WriteOpView,
)
    ensures
        stages_seen(state.region, seen, index, op) ==> write_log(
            state.op_seen(seen, index, op).state,
        ) == write_log(state).push(mutation_of(op).unwrap()),
        !stages_seen(state.region, seen, index, op) ==> write_log(
            state.op_seen(seen, index, op).state,
        ) == write_log(state),
        extends(write_log(state.op_seen(seen, index, op).state), write_log(state)),
        state.op_seen(seen, index, op).state.region == state.region,
        state.op(index, op) == state.op_seen(state.modifications, index, op),
{
    match op {
        WriteOpView::Ingest { ssts } => {
            law_ingest_writes_nothing_new(state, ssts);
        },
        _ => {},
    }
    if stages_seen(state.region, seen, index, op) {
        let m = mutation_of(op).unwrap();
        assert(state.op_seen(seen, index, op).state.staged() == state.staged().push(m));
        assert(written(state.actions) + state.staged().push(m) == (written(state.actions)
            + state.staged()).push(m));
    }
    let before = write_log(state);
    let after = write_log(state.op_seen(seen, index, op).state);
    assert(after.take(before.len() as int) == before);
}

/// The operations of an entry are applied one after the other: applying
/// `a + b` is applying `a` and then, unless `a` failed, `b`.
pub proof fn law_operations_apply_in_order(
    state: ApplyView,
    seen: IndexTable,
    index: u64,
    a: Seq<WriteOpView>,
    b: Seq<WriteOpView>,
)
    ensures
        state.ops_seen(seen, index, a + b) == if state.ops_seen(seen, index, a).error is Some {
            state.ops_seen(seen, index, a)
        } else {
            state.ops_seen(seen, index, a).state.ops_seen(seen, index, b)
        },
    decreases a.len(),
{
    if a.len() == 0 {
        assert(a + b == b);
    } else {
        let first = state.op_seen(seen, index, a[0]);
        assert((a + b)[0] == a[0]);
        assert((a + b).drop_first() == a.drop_first() + b);
        if first.error is None {
            law_operations_apply_in_order(first.state, seen, index, a.drop_first(), b);
        }
    }
}

/// The operations of an entry only put mutations behind those that reach the
/// engine already, and never lower a recorded index.
pub proof fn law_operations_only_append(
    state: ApplyView,
    seen: IndexTable,
    index: u64,
    ops: Seq<WriteOpView>,
)
    ensures
        extends(write_log(state.ops_seen(seen, index, ops).state), write_log(state)),
        forall|cf: ColumnFamily|
            state.ops_seen(seen, index, ops).state.modifications.at(cf)
                >= state.modifications.at(cf),
    decreases ops.len(),
{
    if ops.len() == 0 {
        assert(write_log(state).take(write_log(state).len() as int) == write_log(state));
    } else {
        let first = state.op_seen(seen, index, ops[0]);
        law_operation_appends_its_mutation(state, seen, index, ops[0]);
        assert forall|cf: ColumnFamily|
            first.state.modifications.at(cf)
                >= state.modifications.at(cf) by {
            law_modification_index_never_decreases(state, seen, index, ops[0], cf);
        }
        law_modification_index_never_decreases(state, seen, index, ops[0], ColumnFamily::Default);
        if first.error is None {
            law_operations_only_append(first.state, seen, index, ops.drop_first());
            lemma_extends_transitive(
                write_log(state),
                write_log(first.state),
                write_log(first.state.ops_seen(seen, index, ops.drop_first()).state),
            );
        }
    }
}

/// The operations of one entry do not skip each other: where none of them
/// fails, the entry puts behind what reaches the engine already exactly the
/// mutations of its puts and deletes that the table it found does not skip,
/// in the order of the operations. Two puts of one entry under one key are
/// both staged, and the later one decides.
pub proof fn law_entry_stages_its_operations_in_order(
    state: ApplyView,
    seen: IndexTable,
    index: u64,
    ops: Seq<WriteOpView>,
)
    requires
        state.ops_seen(seen, index, ops).error is None,
    ensures
        write_log(state.ops_seen(seen, index, ops).state) == write_log(state) + staged_by(
            state.region,
            seen,
            index,
            ops,
        ),
    decreases ops.len(),
{
    if ops.len() == 0 {
        assert(write_log(state) + Seq::<MutationView>::empty() == write_log(state));
    } else {
        let first = state.op_seen(seen, index, ops[0]);
        law_operation_appends_its_mutation(state, seen, index, ops[0]);
        law_entry_stages_its_operations_in_order(first.state, seen, index, ops.drop_first());
        let rest = staged_by(state.region, seen, index, ops.drop_first());
        if stages_seen(state.region, seen, index, ops[0]) {
            let m = mutation_of(ops[0]).unwrap();
            assert(write_log(state).push(m) + rest == write_log(state) + (seq![m] + rest));
        } else {
            assert(write_log(state) + (Seq::<MutationView>::empty() + rest) == write_log(state)
                + rest);
        }
    }
}

/// What is applied is what was submitted: an entry whose payload is the
/// encoding of `ops` under a header of the partition's boundary version has
/// exactly `ops` applied, in their order, followed by the flush that the
/// threshold may ask for, unless one of `ops` fails.
pub proof fn law_entry_applies_what_was_encoded(
    state: ApplyView,
    index: u64,
    header: WriteHeader,
    ops: Seq<WriteOpView>,
)
    requires
        ops_fit(ops),
        !epoch_stale(
            header.epoch,
            state.region.epoch,
            NORMAL_REQ_CHECK_CONF_VER,
            NORMAL_REQ_CHECK_VER,
        ),
        state.first_failing(index, ops) == ops.len(),
    ensures
        state.ops_seen(state.modifications, index, ops).error is None,
        state.entry(index, enc_batch(header, ops)) == Some(
            Step {
                state: state.ops_seen(state.modifications, index, ops).state.settled(),
                error: None,
            },
        ),
{
    law_decode_inverts_encode(header, ops);
    lemma_whole_entry_succeeds(state, state, index, ops);
}

/// Where none of the operations fails at the start, none fails on the way.
proof fn lemma_whole_entry_succeeds(
    start: ApplyView,
    state: ApplyView,
    index: u64,
    ops: Seq<WriteOpView>,
)
    requires
        state.region == start.region,
        start.first_failing(index, ops) == ops.len(),
    ensures
        state.ops_seen(start.modifications, index, ops).error is None,
    decreases ops.len(),
{
    if ops.len() > 0 {
        lemma_none_fails(start, index, ops);
        lemma_none_fails(start, index, ops.drop_first());
        lemma_failure_is_stable(start, state, start.modifications, index, ops[0]);
        assert(start.op(index, ops[0]).error is None);
        lemma_whole_entry_succeeds(
            start,
            state.op_seen(start.modifications, index, ops[0]).state,
            index,
            ops.drop_first(),
        );
    }
}

/// An operation at `index` was applied before: it has a column family, and
/// its index is not beyond the index recorded for that family.
pub open spec fn replayed(state: ApplyView, index: u64, op: WriteOpView) -> bool {
    family(op) matches Some(cf) && state.skips(cf, index)
}

/// An entry that was applied is skipped whole when the log delivers it
/// again: each of its puts, deletes and range deletes is skipped, so that
/// none of them stages anything or moves the table. Only an ingestion, which
/// carries no index of its own, is taken up again.
pub proof fn law_replayed_entry_stages_nothing(
    state: ApplyView,
    index: u64,
    ops: Seq<WriteOpView>,
)
    requires
        forall|i: int| 0 <= i < ops.len() ==> replayed(state, index, #[trigger] ops[i]),
    ensures
        state.first_failing(index, ops) == ops.len(),
        state.ops_seen(state.modifications, index, ops) == (Step { state, error: None }),
    decreases ops.len(),
{
    if ops.len() > 0 {
        assert(replayed(state, index, ops[0]));
        let rest = ops.drop_first();
        assert forall|i: int| 0 <= i < rest.len() implies replayed(
            state,
            index,
            #[trigger] rest[i],
        ) by {
            assert(rest[i] == ops[i + 1]);
        }
        law_replayed_entry_stages_nothing(state, index, rest);
    }
}

/// An entry is applied whole or not at all: one that ends with an error
/// hands no mutation to the engine, stages none, ingests no file, and leaves
/// the recorded indices where they were.
pub proof fn law_failed_entry_writes_nothing(state: ApplyView, index: u64, data: Seq<u8>)
    requires
        state.entry(index, data) matches Some(step) && step.error is Some,
    ensures
        ({
            let after = state.entry(index, data).unwrap().state;
            &&& written(after.actions) == written(state.actions)
            &&& ingested(after.actions) == ingested(state.actions)
            &&& after.write_batch == state.write_batch
            &&& after.staged_bytes == state.staged_bytes
            &&& after.modifications == state.modifications
            &&& after.size_diff_hint == state.size_diff_hint
        }),
{
    let (header, ops) = crate::parse::parse_batch(data).unwrap();
    if !epoch_stale(
        header.epoch,
        state.region.epoch,
        NORMAL_REQ_CHECK_CONF_VER,
        NORMAL_REQ_CHECK_VER,
    ) {
        let k = state.first_failing(index, ops);
        lemma_none_fails(state, index, ops);
        match ops[k] {
            WriteOpView::Ingest { ssts } => {
                law_ingest_writes_nothing_new(state, ssts);
            },
            _ => {},
        }
    }
}

/// A run of entries only puts mutations behind those that reach the engine
/// already: no write of an entry gets in front of a write of an earlier
/// entry, and no recorded index is lowered.
pub proof fn law_run_only_appends(state: ApplyView, entries: Seq<CommittedEntryView>)
    ensures
        extends(write_log(state.run(entries).state), write_log(state)),
        forall|cf: ColumnFamily|
            state.run(entries).state.modifications.at(cf)
                >= state.modifications.at(cf),
    decreases entries.len(),
{
    let log = write_log(state);
    assert(log.take(log.len() as int) == log);
    if entries.len() > 0 {
        match state.entry(entries[0].index, entries[0].data) {
            None => {},
            Some(step) => {
                lemma_entry_only_appends(state, entries[0].index, entries[0].data);
                law_run_only_appends(step.state, entries.drop_first());
                lemma_extends_transitive(
                    log,
                    write_log(step.state),
                    write_log(step.state.run(entries.drop_first()).state),
                );
            },
        }
    }
}

proof fn lemma_entry_only_appends(state: ApplyView, index: u64, data: Seq<u8>)
    requires
        state.entry(index, data) is Some,
    ensures
        extends(write_log(state.entry(index, data).unwrap().state), write_log(state)),
        forall|cf: ColumnFamily|
            state.entry(index, data).unwrap().state.modifications.at(cf)
                >= state.modifications.at(cf),
{
    let log = write_log(state);
    assert(log.take(log.len() as int) == log);
    let (header, ops) = crate::parse::parse_batch(data).unwrap();
    if !epoch_stale(
        header.epoch,
        state.region.epoch,
        NORMAL_REQ_CHECK_CONF_VER,
        NORMAL_REQ_CHECK_VER,
    ) {
        let k = state.first_failing(index, ops);
        lemma_none_fails(state, index, ops);
        if k < ops.len() {
            law_operation_appends_its_mutation(state, state.modifications, index, ops[k]);
            assert forall|cf: ColumnFamily|
                state.op(index, ops[k]).state.modifications.at(cf)
                    >= state.modifications.at(cf) by {
                law_modification_index_never_decreases(
                    state,
                    state.modifications,
                    index,
                    ops[k],
                    cf,
                );
            }
            law_modification_index_never_decreases(
                state,
                state.modifications,
                index,
                ops[k],
                ColumnFamily::Default,
            );
        } else {
            law_operations_only_append(state, state.modifications, index, ops);
            law_flush_keeps_write_log(state.ops_seen(state.modifications, index, ops).state);
        }
    }
}

/// A write that went past the log leaves the table as it is, and only puts
/// mutations behind those that reach the engine already.
pub proof fn law_unlogged_write_leaves_the_table(state: ApplyView, ops: Seq<WriteOpView>)
    ensures
        state.unlogged(ops).modifications == state.modifications,
        state.unlogged(ops).region == state.region,
        extends(write_log(state.unlogged(ops)), write_log(state)),
    decreases ops.len(),
{
    let log = write_log(state);
    assert(log.take(log.len() as int) == log);
    if ops.len() > 0 {
        let first = state.op_unlogged(ops[0]).state;
        assert(first.actions == state.actions);
        assert(extends(write_log(first), log)) by {
            assert(write_log(first).take(log.len() as int) == log);
        }
        law_unlogged_write_leaves_the_table(first, ops.drop_first());
        lemma_extends_transitive(log, write_log(first), write_log(first.unlogged(ops.drop_first())));
    }
}

/// Of two puts under one key, the later one decides what is stored.
pub proof fn law_last_put_wins(
    log: Seq<MutationView>,
    cf: ColumnFamily,
    key: Seq<u8>,
    first: Seq<u8>,
    second: Seq<u8>,
)
    ensures
        value_after(
            log.push(MutationView::Put { cf, key, value: first }).push(
                MutationView::Put { cf, key, value: second },
            ),
            cf,
            key,
        ) == Some(second),
{
}

} // verus!
