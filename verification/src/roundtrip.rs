//! Reading inverts writing: whatever is encoded parses back to itself, with
//! the operations in the order in which they were written.

use vstd::prelude::*;
use vstd::bytes::lemma_auto_spec_u64_to_from_le_bytes;
use crate::metadata::{ColumnFamily, RegionEpoch, WriteHeader};
use crate::parse::{
    parse_batch,
    parse_byte,
    parse_bytes,
    parse_cf,
    parse_delete,
    parse_delete_range,
    parse_epoch,
    parse_flag,
    parse_header,
    parse_ingest,
    parse_op,
    parse_ops,
    parse_put,
    parse_sst,
    parse_ssts,
    parse_u64,
};
use crate::wire::{
    TAG_DELETE,
    TAG_DELETE_RANGE,
    TAG_INGEST,
    TAG_PUT,
    cf_id,
    enc_batch,
    enc_bytes,
    enc_epoch,
    enc_flag,
    enc_header,
    enc_op,
    enc_ops,
    enc_sst,
    enc_ssts,
    enc_u64,
};
use vstd::std_specs::vec::axiom_spec_len;
use crate::write_op::{SstMetaView, WriteOp, WriteOpView, op_views, sst_views};

verus! {

/// Every length in the descriptor can be written as a `u64`.
pub open spec fn sst_fits(sst: SstMetaView) -> bool {
    &&& sst.uuid.len() <= u64::MAX
    &&& sst.range_start.len() <= u64::MAX
    &&& sst.range_end.len() <= u64::MAX
}

/// The list and every descriptor in it can be written.
pub open spec fn ssts_fit(ssts: Seq<SstMetaView>) -> bool {
    &&& ssts.len() <= u64::MAX
    &&& forall|i: int| 0 <= i < ssts.len() ==> sst_fits(#[trigger] ssts[i])
}

/// Every length in the operation can be written as a `u64`.
pub open spec fn op_fits(op: WriteOpView) -> bool {
    match op {
        WriteOpView::Put { cf, key, value } => key.len() <= u64::MAX && value.len() <= u64::MAX,
        WriteOpView::Delete { cf, key } => key.len() <= u64::MAX,
        WriteOpView::DeleteRange { cf, start_key, end_key, notify_only } => start_key.len()
            <= u64::MAX && end_key.len() <= u64::MAX,
        WriteOpView::Ingest { ssts } => ssts_fit(ssts),
    }
}

/// The list and every operation in it can be written.
pub open spec fn ops_fit(ops: Seq<WriteOpView>) -> bool {
    &&& ops.len() <= u64::MAX
    &&& forall|i: int| 0 <= i < ops.len() ==> op_fits(#[trigger] ops[i])
}

/// Whatever is held in memory can be written: no list or byte string there
/// is longer than a `u64` can say.
pub proof fn lemma_held_ops_fit(ops: Seq<WriteOp>)
    ensures
        forall|i: int| 0 <= i < ops.len() ==> op_fits(#[trigger] op_views(ops)[i]),
{
    assert forall|i: int| 0 <= i < ops.len() implies op_fits(#[trigger] op_views(ops)[i]) by {
        match ops[i] {
            WriteOp::Put { cf, key, value } => {
                axiom_spec_len(&key);
                axiom_spec_len(&value);
            },
            WriteOp::Delete { cf, key } => {
                axiom_spec_len(&key);
            },
            WriteOp::DeleteRange { cf, start_key, end_key, notify_only } => {
                axiom_spec_len(&start_key);
                axiom_spec_len(&end_key);
            },
            WriteOp::Ingest { ssts } => {
                axiom_spec_len(&ssts);
                assert forall|j: int| 0 <= j < ssts@.len() implies sst_fits(
                    #[trigger] sst_views(ssts@)[j],
                ) by {
                    axiom_spec_len(&ssts@[j].uuid);
                    axiom_spec_len(&ssts@[j].range_start);
                    axiom_spec_len(&ssts@[j].range_end);
                }
            },
        }
    }
}

/// An integer takes eight bytes.
pub proof fn lemma_enc_u64_len(x: u64)
    ensures
        enc_u64(x).len() == 8,
{
    lemma_auto_spec_u64_to_from_le_bytes();
}

proof fn lemma_parse_u64(x: u64, tail: Seq<u8>)
    ensures
        parse_u64(enc_u64(x) + tail) == Some((x, tail)),
{
    lemma_auto_spec_u64_to_from_le_bytes();
    let s = enc_u64(x) + tail;
    assert(s.take(8) == enc_u64(x));
    assert(s.skip(8) == tail);
}

proof fn lemma_parse_byte(b: u8, tail: Seq<u8>)
    ensures
        parse_byte(seq![b] + tail) == Some((b, tail)),
{
    assert((seq![b] + tail).skip(1) == tail);
}

proof fn lemma_parse_bytes(b: Seq<u8>, tail: Seq<u8>)
    requires
        b.len() <= u64::MAX,
    ensures
        parse_bytes(enc_bytes(b) + tail) == Some((b, tail)),
{
    let n = b.len() as u64;
    assert(enc_bytes(b) + tail == enc_u64(n) + (b + tail));
    lemma_parse_u64(n, b + tail);
    assert((b + tail).take(n as int) == b);
    assert((b + tail).skip(n as int) == tail);
}

proof fn lemma_parse_cf(cf: ColumnFamily, tail: Seq<u8>)
    ensures
        parse_cf(seq![cf_id(cf)] + tail) == Some((cf, tail)),
{
    lemma_parse_byte(cf_id(cf), tail);
}

proof fn lemma_parse_flag(flag: bool, tail: Seq<u8>)
    ensures
        parse_flag(seq![enc_flag(flag)] + tail) == Some((flag, tail)),
{
    lemma_parse_byte(enc_flag(flag), tail);
}

proof fn lemma_parse_epoch(epoch: RegionEpoch, tail: Seq<u8>)
    ensures
        parse_epoch(enc_epoch(epoch) + tail) == Some((epoch, tail)),
{
    assert(enc_epoch(epoch) + tail == enc_u64(epoch.conf_ver) + (enc_u64(epoch.version) + tail));
    lemma_parse_u64(epoch.conf_ver, enc_u64(epoch.version) + tail);
    lemma_parse_u64(epoch.version, tail);
}

proof fn lemma_parse_header(header: WriteHeader, tail: Seq<u8>)
    ensures
        parse_header(enc_header(header) + tail) == Some((header, tail)),
{
    let s3 = enc_u64(header.peer_id) + tail;
    let s2 = enc_u64(header.term) + s3;
    let s1 = enc_epoch(header.epoch) + s2;
    assert(enc_header(header) + tail == enc_u64(header.region_id) + s1);
    lemma_parse_u64(header.region_id, s1);
    lemma_parse_epoch(header.epoch, s2);
    lemma_parse_u64(header.term, s3);
    lemma_parse_u64(header.peer_id, tail);
}

proof fn lemma_parse_sst(sst: SstMetaView, tail: Seq<u8>)
    requires
        sst_fits(sst),
    ensures
        parse_sst(enc_sst(sst) + tail) == Some((sst, tail)),
{
    let s5 = enc_epoch(sst.region_epoch) + tail;
    let s4 = enc_u64(sst.region_id) + s5;
    let s3 = seq![cf_id(sst.cf)] + s4;
    let s2 = enc_bytes(sst.range_end) + s3;
    let s1 = enc_bytes(sst.range_start) + s2;
    assert(enc_sst(sst) + tail == enc_bytes(sst.uuid) + s1);
    lemma_parse_bytes(sst.uuid, s1);
    lemma_parse_bytes(sst.range_start, s2);
    lemma_parse_bytes(sst.range_end, s3);
    lemma_parse_cf(sst.cf, s4);
    lemma_parse_u64(sst.region_id, s5);
    lemma_parse_epoch(sst.region_epoch, tail);
}

/// Encoding a list goes descriptor by descriptor from the front, too.
pub proof fn lemma_enc_ssts_front(first: SstMetaView, others: Seq<SstMetaView>)
    ensures
        enc_ssts(seq![first] + others) == enc_sst(first) + enc_ssts(others),
    decreases others.len(),
{
    let all = seq![first] + others;
    if others.len() == 0 {
        assert(all.drop_last() == Seq::<SstMetaView>::empty());
        assert(enc_ssts(all.drop_last()) == Seq::<u8>::empty());
        assert(enc_ssts(all) == enc_sst(first) + enc_ssts(others));
    } else {
        assert(all.drop_last() == seq![first] + others.drop_last());
        lemma_enc_ssts_front(first, others.drop_last());
        assert(enc_ssts(all) == enc_sst(first) + enc_ssts(others));
    }
}

proof fn lemma_parse_ssts(ssts: Seq<SstMetaView>, tail: Seq<u8>)
    requires
        forall|i: int| 0 <= i < ssts.len() ==> sst_fits(#[trigger] ssts[i]),
    ensures
        parse_ssts(enc_ssts(ssts) + tail, ssts.len()) == Some((ssts, tail)),
    decreases ssts.len(),
{
    if ssts.len() == 0 {
        assert(enc_ssts(ssts) + tail == tail);
        assert(ssts == Seq::<SstMetaView>::empty());
    } else {
        let first = ssts[0];
        let others = ssts.drop_first();
        assert(ssts == seq![first] + others);
        lemma_enc_ssts_front(first, others);
        let s1 = enc_ssts(others) + tail;
        assert(enc_ssts(ssts) + tail == enc_sst(first) + s1);
        lemma_parse_sst(first, s1);
        assert forall|i: int| 0 <= i < others.len() implies sst_fits(#[trigger] others[i]) by {
            assert(others[i] == ssts[i + 1]);
        }
        lemma_parse_ssts(others, tail);
    }
}

proof fn lemma_parse_put(cf: ColumnFamily, key: Seq<u8>, value: Seq<u8>, tail: Seq<u8>)
    requires
        key.len() <= u64::MAX,
        value.len() <= u64::MAX,
    ensures
        parse_put(seq![cf_id(cf)] + (enc_bytes(key) + (enc_bytes(value) + tail))) == Some(
            (WriteOpView::Put { cf, key, value }, tail),
        ),
{
    let s3 = enc_bytes(value) + tail;
    let s2 = enc_bytes(key) + s3;
    lemma_parse_cf(cf, s2);
    lemma_parse_bytes(key, s3);
    lemma_parse_bytes(value, tail);
}

proof fn lemma_parse_delete(cf: ColumnFamily, key: Seq<u8>, tail: Seq<u8>)
    requires
        key.len() <= u64::MAX,
    ensures
        parse_delete(seq![cf_id(cf)] + (enc_bytes(key) + tail)) == Some(
            (WriteOpView::Delete { cf, key }, tail),
        ),
{
    let s2 = enc_bytes(key) + tail;
    lemma_parse_cf(cf, s2);
    lemma_parse_bytes(key, tail);
}

proof fn lemma_parse_delete_range(
    cf: ColumnFamily,
    start_key: Seq<u8>,
    end_key: Seq<u8>,
    notify_only: bool,
    tail: Seq<u8>,
)
    requires
        start_key.len() <= u64::MAX,
        end_key.len() <= u64::MAX,
    ensures
        parse_delete_range(
            seq![cf_id(cf)] + (enc_bytes(start_key) + (enc_bytes(end_key) + (seq![
                enc_flag(notify_only),
            ] + tail))),
        ) == Some((WriteOpView::DeleteRange { cf, start_key, end_key, notify_only }, tail)),
{
    let s4 = seq![enc_flag(notify_only)] + tail;
    let s3 = enc_bytes(end_key) + s4;
    let s2 = enc_bytes(start_key) + s3;
    lemma_parse_cf(cf, s2);
    lemma_parse_bytes(start_key, s3);
    lemma_parse_bytes(end_key, s4);
    lemma_parse_flag(notify_only, tail);
}

proof fn lemma_parse_ingest(ssts: Seq<SstMetaView>, tail: Seq<u8>)
    requires
        ssts_fit(ssts),
    ensures
        parse_ingest(enc_u64(ssts.len() as u64) + (enc_ssts(ssts) + tail)) == Some(
            (WriteOpView::Ingest { ssts }, tail),
        ),
{
    let s2 = enc_ssts(ssts) + tail;
    lemma_parse_u64(ssts.len() as u64, s2);
    lemma_parse_ssts(ssts, tail);
}

/// An encoded operation, followed by `tail`, is its tag followed by the rest.
proof fn lemma_op_shape(op: WriteOpView, tail: Seq<u8>)
    ensures
        enc_op(op) + tail == seq![op_tag(op)] + op_body(op, tail),
{
    match op {
        WriteOpView::Put { cf, key, value } => {
            lemma_tagged(TAG_PUT, cf_id(cf));
            let head = seq![TAG_PUT] + seq![cf_id(cf)];
            lemma_concat3(head, enc_bytes(key), enc_bytes(value), tail);
            lemma_concat3(seq![TAG_PUT], seq![cf_id(cf)], enc_bytes(key), enc_bytes(value) + tail);
        },
        WriteOpView::Delete { cf, key } => {
            lemma_tagged(TAG_DELETE, cf_id(cf));
            lemma_concat3(seq![TAG_DELETE], seq![cf_id(cf)], enc_bytes(key), tail);
        },
        WriteOpView::DeleteRange { cf, start_key, end_key, notify_only } => {
            lemma_tagged(TAG_DELETE_RANGE, cf_id(cf));
            let head = seq![TAG_DELETE_RANGE] + seq![cf_id(cf)];
            let flag = seq![enc_flag(notify_only)];
            lemma_concat3(head + enc_bytes(start_key), enc_bytes(end_key), flag, tail);
            lemma_concat3(head, enc_bytes(start_key), enc_bytes(end_key), flag + tail);
            lemma_concat3(
                seq![TAG_DELETE_RANGE],
                seq![cf_id(cf)],
                enc_bytes(start_key),
                enc_bytes(end_key) + (flag + tail),
            );
        },
        WriteOpView::Ingest { ssts } => {
            lemma_concat3(seq![TAG_INGEST], enc_u64(ssts.len() as u64), enc_ssts(ssts), tail);
        },
    }
}

/// A literal of two bytes is one byte followed by the other.
proof fn lemma_tagged(tag: u8, next: u8)
    ensures
        seq![tag, next] == seq![tag] + seq![next],
{
}

/// Concatenation can be bracketed either way.
proof fn lemma_concat3(a: Seq<u8>, b: Seq<u8>, c: Seq<u8>, d: Seq<u8>)
    ensures
        a + b + c + d == a + (b + (c + d)),
{
}

/// The tag byte of an operation.
pub open spec fn op_tag(op: WriteOpView) -> u8 {
    match op {
        WriteOpView::Put { .. } => TAG_PUT,
        WriteOpView::Delete { .. } => TAG_DELETE,
        WriteOpView::DeleteRange { .. } => TAG_DELETE_RANGE,
        WriteOpView::Ingest { .. } => TAG_INGEST,
    }
}

/// What follows the tag byte of an encoded operation that is followed by
/// `tail`.
pub open spec fn op_body(op: WriteOpView, tail: Seq<u8>) -> Seq<u8> {
    match op {
        WriteOpView::Put { cf, key, value } => seq![cf_id(cf)] + (enc_bytes(key) + (enc_bytes(
            value,
        ) + tail)),
        WriteOpView::Delete { cf, key } => seq![cf_id(cf)] + (enc_bytes(key) + tail),
        WriteOpView::DeleteRange { cf, start_key, end_key, notify_only } => seq![cf_id(cf)] + (
        enc_bytes(start_key) + (enc_bytes(end_key) + (seq![enc_flag(notify_only)] + tail))),
        WriteOpView::Ingest { ssts } => enc_u64(ssts.len() as u64) + (enc_ssts(ssts) + tail),
    }
}

proof fn lemma_parse_body(op: WriteOpView, tail: Seq<u8>)
    requires
        op_fits(op),
    ensures
        op is Put ==> parse_put(op_body(op, tail)) == Some((op, tail)),
        op is Delete ==> parse_delete(op_body(op, tail)) == Some((op, tail)),
        op is DeleteRange ==> parse_delete_range(op_body(op, tail)) == Some((op, tail)),
        op is Ingest ==> parse_ingest(op_body(op, tail)) == Some((op, tail)),
{
    match op {
        WriteOpView::Put { cf, key, value } => {
            lemma_parse_put(cf, key, value, tail);
        },
        WriteOpView::Delete { cf, key } => {
            lemma_parse_delete(cf, key, tail);
        },
        WriteOpView::DeleteRange { cf, start_key, end_key, notify_only } => {
            lemma_parse_delete_range(cf, start_key, end_key, notify_only, tail);
        },
        WriteOpView::Ingest { ssts } => {
            lemma_parse_ingest(ssts, tail);
        },
    }
}

proof fn lemma_parse_op(op: WriteOpView, tail: Seq<u8>)
    requires
        op_fits(op),
    ensures
        parse_op(enc_op(op) + tail) == Some((op, tail)),
{
    lemma_op_shape(op, tail);
    lemma_parse_byte(op_tag(op), op_body(op, tail));
    lemma_parse_body(op, tail);
}

/// Encoding a list goes operation by operation from the front, too.
pub proof fn lemma_enc_ops_front(first: WriteOpView, others: Seq<WriteOpView>)
    ensures
        enc_ops(seq![first] + others) == enc_op(first) + enc_ops(others),
    decreases others.len(),
{
    let all = seq![first] + others;
    if others.len() == 0 {
        assert(all.drop_last() == Seq::<WriteOpView>::empty());
        assert(enc_ops(all.drop_last()) == Seq::<u8>::empty());
        assert(enc_ops(all) == enc_op(first) + enc_ops(others));
    } else {
        assert(all.drop_last() == seq![first] + others.drop_last());
        lemma_enc_ops_front(first, others.drop_last());
        assert(enc_ops(all) == enc_op(first) + enc_ops(others));
    }
}

/// The encoding of a concatenation is the concatenation of the encodings.
pub proof fn lemma_enc_ops_concat(a: Seq<WriteOpView>, b: Seq<WriteOpView>)
    ensures
        enc_ops(a + b) == enc_ops(a) + enc_ops(b),
    decreases b.len(),
{
    if b.len() == 0 {
        assert(a + b == a);
        assert(enc_ops(a) + enc_ops(b) == enc_ops(a));
    } else {
        assert((a + b).drop_last() == a + b.drop_last());
        lemma_enc_ops_concat(a, b.drop_last());
        assert(enc_ops(a + b) == enc_ops(a) + enc_ops(b));
    }
}

proof fn lemma_parse_ops(ops: Seq<WriteOpView>, tail: Seq<u8>)
    requires
        forall|i: int| 0 <= i < ops.len() ==> op_fits(#[trigger] ops[i]),
    ensures
        parse_ops(enc_ops(ops) + tail, ops.len()) == Some((ops, tail)),
    decreases ops.len(),
{
    if ops.len() == 0 {
        assert(enc_ops(ops) + tail == tail);
        assert(ops == Seq::<WriteOpView>::empty());
    } else {
        let first = ops[0];
        let others = ops.drop_first();
        assert(ops == seq![first] + others);
        lemma_enc_ops_front(first, others);
        let s1 = enc_ops(others) + tail;
        assert(enc_ops(ops) + tail == enc_op(first) + s1);
        lemma_parse_op(first, s1);
        assert forall|i: int| 0 <= i < others.len() implies op_fits(#[trigger] others[i]) by {
            assert(others[i] == ops[i + 1]);
        }
        lemma_parse_ops(others, tail);
    }
}

/// Decoding inverts encoding: a payload parses to the header it was written
/// with and to the same operations in the same order.
pub proof fn law_decode_inverts_encode(header: WriteHeader, ops: Seq<WriteOpView>)
    requires
        ops_fit(ops),
    ensures
        parse_batch(enc_batch(header, ops)) == Some((header, ops)),
{
    let n = ops.len() as u64;
    let s2 = enc_ops(ops) + Seq::<u8>::empty();
    let s1 = enc_u64(n) + s2;
    assert(s2 == enc_ops(ops));
    assert(enc_batch(header, ops) == enc_header(header) + s1);
    lemma_parse_header(header, s1);
    lemma_parse_u64(n, s2);
    lemma_parse_ops(ops, Seq::<u8>::empty());
}

} // verus!
