//! Encoded sizes, counted without building the encoding.
//!
//! A size is kept in a `usize` that saturates: it stands for the true size as
//! long as that fits and for `usize::MAX` once it does not.

use vstd::prelude::*;
use crate::roundtrip::lemma_enc_u64_len;
use crate::wire::{enc_bytes, enc_epoch, enc_header, enc_op, enc_ops, enc_sst, enc_ssts};
use crate::metadata::{RegionEpoch, WriteHeader};
use crate::write_op::{SstMeta, SstMetaView, WriteOp, WriteOpView, sst_views};

verus! {

/// `n` as a saturating `usize`.
pub open spec fn sat(n: int) -> usize {
    if n >= usize::MAX {
        usize::MAX
    } else if n <= 0 {
        0
    } else {
        n as usize
    }
}

/// Encoded size of the operations of a request.
pub open spec fn ops_size(ops: Seq<WriteOpView>) -> nat {
    enc_ops(ops).len()
}

/// `a + b`, saturating.
pub fn sat_add(a: usize, b: usize) -> (sum: usize)
    ensures
        sum == sat(a + b),
{
    if a > usize::MAX - b {
        usize::MAX
    } else {
        a + b
    }
}

proof fn lemma_enc_bytes_len(b: Seq<u8>)
    ensures
        enc_bytes(b).len() == 8 + b.len(),
{
    lemma_enc_u64_len(b.len() as u64);
}

proof fn lemma_enc_epoch_len(epoch: RegionEpoch)
    ensures
        enc_epoch(epoch).len() == 16,
{
    lemma_enc_u64_len(epoch.conf_ver);
    lemma_enc_u64_len(epoch.version);
}

pub(crate) proof fn lemma_enc_header_len(header: WriteHeader)
    ensures
        enc_header(header).len() == 40,
{
    lemma_enc_u64_len(header.region_id);
    lemma_enc_epoch_len(header.epoch);
    lemma_enc_u64_len(header.term);
    lemma_enc_u64_len(header.peer_id);
}

proof fn lemma_enc_sst_len(sst: SstMetaView)
    ensures
        enc_sst(sst).len() == 49 + sst.uuid.len() + sst.range_start.len() + sst.range_end.len(),
{
    lemma_enc_bytes_len(sst.uuid);
    lemma_enc_bytes_len(sst.range_start);
    lemma_enc_bytes_len(sst.range_end);
    lemma_enc_u64_len(sst.region_id);
    lemma_enc_epoch_len(sst.region_epoch);
}

proof fn lemma_enc_op_len(op: WriteOpView)
    ensures
        enc_op(op).len() == match op {
            WriteOpView::Put { cf, key, value } => 18 + key.len() + value.len(),
            WriteOpView::Delete { cf, key } => 10 + key.len(),
            WriteOpView::DeleteRange { cf, start_key, end_key, notify_only } => 19
                + start_key.len() + end_key.len(),
            WriteOpView::Ingest { ssts } => 9 + enc_ssts(ssts).len(),
        },
{
    match op {
        WriteOpView::Put { cf, key, value } => {
            lemma_enc_bytes_len(key);
            lemma_enc_bytes_len(value);
        },
        WriteOpView::Delete { cf, key } => {
            lemma_enc_bytes_len(key);
        },
        WriteOpView::DeleteRange { cf, start_key, end_key, notify_only } => {
            lemma_enc_bytes_len(start_key);
            lemma_enc_bytes_len(end_key);
        },
        WriteOpView::Ingest { ssts } => {
            lemma_enc_u64_len(ssts.len() as u64);
        },
    }
}

/// Encoded size of one descriptor.
pub fn sst_len(sst: &SstMeta) -> (n: usize)
    ensures
        n == sat(enc_sst(sst@).len() as int),
{
    proof {
        lemma_enc_sst_len(sst@);
    }
    sat_add(sat_add(sat_add(49, sst.uuid.len()), sst.range_start.len()), sst.range_end.len())
}

/// Encoded size of a list of descriptors, without their count.
pub fn ssts_len(ssts: &Vec<SstMeta>) -> (n: usize)
    ensures
        n == sat(enc_ssts(sst_views(ssts@)).len() as int),
{
    let mut n: usize = 0;
    let mut i: usize = 0;
    while i < ssts.len()
        invariant
            i <= ssts.len(),
            n == sat(enc_ssts(sst_views(ssts@).take(i as int)).len() as int),
        decreases ssts.len() - i,
    {
        n = sat_add(n, sst_len(&ssts[i]));
        proof {
            let done = sst_views(ssts@).take(i + 1);
            assert(done.drop_last() == sst_views(ssts@).take(i as int));
            assert(done.last() == ssts@[i as int]@);
        }
        i += 1;
    }
    assert(sst_views(ssts@).take(i as int) == sst_views(ssts@));
    n
}

/// Encoded size of one operation.
pub fn op_len(op: &WriteOp) -> (n: usize)
    ensures
        n == sat(enc_op(op@).len() as int),
{
    proof {
        lemma_enc_op_len(op@);
    }
    match op {
        WriteOp::Put { cf, key, value } => sat_add(sat_add(18, key.len()), value.len()),
        WriteOp::Delete { cf, key } => sat_add(10, key.len()),
        WriteOp::DeleteRange { cf, start_key, end_key, notify_only } => sat_add(
            sat_add(19, start_key.len()),
            end_key.len(),
        ),
        WriteOp::Ingest { ssts } => sat_add(9, ssts_len(ssts)),
    }
}

/// Appending an operation adds its size.
pub proof fn lemma_ops_size_push(ops: Seq<WriteOpView>, op: WriteOpView)
    ensures
        ops_size(ops.push(op)) == ops_size(ops) + enc_op(op).len(),
{
    assert(ops.push(op).drop_last() == ops);
}

} // verus!
