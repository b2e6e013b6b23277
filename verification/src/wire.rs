//! The wire format of a log-entry payload.
//!
//! ```text
//! payload   = header count op*
//! header    = region_id conf_ver version term peer_id      (five u64)
//! op        = 0 cf bytes(key) bytes(value)                 put
//!           | 1 cf bytes(key)                              delete
//!           | 2 cf bytes(start) bytes(end) flag            delete range
//!           | 3 count sst*                                 ingest
//! sst       = bytes(uuid) bytes(start) bytes(end) cf region_id conf_ver version
//! bytes(b)  = len b
//! ```
//!
//! Every integer is a `u64` in little-endian order, `cf` and `flag` are one
//! byte each. The format is given twice: by the `enc_*` functions, which say
//! what is written, and by the `parse_*` functions, which say what a reader
//! accepts. The lemmas of this module show that the second inverts the first.

use vstd::prelude::*;
use vstd::bytes::{spec_u64_to_le_bytes, u64_to_le_bytes};
use crate::metadata::{ColumnFamily, RegionEpoch, WriteHeader};
use crate::write_op::{SstMeta, SstMetaView, WriteOp, WriteOpView, op_views, sst_views};

verus! {

pub const TAG_PUT: u8 = 0;

pub const TAG_DELETE: u8 = 1;

pub const TAG_DELETE_RANGE: u8 = 2;

pub const TAG_INGEST: u8 = 3;

/// Length of an encoded header.
pub const HEADER_LEN: usize = 40;

/// Length of an encoded count or length.
pub const COUNT_LEN: usize = 8;

pub open spec fn enc_u64(x: u64) -> Seq<u8> {
    spec_u64_to_le_bytes(x)
}

pub open spec fn enc_bytes(b: Seq<u8>) -> Seq<u8> {
    enc_u64(b.len() as u64) + b
}

pub open spec fn cf_id(cf: ColumnFamily) -> u8 {
    match cf {
        ColumnFamily::Default => 0,
        ColumnFamily::Lock => 1,
        ColumnFamily::Write => 2,
    }
}

pub open spec fn enc_flag(flag: bool) -> u8 {
    if flag {
        1
    } else {
        0
    }
}

pub open spec fn enc_epoch(epoch: RegionEpoch) -> Seq<u8> {
    enc_u64(epoch.conf_ver) + enc_u64(epoch.version)
}

pub open spec fn enc_header(header: WriteHeader) -> Seq<u8> {
    enc_u64(header.region_id) + enc_epoch(header.epoch) + enc_u64(header.term) + enc_u64(
        header.peer_id,
    )
}

pub open spec fn enc_sst(sst: SstMetaView) -> Seq<u8> {
    enc_bytes(sst.uuid) + enc_bytes(sst.range_start) + enc_bytes(sst.range_end) + seq![
        cf_id(sst.cf),
    ] + enc_u64(sst.region_id) + enc_epoch(sst.region_epoch)
}

/// The descriptors one after the other, without their count.
pub open spec fn enc_ssts(ssts: Seq<SstMetaView>) -> Seq<u8>
    decreases ssts.len(),
{
    if ssts.len() == 0 {
        Seq::empty()
    } else {
        enc_ssts(ssts.drop_last()) + enc_sst(ssts.last())
    }
}

pub open spec fn enc_op(op: WriteOpView) -> Seq<u8> {
    match op {
        WriteOpView::Put { cf, key, value } => seq![TAG_PUT, cf_id(cf)] + enc_bytes(key)
            + enc_bytes(value),
        WriteOpView::Delete { cf, key } => seq![TAG_DELETE, cf_id(cf)] + enc_bytes(key),
        WriteOpView::DeleteRange { cf, start_key, end_key, notify_only } => seq![
            TAG_DELETE_RANGE,
            cf_id(cf),
        ] + enc_bytes(start_key) + enc_bytes(end_key) + seq![enc_flag(notify_only)],
        WriteOpView::Ingest { ssts } => seq![TAG_INGEST] + enc_u64(ssts.len() as u64) + enc_ssts(
            ssts,
        ),
    }
}

/// The operations one after the other, without their count.
pub open spec fn enc_ops(ops: Seq<WriteOpView>) -> Seq<u8>
    decreases ops.len(),
{
    if ops.len() == 0 {
        Seq::empty()
    } else {
        enc_ops(ops.drop_last()) + enc_op(ops.last())
    }
}

/// The payload of one log entry.
pub open spec fn enc_batch(header: WriteHeader, ops: Seq<WriteOpView>) -> Seq<u8> {
    enc_header(header) + enc_u64(ops.len() as u64) + enc_ops(ops)
}

fn put_slice(buf: &mut Vec<u8>, bytes: &[u8])
    ensures
        final(buf)@ == old(buf)@ + bytes@,
{
    let mut i: usize = 0;
    while i < bytes.len()
        invariant
            i <= bytes.len(),
            buf@ == old(buf)@ + bytes@.subrange(0, i as int),
        decreases bytes.len() - i,
    {
        buf.push(bytes[i]);
        i += 1;
    }
    assert(bytes@.subrange(0, i as int) == bytes@);
}

pub(crate) fn put_u64(buf: &mut Vec<u8>, x: u64)
    ensures
        final(buf)@ == old(buf)@ + enc_u64(x),
{
    let le = u64_to_le_bytes(x);
    put_slice(buf, le.as_slice());
}

fn put_bytes(buf: &mut Vec<u8>, bytes: &[u8])
    ensures
        final(buf)@ == old(buf)@ + enc_bytes(bytes@),
{
    put_u64(buf, bytes.len() as u64);
    put_slice(buf, bytes);
    assert(buf@ == old(buf)@ + enc_bytes(bytes@));
}

fn put_cf(buf: &mut Vec<u8>, cf: ColumnFamily)
    ensures
        final(buf)@ == old(buf)@ + seq![cf_id(cf)],
{
    let id: u8 = match cf {
        ColumnFamily::Default => 0,
        ColumnFamily::Lock => 1,
        ColumnFamily::Write => 2,
    };
    buf.push(id);
    assert(buf@ == old(buf)@ + seq![cf_id(cf)]);
}

fn put_epoch(buf: &mut Vec<u8>, epoch: RegionEpoch)
    ensures
        final(buf)@ == old(buf)@ + enc_epoch(epoch),
{
    put_u64(buf, epoch.conf_ver);
    put_u64(buf, epoch.version);
    assert(buf@ == old(buf)@ + enc_epoch(epoch));
}

pub(crate) fn put_header(buf: &mut Vec<u8>, header: &WriteHeader)
    ensures
        final(buf)@ == old(buf)@ + enc_header(*header),
{
    put_u64(buf, header.region_id);
    put_epoch(buf, header.epoch);
    put_u64(buf, header.term);
    put_u64(buf, header.peer_id);
    assert(buf@ == old(buf)@ + enc_header(*header));
}

fn put_sst(buf: &mut Vec<u8>, sst: &SstMeta)
    ensures
        final(buf)@ == old(buf)@ + enc_sst(sst@),
{
    put_bytes(buf, sst.uuid.as_slice());
    put_bytes(buf, sst.range_start.as_slice());
    put_bytes(buf, sst.range_end.as_slice());
    put_cf(buf, sst.cf);
    put_u64(buf, sst.region_id);
    put_epoch(buf, sst.region_epoch);
    assert(buf@ == old(buf)@ + enc_sst(sst@));
}

fn put_ssts(buf: &mut Vec<u8>, ssts: &Vec<SstMeta>)
    ensures
        final(buf)@ == old(buf)@ + enc_ssts(sst_views(ssts@)),
{
    let mut i: usize = 0;
    assert(buf@ == old(buf)@ + enc_ssts(sst_views(ssts@).take(0)));
    while i < ssts.len()
        invariant
            i <= ssts.len(),
            buf@ == old(buf)@ + enc_ssts(sst_views(ssts@).take(i as int)),
        decreases ssts.len() - i,
    {
        put_sst(buf, &ssts[i]);
        proof {
            let done = sst_views(ssts@).take(i + 1);
            assert(done.drop_last() == sst_views(ssts@).take(i as int));
            assert(done.last() == ssts@[i as int]@);
            assert(buf@ == old(buf)@ + enc_ssts(done));
        }
        i += 1;
    }
    assert(sst_views(ssts@).take(i as int) == sst_views(ssts@));
}

fn put_op(buf: &mut Vec<u8>, op: &WriteOp)
    ensures
        final(buf)@ == old(buf)@ + enc_op(op@),
{
    match op {
        WriteOp::Put { cf, key, value } => {
            buf.push(TAG_PUT);
            put_cf(buf, *cf);
            put_bytes(buf, key.as_slice());
            put_bytes(buf, value.as_slice());
        },
        WriteOp::Delete { cf, key } => {
            buf.push(TAG_DELETE);
            put_cf(buf, *cf);
            put_bytes(buf, key.as_slice());
        },
        WriteOp::DeleteRange { cf, start_key, end_key, notify_only } => {
            buf.push(TAG_DELETE_RANGE);
            put_cf(buf, *cf);
            put_bytes(buf, start_key.as_slice());
            put_bytes(buf, end_key.as_slice());
            buf.push(if *notify_only { 1 } else { 0 });
        },
        WriteOp::Ingest { ssts } => {
            buf.push(TAG_INGEST);
            put_u64(buf, ssts.len() as u64);
            put_ssts(buf, ssts);
        },
    }
    assert(buf@ == old(buf)@ + enc_op(op@));
}

pub(crate) fn put_ops(buf: &mut Vec<u8>, ops: &Vec<WriteOp>)
    ensures
        final(buf)@ == old(buf)@ + enc_ops(op_views(ops@)),
{
    let mut i: usize = 0;
    assert(buf@ == old(buf)@ + enc_ops(op_views(ops@).take(0)));
    while i < ops.len()
        invariant
            i <= ops.len(),
            buf@ == old(buf)@ + enc_ops(op_views(ops@).take(i as int)),
        decreases ops.len() - i,
    {
        put_op(buf, &ops[i]);
        proof {
            let done = op_views(ops@).take(i + 1);
            assert(done.drop_last() == op_views(ops@).take(i as int));
            assert(done.last() == ops@[i as int]@);
            assert(buf@ == old(buf)@ + enc_ops(done));
        }
        i += 1;
    }
    assert(op_views(ops@).take(i as int) == op_views(ops@));
}

} // verus!
