//! The logical write operations that travel through the pipeline.

use vstd::prelude::*;
use crate::keys::copy_bytes;
use crate::metadata::{ColumnFamily, RegionEpoch};

verus! {

/// Descriptor of an externally produced, pre-sorted bulk data file.
#[derive(Debug, PartialEq, Eq)]
pub struct SstMeta {
    pub uuid: Vec<u8>,
    pub range_start: Vec<u8>,
    pub range_end: Vec<u8>,
    pub cf: ColumnFamily,
    pub region_id: u64,
    pub region_epoch: RegionEpoch,
}

/// Mathematical value of an [`SstMeta`].
pub struct SstMetaView {
    pub uuid: Seq<u8>,
    pub range_start: Seq<u8>,
    pub range_end: Seq<u8>,
    pub cf: ColumnFamily,
    pub region_id: u64,
    pub region_epoch: RegionEpoch,
}

impl View for SstMeta {
    type V = SstMetaView;

    open spec fn view(&self) -> SstMetaView {
        SstMetaView {
            uuid: self.uuid@,
            range_start: self.range_start@,
            range_end: self.range_end@,
            cf: self.cf,
            region_id: self.region_id,
            region_epoch: self.region_epoch,
        }
    }
}

/// The values of a sequence of descriptors, in order.
pub open spec fn sst_views(ssts: Seq<SstMeta>) -> Seq<SstMetaView> {
    ssts.map_values(|s: SstMeta| s@)
}

impl SstMeta {
    /// A copy of the descriptor.
    pub fn duplicate(&self) -> (copy: SstMeta)
        ensures
            copy@ == self@,
    {
        SstMeta {
            uuid: copy_bytes(self.uuid.as_slice()),
            range_start: copy_bytes(self.range_start.as_slice()),
            range_end: copy_bytes(self.range_end.as_slice()),
            cf: self.cf,
            region_id: self.region_id,
            region_epoch: self.region_epoch,
        }
    }
}

/// Copies a list of descriptors.
pub fn duplicate_ssts(ssts: &Vec<SstMeta>) -> (copy: Vec<SstMeta>)
    ensures
        sst_views(copy@) == sst_views(ssts@),
{
    let mut copy: Vec<SstMeta> = Vec::with_capacity(ssts.len());
    let mut i: usize = 0;
    while i < ssts.len()
        invariant
            i <= ssts.len(),
            sst_views(copy@) == sst_views(ssts@.subrange(0, i as int)),
        decreases ssts.len() - i,
    {
        let ghost before = copy@;
        copy.push(ssts[i].duplicate());
        i += 1;
        proof {
            let prefix = ssts@.subrange(0, i - 1);
            assert(ssts@.subrange(0, i as int) == prefix.push(ssts@[i - 1]));
            assert(sst_views(copy@) == sst_views(before).push(copy@[i - 1]@));
            assert(sst_views(prefix.push(ssts@[i - 1])) == sst_views(prefix).push(ssts@[i - 1]@));
        }
    }
    assert(ssts@.subrange(0, i as int) == ssts@);
    copy
}

/// One logical write. The order of the operations of a batch is significant.
#[derive(Debug, PartialEq, Eq)]
pub enum WriteOp {
    Put { cf: ColumnFamily, key: Vec<u8>, value: Vec<u8> },
    Delete { cf: ColumnFamily, key: Vec<u8> },
    DeleteRange { cf: ColumnFamily, start_key: Vec<u8>, end_key: Vec<u8>, notify_only: bool },
    Ingest { ssts: Vec<SstMeta> },
}

/// Mathematical value of a [`WriteOp`].
pub enum WriteOpView {
    Put { cf: ColumnFamily, key: Seq<u8>, value: Seq<u8> },
    Delete { cf: ColumnFamily, key: Seq<u8> },
    DeleteRange { cf: ColumnFamily, start_key: Seq<u8>, end_key: Seq<u8>, notify_only: bool },
    Ingest { ssts: Seq<SstMetaView> },
}

impl View for WriteOp {
    type V = WriteOpView;

    open spec fn view(&self) -> WriteOpView {
        match *self {
            WriteOp::Put { cf, key, value } => WriteOpView::Put { cf, key: key@, value: value@ },
            WriteOp::Delete { cf, key } => WriteOpView::Delete { cf, key: key@ },
            WriteOp::DeleteRange { cf, start_key, end_key, notify_only } => WriteOpView::DeleteRange {
                cf,
                start_key: start_key@,
                end_key: end_key@,
                notify_only,
            },
            WriteOp::Ingest { ssts } => WriteOpView::Ingest { ssts: sst_views(ssts@) },
        }
    }
}

impl WriteOp {
    /// A copy of the operation.
    pub fn duplicate(&self) -> (copy: WriteOp)
        ensures
            copy@ == self@,
    {
        match self {
            WriteOp::Put { cf, key, value } => WriteOp::Put {
                cf: *cf,
                key: copy_bytes(key.as_slice()),
                value: copy_bytes(value.as_slice()),
            },
            WriteOp::Delete { cf, key } => WriteOp::Delete {
                cf: *cf,
                key: copy_bytes(key.as_slice()),
            },
            WriteOp::DeleteRange { cf, start_key, end_key, notify_only } => WriteOp::DeleteRange {
                cf: *cf,
                start_key: copy_bytes(start_key.as_slice()),
                end_key: copy_bytes(end_key.as_slice()),
                notify_only: *notify_only,
            },
            WriteOp::Ingest { ssts } => WriteOp::Ingest { ssts: duplicate_ssts(ssts) },
        }
    }
}

/// The values of a sequence of operations, in order.
pub open spec fn op_views(ops: Seq<WriteOp>) -> Seq<WriteOpView> {
    ops.map_values(|o: WriteOp| o@)
}

} // verus!
