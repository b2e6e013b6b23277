//! The operations of one client request, with their encoded size.

use vstd::prelude::*;
use crate::keys::copy_bytes;
use crate::metadata::ColumnFamily;
use crate::size::{lemma_ops_size_push, op_len, ops_size, sat, sat_add};
use crate::write_op::{SstMeta, WriteOp, WriteOpView, op_views, sst_views};

verus! {

/// An ordered list of operations that is built up one operation at a time.
#[derive(Debug, PartialEq, Eq)]
pub struct WriteRequest {
    ops: Vec<WriteOp>,
    size: usize,
}

impl View for WriteRequest {
    type V = Seq<WriteOpView>;

    closed spec fn view(&self) -> Seq<WriteOpView> {
        op_views(self.ops@)
    }
}

impl WriteRequest {
    #[verifier::type_invariant]
    spec fn size_is_kept(self) -> bool {
        self.size == sat(ops_size(op_views(self.ops@)) as int)
    }

    /// A request without operations.
    pub fn new() -> (req: WriteRequest)
        ensures
            req@ == Seq::<WriteOpView>::empty(),
    {
        WriteRequest { ops: Vec::new(), size: 0 }
    }

    /// Appends `op` behind the operations that are there.
    pub fn push(&mut self, op: WriteOp)
        ensures
            final(self)@ == old(self)@.push(op@),
    {
        proof {
            use_type_invariant(&*self);
            lemma_ops_size_push(op_views(self.ops@), op@);
            assert(op_views(self.ops@.push(op)) == op_views(self.ops@).push(op@));
        }
        let n = op_len(&op);
        let mut taken = WriteRequest::new();
        core::mem::swap(self, &mut taken);
        let WriteRequest { mut ops, size } = taken;
        ops.push(op);
        *self = WriteRequest { ops, size: sat_add(size, n) };
    }

    /// Appends a put of `value` under `key`.
    pub fn put(&mut self, cf: ColumnFamily, key: &[u8], value: &[u8])
        ensures
            final(self)@ == old(self)@.push(WriteOpView::Put { cf, key: key@, value: value@ }),
    {
        self.push(WriteOp::Put { cf, key: copy_bytes(key), value: copy_bytes(value) });
    }

    /// Appends a delete of `key`.
    pub fn delete(&mut self, cf: ColumnFamily, key: &[u8])
        ensures
            final(self)@ == old(self)@.push(WriteOpView::Delete { cf, key: key@ }),
    {
        self.push(WriteOp::Delete { cf, key: copy_bytes(key) });
    }

    /// Appends a delete of the keys in `[start_key, end_key)`.
    pub fn delete_range(
        &mut self,
        cf: ColumnFamily,
        start_key: &[u8],
        end_key: &[u8],
        notify_only: bool,
    )
        ensures
            final(self)@ == old(self)@.push(
                WriteOpView::DeleteRange {
                    cf,
                    start_key: start_key@,
                    end_key: end_key@,
                    notify_only,
                },
            ),
    {
        self.push(
            WriteOp::DeleteRange {
                cf,
                start_key: copy_bytes(start_key),
                end_key: copy_bytes(end_key),
                notify_only,
            },
        );
    }

    /// Appends the ingestion of the files that `ssts` describes.
    pub fn ingest(&mut self, ssts: Vec<SstMeta>)
        ensures
            final(self)@ == old(self)@.push(WriteOpView::Ingest { ssts: sst_views(ssts@) }),
    {
        self.push(WriteOp::Ingest { ssts });
    }

    /// Appends copies of the operations of `other`, in their order.
    pub fn append(&mut self, other: &WriteRequest)
        ensures
            final(self)@ == old(self)@ + other@,
    {
        let mut i: usize = 0;
        assert(self@ == old(self)@ + other@.take(0));
        while i < other.ops.len()
            invariant
                i <= other.ops.len(),
                self@ == old(self)@ + other@.take(i as int),
            decreases other.ops.len() - i,
        {
            self.push(other.ops[i].duplicate());
            assert(other@.take(i + 1) == other@.take(i as int).push(other.ops@[i as int]@));
            i += 1;
        }
        assert(other@.take(i as int) == other@);
    }

    /// Number of operations.
    pub fn len(&self) -> (n: usize)
        ensures
            n == self@.len(),
    {
        self.ops.len()
    }

    /// Gives the operations up.
    pub fn into_ops(self) -> (ops: Vec<WriteOp>)
        ensures
            op_views(ops@) == self@,
    {
        let WriteRequest { ops, size } = self;
        ops
    }

    /// Encoded size of the operations, saturating.
    pub fn data_size(&self) -> (n: usize)
        ensures
            n == sat(ops_size(self@) as int),
    {
        proof {
            use_type_invariant(self);
        }
        self.size
    }

    /// The operations in order.
    pub fn ops(&self) -> (ops: &Vec<WriteOp>)
        ensures
            op_views(ops@) == self@,
    {
        &self.ops
    }
}

} // verus!
