//! Reading the wire format.
//!
//! A `parse_*` function takes the input that is left and gives the value it
//! read together with the input after that value, or `None` where the input
//! does not start with such a value. The `read_*` functions do the same on a
//! slice and a position in it.

use vstd::prelude::*;
use vstd::bytes::{spec_u64_from_le_bytes, u64_from_le_bytes};
use vstd::slice::slice_subrange;
use crate::metadata::{ColumnFamily, RegionEpoch, WriteHeader};
use crate::canonical::law_decode_accepts_only_encodings;
use crate::roundtrip::{law_decode_inverts_encode, ops_fit};
use crate::wire::{TAG_DELETE, TAG_DELETE_RANGE, TAG_INGEST, TAG_PUT, enc_batch};
use crate::write_op::{SstMeta, SstMetaView, WriteOp, WriteOpView, op_views, sst_views};

verus! {

pub open spec fn parse_u64(s: Seq<u8>) -> Option<(u64, Seq<u8>)> {
    if s.len() >= 8 {
        Some((spec_u64_from_le_bytes(s.take(8)), s.skip(8)))
    } else {
        None
    }
}

pub open spec fn parse_byte(s: Seq<u8>) -> Option<(u8, Seq<u8>)> {
    if s.len() >= 1 {
        Some((s[0], s.skip(1)))
    } else {
        None
    }
}

pub open spec fn parse_bytes(s: Seq<u8>) -> Option<(Seq<u8>, Seq<u8>)> {
    match parse_u64(s) {
        Some((n, rest)) => if n <= rest.len() {
            Some((rest.take(n as int), rest.skip(n as int)))
        } else {
            None
        },
        None => None,
    }
}

pub open spec fn cf_of_id(id: u8) -> Option<ColumnFamily> {
    if id == 0 {
        Some(ColumnFamily::Default)
    } else if id == 1 {
        Some(ColumnFamily::Lock)
    } else if id == 2 {
        Some(ColumnFamily::Write)
    } else {
        None
    }
}

pub open spec fn parse_cf(s: Seq<u8>) -> Option<(ColumnFamily, Seq<u8>)> {
    match parse_byte(s) {
        Some((id, rest)) => match cf_of_id(id) {
            Some(cf) => Some((cf, rest)),
            None => None,
        },
        None => None,
    }
}

pub open spec fn parse_flag(s: Seq<u8>) -> Option<(bool, Seq<u8>)> {
    match parse_byte(s) {
        Some((b, rest)) => if b <= 1 {
            Some((b == 1, rest))
        } else {
            None
        },
        None => None,
    }
}

pub open spec fn parse_epoch(s: Seq<u8>) -> Option<(RegionEpoch, Seq<u8>)> {
    match parse_u64(s) {
        Some((conf_ver, s1)) => match parse_u64(s1) {
            Some((version, s2)) => Some((RegionEpoch { conf_ver, version }, s2)),
            None => None,
        },
        None => None,
    }
}

pub open spec fn parse_header(s: Seq<u8>) -> Option<(WriteHeader, Seq<u8>)> {
    match parse_u64(s) {
        Some((region_id, s1)) => match parse_epoch(s1) {
            Some((epoch, s2)) => match parse_u64(s2) {
                Some((term, s3)) => match parse_u64(s3) {
                    Some((peer_id, s4)) => Some(
                        (WriteHeader { region_id, epoch, term, peer_id }, s4),
                    ),
                    None => None,
                },
                None => None,
            },
            None => None,
        },
        None => None,
    }
}

pub open spec fn parse_sst(s: Seq<u8>) -> Option<(SstMetaView, Seq<u8>)> {
    match parse_bytes(s) {
        Some((uuid, s1)) => match parse_bytes(s1) {
            Some((range_start, s2)) => match parse_bytes(s2) {
                Some((range_end, s3)) => match parse_cf(s3) {
                    Some((cf, s4)) => match parse_u64(s4) {
                        Some((region_id, s5)) => match parse_epoch(s5) {
                            Some((region_epoch, s6)) => Some(
                                (
                                    SstMetaView {
                                        uuid,
                                        range_start,
                                        range_end,
                                        cf,
                                        region_id,
                                        region_epoch,
                                    },
                                    s6,
                                ),
                            ),
                            None => None,
                        },
                        None => None,
                    },
                    None => None,
                },
                None => None,
            },
            None => None,
        },
        None => None,
    }
}

/// Exactly `n` descriptors, one after the other.
pub open spec fn parse_ssts(s: Seq<u8>, n: nat) -> Option<(Seq<SstMetaView>, Seq<u8>)>
    decreases n,
{
    if n == 0 {
        Some((Seq::empty(), s))
    } else {
        match parse_sst(s) {
            Some((first, s1)) => match parse_ssts(s1, (n - 1) as nat) {
                Some((others, s2)) => Some((seq![first] + others, s2)),
                None => None,
            },
            None => None,
        }
    }
}

pub open spec fn parse_put(s: Seq<u8>) -> Option<(WriteOpView, Seq<u8>)> {
    match parse_cf(s) {
        Some((cf, s1)) => match parse_bytes(s1) {
            Some((key, s2)) => match parse_bytes(s2) {
                Some((value, s3)) => Some((WriteOpView::Put { cf, key, value }, s3)),
                None => None,
            },
            None => None,
        },
        None => None,
    }
}

pub open spec fn parse_delete(s: Seq<u8>) -> Option<(WriteOpView, Seq<u8>)> {
    match parse_cf(s) {
        Some((cf, s1)) => match parse_bytes(s1) {
            Some((key, s2)) => Some((WriteOpView::Delete { cf, key }, s2)),
            None => None,
        },
        None => None,
    }
}

pub open spec fn parse_delete_range(s: Seq<u8>) -> Option<(WriteOpView, Seq<u8>)> {
    match parse_cf(s) {
        Some((cf, s1)) => match parse_bytes(s1) {
            Some((start_key, s2)) => match parse_bytes(s2) {
                Some((end_key, s3)) => match parse_flag(s3) {
                    Some((notify_only, s4)) => Some(
                        (WriteOpView::DeleteRange { cf, start_key, end_key, notify_only }, s4),
                    ),
                    None => None,
                },
                None => None,
            },
            None => None,
        },
        None => None,
    }
}

pub open spec fn parse_ingest(s: Seq<u8>) -> Option<(WriteOpView, Seq<u8>)> {
    match parse_u64(s) {
        Some((n, s1)) => match parse_ssts(s1, n as nat) {
            Some((ssts, s2)) => Some((WriteOpView::Ingest { ssts }, s2)),
            None => None,
        },
        None => None,
    }
}

pub open spec fn parse_op(s: Seq<u8>) -> Option<(WriteOpView, Seq<u8>)> {
    match parse_byte(s) {
        Some((tag, s1)) => if tag == TAG_PUT {
            parse_put(s1)
        } else if tag == TAG_DELETE {
            parse_delete(s1)
        } else if tag == TAG_DELETE_RANGE {
            parse_delete_range(s1)
        } else if tag == TAG_INGEST {
            parse_ingest(s1)
        } else {
            None
        },
        None => None,
    }
}

/// Exactly `n` operations, one after the other.
pub open spec fn parse_ops(s: Seq<u8>, n: nat) -> Option<(Seq<WriteOpView>, Seq<u8>)>
    decreases n,
{
    if n == 0 {
        Some((Seq::empty(), s))
    } else {
        match parse_op(s) {
            Some((first, s1)) => match parse_ops(s1, (n - 1) as nat) {
                Some((others, s2)) => Some((seq![first] + others, s2)),
                None => None,
            },
            None => None,
        }
    }
}

/// A whole payload: a header, the count, that many operations, and nothing
/// after them.
pub open spec fn parse_batch(s: Seq<u8>) -> Option<(WriteHeader, Seq<WriteOpView>)> {
    match parse_header(s) {
        Some((header, s1)) => match parse_u64(s1) {
            Some((n, s2)) => match parse_ops(s2, n as nat) {
                Some((ops, s3)) => if s3.len() == 0 {
                    Some((header, ops))
                } else {
                    None
                },
                None => None,
            },
            None => None,
        },
        None => None,
    }
}

/// The input from `pos` on.
pub open spec fn input_at(bytes: &[u8], pos: usize) -> Seq<u8> {
    bytes@.skip(pos as int)
}

fn read_u64(bytes: &[u8], pos: usize) -> (r: Option<(u64, usize)>)
    requires
        pos <= bytes.len(),
    ensures
        match parse_u64(input_at(bytes, pos)) {
            Some((v, rest)) => r == Some((v, (pos + 8) as usize)) && pos + 8 <= bytes.len()
                && rest == input_at(bytes, (pos + 8) as usize),
            None => r is None,
        },
{
    if bytes.len() - pos < 8 {
        return None;
    }
    let v = u64_from_le_bytes(slice_subrange(bytes, pos, pos + 8));
    proof {
        assert(input_at(bytes, pos).take(8) == bytes@.subrange(pos as int, pos + 8));
        assert(input_at(bytes, pos).skip(8) == input_at(bytes, (pos + 8) as usize));
    }
    Some((v, pos + 8))
}

fn read_byte(bytes: &[u8], pos: usize) -> (r: Option<(u8, usize)>)
    requires
        pos <= bytes.len(),
    ensures
        match parse_byte(input_at(bytes, pos)) {
            Some((v, rest)) => r == Some((v, (pos + 1) as usize)) && pos + 1 <= bytes.len()
                && rest == input_at(bytes, (pos + 1) as usize),
            None => r is None,
        },
{
    if bytes.len() - pos < 1 {
        return None;
    }
    proof {
        assert(input_at(bytes, pos).skip(1) == input_at(bytes, (pos + 1) as usize));
    }
    Some((bytes[pos], pos + 1))
}

fn read_bytes(bytes: &[u8], pos: usize) -> (r: Option<(Vec<u8>, usize)>)
    requires
        pos <= bytes.len(),
    ensures
        match parse_bytes(input_at(bytes, pos)) {
            Some((v, rest)) => r matches Some((got, end)) && got@ == v && pos <= end
                <= bytes.len() && rest == input_at(bytes, end),
            None => r is None,
        },
{
    let (n, start) = match read_u64(bytes, pos) {
        Some(x) => x,
        None => { return None; },
    };
    if n > (bytes.len() - start) as u64 {
        return None;
    }
    let end: usize = start + n as usize;
    let got = crate::keys::copy_bytes(slice_subrange(bytes, start, end));
    proof {
        assert(input_at(bytes, start).take(n as int) == bytes@.subrange(start as int, end as int));
        assert(input_at(bytes, start).skip(n as int) == input_at(bytes, end));
    }
    Some((got, end))
}

fn read_cf(bytes: &[u8], pos: usize) -> (r: Option<(ColumnFamily, usize)>)
    requires
        pos <= bytes.len(),
    ensures
        match parse_cf(input_at(bytes, pos)) {
            Some((v, rest)) => r == Some((v, (pos + 1) as usize)) && pos + 1 <= bytes.len()
                && rest == input_at(bytes, (pos + 1) as usize),
            None => r is None,
        },
{
    match read_byte(bytes, pos) {
        Some((id, end)) => if id == 0 {
            Some((ColumnFamily::Default, end))
        } else if id == 1 {
            Some((ColumnFamily::Lock, end))
        } else if id == 2 {
            Some((ColumnFamily::Write, end))
        } else {
            None
        },
        None => None,
    }
}

fn read_flag(bytes: &[u8], pos: usize) -> (r: Option<(bool, usize)>)
    requires
        pos <= bytes.len(),
    ensures
        match parse_flag(input_at(bytes, pos)) {
            Some((v, rest)) => r == Some((v, (pos + 1) as usize)) && pos + 1 <= bytes.len()
                && rest == input_at(bytes, (pos + 1) as usize),
            None => r is None,
        },
{
    match read_byte(bytes, pos) {
        Some((b, end)) => if b <= 1 {
            Some((b == 1, end))
        } else {
            None
        },
        None => None,
    }
}

fn read_epoch(bytes: &[u8], pos: usize) -> (r: Option<(RegionEpoch, usize)>)
    requires
        pos <= bytes.len(),
    ensures
        match parse_epoch(input_at(bytes, pos)) {
            Some((v, rest)) => r == Some((v, (pos + 16) as usize)) && pos + 16 <= bytes.len()
                && rest == input_at(bytes, (pos + 16) as usize),
            None => r is None,
        },
{
    let (conf_ver, at1) = match read_u64(bytes, pos) {
        Some(x) => x,
        None => { return None; },
    };
    let (version, at2) = match read_u64(bytes, at1) {
        Some(x) => x,
        None => { return None; },
    };
    Some((RegionEpoch { conf_ver, version }, at2))
}

fn read_header(bytes: &[u8], pos: usize) -> (r: Option<(WriteHeader, usize)>)
    requires
        pos <= bytes.len(),
    ensures
        match parse_header(input_at(bytes, pos)) {
            Some((v, rest)) => r == Some((v, (pos + 40) as usize)) && pos + 40 <= bytes.len()
                && rest == input_at(bytes, (pos + 40) as usize),
            None => r is None,
        },
{
    let (region_id, at1) = match read_u64(bytes, pos) {
        Some(x) => x,
        None => { return None; },
    };
    let (epoch, at2) = match read_epoch(bytes, at1) {
        Some(x) => x,
        None => { return None; },
    };
    let (term, at3) = match read_u64(bytes, at2) {
        Some(x) => x,
        None => { return None; },
    };
    let (peer_id, at4) = match read_u64(bytes, at3) {
        Some(x) => x,
        None => { return None; },
    };
    Some((WriteHeader { region_id, epoch, term, peer_id }, at4))
}

fn read_sst(bytes: &[u8], pos: usize) -> (r: Option<(SstMeta, usize)>)
    requires
        pos <= bytes.len(),
    ensures
        match parse_sst(input_at(bytes, pos)) {
            Some((v, rest)) => r matches Some((got, end)) && got@ == v && pos <= end
                <= bytes.len() && rest == input_at(bytes, end),
            None => r is None,
        },
{
    let (uuid, at1) = match read_bytes(bytes, pos) {
        Some(x) => x,
        None => { return None; },
    };
    let (range_start, at2) = match read_bytes(bytes, at1) {
        Some(x) => x,
        None => { return None; },
    };
    let (range_end, at3) = match read_bytes(bytes, at2) {
        Some(x) => x,
        None => { return None; },
    };
    let (cf, at4) = match read_cf(bytes, at3) {
        Some(x) => x,
        None => { return None; },
    };
    let (region_id, at5) = match read_u64(bytes, at4) {
        Some(x) => x,
        None => { return None; },
    };
    let (region_epoch, at6) = match read_epoch(bytes, at5) {
        Some(x) => x,
        None => { return None; },
    };
    Some((SstMeta { uuid, range_start, range_end, cf, region_id, region_epoch }, at6))
}

/// What a list parser gives once `done` has been read and the rest of the list
/// parses to `left`.
pub open spec fn prepend<T>(done: Seq<T>, left: Option<(Seq<T>, Seq<u8>)>) -> Option<
    (Seq<T>, Seq<u8>),
> {
    match left {
        Some((others, rest)) => Some((done + others, rest)),
        None => None,
    }
}

fn read_ssts(bytes: &[u8], pos: usize, n: u64) -> (r: Option<(Vec<SstMeta>, usize)>)
    requires
        pos <= bytes.len(),
    ensures
        match parse_ssts(input_at(bytes, pos), n as nat) {
            Some((v, rest)) => r matches Some((got, end)) && sst_views(got@) == v && pos <= end
                <= bytes.len() && rest == input_at(bytes, end),
            None => r is None,
        },
{
    let ghost goal = parse_ssts(input_at(bytes, pos), n as nat);
    let mut ssts: Vec<SstMeta> = Vec::new();
    let mut at: usize = pos;
    let mut i: u64 = 0;
    assert(goal is Some ==> sst_views(ssts@) + goal.unwrap().0 == goal.unwrap().0);
    while i < n
        invariant
            i <= n,
            pos <= at <= bytes.len(),
            goal == parse_ssts(input_at(bytes, pos), n as nat),
            goal == prepend(
                sst_views(ssts@),
                parse_ssts(input_at(bytes, at), (n - i) as nat),
            ),
        decreases n - i,
    {
        let (sst, end) = match read_sst(bytes, at) {
            Some(x) => x,
            None => { return None; },
        };
        proof {
            let before = sst_views(ssts@);
            let left = parse_ssts(input_at(bytes, end), (n - i - 1) as nat);
            assert(sst_views(ssts@.push(sst)) == before.push(sst@));
            if left is Some {
                let others = left.unwrap().0;
                assert(before.push(sst@) + others == before + (seq![sst@] + others));
            }
        }
        ssts.push(sst);
        at = end;
        i += 1;
    }
    assert(sst_views(ssts@) + Seq::<SstMetaView>::empty() == sst_views(ssts@));
    Some((ssts, at))
}

fn read_op(bytes: &[u8], pos: usize) -> (r: Option<(WriteOp, usize)>)
    requires
        pos <= bytes.len(),
    ensures
        match parse_op(input_at(bytes, pos)) {
            Some((v, rest)) => r matches Some((got, end)) && got@ == v && pos <= end
                <= bytes.len() && rest == input_at(bytes, end),
            None => r is None,
        },
{
    let (tag, at0) = match read_byte(bytes, pos) {
        Some(x) => x,
        None => { return None; },
    };
    if tag == TAG_PUT {
        let (cf, at1) = match read_cf(bytes, at0) {
            Some(x) => x,
            None => { return None; },
        };
        let (key, at2) = match read_bytes(bytes, at1) {
            Some(x) => x,
            None => { return None; },
        };
        let (value, at3) = match read_bytes(bytes, at2) {
            Some(x) => x,
            None => { return None; },
        };
        Some((WriteOp::Put { cf, key, value }, at3))
    } else if tag == TAG_DELETE {
        let (cf, at1) = match read_cf(bytes, at0) {
            Some(x) => x,
            None => { return None; },
        };
        let (key, at2) = match read_bytes(bytes, at1) {
            Some(x) => x,
            None => { return None; },
        };
        Some((WriteOp::Delete { cf, key }, at2))
    } else if tag == TAG_DELETE_RANGE {
        let (cf, at1) = match read_cf(bytes, at0) {
            Some(x) => x,
            None => { return None; },
        };
        let (start_key, at2) = match read_bytes(bytes, at1) {
            Some(x) => x,
            None => { return None; },
        };
        let (end_key, at3) = match read_bytes(bytes, at2) {
            Some(x) => x,
            None => { return None; },
        };
        let (notify_only, at4) = match read_flag(bytes, at3) {
            Some(x) => x,
            None => { return None; },
        };
        Some((WriteOp::DeleteRange { cf, start_key, end_key, notify_only }, at4))
    } else if tag == TAG_INGEST {
        let (n, at1) = match read_u64(bytes, at0) {
            Some(x) => x,
            None => { return None; },
        };
        let (ssts, at2) = match read_ssts(bytes, at1, n) {
            Some(x) => x,
            None => { return None; },
        };
        Some((WriteOp::Ingest { ssts }, at2))
    } else {
        None
    }
}

fn read_ops(bytes: &[u8], pos: usize, n: u64) -> (r: Option<(Vec<WriteOp>, usize)>)
    requires
        pos <= bytes.len(),
    ensures
        match parse_ops(input_at(bytes, pos), n as nat) {
            Some((v, rest)) => r matches Some((got, end)) && op_views(got@) == v && pos <= end
                <= bytes.len() && rest == input_at(bytes, end),
            None => r is None,
        },
{
    let ghost goal = parse_ops(input_at(bytes, pos), n as nat);
    let mut ops: Vec<WriteOp> = Vec::new();
    let mut at: usize = pos;
    let mut i: u64 = 0;
    assert(goal is Some ==> op_views(ops@) + goal.unwrap().0 == goal.unwrap().0);
    while i < n
        invariant
            i <= n,
            pos <= at <= bytes.len(),
            goal == parse_ops(input_at(bytes, pos), n as nat),
            goal == prepend(op_views(ops@), parse_ops(input_at(bytes, at), (n - i) as nat)),
        decreases n - i,
    {
        let (op, end) = match read_op(bytes, at) {
            Some(x) => x,
            None => { return None; },
        };
        proof {
            let before = op_views(ops@);
            let left = parse_ops(input_at(bytes, end), (n - i - 1) as nat);
            assert(op_views(ops@.push(op)) == before.push(op@));
            if left is Some {
                let others = left.unwrap().0;
                assert(before.push(op@) + others == before + (seq![op@] + others));
            }
        }
        ops.push(op);
        at = end;
        i += 1;
    }
    assert(op_views(ops@) + Seq::<WriteOpView>::empty() == op_views(ops@));
    Some((ops, at))
}

/// Decodes the payload of one log entry. Operations come out in the order in
/// which they were written.
///
/// Decoding is the inverse of encoding: what comes out is what the payload
/// is the encoding of, and nothing comes out of bytes that are no encoding.
pub fn decode_batch(bytes: &[u8]) -> (r: Option<(WriteHeader, Vec<WriteOp>)>)
    ensures
        match parse_batch(bytes@) {
            Some((header, ops)) => r matches Some((h, got)) && h == header && op_views(got@)
                == ops,
            None => r is None,
        },
        r matches Some((h, got)) ==> bytes@ == enc_batch(h, op_views(got@)),
        r is None ==> forall|h: WriteHeader, ops: Seq<WriteOpView>|
            ops_fit(ops) ==> bytes@ != #[trigger] enc_batch(h, ops),
{
    proof {
        if parse_batch(bytes@) is Some {
            law_decode_accepts_only_encodings(bytes@);
        } else {
            assert forall|h: WriteHeader, ops: Seq<WriteOpView>| ops_fit(ops) implies bytes@
                != #[trigger] enc_batch(h, ops) by {
                law_decode_inverts_encode(h, ops);
            }
        }
    }
    assert(input_at(bytes, 0) == bytes@);
    let (header, at1) = match read_header(bytes, 0) {
        Some(x) => x,
        None => { return None; },
    };
    let (n, at2) = match read_u64(bytes, at1) {
        Some(x) => x,
        None => { return None; },
    };
    let (ops, at3) = match read_ops(bytes, at2, n) {
        Some(x) => x,
        None => { return None; },
    };
    if at3 != bytes.len() {
        return None;
    }
    Some((header, ops))
}

} // verus!
