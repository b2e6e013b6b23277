//! Reading accepts nothing but what writing produces: whatever parses is the
//! encoding of what it parses to, byte for byte.

use vstd::prelude::*;
use vstd::bytes::lemma_auto_spec_u64_to_from_le_bytes;
use crate::parse::{
    parse_batch,
    parse_byte,
    parse_bytes,
    parse_cf,
    parse_delete,
    parse_delete_range,
    parse_epoch,
    parse_flag,
    parse_header,
    parse_ingest,
    parse_op,
    parse_ops,
    parse_put,
    parse_sst,
    parse_ssts,
    parse_u64,
};
use crate::roundtrip::{lemma_enc_ops_front, lemma_enc_ssts_front};
use crate::wire::{
    TAG_DELETE,
    TAG_DELETE_RANGE,
    TAG_INGEST,
    TAG_PUT,
    cf_id,
    enc_batch,
    enc_bytes,
    enc_epoch,
    enc_flag,
    enc_header,
    enc_op,
    enc_ops,
    enc_sst,
    enc_ssts,
    enc_u64,
};

verus! {

proof fn lemma_u64_canonical(s: Seq<u8>)
    requires
        parse_u64(s) is Some,
    ensures
        s == enc_u64(parse_u64(s).unwrap().0) + parse_u64(s).unwrap().1,
{
    lemma_auto_spec_u64_to_from_le_bytes();
    assert(s.take(8).len() == 8);
    assert(s == s.take(8) + s.skip(8));
}

proof fn lemma_byte_canonical(s: Seq<u8>)
    requires
        parse_byte(s) is Some,
    ensures
        s == seq![parse_byte(s).unwrap().0] + parse_byte(s).unwrap().1,
{
    assert(s == seq![s[0]] + s.skip(1));
}

proof fn lemma_bytes_canonical(s: Seq<u8>)
    requires
        parse_bytes(s) is Some,
    ensures
        s == enc_bytes(parse_bytes(s).unwrap().0) + parse_bytes(s).unwrap().1,
        parse_bytes(s).unwrap().0.len() <= u64::MAX,
{
    lemma_u64_canonical(s);
    let (n, rest) = parse_u64(s).unwrap();
    let b = rest.take(n as int);
    assert(b.len() == n);
    assert(rest == b + rest.skip(n as int));
    assert(s == enc_u64(n) + b + rest.skip(n as int));
}

proof fn lemma_cf_canonical(s: Seq<u8>)
    requires
        parse_cf(s) is Some,
    ensures
        s == seq![cf_id(parse_cf(s).unwrap().0)] + parse_cf(s).unwrap().1,
{
    lemma_byte_canonical(s);
}

proof fn lemma_flag_canonical(s: Seq<u8>)
    requires
        parse_flag(s) is Some,
    ensures
        s == seq![enc_flag(parse_flag(s).unwrap().0)] + parse_flag(s).unwrap().1,
{
    lemma_byte_canonical(s);
}

proof fn lemma_epoch_canonical(s: Seq<u8>)
    requires
        parse_epoch(s) is Some,
    ensures
        s == enc_epoch(parse_epoch(s).unwrap().0) + parse_epoch(s).unwrap().1,
{
    lemma_u64_canonical(s);
    let (conf_ver, s1) = parse_u64(s).unwrap();
    lemma_u64_canonical(s1);
    let (version, s2) = parse_u64(s1).unwrap();
    assert(s == enc_u64(conf_ver) + enc_u64(version) + s2);
}

proof fn lemma_header_canonical(s: Seq<u8>)
    requires
        parse_header(s) is Some,
    ensures
        s == enc_header(parse_header(s).unwrap().0) + parse_header(s).unwrap().1,
{
    lemma_u64_canonical(s);
    let (region_id, s1) = parse_u64(s).unwrap();
    lemma_epoch_canonical(s1);
    let (epoch, s2) = parse_epoch(s1).unwrap();
    lemma_u64_canonical(s2);
    let (term, s3) = parse_u64(s2).unwrap();
    lemma_u64_canonical(s3);
    let (peer_id, s4) = parse_u64(s3).unwrap();
    assert(s == enc_u64(region_id) + enc_epoch(epoch) + enc_u64(term) + enc_u64(peer_id) + s4);
}

proof fn lemma_sst_canonical(s: Seq<u8>)
    requires
        parse_sst(s) is Some,
    ensures
        s == enc_sst(parse_sst(s).unwrap().0) + parse_sst(s).unwrap().1,
{
    lemma_bytes_canonical(s);
    let (uuid, s1) = parse_bytes(s).unwrap();
    lemma_bytes_canonical(s1);
    let (range_start, s2) = parse_bytes(s1).unwrap();
    lemma_bytes_canonical(s2);
    let (range_end, s3) = parse_bytes(s2).unwrap();
    lemma_cf_canonical(s3);
    let (cf, s4) = parse_cf(s3).unwrap();
    lemma_u64_canonical(s4);
    let (region_id, s5) = parse_u64(s4).unwrap();
    lemma_epoch_canonical(s5);
    let (region_epoch, s6) = parse_epoch(s5).unwrap();
    let front = enc_bytes(uuid) + enc_bytes(range_start) + enc_bytes(range_end);
    assert(s == front + s3);
    assert(s3 == seq![cf_id(cf)] + enc_u64(region_id) + enc_epoch(region_epoch) + s6);
    assert(s == front + seq![cf_id(cf)] + enc_u64(region_id) + enc_epoch(region_epoch) + s6);
}

proof fn lemma_ssts_canonical(s: Seq<u8>, n: nat)
    requires
        parse_ssts(s, n) is Some,
    ensures
        parse_ssts(s, n).unwrap().0.len() == n,
        s == enc_ssts(parse_ssts(s, n).unwrap().0) + parse_ssts(s, n).unwrap().1,
    decreases n,
{
    if n == 0 {
        assert(s == Seq::<u8>::empty() + s);
    } else {
        lemma_sst_canonical(s);
        let (first, s1) = parse_sst(s).unwrap();
        lemma_ssts_canonical(s1, (n - 1) as nat);
        let (others, s2) = parse_ssts(s1, (n - 1) as nat).unwrap();
        lemma_enc_ssts_front(first, others);
        assert(s == enc_sst(first) + enc_ssts(others) + s2);
    }
}

proof fn lemma_put_canonical(s: Seq<u8>)
    requires
        parse_put(s) is Some,
    ensures
        seq![TAG_PUT] + s == enc_op(parse_put(s).unwrap().0) + parse_put(s).unwrap().1,
{
    lemma_cf_canonical(s);
    let (cf, s1) = parse_cf(s).unwrap();
    lemma_bytes_canonical(s1);
    let (key, s2) = parse_bytes(s1).unwrap();
    lemma_bytes_canonical(s2);
    let (value, s3) = parse_bytes(s2).unwrap();
    assert(seq![TAG_PUT, cf_id(cf)] == seq![TAG_PUT] + seq![cf_id(cf)]);
    assert(s == seq![cf_id(cf)] + enc_bytes(key) + enc_bytes(value) + s3);
    assert(seq![TAG_PUT] + s == seq![TAG_PUT] + seq![cf_id(cf)] + enc_bytes(key) + enc_bytes(
        value,
    ) + s3);
}

proof fn lemma_delete_canonical(s: Seq<u8>)
    requires
        parse_delete(s) is Some,
    ensures
        seq![TAG_DELETE] + s == enc_op(parse_delete(s).unwrap().0) + parse_delete(s).unwrap().1,
{
    lemma_cf_canonical(s);
    let (cf, s1) = parse_cf(s).unwrap();
    lemma_bytes_canonical(s1);
    let (key, s2) = parse_bytes(s1).unwrap();
    assert(seq![TAG_DELETE, cf_id(cf)] == seq![TAG_DELETE] + seq![cf_id(cf)]);
    assert(seq![TAG_DELETE] + s == seq![TAG_DELETE] + seq![cf_id(cf)] + enc_bytes(key) + s2);
}

proof fn lemma_delete_range_canonical(s: Seq<u8>)
    requires
        parse_delete_range(s) is Some,
    ensures
        seq![TAG_DELETE_RANGE] + s == enc_op(parse_delete_range(s).unwrap().0)
            + parse_delete_range(s).unwrap().1,
{
    lemma_cf_canonical(s);
    let (cf, s1) = parse_cf(s).unwrap();
    lemma_bytes_canonical(s1);
    let (start_key, s2) = parse_bytes(s1).unwrap();
    lemma_bytes_canonical(s2);
    let (end_key, s3) = parse_bytes(s2).unwrap();
    lemma_flag_canonical(s3);
    let (notify_only, s4) = parse_flag(s3).unwrap();
    assert(seq![TAG_DELETE_RANGE, cf_id(cf)] == seq![TAG_DELETE_RANGE] + seq![cf_id(cf)]);
    assert(s == seq![cf_id(cf)] + enc_bytes(start_key) + enc_bytes(end_key) + s3);
    assert(seq![TAG_DELETE_RANGE] + s == seq![TAG_DELETE_RANGE] + seq![cf_id(cf)] + enc_bytes(
        start_key,
    ) + enc_bytes(end_key) + seq![enc_flag(notify_only)] + s4);
}

proof fn lemma_ingest_canonical(s: Seq<u8>)
    requires
        parse_ingest(s) is Some,
    ensures
        seq![TAG_INGEST] + s == enc_op(parse_ingest(s).unwrap().0) + parse_ingest(s).unwrap().1,
{
    lemma_u64_canonical(s);
    let (n, s1) = parse_u64(s).unwrap();
    lemma_ssts_canonical(s1, n as nat);
    let (ssts, s2) = parse_ssts(s1, n as nat).unwrap();
    assert(ssts.len() as u64 == n);
    assert(seq![TAG_INGEST] + s == seq![TAG_INGEST] + enc_u64(n) + enc_ssts(ssts) + s2);
}

proof fn lemma_op_canonical(s: Seq<u8>)
    requires
        parse_op(s) is Some,
    ensures
        s == enc_op(parse_op(s).unwrap().0) + parse_op(s).unwrap().1,
{
    lemma_byte_canonical(s);
    let (tag, s1) = parse_byte(s).unwrap();
    if tag == TAG_PUT {
        lemma_put_canonical(s1);
    } else if tag == TAG_DELETE {
        lemma_delete_canonical(s1);
    } else if tag == TAG_DELETE_RANGE {
        lemma_delete_range_canonical(s1);
    } else {
        lemma_ingest_canonical(s1);
    }
}

proof fn lemma_ops_canonical(s: Seq<u8>, n: nat)
    requires
        parse_ops(s, n) is Some,
    ensures
        parse_ops(s, n).unwrap().0.len() == n,
        s == enc_ops(parse_ops(s, n).unwrap().0) + parse_ops(s, n).unwrap().1,
    decreases n,
{
    if n == 0 {
        assert(s == Seq::<u8>::empty() + s);
    } else {
        lemma_op_canonical(s);
        let (first, s1) = parse_op(s).unwrap();
        lemma_ops_canonical(s1, (n - 1) as nat);
        let (others, s2) = parse_ops(s1, (n - 1) as nat).unwrap();
        lemma_enc_ops_front(first, others);
        assert(s == enc_op(first) + enc_ops(others) + s2);
    }
}

/// Decoding accepts encodings only: a payload that decodes to a header and a
/// list of operations is the encoding of that header and that list.
pub proof fn law_decode_accepts_only_encodings(payload: Seq<u8>)
    requires
        parse_batch(payload) is Some,
    ensures
        payload == enc_batch(parse_batch(payload).unwrap().0, parse_batch(payload).unwrap().1),
{
    lemma_header_canonical(payload);
    let (header, s1) = parse_header(payload).unwrap();
    lemma_u64_canonical(s1);
    let (n, s2) = parse_u64(s1).unwrap();
    lemma_ops_canonical(s2, n as nat);
    let (ops, s3) = parse_ops(s2, n as nat).unwrap();
    assert(ops.len() as u64 == n);
    assert(s2 == enc_ops(ops));
    assert(payload == enc_header(header) + enc_u64(n) + enc_ops(ops));
}

} // verus!
