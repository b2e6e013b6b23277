use write_pipeline::batch::WriteBatch;
use write_pipeline::channel::ResponseChannel;
use write_pipeline::metadata::{ColumnFamily, RegionEpoch, WriteHeader};
use write_pipeline::parse::decode_batch;
use write_pipeline::request::WriteRequest;
use write_pipeline::write_op::{SstMeta, WriteOp};

fn header() -> WriteHeader {
    WriteHeader { region_id: 7, epoch: RegionEpoch { conf_ver: 1, version: 3 }, term: 5, peer_id: 2 }
}

fn le(x: u64) -> Vec<u8> {
    x.to_le_bytes().to_vec()
}

fn sst(uuid: u8) -> SstMeta {
    SstMeta {
        uuid: vec![uuid; 16],
        range_start: b"b".to_vec(),
        range_end: b"c".to_vec(),
        cf: ColumnFamily::Write,
        region_id: 7,
        region_epoch: RegionEpoch { conf_ver: 1, version: 3 },
    }
}

#[test]
fn payload_of_one_put_is_laid_out_as_documented() {
    let mut req = WriteRequest::new();
    req.put(ColumnFamily::Default, b"k1", b"v1");
    let (bytes, channels) = WriteBatch::new(header(), req, 1000, false).encode();
    let mut expected = Vec::new();
    expected.extend(le(7));
    expected.extend(le(1));
    expected.extend(le(3));
    expected.extend(le(5));
    expected.extend(le(2));
    expected.extend(le(1));
    expected.extend([0u8, 0u8]);
    expected.extend(le(2));
    expected.extend(b"k1");
    expected.extend(le(2));
    expected.extend(b"v1");
    assert_eq!(bytes, expected);
    assert!(channels.is_empty());
}

#[test]
fn payload_of_each_kind_of_operation() {
    let mut req = WriteRequest::new();
    req.delete(ColumnFamily::Lock, b"k");
    req.delete_range(ColumnFamily::Write, b"a", b"bc", true);
    req.ingest(vec![sst(9)]);
    let (bytes, _) = WriteBatch::new(WriteHeader::empty(), req, 0, false).encode();
    let mut expected = vec![0u8; 40];
    expected.extend(le(3));
    // delete
    expected.extend([1u8, 1u8]);
    expected.extend(le(1));
    expected.extend(b"k");
    // delete range
    expected.extend([2u8, 2u8]);
    expected.extend(le(1));
    expected.extend(b"a");
    expected.extend(le(2));
    expected.extend(b"bc");
    expected.push(1);
    // ingest
    expected.push(3);
    expected.extend(le(1));
    expected.extend(le(16));
    expected.extend([9u8; 16]);
    expected.extend(le(1));
    expected.extend(b"b");
    expected.extend(le(1));
    expected.extend(b"c");
    expected.push(2);
    expected.extend(le(7));
    expected.extend(le(1));
    expected.extend(le(3));
    assert_eq!(bytes, expected);
}

#[test]
fn decoding_gives_back_header_and_operations_in_order() {
    let mut req = WriteRequest::new();
    req.put(ColumnFamily::Default, b"k1", b"v1");
    req.delete(ColumnFamily::Write, b"k2");
    req.put(ColumnFamily::Lock, b"", b"");
    req.delete_range(ColumnFamily::Default, b"a", b"z", false);
    req.ingest(vec![sst(1), sst(2)]);
    req.put(ColumnFamily::Default, b"k1", b"v2");
    let (bytes, _) = WriteBatch::new(header(), req, 1000, false).encode();
    let (h, ops) = decode_batch(&bytes).expect("a payload that was just encoded");
    assert_eq!(h, header());
    assert_eq!(
        ops,
        vec![
            WriteOp::Put { cf: ColumnFamily::Default, key: b"k1".to_vec(), value: b"v1".to_vec() },
            WriteOp::Delete { cf: ColumnFamily::Write, key: b"k2".to_vec() },
            WriteOp::Put { cf: ColumnFamily::Lock, key: vec![], value: vec![] },
            WriteOp::DeleteRange {
                cf: ColumnFamily::Default,
                start_key: b"a".to_vec(),
                end_key: b"z".to_vec(),
                notify_only: false,
            },
            WriteOp::Ingest { ssts: vec![sst(1), sst(2)] },
            WriteOp::Put { cf: ColumnFamily::Default, key: b"k1".to_vec(), value: b"v2".to_vec() },
        ]
    );
}

#[test]
fn empty_batch_round_trips() {
    let (bytes, _) = WriteBatch::new(header(), WriteRequest::new(), 10, true).encode();
    assert_eq!(bytes.len(), 48);
    let (h, ops) = decode_batch(&bytes).unwrap();
    assert_eq!(h, header());
    assert!(ops.is_empty());
}

#[test]
fn malformed_payloads_are_refused() {
    let mut req = WriteRequest::new();
    req.put(ColumnFamily::Default, b"k1", b"v1");
    let (bytes, _) = WriteBatch::new(header(), req, 1000, false).encode();
    // nothing at all, and a header that is cut short
    assert_eq!(decode_batch(&[]), None);
    assert_eq!(decode_batch(&bytes[..39]), None);
    // every proper prefix lacks something
    for cut in 0..bytes.len() {
        assert_eq!(decode_batch(&bytes[..cut]), None, "prefix of {} bytes", cut);
    }
    // bytes behind the last operation
    let mut longer = bytes.clone();
    longer.push(0);
    assert_eq!(decode_batch(&longer), None);
    // an unknown tag
    let mut tag = bytes.clone();
    tag[48] = 4;
    assert_eq!(decode_batch(&tag), None);
    // an unknown column family
    let mut cf = bytes.clone();
    cf[49] = 3;
    assert_eq!(decode_batch(&cf), None);
    // a count that promises more operations than there are
    let mut count = bytes.clone();
    count[40] = 2;
    assert_eq!(decode_batch(&count), None);
    // a key length that reaches beyond the payload
    let mut len = bytes.clone();
    len[57] = 0xff;
    assert_eq!(decode_batch(&len), None);
}

#[test]
fn delete_range_flag_must_be_zero_or_one() {
    let mut req = WriteRequest::new();
    req.delete_range(ColumnFamily::Default, b"a", b"b", true);
    let (mut bytes, _) = WriteBatch::new(header(), req, 1000, false).encode();
    let last = bytes.len() - 1;
    assert_eq!(bytes[last], 1);
    bytes[last] = 2;
    assert_eq!(decode_batch(&bytes), None);
}

#[test]
fn request_counts_its_encoded_size() {
    let mut req = WriteRequest::new();
    assert_eq!(req.data_size(), 0);
    assert_eq!(req.len(), 0);
    req.put(ColumnFamily::Default, b"k1", b"v1");
    assert_eq!(req.data_size(), 22);
    req.delete(ColumnFamily::Default, b"k");
    assert_eq!(req.data_size(), 22 + 11);
    req.delete_range(ColumnFamily::Default, b"a", b"bc", false);
    assert_eq!(req.data_size(), 22 + 11 + 22);
    req.ingest(vec![sst(1)]);
    assert_eq!(req.data_size(), 22 + 11 + 22 + 9 + 49 + 16 + 1 + 1);
    assert_eq!(req.len(), 4);
    let size = req.data_size();
    let (bytes, _) = WriteBatch::new(header(), req, 1000, false).encode();
    assert_eq!(bytes.len(), 48 + size);
}

#[test]
fn batch_size_is_the_length_of_its_payload() {
    let mut req = WriteRequest::new();
    req.put(ColumnFamily::Default, b"key", b"value");
    let mut batch = WriteBatch::new(header(), req, 1000, false);
    let mut more = WriteRequest::new();
    more.delete(ColumnFamily::Write, b"other");
    assert!(batch.amend(&header(), &more));
    let counted = batch.data_size();
    let (bytes, _) = batch.encode();
    assert_eq!(counted, bytes.len());
}

#[test]
fn amend_appends_in_order_under_the_same_header() {
    let mut first = WriteRequest::new();
    first.put(ColumnFamily::Default, b"a", b"1");
    let mut batch = WriteBatch::new(header(), first, 1000, false);
    let mut second = WriteRequest::new();
    second.put(ColumnFamily::Default, b"b", b"2");
    second.delete(ColumnFamily::Default, b"a");
    assert!(batch.amend(&header(), &second));
    assert!(!batch.add_response_channel(ResponseChannel::new(1)));
    let (bytes, channels) = batch.encode();
    let (_, ops) = decode_batch(&bytes).unwrap();
    assert_eq!(
        ops,
        vec![
            WriteOp::Put { cf: ColumnFamily::Default, key: b"a".to_vec(), value: b"1".to_vec() },
            WriteOp::Put { cf: ColumnFamily::Default, key: b"b".to_vec(), value: b"2".to_vec() },
            WriteOp::Delete { cf: ColumnFamily::Default, key: b"a".to_vec() },
        ]
    );
    assert_eq!(channels, vec![ResponseChannel::new(1)]);
}

#[test]
fn amend_refuses_another_partition_epoch_or_term() {
    let mut first = WriteRequest::new();
    first.put(ColumnFamily::Default, b"a", b"1");
    let mut batch = WriteBatch::new(header(), first, 1000, false);
    let before = batch.data_size();
    let mut more = WriteRequest::new();
    more.put(ColumnFamily::Default, b"b", b"2");

    let mut other = header();
    other.region_id = 8;
    assert!(!batch.amend(&other, &more));
    let mut other = header();
    other.epoch.conf_ver = 2;
    assert!(!batch.amend(&other, &more));
    let mut other = header();
    other.epoch.version = 4;
    assert!(!batch.amend(&other, &more));
    let mut other = header();
    other.term = 6;
    assert!(!batch.amend(&other, &more));
    assert_eq!(batch.data_size(), before);
    assert_eq!(batch.body().len(), 1);

    // The replica that a request was sent to is no part of the comparison.
    let mut other = header();
    other.peer_id = 9;
    assert!(batch.amend(&other, &more));
    assert_eq!(batch.header(), &header());
    assert_eq!(batch.body().len(), 2);
}

#[test]
fn amend_refuses_what_reaches_the_limit() {
    let mut first = WriteRequest::new();
    first.put(ColumnFamily::Default, b"a", b"1");
    // 48 for header and count, 20 for the put
    let mut more = WriteRequest::new();
    more.put(ColumnFamily::Default, b"b", b"2");
    let mut exact = WriteBatch::new(header(), first, 88, false);
    assert_eq!(exact.data_size(), 68);
    assert_eq!(exact.size_limit(), 88);
    assert!(!exact.amend(&header(), &more));
    assert_eq!(exact.data_size(), 68);

    let mut first = WriteRequest::new();
    first.put(ColumnFamily::Default, b"a", b"1");
    let mut roomy = WriteBatch::new(header(), first, 89, false);
    assert!(roomy.amend(&header(), &more));
    assert_eq!(roomy.data_size(), 88);
    assert!(!roomy.amend(&header(), &more));
}

#[test]
fn channels_learn_of_the_proposal_when_the_batch_says_so() {
    let mut batch = WriteBatch::new(header(), WriteRequest::new(), 100, true);
    assert!(batch.notify_proposed());
    assert!(batch.add_response_channel(ResponseChannel::new(4)));
    assert!(batch.add_response_channel(ResponseChannel::new(5)));
    assert_eq!(batch.channels(), &vec![ResponseChannel::new(4), ResponseChannel::new(5)]);
}

#[test]
fn request_append_copies_in_order() {
    let mut a = WriteRequest::new();
    a.put(ColumnFamily::Default, b"1", b"x");
    let mut b = WriteRequest::new();
    b.delete(ColumnFamily::Lock, b"2");
    b.put(ColumnFamily::Write, b"3", b"y");
    a.append(&b);
    assert_eq!(b.len(), 2);
    assert_eq!(a.data_size(), 20 + 11 + 20);
    assert_eq!(
        a.into_ops(),
        vec![
            WriteOp::Put { cf: ColumnFamily::Default, key: b"1".to_vec(), value: b"x".to_vec() },
            WriteOp::Delete { cf: ColumnFamily::Lock, key: b"2".to_vec() },
            WriteOp::Put { cf: ColumnFamily::Write, key: b"3".to_vec(), value: b"y".to_vec() },
        ]
    );
}
