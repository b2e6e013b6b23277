use write_pipeline::errors::Error;
use write_pipeline::keys::{
    check_key_in_region, compare_region_epoch, copy_bytes, data_key, data_key_with_buffer,
    is_before,
};
use write_pipeline::metadata::{ColumnFamily, Region, RegionEpoch};
use write_pipeline::sst::check_sst_for_ingestion;
use write_pipeline::write_op::SstMeta;

fn region() -> Region {
    Region {
        id: 7,
        epoch: RegionEpoch { conf_ver: 1, version: 3 },
        start_key: b"b".to_vec(),
        end_key: b"m".to_vec(),
    }
}

fn sst() -> SstMeta {
    SstMeta {
        uuid: vec![1; 16],
        range_start: b"c".to_vec(),
        range_end: b"d".to_vec(),
        cf: ColumnFamily::Default,
        region_id: 7,
        region_epoch: RegionEpoch { conf_ver: 1, version: 3 },
    }
}

#[test]
fn byte_strings_are_ordered_lexicographically() {
    assert!(is_before(b"", b"a"));
    assert!(!is_before(b"", b""));
    assert!(!is_before(b"a", b""));
    assert!(is_before(b"a", b"b"));
    assert!(!is_before(b"b", b"a"));
    assert!(is_before(b"a", b"aa"));
    assert!(!is_before(b"aa", b"a"));
    assert!(!is_before(b"abc", b"abc"));
    assert!(is_before(b"abc", b"abd"));
    assert!(is_before(b"ab\xff", b"ac"));
    assert!(is_before(&[0x7f], &[0x80]));
    for (a, b) in [(&b"x"[..], &b"xy"[..]), (b"", b"\0"), (b"ab", b"b"), (b"b", b"ab")] {
        assert_eq!(is_before(a, b), a < b);
        assert_eq!(is_before(b, a), b < a);
    }
}

#[test]
fn engine_keys_carry_the_data_prefix() {
    assert_eq!(data_key(b"k1"), b"zk1".to_vec());
    assert_eq!(data_key(b""), b"z".to_vec());
    let mut buffer = b"left over".to_vec();
    data_key_with_buffer(b"abc", &mut buffer);
    assert_eq!(buffer, b"zabc".to_vec());
}

#[test]
fn copies_are_equal() {
    assert_eq!(copy_bytes(b"hello"), b"hello".to_vec());
    assert_eq!(copy_bytes(b""), Vec::<u8>::new());
}

#[test]
fn range_is_closed_below_and_open_above() {
    let r = region();
    assert_eq!(check_key_in_region(b"b", &r), Ok(()));
    assert_eq!(check_key_in_region(b"c", &r), Ok(()));
    assert_eq!(check_key_in_region(b"lzzz", &r), Ok(()));
    assert_eq!(
        check_key_in_region(b"m", &r),
        Err(Error::KeyNotInRegion { key: b"m".to_vec(), region_id: 7 })
    );
    assert_eq!(
        check_key_in_region(b"a", &r),
        Err(Error::KeyNotInRegion { key: b"a".to_vec(), region_id: 7 })
    );
    assert_eq!(
        check_key_in_region(b"", &r),
        Err(Error::KeyNotInRegion { key: vec![], region_id: 7 })
    );
}

#[test]
fn empty_end_key_is_no_bound() {
    let r = Region { end_key: vec![], ..region() };
    assert_eq!(check_key_in_region(b"zzzz", &r), Ok(()));
    assert_eq!(check_key_in_region(&[0xff; 8], &r), Ok(()));
    assert!(check_key_in_region(b"a", &r).is_err());
    let whole = Region { start_key: vec![], end_key: vec![], ..region() };
    assert_eq!(check_key_in_region(b"", &whole), Ok(()));
}

#[test]
fn epoch_is_compared_in_the_checked_components_only() {
    let r = region();
    let same = RegionEpoch { conf_ver: 1, version: 3 };
    let conf = RegionEpoch { conf_ver: 2, version: 3 };
    let ver = RegionEpoch { conf_ver: 1, version: 4 };
    let stale = Err(Error::EpochNotMatch { region_id: 7, current: same });
    assert_eq!(compare_region_epoch(same, &r, true, true), Ok(()));
    assert_eq!(compare_region_epoch(conf, &r, false, true), Ok(()));
    assert_eq!(compare_region_epoch(conf, &r, true, true), stale);
    assert_eq!(compare_region_epoch(conf, &r, true, false), stale);
    assert_eq!(compare_region_epoch(ver, &r, false, true), stale);
    assert_eq!(compare_region_epoch(ver, &r, true, false), Ok(()));
    assert_eq!(compare_region_epoch(ver, &r, false, false), Ok(()));
}

#[test]
fn descriptor_that_fits_is_accepted() {
    assert_eq!(check_sst_for_ingestion(&sst(), &region()), Ok(()));
    let write = SstMeta { cf: ColumnFamily::Write, ..sst() };
    assert_eq!(check_sst_for_ingestion(&write, &region()), Ok(()));
}

#[test]
fn descriptor_checks_come_in_order() {
    let r = region();
    let bad_uuid = SstMeta { uuid: vec![1; 15], cf: ColumnFamily::Lock, region_id: 8, ..sst() };
    assert_eq!(check_sst_for_ingestion(&bad_uuid, &r), Err(Error::InvalidSstUuid { len: 15 }));
    let bad_cf = SstMeta { cf: ColumnFamily::Lock, region_id: 8, ..sst() };
    assert_eq!(check_sst_for_ingestion(&bad_cf, &r), Err(Error::InvalidSstColumnFamily));
    let other_region = SstMeta {
        region_id: 8,
        region_epoch: RegionEpoch { conf_ver: 9, version: 9 },
        ..sst()
    };
    assert_eq!(
        check_sst_for_ingestion(&other_region, &r),
        Err(Error::RegionNotFound { region_id: 8 })
    );
    let current = RegionEpoch { conf_ver: 1, version: 3 };
    let stale_conf = SstMeta {
        region_epoch: RegionEpoch { conf_ver: 2, version: 3 },
        range_start: b"a".to_vec(),
        ..sst()
    };
    assert_eq!(
        check_sst_for_ingestion(&stale_conf, &r),
        Err(Error::EpochNotMatch { region_id: 7, current })
    );
    let stale_ver = SstMeta { region_epoch: RegionEpoch { conf_ver: 1, version: 2 }, ..sst() };
    assert_eq!(
        check_sst_for_ingestion(&stale_ver, &r),
        Err(Error::EpochNotMatch { region_id: 7, current })
    );
    let low = SstMeta { range_start: b"a".to_vec(), range_end: b"z".to_vec(), ..sst() };
    assert_eq!(
        check_sst_for_ingestion(&low, &r),
        Err(Error::KeyNotInRegion { key: b"a".to_vec(), region_id: 7 })
    );
    let high = SstMeta { range_end: b"m".to_vec(), ..sst() };
    assert_eq!(
        check_sst_for_ingestion(&high, &r),
        Err(Error::KeyNotInRegion { key: b"m".to_vec(), region_id: 7 })
    );
}

#[test]
fn column_families_have_their_offsets() {
    assert_eq!(ColumnFamily::Default.offset(), 0);
    assert_eq!(ColumnFamily::Lock.offset(), 1);
    assert_eq!(ColumnFamily::Write.offset(), 2);
}

#[test]
fn errors_are_copied_whole() {
    let errors = vec![
        Error::RegionNotFound { region_id: 1 },
        Error::EpochNotMatch { region_id: 2, current: RegionEpoch { conf_ver: 3, version: 4 } },
        Error::KeyNotInRegion { key: b"k".to_vec(), region_id: 5 },
        Error::ProposalInMergingMode { region_id: 6 },
        Error::InvalidSstUuid { len: 7 },
        Error::InvalidSstColumnFamily,
        Error::ProposalDropped { region_id: 8 },
    ];
    for e in &errors {
        assert_eq!(&e.duplicate(), e);
    }
}

#[test]
fn column_families_go_by_their_names() {
    assert_eq!(ColumnFamily::from_name(""), Some(ColumnFamily::Default));
    assert_eq!(ColumnFamily::from_name("default"), Some(ColumnFamily::Default));
    assert_eq!(ColumnFamily::from_name("lock"), Some(ColumnFamily::Lock));
    assert_eq!(ColumnFamily::from_name("write"), Some(ColumnFamily::Write));
    for name in ["raft", "Default", "default ", "defaul", "loc", "locks", "writ", "writes", "x"] {
        assert_eq!(ColumnFamily::from_name(name), None, "{}", name);
    }
    for cf in [ColumnFamily::Default, ColumnFamily::Lock, ColumnFamily::Write] {
        assert_eq!(ColumnFamily::from_name(cf.name()), Some(cf));
    }
    assert_eq!(ColumnFamily::Default.name(), "default");
    assert_eq!(ColumnFamily::Lock.name(), "lock");
    assert_eq!(ColumnFamily::Write.name(), "write");
}
