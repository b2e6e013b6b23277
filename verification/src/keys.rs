//! Keys: their order, the encoding under which the engine stores them, and
//! the checks of a request against a partition's range and epoch.

use vstd::prelude::*;
use crate::errors::{Error, ErrorView};
use crate::metadata::{Region, RegionEpoch};

verus! {

/// Prefix under which user keys are stored in the engine.
pub const DATA_PREFIX: u8 = 0x7a;

/// Normal requests are checked against the boundary version only.
pub const NORMAL_REQ_CHECK_VER: bool = true;

/// Normal requests stay valid across membership changes.
pub const NORMAL_REQ_CHECK_CONF_VER: bool = false;

/// `a` and `b` agree on their first `k` bytes, and there `a` ends while `b`
/// goes on, or `a` has the smaller byte.
pub open spec fn lt_at(a: Seq<u8>, b: Seq<u8>, k: int) -> bool {
    &&& 0 <= k <= a.len()
    &&& k <= b.len()
    &&& forall|j: int| 0 <= j < k ==> a[j] == b[j]
    &&& k < b.len()
    &&& (k == a.len() || a[k] < b[k])
}

/// Lexicographic order on byte strings.
pub open spec fn bytes_lt(a: Seq<u8>, b: Seq<u8>) -> bool {
    exists|k: int| lt_at(a, b, k)
}

/// The key under which the engine stores the user key `key`.
pub open spec fn data_key_spec(key: Seq<u8>) -> Seq<u8> {
    seq![DATA_PREFIX] + key
}

/// `key` lies in `[start, end)`, where an empty `end` is no bound at all.
pub open spec fn key_in_range(key: Seq<u8>, start: Seq<u8>, end: Seq<u8>) -> bool {
    !bytes_lt(key, start) && (end.len() == 0 || bytes_lt(key, end))
}

/// The epochs differ in a component that is checked.
pub open spec fn epoch_stale(
    from: RegionEpoch,
    current: RegionEpoch,
    check_conf_ver: bool,
    check_ver: bool,
) -> bool {
    (check_conf_ver && from.conf_ver != current.conf_ver) || (check_ver && from.version
        != current.version)
}

/// A copy of `src`.
pub fn copy_bytes(src: &[u8]) -> (copy: Vec<u8>)
    ensures
        copy@ == src@,
{
    let mut copy: Vec<u8> = Vec::with_capacity(src.len());
    let mut i: usize = 0;
    while i < src.len()
        invariant
            i <= src.len(),
            copy@ == src@.subrange(0, i as int),
        decreases src.len() - i,
    {
        copy.push(src[i]);
        i += 1;
    }
    copy
}

/// Whether `a` sorts strictly before `b`.
pub fn is_before(a: &[u8], b: &[u8]) -> (lt: bool)
    ensures
        lt == bytes_lt(a@, b@),
{
    let mut i: usize = 0;
    while i < a.len() && i < b.len()
        invariant
            i <= a.len(),
            i <= b.len(),
            forall|j: int| 0 <= j < i ==> a@[j] == b@[j],
        decreases a.len() - i,
    {
        if a[i] != b[i] {
            let lt = a[i] < b[i];
            proof {
                if lt {
                    assert(lt_at(a@, b@, i as int));
                } else {
                    assert forall|k: int| !lt_at(a@, b@, k) by {
                        if lt_at(a@, b@, k) {
                            if k > i {
                                assert(a@[i as int] == b@[i as int]);
                            }
                        }
                    }
                }
            }
            return lt;
        }
        i += 1;
    }
    let lt = a.len() < b.len();
    proof {
        if lt {
            assert(lt_at(a@, b@, i as int));
        } else {
            assert forall|k: int| !lt_at(a@, b@, k) by {}
        }
    }
    lt
}

/// Writes the engine key of `key` into `buffer`, replacing what it held.
pub fn data_key_with_buffer(key: &[u8], buffer: &mut Vec<u8>)
    ensures
        final(buffer)@ == data_key_spec(key@),
{
    buffer.clear();
    buffer.push(DATA_PREFIX);
    let mut i: usize = 0;
    while i < key.len()
        invariant
            i <= key.len(),
            buffer@ == data_key_spec(key@.subrange(0, i as int)),
        decreases key.len() - i,
    {
        buffer.push(key[i]);
        i += 1;
        assert(key@.subrange(0, i as int) == key@.subrange(0, i - 1).push(key@[i - 1]));
    }
    assert(key@.subrange(0, i as int) == key@);
}

/// The engine key of `key`.
pub fn data_key(key: &[u8]) -> (stored: Vec<u8>)
    ensures
        stored@ == data_key_spec(key@),
{
    let mut stored: Vec<u8> = Vec::new();
    data_key_with_buffer(key, &mut stored);
    stored
}

/// Accepts `key` when it lies in the range of `region`.
pub fn check_key_in_region(key: &[u8], region: &Region) -> (res: Result<(), Error>)
    ensures
        key_in_range(key@, region.start_key@, region.end_key@) ==> res is Ok,
        !key_in_range(key@, region.start_key@, region.end_key@) ==> res is Err && res->Err_0@
            == (ErrorView::KeyNotInRegion { key: key@, region_id: region.id }),
{
    if !is_before(key, region.start_key.as_slice()) && (region.end_key.len() == 0 || is_before(
        key,
        region.end_key.as_slice(),
    )) {
        Ok(())
    } else {
        Err(Error::KeyNotInRegion { key: copy_bytes(key), region_id: region.id })
    }
}

/// Accepts an epoch that agrees with the current epoch of `region` in every
/// component that is checked.
pub fn compare_region_epoch(
    from_epoch: RegionEpoch,
    region: &Region,
    check_conf_ver: bool,
    check_ver: bool,
) -> (res: Result<(), Error>)
    ensures
        !epoch_stale(from_epoch, region.epoch, check_conf_ver, check_ver) ==> res is Ok,
        epoch_stale(from_epoch, region.epoch, check_conf_ver, check_ver) ==> res is Err
            && res->Err_0@ == (ErrorView::EpochNotMatch {
            region_id: region.id,
            current: region.epoch,
        }),
{
    if (check_conf_ver && from_epoch.conf_ver != region.epoch.conf_ver) || (check_ver
        && from_epoch.version != region.epoch.version) {
        Err(Error::EpochNotMatch { region_id: region.id, current: region.epoch })
    } else {
        Ok(())
    }
}

} // verus!
