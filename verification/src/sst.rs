//! Ingestion helper: whether a bulk file may be ingested into a partition.

use vstd::prelude::*;
use crate::errors::{Error, ErrorView};
use crate::keys::{check_key_in_region, key_in_range};
use crate::metadata::{ColumnFamily, Region, RegionView};
use crate::write_op::{SstMeta, SstMetaView};

verus! {

/// Length of the identifier of a bulk file.
pub const SST_UUID_LEN: usize = 16;

/// Why `sst` may not be ingested into `region`, if it may not. The checks
/// are made in this order: the identifier, the column family, the partition,
/// the epoch, and the two ends of the key range.
pub open spec fn sst_check_error(sst: SstMetaView, region: RegionView) -> Option<ErrorView> {
    if sst.uuid.len() != SST_UUID_LEN {
        Some(ErrorView::InvalidSstUuid { len: sst.uuid.len() as usize })
    } else if sst.cf is Lock {
        Some(ErrorView::InvalidSstColumnFamily)
    } else if sst.region_id != region.id {
        Some(ErrorView::RegionNotFound { region_id: sst.region_id })
    } else if sst.region_epoch != region.epoch {
        Some(ErrorView::EpochNotMatch { region_id: region.id, current: region.epoch })
    } else if !key_in_range(sst.range_start, region.start_key, region.end_key) {
        Some(ErrorView::KeyNotInRegion { key: sst.range_start, region_id: region.id })
    } else if !key_in_range(sst.range_end, region.start_key, region.end_key) {
        Some(ErrorView::KeyNotInRegion { key: sst.range_end, region_id: region.id })
    } else {
        None
    }
}

/// Holds the descriptor of a bulk file against the partition as it is now.
pub fn check_sst_for_ingestion(sst: &SstMeta, region: &Region) -> (res: Result<(), Error>)
    ensures
        match sst_check_error(sst@, region@) {
            Some(error) => res is Err && res->Err_0@ == error,
            None => res is Ok,
        },
{
    if sst.uuid.len() != SST_UUID_LEN {
        return Err(Error::InvalidSstUuid { len: sst.uuid.len() });
    }
    match sst.cf {
        ColumnFamily::Lock => { return Err(Error::InvalidSstColumnFamily); },
        _ => {},
    }
    if sst.region_id != region.id {
        return Err(Error::RegionNotFound { region_id: sst.region_id });
    }
    if sst.region_epoch.conf_ver != region.epoch.conf_ver || sst.region_epoch.version
        != region.epoch.version {
        return Err(Error::EpochNotMatch { region_id: region.id, current: region.epoch });
    }
    match check_key_in_region(sst.range_start.as_slice(), region) {
        Err(e) => { return Err(e); },
        Ok(()) => {},
    }
    match check_key_in_region(sst.range_end.as_slice(), region) {
        Err(e) => { return Err(e); },
        Ok(()) => {},
    }
    Ok(())
}

} // verus!
