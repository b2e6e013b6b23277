//! Recoverable errors and the fatal signal.
//!
//! A recoverable error is reported once to each response channel it concerns
//! and the caller may retry. A fatal condition means that this replica can no
//! longer be trusted to match its peers; it is a type of its own so that it
//! cannot be mistaken for something to retry.

use vstd::prelude::*;
use crate::metadata::RegionEpoch;

verus! {

/// An error that is handed back to the client.
#[derive(Debug, PartialEq, Eq)]
pub enum Error {
    /// The replica does not serve the partition: it was destroyed or removed.
    RegionNotFound { region_id: u64 },
    /// The epoch of the request is not the partition's current epoch.
    EpochNotMatch { region_id: u64, current: RegionEpoch },
    /// The key lies outside the partition's key range.
    KeyNotInRegion { key: Vec<u8>, region_id: u64 },
    /// The partition prepares a merge or is merging; the client may retry.
    ProposalInMergingMode { region_id: u64 },
    /// The identifier of a bulk file does not have sixteen bytes.
    InvalidSstUuid { len: usize },
    /// Bulk files may only target the default and the write column family.
    InvalidSstColumnFamily,
    /// The replicated log refused the proposal, for instance because this
    /// replica is not the leader any more.
    ProposalDropped { region_id: u64 },
}

/// Mathematical value of an [`Error`].
pub enum ErrorView {
    RegionNotFound { region_id: u64 },
    EpochNotMatch { region_id: u64, current: RegionEpoch },
    KeyNotInRegion { key: Seq<u8>, region_id: u64 },
    ProposalInMergingMode { region_id: u64 },
    InvalidSstUuid { len: usize },
    InvalidSstColumnFamily,
    ProposalDropped { region_id: u64 },
}

impl View for Error {
    type V = ErrorView;

    open spec fn view(&self) -> ErrorView {
        match *self {
            Error::RegionNotFound { region_id } => ErrorView::RegionNotFound { region_id },
            Error::EpochNotMatch { region_id, current } => ErrorView::EpochNotMatch {
                region_id,
                current,
            },
            Error::KeyNotInRegion { key, region_id } => ErrorView::KeyNotInRegion {
                key: key@,
                region_id,
            },
            Error::ProposalInMergingMode { region_id } => ErrorView::ProposalInMergingMode {
                region_id,
            },
            Error::InvalidSstUuid { len } => ErrorView::InvalidSstUuid { len },
            Error::InvalidSstColumnFamily => ErrorView::InvalidSstColumnFamily,
            Error::ProposalDropped { region_id } => ErrorView::ProposalDropped { region_id },
        }
    }
}

impl Error {
    /// A copy of the error, for when one error answers several channels.
    pub fn duplicate(&self) -> (copy: Error)
        ensures
            copy@ == self@,
    {
        match self {
            Error::RegionNotFound { region_id } => Error::RegionNotFound { region_id: *region_id },
            Error::EpochNotMatch { region_id, current } => Error::EpochNotMatch {
                region_id: *region_id,
                current: *current,
            },
            Error::KeyNotInRegion { key, region_id } => Error::KeyNotInRegion {
                key: crate::keys::copy_bytes(key.as_slice()),
                region_id: *region_id,
            },
            Error::ProposalInMergingMode { region_id } => Error::ProposalInMergingMode {
                region_id: *region_id,
            },
            Error::InvalidSstUuid { len } => Error::InvalidSstUuid { len: *len },
            Error::InvalidSstColumnFamily => Error::InvalidSstColumnFamily,
            Error::ProposalDropped { region_id } => Error::ProposalDropped {
                region_id: *region_id,
            },
        }
    }
}

/// A condition after which the replica must stop.
#[derive(Clone, Copy, Debug, PartialEq, Eq, Structural)]
pub enum Fatal {
    /// A committed payload could not be decoded.
    MalformedPayload,
    /// The storage engine failed to take a write or an ingestion that had
    /// already been validated.
    StorageFailure,
    /// A bulk file that had passed the range check is structurally corrupt.
    CorruptedResource,
}

} // verus!
