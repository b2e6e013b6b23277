//! Partition metadata shared by the proposing and the applying side.

use vstd::prelude::*;
use vstd::string::{StringSliceAdditionalSpecFns, is_ascii_spec_bytes};

verus! {

/// The configuration version pair of a partition: the membership version and
/// the boundary version.
#[derive(Clone, Copy, Debug, PartialEq, Eq, Structural)]
pub struct RegionEpoch {
    pub conf_ver: u64,
    pub version: u64,
}

/// A column family that carries user data.
#[derive(Clone, Copy, Debug, PartialEq, Eq, Structural)]
pub enum ColumnFamily {
    Default,
    Lock,
    Write,
}

/// Number of data column families.
pub const DATA_CFS_LEN: usize = 3;

/// The name `default`, as bytes.
pub open spec fn name_default() -> Seq<u8> {
    seq![0x64u8, 0x65u8, 0x66u8, 0x61u8, 0x75u8, 0x6cu8, 0x74u8]
}

/// The name `lock`, as bytes.
pub open spec fn name_lock() -> Seq<u8> {
    seq![0x6cu8, 0x6fu8, 0x63u8, 0x6bu8]
}

/// The name `write`, as bytes.
pub open spec fn name_write() -> Seq<u8> {
    seq![0x77u8, 0x72u8, 0x69u8, 0x74u8, 0x65u8]
}

/// The column family that goes by `name`. The empty name stands for the
/// default column family, as the name `default` does.
pub open spec fn cf_of_name(name: Seq<u8>) -> Option<ColumnFamily> {
    if name.len() == 0 || name == name_default() {
        Some(ColumnFamily::Default)
    } else if name == name_lock() {
        Some(ColumnFamily::Lock)
    } else if name == name_write() {
        Some(ColumnFamily::Write)
    } else {
        None
    }
}

/// The bytes that the names are compared with are what the names spell.
pub proof fn lemma_names_spell()
    ensures
        "default".spec_bytes() == name_default(),
        "lock".spec_bytes() == name_lock(),
        "write".spec_bytes() == name_write(),
        "".spec_bytes().len() == 0,
{
    reveal_strlit("default");
    reveal_strlit("lock");
    reveal_strlit("write");
    reveal_strlit("");
    is_ascii_spec_bytes("default");
    is_ascii_spec_bytes("lock");
    is_ascii_spec_bytes("write");
    is_ascii_spec_bytes("");
}

impl ColumnFamily {
    /// The column family that goes by `name`, if `name` is the name of a
    /// column family that carries user data.
    pub fn from_name(name: &str) -> (cf: Option<ColumnFamily>)
        ensures
            cf == cf_of_name(name.spec_bytes()),
    {
        let bytes = name.as_bytes();
        if bytes.len() == 0 {
            Some(ColumnFamily::Default)
        } else if bytes.len() == 7 && bytes[0] == 0x64 && bytes[1] == 0x65 && bytes[2] == 0x66
            && bytes[3] == 0x61 && bytes[4] == 0x75 && bytes[5] == 0x6c && bytes[6] == 0x74 {
            assert(bytes@ =~= name_default());
            Some(ColumnFamily::Default)
        } else if bytes.len() == 4 && bytes[0] == 0x6c && bytes[1] == 0x6f && bytes[2] == 0x63
            && bytes[3] == 0x6b {
            assert(bytes@ =~= name_lock());
            Some(ColumnFamily::Lock)
        } else if bytes.len() == 5 && bytes[0] == 0x77 && bytes[1] == 0x72 && bytes[2] == 0x69
            && bytes[3] == 0x74 && bytes[4] == 0x65 {
            assert(bytes@ =~= name_write());
            Some(ColumnFamily::Write)
        } else {
            None
        }
    }

    /// The name of the column family.
    pub fn name(self) -> (name: &'static str)
        ensures
            cf_of_name(name.spec_bytes()) == Some(self),
    {
        proof {
            lemma_names_spell();
        }
        match self {
            ColumnFamily::Default => "default",
            ColumnFamily::Lock => "lock",
            ColumnFamily::Write => "write",
        }
    }

    /// Position of the column family in per-family tables.
    pub open spec fn offset_spec(self) -> int {
        match self {
            ColumnFamily::Default => 0,
            ColumnFamily::Lock => 1,
            ColumnFamily::Write => 2,
        }
    }

    /// Position of the column family in per-family tables.
    pub fn offset(self) -> (off: usize)
        ensures
            off == self.offset_spec(),
            off < DATA_CFS_LEN,
    {
        match self {
            ColumnFamily::Default => 0,
            ColumnFamily::Lock => 1,
            ColumnFamily::Write => 2,
        }
    }
}

/// A contiguous key range `[start_key, end_key)` that is replicated as one
/// unit. An empty `end_key` stands for "no upper bound".
#[derive(Debug, PartialEq, Eq)]
pub struct Region {
    pub id: u64,
    pub epoch: RegionEpoch,
    pub start_key: Vec<u8>,
    pub end_key: Vec<u8>,
}

/// Mathematical value of a [`Region`].
pub struct RegionView {
    pub id: u64,
    pub epoch: RegionEpoch,
    pub start_key: Seq<u8>,
    pub end_key: Seq<u8>,
}

impl View for Region {
    type V = RegionView;

    open spec fn view(&self) -> RegionView {
        RegionView {
            id: self.id,
            epoch: self.epoch,
            start_key: self.start_key@,
            end_key: self.end_key@,
        }
    }
}

/// What every batch of writes carries beside its operations: the partition
/// and its epoch as the client saw them, the term, and the replica that the
/// request was sent to. It does not change once it is attached to a batch.
#[derive(Clone, Copy, Debug, PartialEq, Eq, Structural)]
pub struct WriteHeader {
    pub region_id: u64,
    pub epoch: RegionEpoch,
    pub term: u64,
    pub peer_id: u64,
}

impl WriteHeader {
    /// The header of a write that does not go through the log.
    pub open spec fn empty_spec() -> WriteHeader {
        WriteHeader {
            region_id: 0,
            epoch: RegionEpoch { conf_ver: 0, version: 0 },
            term: 0,
            peer_id: 0,
        }
    }

    /// The header of a write that does not go through the log.
    pub fn empty() -> (header: WriteHeader)
        ensures
            header == WriteHeader::empty_spec(),
    {
        WriteHeader {
            region_id: 0,
            epoch: RegionEpoch { conf_ver: 0, version: 0 },
            term: 0,
            peer_id: 0,
        }
    }
}

} // verus!
