//! Lookups in an ip2region IPv4 database held in memory, through the `xdb_parse` crate. A
//! database is checked once, when it is opened: every index entry and every segment block
//! it points to must lie inside the data. The record found for an address is split into the
//! fields the API shows.
use vstd::prelude::*;
use xdb_parse::error::XdbError;
use crate::api::{parse_ip_region, region_response_view, spec_parse_ip_region, IpRegionResponse};
use crate::ip::{parse_ipv4, spec_ipv4};

verus! {

#[verifier::external_type_specification]
#[verifier::external_body]
pub struct ExXdbError(XdbError);

/// Where a database's header and first-level vector index end: 256 bytes of header and a
/// 256 by 256 table of 8-byte entries.
pub const XDB_INDEX_END: usize = 524_544;

/// The size of an IPv4 segment block: start and end address, record length and pointer.
pub const XDB_V4_BLOCK: u64 = 14;

/// The little-endian 32-bit number at `i`.
pub open spec fn le_u32(d: Seq<u8>, i: int) -> int {
    d[i] as int + d[i + 1] as int * 256 + d[i + 2] as int * 65536 + d[i + 3] as int * 16777216
}

/// The little-endian 16-bit number at `i`.
pub open spec fn le_u16(d: Seq<u8>, i: int) -> int {
    d[i] as int + d[i + 1] as int * 256
}

/// The `m`-th segment block after `start` lies in the data, and so does the record it points
/// to (its pointer at offset 10, its length at offset 8).
pub open spec fn xdb_block_ok(d: Seq<u8>, start: int, m: int) -> bool {
    let off = start + 14 * m;
    &&& off + 14 <= d.len()
    &&& le_u32(d, off + 10) + le_u16(d, off + 8) <= d.len()
}

/// Vector index entry `k` (the addresses whose first two octets make `k`): its end pointer
/// is not before its start pointer, and every block between them is in the data.
pub open spec fn xdb_entry_ok(d: Seq<u8>, k: int) -> bool {
    let s = le_u32(d, 256 + 8 * k);
    let e = le_u32(d, 256 + 8 * k + 4);
    &&& s <= e
    &&& forall|m: int| 0 <= m < (e - s) / 14 ==> #[trigger] xdb_block_ok(d, s, m)
}

/// An IPv4 database every lookup of which stays inside the data: the header and vector index
/// are present and every index entry is sound.
pub open spec fn xdb_v4_well_formed(d: Seq<u8>) -> bool {
    &&& d.len() >= XDB_INDEX_END
    &&& forall|k: int| 0 <= k < 65536 ==> #[trigger] xdb_entry_ok(d, k)
}

/// `xdb_parse::search_ip(ip, data)` as text: the record found for the address, empty when no
/// segment holds it; `None` when the crate reports an error.
pub uninterp spec fn spec_xdb_search(ip: Seq<char>, data: Seq<u8>) -> Option<Seq<char>>;

/// `xdb_parse::search_ip(ip, data)`, its borrowed record copied into a `String`. A dotted
/// IPv4 text is read by `IpAddr::from_str` and searched with `search_by_uint`, which reads the
/// vector entry of the address's first two octets, subtracts its pointers, binary-searches the
/// 14-byte blocks between them and slices out the record of the block that holds the address.
/// The `requires` keeps every one of those reads inside the data; the contract names the
/// record.
#[verifier::external_body]
fn xdb_search(ip: &str, data: &[u8]) -> (r: Result<String, XdbError>)
    requires
        spec_ipv4(ip@) is Some,
        xdb_v4_well_formed(data@),
    ensures
        r matches Ok(s) ==> spec_xdb_search(ip@, data@) == Some(s@),
        r is Err ==> spec_xdb_search(ip@, data@) is None,
{
    xdb_parse::search_ip(ip, data).map(|record| record.to_string())
}

fn read_le_u32(d: &[u8], i: usize) -> (r: u64)
    requires
        i + 4 <= d@.len(),
    ensures
        r == le_u32(d@, i as int),
{
    d[i] as u64 + d[i + 1] as u64 * 256 + d[i + 2] as u64 * 65536 + d[i + 3] as u64 * 16777216
}

fn read_le_u16(d: &[u8], i: usize) -> (r: u64)
    requires
        i + 2 <= d@.len(),
    ensures
        r == le_u16(d@, i as int),
{
    d[i] as u64 + d[i + 1] as u64 * 256
}

/// Whether the data is a sound IPv4 database.
fn check_xdb_v4(data: &[u8]) -> (r: bool)
    ensures
        r == xdb_v4_well_formed(data@),
{
    if data.len() < XDB_INDEX_END {
        return false;
    }
    let len = data.len() as u64;
    let mut k: usize = 0;
    while k < 65536
        invariant
            k <= 65536,
            data@.len() >= XDB_INDEX_END,
            len == data@.len(),
            forall|q: int| 0 <= q < k ==> #[trigger] xdb_entry_ok(data@, q),
        decreases 65536 - k,
    {
        let s = read_le_u32(data, 256 + 8 * k);
        let e = read_le_u32(data, 256 + 8 * k + 4);
        if s > e {
            assert(!xdb_entry_ok(data@, k as int));
            return false;
        }
        let n = (e - s) / XDB_V4_BLOCK;
        let mut m: u64 = 0;
        while m < n
            invariant
                m <= n,
                n == (e - s) / 14,
                s <= e,
                e < 0x1_0000_0000,
                s == le_u32(data@, 256 + 8 * k),
                e == le_u32(data@, 256 + 8 * k + 4),
                k < 65536,
                len == data@.len(),
                forall|p: int| 0 <= p < m ==> #[trigger] xdb_block_ok(data@, s as int, p),
            decreases n - m,
        {
            let off = s + XDB_V4_BLOCK * m;
            if off + XDB_V4_BLOCK > len {
                assert(!xdb_block_ok(data@, s as int, m as int));
                assert(!xdb_entry_ok(data@, k as int));
                return false;
            }
            let ptr = read_le_u32(data, (off + 10) as usize);
            let size = read_le_u16(data, (off + 8) as usize);
            if ptr + size > len {
                assert(!xdb_block_ok(data@, s as int, m as int));
                assert(!xdb_entry_ok(data@, k as int));
                return false;
            }
            assert(xdb_block_ok(data@, s as int, m as int));
            m = m + 1;
        }
        assert(xdb_entry_ok(data@, k as int));
        k = k + 1;
    }
    true
}

/// Why the region database gave no record.
#[derive(Debug, Clone, Copy, PartialEq, Eq)]
pub enum RegionLookupError {
    /// The data is not a sound IPv4 database.
    MalformedDatabase,
    /// The address is not a dotted IPv4 address.
    NotIpv4,
    /// The crate reported an error (bad record data).
    LookupFailed,
}

/// An IPv4 region database whose every lookup stays inside its data.
pub struct RegionDatabase {
    data: Vec<u8>,
}

impl RegionDatabase {
    /// The database's bytes.
    pub closed spec fn bytes(self) -> Seq<u8> {
        self.data@
    }

    #[verifier::type_invariant]
    spec fn sound(self) -> bool {
        xdb_v4_well_formed(self.data@)
    }

    /// Takes the bytes of a database when they form a sound IPv4 database.
    pub fn open(data: Vec<u8>) -> (r: Result<RegionDatabase, RegionLookupError>)
        ensures
            xdb_v4_well_formed(data@) ==> (r matches Ok(db) && db.bytes() == data@),
            !xdb_v4_well_formed(data@) ==> r == Err::<RegionDatabase, RegionLookupError>(
                RegionLookupError::MalformedDatabase,
            ),
    {
        if check_xdb_v4(data.as_slice()) {
            Ok(RegionDatabase { data })
        } else {
            Err(RegionLookupError::MalformedDatabase)
        }
    }

    /// The region of a dotted IPv4 address: the record found for it, split into fields.
    pub fn lookup(&self, ip: &str) -> (r: Result<IpRegionResponse, RegionLookupError>)
        ensures
            spec_ipv4(ip@) is None ==> r == Err::<IpRegionResponse, RegionLookupError>(RegionLookupError::NotIpv4),
            spec_ipv4(ip@) is Some ==> match spec_xdb_search(ip@, self.bytes()) {
                Some(record) => r matches Ok(response) && region_response_view(response)
                    == spec_parse_ip_region(ip@, record),
                None => r == Err::<IpRegionResponse, RegionLookupError>(RegionLookupError::LookupFailed),
            },
    {
        proof {
            use_type_invariant(self);
        }
        if parse_ipv4(ip).is_none() {
            return Err(RegionLookupError::NotIpv4);
        }
        match xdb_search(ip, self.data.as_slice()) {
            Ok(record) => Ok(parse_ip_region(ip, record.as_str())),
            Err(_) => Err(RegionLookupError::LookupFailed),
        }
    }
}

} // verus!
