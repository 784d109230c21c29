//! One row of a search over the hot database and the archives: where the event was found,
//! the archive it came from, and the regions of its addresses.
use vstd::prelude::*;
use crate::event::{ov, CanonicalEvent, EventView};
use crate::text::{owned, seq_starts_with, str_eq, str_starts_with, substring};

verus! {

/// A search result with where it came from.
#[derive(Debug, Clone)]
pub struct UnifiedSearchRow {
    pub result_source: String,
    pub archive_path: Option<String>,
    pub device_name: Option<String>,
    pub geo_region: Option<String>,
    pub src_geo_region: Option<String>,
    pub dst_geo_region: Option<String>,
    pub event: CanonicalEvent,
}

/// The archive an archived event names in its source: the source without `parquet://` or,
/// failing that, without `frozen://`.
pub open spec fn archive_of_source(source_addr: Seq<char>) -> Option<Seq<char>> {
    if seq_starts_with(source_addr, "parquet://"@) {
        Some(source_addr.skip(10))
    } else if seq_starts_with(source_addr, "frozen://"@) {
        Some(source_addr.skip(9))
    } else {
        None
    }
}

/// The archive path of a row: the one given, or, for a row found in the archives, the one
/// its event's source names.
pub open spec fn row_archive_path(
    result_source: Seq<char>,
    given: Option<Seq<char>>,
    event: EventView,
) -> Option<Seq<char>> {
    match given {
        Some(p) => Some(p),
        None => if result_source == "archive"@ {
            archive_of_source(event.source_addr)
        } else {
            None
        },
    }
}

fn archive_of_source_text(source_addr: &str) -> (r: Option<String>)
    ensures
        ov(r) == archive_of_source(source_addr@),
{
    proof {
        reveal_strlit("parquet://");
        reveal_strlit("frozen://");
    }
    if str_starts_with(source_addr, "parquet://") {
        Some(substring(source_addr, 10, source_addr.unicode_len()))
    } else if str_starts_with(source_addr, "frozen://") {
        Some(substring(source_addr, 9, source_addr.unicode_len()))
    } else {
        None
    }
}

/// The row of `event` found in `result_source` (`hot` or `archive`). The regions are those
/// looked up for its source and destination addresses; the row's region is the source's,
/// else the destination's.
pub fn unified_search_row(
    result_source: &str,
    archive_path: Option<String>,
    src_geo_region: Option<String>,
    dst_geo_region: Option<String>,
    event: CanonicalEvent,
) -> (r: UnifiedSearchRow)
    ensures
        r.result_source@ == result_source@,
        ov(r.archive_path) == row_archive_path(result_source@, ov(archive_path), event@),
        r.device_name is None,
        ov(r.geo_region) == (match ov(src_geo_region) {
            Some(g) => Some(g),
            None => ov(dst_geo_region),
        }),
        ov(r.src_geo_region) == ov(src_geo_region),
        ov(r.dst_geo_region) == ov(dst_geo_region),
        r.event@ == event@,
{
    let geo_region = match &src_geo_region {
        Some(g) => Some(g.clone()),
        None => match &dst_geo_region {
            Some(g) => Some(g.clone()),
            None => None,
        },
    };
    let archive_path = match archive_path {
        Some(p) => Some(p),
        None => if str_eq(result_source, "archive") {
            archive_of_source_text(event.source_addr.as_str())
        } else {
            None
        },
    };
    UnifiedSearchRow {
        result_source: owned(result_source),
        archive_path,
        device_name: None,
        geo_region,
        src_geo_region,
        dst_geo_region,
        event,
    }
}

} // verus!
