//! Rows of the chart library database and the intermediate record of a
//! chart scan.
use vstd::prelude::*;
use crate::ojn::OjnHeader;

verus! {

/// Row of the `libraries` table.
#[derive(Debug, Clone)]
pub struct LibraryEntry {
    pub id: i64,
    pub root_path: String,
    pub name: String,
    pub added_at: i64,
    pub last_scan: Option<i64>,
}

/// A chart found while scanning a library, before it is stored: its place,
/// the header read from it and the file's size and modification time.
pub struct ChartScanEntry {
    pub relative_path: String,
    pub song_group_id: String,
    pub header: OjnHeader,
    pub file_size: u64,
    pub file_modified: u64,
}

} // verus!
