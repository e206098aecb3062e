//! The chapter manifest of an audiobook export.
use vstd::prelude::*;

verus! {

/// A chapter of an audiobook.
#[derive(Debug)]
pub struct ChapterMarker {
    pub chapter_number: usize,
    pub title: String,
    pub start_time_ms: u64,
    pub duration_ms: u64,
}

/// The metadata and chapters of an audiobook.
#[derive(Debug)]
pub struct AudiobookManifest {
    pub title: String,
    pub author: String,
    pub narrator: String,
    pub publisher: String,
    pub total_duration_ms: u64,
    pub chapters: Vec<ChapterMarker>,
}

/// Writer of audiobook manifests.
pub struct M4bExporter;

} // verus!
