//! The shapes of the audiobook service's API payloads, as read back from
//! exported JSON files.

use vstd::prelude::*;

verus! {

/// The chapters payload of one audiobook.
pub struct GetChaptersResponse {
    pub content_metadata: ContentMetadata,
    pub response_groups: Vec<String>,
}

/// The metadata block of the chapters payload.
pub struct ContentMetadata {
    pub chapter_info: ChapterInfo,
    pub content_reference: ContentReference,
    pub last_position_heard: LastPositionHeard,
}

/// The chapter tree and the runtime bookkeeping around it.
pub struct ChapterInfo {
    pub brand_intro_duration_ms: u32,
    pub brand_outro_duration_ms: u32,
    pub chapters: Vec<Chapter>,
    pub is_accurate: bool,
    pub runtime_length_ms: u32,
    pub runtime_length_sec: u32,
}

/// One chapter: its title, timing, and possible sub-chapters.
pub struct Chapter {
    pub title: String,
    pub length_ms: u32,
    pub start_offset_ms: u32,
    pub start_offset_sec: u32,
    pub chapters: Option<Vec<Chapter>>,
}

/// Identity and format of the audiobook content.
pub struct ContentReference {
    pub acr: String,
    pub asin: String,
    pub codec: String,
    pub content_format: String,
    pub content_size_in_bytes: u64,
    pub file_version: String,
    pub marketplace: String,
    pub sku: String,
    pub tempo: String,
    pub version: String,
}

/// Where listening last stopped, if anywhere.
pub struct LastPositionHeard {
    pub status: String,
    pub last_updated: Option<String>,
    pub position_ms: Option<u32>,
}

/// The annotations payload of one audiobook.
pub struct GetAnnotationsResponse {
    pub md5: String,
    pub payload: GetAnnotationsPayload,
}

/// The body of the annotations payload.
pub struct GetAnnotationsPayload {
    pub content_type: String,
    pub records: Vec<Record>,
    pub acr: Option<String>,
    pub key: String,
    pub guid: String,
}

/// One annotation record: a last-heard marker, a bookmark, a clip, or a
/// note; only clips carry an end position and possibly a note.
pub struct Record {
    pub record_type: String,
    pub start_position: String,
    pub creation_time: String,
    pub annotation_id: Option<String>,
    pub last_modification_time: Option<String>,
    pub end_position: Option<String>,
    pub metadata: Option<RecordMetadata>,
    pub text: Option<String>,
}

/// The metadata of a clip record: its note, if one was written.
pub struct RecordMetadata {
    pub note: Option<String>,
    pub c_version: String,
}

} // verus!
