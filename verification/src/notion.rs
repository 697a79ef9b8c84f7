//! The Notion extractor: validation of exported archive names, versioned
//! file names, and the version manifest written next to extracted files.

pub mod export;
