//! Page imposition for printable songbooks: merging rendered page sequences,
//! reordering pages for booklet folding, and laying pages out on sheets.
pub mod config;
pub mod contents;
pub mod elements;
pub mod layout;
pub mod pdf;
pub mod song;
pub mod text;
pub mod tile;
