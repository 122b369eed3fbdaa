//! Verified core of a music library: directory fingerprinting, media
//! tag interpretation, track search input parsing and the small state
//! machines that drive the library frontend.

pub mod artwork;
pub mod digest;
pub mod dir_digest;
pub mod dir_walk;
pub mod id3_frames;
pub mod import;
pub mod media_source;
pub mod media_util;
pub mod playlist;
pub mod tag_import;
pub mod text;
pub mod track;
pub mod track_search;
pub mod tracker;
pub mod update;
pub mod vorbis;
