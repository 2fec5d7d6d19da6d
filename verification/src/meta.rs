//! What a song file says about itself: its tags, its audio format, and its
//! embedded artwork, as plain values.

use vstd::prelude::*;
use crate::config::value::Seconds;

verus! {

/// Embedded cover art.
#[derive(Debug, Clone, PartialEq, Eq)]
pub struct CoverArt {
    /// The declared MIME type, if the tag declares one.
    pub mime: Option<String>,
    /// Width and height in pixels, if the image could be read.
    pub dimensions: Option<(u32, u32)>,
    /// The image's bytes.
    pub data: Vec<u8>,
}

/// A song's tags and audio format.
#[derive(Debug, Clone, PartialEq, Eq)]
pub struct TrackMeta {
    /// The ID3 title, if tagged.
    pub title: Option<String>,
    /// The ID3 artist, if tagged.
    pub artist: Option<String>,
    /// The ID3 album, if tagged.
    pub album: Option<String>,
    /// How long the song plays.
    pub duration: Seconds,
    /// Samples per second, if known.
    pub sample_rate: Option<u32>,
    /// Channel count, if known.
    pub channels: Option<u8>,
    /// Bit rate in kilobits per second, if known.
    pub bitrate_kbps: Option<u32>,
    /// Embedded artwork, if any.
    pub cover: Option<CoverArt>,
}

} // verus!
