//! Batch conversion of a directory of media files to mono 8 kHz 16-bit WAV,
//! delegating the transcoding itself to an external tool that the library
//! helps locate or provision.
//!
//! The library holds the decision logic: naming the expected executables,
//! choosing a platform entry from a version manifest, planning a download,
//! selecting the archive entry to extract, building one conversion job per
//! input file in a deterministic order, and classifying each job's outcome.
//! The surrounding process performs the actual network, filesystem and
//! subprocess work and feeds the results back in as plain values.
use vstd::prelude::*;

pub mod batch;
pub mod extract;
pub mod jobs;
pub mod paths;
pub mod provision;
pub mod strutil;

verus! {

/// Paths to the provisioned transcoder executable and, where required, its
/// probing companion.
pub struct FFmpegPath {
    pub ffmpeg: String,
    pub ffprobe: Option<String>,
}

} // verus!
