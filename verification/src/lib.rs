//! Planning a remux or transcode of a film so that it fits on an optical disc:
//! size estimates with explicit confidence, plan bookkeeping, diagnostics, the
//! command chain that performs the build, and reading what the external tools
//! (ffprobe, ffmpeg, growisofs, dvd+rw-mediainfo, df) report.

pub mod text;
pub mod parse;
pub mod units;
pub mod estimated;
pub mod media;
pub mod note;
pub mod plan;
pub mod codec;
pub mod codecs;
pub mod profile;
pub mod estimate;
pub mod explain;
pub mod compile;
pub mod progress;
pub mod disc;
pub mod probe;
pub mod sampler;
pub mod thumbs;
pub mod preflight;
pub mod runner;
pub mod chain;
pub mod session;
pub mod ui;

pub use estimated::{Confidence, Estimated};
