//! Verified core of css2mp4, which renders CSS animations to MP4 / transparent
//! WebM video and writes sampled motion into YMM4 (`.ymmp`) projects.
//!
//! The library holds the decisions of that work: output-format detection and
//! the FFmpeg command line, the browser set-up and the script that samples an
//! element's style, the frame clock of a capture loop, keyframe-index merging,
//! the `.ymmp` project model and its file framing, the render-task table of the
//! local API server, and the texts of errors and answers.

pub mod text;
pub mod error;
pub mod format;
pub mod options;
pub mod command;
pub mod url;
pub mod browser;
pub mod progress;
pub mod keyframes;
pub mod ymmp;
pub mod tasks;
pub mod requests;
