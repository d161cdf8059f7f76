//! Render settings read by the verified logic.

use vstd::prelude::*;

use crate::error::Error;

verus! {

/// Settings of a rendering task. Paths are carried as text; the animation
/// length (seconds, fractional) stays with the caller, which owns the frame clock.
#[derive(Debug)]
pub struct RenderOptions {
    /// Path of the input HTML file.
    pub input: String,
    /// Path of the output file (.mp4 / .webm / .ymmp).
    pub output: String,
    /// Frame rate (fps).
    pub fps: u32,
    /// Output width (px).
    pub width: u32,
    /// Output height (px).
    pub height: u32,
    /// Whether to render a transparent video (WebM VP9 + alpha).
    pub transparent: bool,
    /// Path of the FFmpeg executable.
    pub ffmpeg_path: String,
    /// Path of the Chromium executable; detected when absent.
    pub chrome_path: Option<String>,
}

impl Default for RenderOptions {
    /// 60 fps at 1920x1080, opaque, `ffmpeg` from the search path, no paths set.
    fn default() -> (res: Self)
        ensures
            res.input@ == Seq::<char>::empty(),
            res.output@ == Seq::<char>::empty(),
            res.fps == 60,
            res.width == 1920,
            res.height == 1080,
            !res.transparent,
            res.ffmpeg_path@ == "ffmpeg"@,
            res.chrome_path is None,
    {
        RenderOptions {
            input: String::new(),
            output: String::new(),
            fps: 60,
            width: 1920,
            height: 1080,
            transparent: false,
            ffmpeg_path: "ffmpeg".to_owned(),
            chrome_path: None,
        }
    }
}

impl RenderOptions {
    /// The minimal check before rendering: the input file must exist.
    /// `input_exists` tells whether it does; the file system is asked by the caller.
    pub fn validate(&self, input_exists: bool) -> (res: Result<(), Error>)
        ensures
            res is Ok <==> input_exists,
            res matches Err(e) ==> (e matches Error::InputNotFound(p) && p@ == self.input@),
    {
        if !input_exists {
            return Err(Error::InputNotFound(self.input.clone()));
        }
        Ok(())
    }
}

} // verus!
