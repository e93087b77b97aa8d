//! BurnSubs renders SRT subtitles permanently into videos with FFmpeg, one
//! video at a time or a whole folder of same-name pairs, on a GPU encoder where
//! one works and on libx264 otherwise.
//!
//! - `batch`: pairing a folder's videos with their subtitles and planning jobs.
//! - `acceleration`: encoders, their options and the choice of one for a queue.
//! - `device`: the render device VA-API encodes on.
//! - `encoder`: the FFmpeg command of one encoding run and what it reports.
//! - `probe`: the video information FFprobe reports.
//! - `locator`: where FFmpeg and FFprobe are found.
//! - `worker`: the steps of an encoding queue.
//! - `interface`: the state behind the main window.
//! - `settings`: the settings kept between runs.
//! - `model`, `paths`, `order`, `text`: the shared values and helpers.

pub mod acceleration;
pub mod batch;
pub mod device;
pub mod encoder;
pub mod interface;
pub mod locator;
pub mod model;
pub mod order;
pub mod paths;
pub mod probe;
pub mod settings;
pub mod text;
pub mod worker;
