//! Verified core of an input-method indicator: the configuration-file
//! reader, the colour parser, and the decisions that the caret, IME and
//! fullscreen detectors take on the values the operating system reports.

pub mod caret_detector;
pub mod config;
pub mod config_text;
pub mod fullscreen_detector;
pub mod ime_detector;
pub mod number;
pub mod template;
pub mod text;
