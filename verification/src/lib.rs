//! The logic of turning clips from a media catalogue into one horizontally
//! scrolling video: reading the run's parameters, choosing and ordering the
//! media, naming the output, and writing the ffmpeg filter graph and command
//! line. Every function states its behaviour in its contract.

pub mod text;
pub mod numparse;
pub mod duration;
pub mod types;
pub mod encoding;
pub mod naming;
pub mod config;
pub mod ffmpeg;
pub mod clips;
pub mod source;
pub mod run_params;
pub mod download;
pub mod progress;
pub mod laws_parse;
