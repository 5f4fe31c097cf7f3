//! Breez: a screen recorder and demo editor, as a verified library.
//!
//! The modules hold what the recorder, the editor and the exporter decide
//! and compute: the project model and its edits, the recording pacer, the
//! preview's seek protocol and frame cache, waveform peaks, the ffmpeg
//! command lines and the export's audio filter graph. Spawning processes,
//! files, threads and windows stay with the caller.
use vstd::prelude::*;

pub mod cache;
pub mod capture;
pub mod commands;
pub mod edit;
pub mod export;
pub mod export_run;
pub mod graph;
pub mod media;
pub mod music;
pub mod outside;
pub mod peaks;
pub mod plan;
pub mod playback;
pub mod project;
pub mod text;
pub mod thumbs;
pub mod ui;
pub mod walk;
pub mod waveforms;
