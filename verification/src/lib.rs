//! Core of an activity tracker: a segment state machine (the recorder) that
//! compresses a stream of periodic activity samples into non-overlapping time
//! segments, and a storage layer that persists them in SQLite with
//! deduplicated dimension tables and retroactive idle correction.

pub mod config;
pub mod db;
pub mod monitor;
pub mod recorder;
