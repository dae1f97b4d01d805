//! The acquisition core of a package manager: the event model of a pipeline
//! run, the decisions of the download coordinator, and the state and text of
//! the live status table.

pub mod downloader;
pub mod event;
pub mod job;
pub mod model;
pub mod monitor;
pub mod paint;
pub mod status;
pub mod stream;
pub mod table;
pub mod units;
