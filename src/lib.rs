//! Assembly of out-of-process crash reports: installation metadata, the
//! locations of the report files, the snapshot breadth policy and the
//! contents of the side-car files.

pub mod paths;
pub mod config;
pub mod prefs;
pub mod decimal;
pub mod report;
pub mod pipeline;
pub mod json;
