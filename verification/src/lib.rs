//! Cuts text sources into blocks separated by runs of blank lines and plans
//! one plotting job per aligned tuple of blocks.

pub mod align;
pub mod align_props;
pub mod config;
pub mod dispatch;
pub mod error;
pub mod host;
pub mod job;
pub mod job_props;
pub mod lifecycle;
pub mod line;
pub mod line_props;
pub mod segment;
pub mod segment_props;
pub mod stream;
pub mod text;
