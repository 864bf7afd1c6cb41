//! The requests that any user may make.

pub mod api_status;
pub mod segments;
pub mod user_info;
pub mod user_stats;
