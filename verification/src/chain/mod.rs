//! The chain of section-membership snapshots and the events agreed on it.

pub mod network_event;
pub mod section_info;
