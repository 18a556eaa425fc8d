//! Hardware performance-counter measurement: the setup protocol that maps
//! named events onto counter registers, the start/end snapshot diff, and the
//! aggregation of many measured spans.

pub mod events;
pub mod mapper;
pub mod collector;
pub mod stats;
pub mod wide;

