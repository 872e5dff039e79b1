//! The decisions each command makes before and around its reads and writes.

pub mod cat;
pub mod head;
pub mod merge;
pub mod rowcount;
pub mod sample;
pub mod schema;
pub mod size;
