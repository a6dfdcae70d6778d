//! Bookkeeping of page visits: a counter per (country, city) and the set of
//! coordinates ever seen, with the transactional rules that keep the two
//! tables consistent.

pub mod assoc;
pub mod handler;
pub mod interleave;
pub mod plan;
pub mod render;
pub mod rows;
pub mod store;
pub mod tables;
