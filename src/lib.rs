//! Status summaries for a single revision of a jj repository: the shortest
//! unambiguous prefix of its change id, and the number of lines added and
//! deleted relative to its parents.

pub mod config;
pub mod content;
pub mod engine;
pub mod ident;
pub mod lines;
pub mod stat;
pub mod sums;
