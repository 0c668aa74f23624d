//! Size-distribution scanning of directory trees: the histogram, the
//! scheduler that bounds concurrent directory workers, the worker's event
//! rules and the persisted report format, with machine-checked contracts.

pub mod csv;
pub mod histogram;
pub mod objects;
pub mod scheduler;
pub mod strategy;
pub mod text;
pub mod worker;
