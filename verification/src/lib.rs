//! Copy engine for moving table structure and data between two relational
//! databases: statement construction, value masking, batching, bounded
//! fan-out and the task life cycle, each with a machine-checked contract.

pub mod connection;
pub mod copy;
pub mod fanout;
pub mod history;
pub mod keyed;
pub mod mask;
pub mod merge;
pub mod migration;
pub mod model;
pub mod monitor;
pub mod schema;
pub mod summary;
pub mod task;
pub mod text;
