//! Unit creation and unit backup for a DAG-based BFT consensus protocol.

pub mod backup;
pub mod creator;
pub mod loading;
pub mod nodes;
pub mod units;
