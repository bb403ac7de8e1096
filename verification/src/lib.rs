//! The flow identification, deduplication and aggregation engine of a
//! network-flow tracer.
//!
//! A raw captured frame is classified down to its transport header
//! (`classify`), held against the admission policy (`admission`), and the
//! admitted flow key is recorded exactly once, first-seen-wins, in the flow
//! store (`store`). Snapshots of the store feed the three-stage reporting
//! rollup (`aggregate`) and the spreadsheet cell texts (`export`). Every
//! function here carries and meets a contract over the mathematical views
//! of its data; the capture device, persistence, HTTP serving and file
//! writing live outside this crate.

pub mod admission;
pub mod aggregate;
pub mod classify;
pub mod export;
pub mod flow;
pub mod store;
pub mod text;
