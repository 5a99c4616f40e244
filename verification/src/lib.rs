//! The concurrency core of a VM runner's output pipeline.
//!
//! Output handlers for L1 batches run in parallel and finish in any order,
//! while one watermark, the last processed batch, moves strictly in order
//! and without gaps.
//!
//! - [`completion_map`] holds a single-shot completion signal per requested
//!   batch.
//! - [`handler`] has the interfaces of the handlers and of their factory,
//!   and the wrapper that resolves a batch's signal when its handler is done.
//! - [`watermark`] is the watermark task as a state machine: it makes the
//!   decisions and leaves waiting and I/O to whoever drives it.
//! - [`sink`] is the interface of the I/O sink that holds the watermark.
//! - [`factory`] puts these together: the concurrent factory and its task.
//! - [`execution`] states and proves what holds of every execution of the
//!   pipeline.
//!
//! Beside the pipeline, [`pubdata_da`] has the data-availability layers with
//! their fixed codes, [`batch`] the batch numbers, and [`genesis`] the order
//! of the work on a chain's databases.

pub mod batch;
pub mod completion_map;
pub mod execution;
pub mod factory;
pub mod genesis;
pub mod handler;
pub mod pubdata_da;
pub mod sink;
pub mod watermark;
