//! Orchestration core of a two-stage block proving pipeline: the block-job
//! state machine, its job store, retry discipline, backpressure and the
//! gapless settlement order.
pub mod errors;
pub mod piltover;
pub mod pipeline;
pub mod prover;
pub mod retry;
pub mod status;
pub mod storage;
pub mod store;
