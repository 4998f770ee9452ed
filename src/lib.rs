//! A fixed-size worker pool: the verified core.
//!
//! The library holds the rules of the pool: which sizes are valid, how jobs
//! travel from submitters to workers through a closable FIFO queue, and how
//! the set of workers is created and shut down. Running threads, locking the
//! queue and waking idle workers are left to the caller.
pub mod error;
pub mod queue;
pub mod worker;

pub use error::validate_size;
pub use error::PoolCreationError;
pub use queue::JobQueue;
pub use queue::Received;
pub use worker::WorkerSet;
