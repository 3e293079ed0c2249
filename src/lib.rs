//! A task scheduler whose bookkeeping is verified: identifiers, completion
//! slots, readiness of queued work, worker decisions and pool configuration.
//! Threads, locks and the erased closures are driven by the runtime around it.

pub mod task;
pub mod queue;
pub mod state;
pub mod naming;
pub mod readiness;
pub mod executor;
pub mod waker;
pub mod asset;
pub mod rendergraph;

pub use executor::{config, initialize, TaskSchedular, ThreadNotFound};
pub use state::CompletionState;
pub use task::{BoxedTask, Task, TaskId};
pub use waker::WakerRegistry;
