//! A worker pool used to execute a number of jobs atop stateful workers.
//!
//! The crate holds everything that a pool decides. [`pool::Pool`] is the state that all
//! handles and all worker threads share, with one operation for each thing that can happen
//! to it; it keeps its own [`history`]. [`shared::PoolSharedData`] puts that state behind a
//! [`lock`], and its methods hand out the evidence of what they did to it; each of them is written
//! for a worker of which only the [`roles`] are known that it needs. [`calls`] says what each call
//! does. [`laws`] shows what holds of a pool, and [`thread_laws`] of its threads, whatever the
//! order in which they run.
//! Starting the threads is left to the program.

pub mod builder;
pub mod calls;
pub mod history;
pub mod job;
pub mod laws;
pub mod lock;
pub mod pool;
pub mod queue;
pub mod roles;
pub mod send;
pub mod sentinel;
pub mod settings;
pub mod shared;
pub mod system;
pub mod text;
pub mod thread_laws;
pub mod thunk;
pub mod wake;
pub mod wakeup;
pub mod worker;

pub use crate::builder::Builder;
pub use crate::pool::Pool;
pub use crate::shared::PoolSharedData;
pub use crate::worker::Worker;
