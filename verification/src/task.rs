//! Tasks, their wakers and the executor that runs them.
pub mod executor;
pub mod task;
pub mod waker;
