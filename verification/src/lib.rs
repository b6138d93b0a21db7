pub mod external;
pub mod task;
pub mod timer;
