pub mod args;
pub mod config;
pub mod ls;
pub mod order;
pub mod task;
pub mod task_file;

pub use task::{Date, Status, Task};
pub use task_file::TaskFile;
