pub mod command;
pub mod status;
pub mod store;
pub mod task;
pub mod timestamp;
