//! NVMe driver model: commands, queues and controller register values.

pub mod command;
pub mod controller;
pub mod queue;
