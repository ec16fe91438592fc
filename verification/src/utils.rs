//! Small kernel utilities.

pub mod ring_buffer;
