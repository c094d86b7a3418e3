//! The sinks that a connection can hold.
pub mod compressed_file_sink;
pub mod console_sink;
pub mod file_sink;
pub mod message_counter;
pub mod mock_sink;
pub mod prometheus_sink;
pub mod raw_file_sink;
