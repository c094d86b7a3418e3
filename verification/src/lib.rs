//! Core of a message recorder: a connection to one publish/subscribe feed owns a
//! set of named sinks, and every message that arrives on the feed is handed to
//! each of them.
//!
//! The crate performs no input or output of its own. A sink that persists or
//! prints stages what it wants done (bytes to append to a file, a flush, a line
//! for the console), and the host program collects that with
//! [`zmq_connection::ZmqConnection::take_output`] and carries it out.
pub mod arg_parser;
pub mod clock;
pub mod config;
pub mod error;
pub mod framing;
pub mod metrics;
pub mod output;
pub mod process_zmq_connection;
pub mod sink;
pub mod sinks;
pub mod text;
pub mod zmq_connection;
