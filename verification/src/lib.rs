//! A length-prefixed frame ingestion core.
//!
//! Producers send frames over a byte stream, each one behind an 8-byte
//! length; only the frame that arrived last is kept, for a consumer that
//! reads it whenever it likes.
//!
//! - [`wire`]: the wire format, and which frames a stream carries.
//! - [`connection`]: the framing protocol of one connection, read by read.
//! - [`handler`]: serving a connection, into a slot.
//! - [`slot`]: the slot that holds the latest frame.
//! - [`shared`]: that slot behind a lock, for concurrent writers and readers.
//! - [`listener`]: what the listener decides when it binds and accepts.
//!
//! The library performs no I/O. Its caller owns the sockets and threads,
//! does the reads that a connection asks for, and reports how they went.

pub mod connection;
pub mod handler;
pub mod listener;
pub mod shared;
pub mod slot;
pub mod wire;
