//! A stream multiplexer: many ordered, flow-controlled logical streams over
//! one reliable byte-stream connection.
//!
//! The crate is written without I/O. Bytes read from the connection are handed
//! to a [`session::Session`], which decodes frames, routes them to streams and
//! says which frames to write back. Everything here is verified with Verus;
//! only what [`payload`] says of `bytes::Bytes` is taken on trust.

pub mod codec;
pub mod control;
pub mod error;
pub mod event;
pub mod frame;
pub mod framed_stream;
pub mod payload;
pub mod session;
pub mod text;
