//! Stream identifiers and stream types of an HTTP/3 connection, with their
//! variable-length integer wire format.

pub mod buffer;
pub mod decimal;
pub mod stream;
pub mod varint;
