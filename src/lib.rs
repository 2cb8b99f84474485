//! Client-side protocol engine for a length-prefixed, NUL-delimited trading
//! gateway wire format: field scanning, frame coding, schema-driven field
//! decoding, the message catalog and the connection's routing decisions.

pub mod buffers;
pub mod codec;
pub mod conn;
pub mod de;
pub mod messages;
pub mod requests;
pub mod scan;
pub mod text;
