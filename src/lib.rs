//! A streaming markup serializer: turns markup events into bytes, with an
//! optional pretty-printing mode that breaks lines and indents by nesting depth.

pub mod events;
pub mod indent;
pub mod laws;
pub mod writer;
