//! Cursors over token sources and the parsing session that walks them.
//!
//! A cursor ([`input::Input`]) hands out tokens by offset. The session
//! ([`session::InputRef`]) carries a cursor, the current offset, the buffer of
//! non-fatal errors, the user state and a context value through a
//! recursive-descent parse, with markers for backtracking.

pub mod input;
pub mod array;
pub mod text;
pub mod context;
pub mod session;
pub mod emitter;
pub mod stream;
pub mod memo;
