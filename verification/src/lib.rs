//! Alignment-aware hexadecimal and ASCII dumps of fixed-size byte buffers.
//!
//! [`dump::format`] renders a byte sequence the way a hex viewer would: an
//! optional unaligned prefix, then lines of machine words, each followed by
//! the same bytes as printable characters. [`Buf`] is a fixed-size buffer that
//! renders itself this way, and [`dbg_impl`] is the diagnostic hook that
//! chooses between the full dump, the bare type name, and no output at all.

pub mod buf;
pub mod dump;
pub mod glyph;
pub mod laws;
pub mod layout;
pub mod text;

pub use buf::{dbg_impl, Buf, Mode};
pub use dump::{try_format, write_dump};
pub use glyph::write_ascii;
