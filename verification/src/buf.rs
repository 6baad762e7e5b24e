//! The fixed-size buffer that renders itself as a dump, and the diagnostic
//! hook built on it.

use vstd::prelude::*;
use crate::dump::write_dump;
use crate::layout::{dump_text, valid_align};

verus! {

/// A buffer of `N` bytes.
#[derive(PartialEq, Eq, PartialOrd, Ord, Clone)]
pub struct Buf<const N: usize>(pub [u8; N]);

impl<const N: usize> View for Buf<N> {
    type V = Seq<u8>;

    open spec fn view(&self) -> Seq<u8> {
        self.0@
    }
}

/// What the diagnostic hook writes for a value.
#[derive(Clone, Copy, Debug)]
pub enum Mode {
    /// The dump of the value's bytes.
    FullDump,
    /// The name of the value's type and nothing else.
    NameOnly,
    /// Nothing.
    Disabled,
}

/// The text that the diagnostic hook writes for a value with the given bytes
/// and type name.
pub open spec fn hook_text(
    mode: Mode,
    bytes: Seq<u8>,
    name: Seq<char>,
    align: nat,
    alignment_offset: nat,
) -> Seq<char> {
    match mode {
        Mode::FullDump => dump_text(bytes, align, alignment_offset),
        Mode::NameOnly => name,
        Mode::Disabled => Seq::empty(),
    }
}

impl<const N: usize> Buf<N> {
    /// Appends the dump of this buffer to `out`.
    pub fn fmt(&self, out: &mut String, align: usize, alignment_offset: usize)
        requires
            valid_align(align as nat),
        ensures
            final(out)@ == old(out)@ + dump_text(self@, align as nat, alignment_offset as nat),
    {
        write_dump(out, self.0.as_slice(), align, alignment_offset);
    }
}

/// The diagnostic hook: appends to `out` what `mode` asks for, for a value
/// whose bytes are `t` and whose type is called `name`.
///
/// The alignment is only looked at for a full dump.
pub fn dbg_impl<const N: usize>(
    out: &mut String,
    mode: Mode,
    t: &Buf<N>,
    name: &str,
    align: usize,
    alignment_offset: usize,
)
    requires
        mode is FullDump ==> valid_align(align as nat),
    ensures
        final(out)@ == old(out)@ + hook_text(
            mode,
            t@,
            name@,
            align as nat,
            alignment_offset as nat,
        ),
{
    match mode {
        Mode::FullDump => {
            t.fmt(out, align, alignment_offset);
        },
        Mode::NameOnly => {
            out.append(name);
        },
        Mode::Disabled => {},
    }
}

} // verus!
