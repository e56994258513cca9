//! The units in which data moves through the data register.

use vstd::prelude::*;

verus! {

/// Size of an access to the data register.
#[derive(Clone, Copy, PartialEq, Eq, Structural, Debug)]
pub enum WordSize {
    /// One byte
    OneByte,
    /// Two bytes
    TwoBytes,
    /// Four bytes
    FourBytes,
}

/// Word sizes usable for OSPI.
pub trait Word: Copy {
    /// Size of the word.
    spec fn size_spec() -> WordSize;

    /// Size of the word.
    fn size() -> (size: WordSize)
        ensures
            size == Self::size_spec(),
    ;
}

impl Word for u8 {
    open spec fn size_spec() -> WordSize {
        WordSize::OneByte
    }

    fn size() -> (size: WordSize) {
        WordSize::OneByte
    }
}

impl Word for u16 {
    open spec fn size_spec() -> WordSize {
        WordSize::TwoBytes
    }

    fn size() -> (size: WordSize) {
        WordSize::TwoBytes
    }
}

impl Word for u32 {
    open spec fn size_spec() -> WordSize {
        WordSize::FourBytes
    }

    fn size() -> (size: WordSize) {
        WordSize::FourBytes
    }
}

} // verus!
