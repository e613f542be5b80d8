//! Type-level binary numbers used to describe the felt type of the Cairo VM.
use vstd::prelude::*;

verus! {

/// A type-level unsigned integer.
pub trait Unsigned: Copy + Default + 'static {
    const U8: u8;
    const U16: u16;
    const U32: u32;
    const U64: u64;
    const USIZE: usize;
    const I8: i8;
    const I16: i16;
    const I32: i32;
    const I64: i64;
    const ISIZE: isize;

    fn to_u8() -> u8;

    fn to_u16() -> u16;

    fn to_u32() -> u32;

    fn to_u64() -> u64;

    fn to_usize() -> usize;

    fn to_i8() -> i8;

    fn to_i16() -> i16;

    fn to_i32() -> i32;

    fn to_i64() -> i64;

    fn to_isize() -> isize;
}

/// A type-level bit.
pub trait Bit: Copy + Default + 'static {
    const U8: u8;
    const BOOL: bool;

    fn new() -> Self;

    fn to_u8() -> (r: u8)
        ensures
            r == Self::U8,
    ;

    fn to_bool() -> (r: bool)
        ensures
            r == Self::BOOL,
    ;
}

/// The type-level bit 0.
#[derive(Eq, PartialEq, Ord, PartialOrd, Clone, Copy, Hash, Debug, Default)]
pub struct B0;

impl B0 {
    /// Instantiates a singleton representing this bit.
    pub fn new() -> (r: B0)
        ensures
            r == B0,
    {
        B0
    }
}

/// The type-level bit 1.
#[derive(Eq, PartialEq, Ord, PartialOrd, Clone, Copy, Hash, Debug, Default)]
pub struct B1;

impl B1 {
    /// Instantiates a singleton representing this bit.
    pub fn new() -> (r: B1)
        ensures
            r == B1,
    {
        B1
    }
}

impl Bit for B0 {
    const U8: u8 = 0;
    const BOOL: bool = false;

    fn new() -> Self {
        B0
    }

    fn to_u8() -> (r: u8) {
        0
    }

    fn to_bool() -> (r: bool) {
        false
    }
}

impl Bit for B1 {
    const U8: u8 = 1;
    const BOOL: bool = true;

    fn new() -> Self {
        B1
    }

    fn to_u8() -> (r: u8) {
        1
    }

    fn to_bool() -> (r: bool) {
        true
    }
}

/// The terminating type-level unsigned integer, zero.
#[derive(Eq, PartialEq, Ord, PartialOrd, Clone, Copy, Hash, Debug, Default)]
pub struct UTerm;

impl UTerm {
    /// Instantiates a singleton representing this unsigned integer.
    pub fn new() -> (r: UTerm)
        ensures
            r == UTerm,
    {
        UTerm
    }
}

/// A type-level unsigned integer made of its more significant bits `U`
/// followed by its least significant bit `B`.
#[derive(Eq, PartialEq, Ord, PartialOrd, Clone, Copy, Hash, Debug, Default)]
pub struct UInt<U, B> {
    /// The more significant bits of `Self`.
    pub(crate) msb: U,
    /// The least significant bit of `Self`.
    pub(crate) lsb: B,
}

impl<U: Unsigned, B: Bit> UInt<U, B> {
    /// Instantiates a singleton representing this unsigned integer.
    pub fn new() -> (r: UInt<U, B>) {
        UInt { msb: U::default(), lsb: B::default() }
    }
}

/// The felt type of the Cairo VM, written as the binary number 11111100.
pub type Felt = UInt<UInt<UInt<UInt<UInt<UInt<UInt<UInt<UTerm, B1>, B1>, B1>, B1>, B1>, B1>, B0>, B0>;

/// The Cairo types an input of the fuzzer can have.
#[derive(Debug, Clone)]
pub enum CairoTypes {
    Felt(Felt),
}

} // verus!
