//! Shared vocabulary of the machine: the 16-key input codes and the
//! failure taxonomy of the execution and loading entry points.

use vstd::prelude::*;

verus! {

/// One of the sixteen canonical keys of the input device, `0x0` to `0xF`.
#[derive(Clone, Copy, Debug, PartialEq, Eq, Structural)]
pub enum Key {
    D0,
    D1,
    D2,
    D3,
    D4,
    D5,
    D6,
    D7,
    D8,
    D9,
    A,
    B,
    C,
    D,
    E,
    F,
}

/// The numeric code of a key, `0x0` to `0xF`.
pub open spec fn key_code(k: Key) -> u8 {
    match k {
        Key::D0 => 0x0,
        Key::D1 => 0x1,
        Key::D2 => 0x2,
        Key::D3 => 0x3,
        Key::D4 => 0x4,
        Key::D5 => 0x5,
        Key::D6 => 0x6,
        Key::D7 => 0x7,
        Key::D8 => 0x8,
        Key::D9 => 0x9,
        Key::A => 0xA,
        Key::B => 0xB,
        Key::C => 0xC,
        Key::D => 0xD,
        Key::E => 0xE,
        Key::F => 0xF,
    }
}

impl Key {
    /// The numeric code of the key, used to index the pressed-state table
    /// and written to the awaited register when a wait is resolved.
    pub fn code(self) -> (r: u8)
        ensures
            r == key_code(self),
            r < 16,
    {
        match self {
            Key::D0 => 0x0,
            Key::D1 => 0x1,
            Key::D2 => 0x2,
            Key::D3 => 0x3,
            Key::D4 => 0x4,
            Key::D5 => 0x5,
            Key::D6 => 0x6,
            Key::D7 => 0x7,
            Key::D8 => 0x8,
            Key::D9 => 0x9,
            Key::A => 0xA,
            Key::B => 0xB,
            Key::C => 0xC,
            Key::D => 0xD,
            Key::E => 0xE,
            Key::F => 0xF,
        }
    }
}

/// A failure of one fetch-decode-execute cycle.
///
/// `Illegal`: the decoded word matches no defined instruction family or
/// second-level selector. `Unsupported`: the word is recognized as a legacy
/// hardware system call (family `0x0` with an unrecognized 12-bit payload),
/// intentionally not implemented. Both are fatal to the `step` call that
/// produced them; the program counter remains advanced past the failing word.
#[derive(Clone, Copy, Debug, PartialEq, Eq, Structural)]
pub enum InstructionError {
    Illegal,
    Unsupported,
}

/// A failure of `load_rom`: the source holds more bytes than the program
/// region `0x200..0x1000` can hold. Bytes copied before the failure was
/// detected are left in place.
#[derive(Clone, Copy, Debug, PartialEq, Eq, Structural)]
pub enum LoadError {
    Oversized,
}

} // verus!
