//! Fixed-width character types of the firmware's text encodings.

use vstd::prelude::*;

verus! {

/// Character conversion error: the code point does not fit the target width.
#[derive(Clone, Copy, Debug, PartialEq, Eq, Structural)]
pub struct CharConversionError;

/// A Latin-1 character.
#[derive(Clone, Copy, Debug, PartialEq, Eq, Structural)]
pub struct Char8(pub u8);

/// A UCS-2 code point.
#[derive(Clone, Copy, Debug, PartialEq, Eq, Structural)]
pub struct Char16(pub u16);

/// The largest code point a `Char8` holds.
pub const CHAR8_MAX: u32 = 0xff;

/// The largest code point a `Char16` holds.
pub const CHAR16_MAX: u32 = 0xffff;

/// Whether a code point fits one 16-bit code unit.
pub open spec fn representable(c: char) -> bool {
    c as u32 <= CHAR16_MAX
}

/// The code unit of a representable code point.
pub open spec fn unit_of(c: char) -> u16 {
    c as u32 as u16
}

impl Char8 {
    /// Converts a code point, which succeeds exactly when it is at most 0xff.
    pub fn try_from(value: char) -> (r: Result<Char8, CharConversionError>)
        ensures
            value as u32 <= CHAR8_MAX ==> r == Ok::<Char8, CharConversionError>(Char8(value as u32 as u8)),
            value as u32 > CHAR8_MAX ==> r == Err::<Char8, CharConversionError>(CharConversionError),
    {
        let code_point: u32 = value as u32;
        if code_point <= CHAR8_MAX {
            Ok(Char8(code_point as u8))
        } else {
            Err(CharConversionError)
        }
    }

    /// The numeric value of the character.
    pub fn code(&self) -> (r: u8)
        ensures
            r == self.0,
    {
        self.0
    }
}

impl Char16 {
    /// Converts a code point, which succeeds exactly when it is at most 0xffff.
    pub fn try_from(value: char) -> (r: Result<Char16, CharConversionError>)
        ensures
            representable(value) ==> r == Ok::<Char16, CharConversionError>(Char16(unit_of(value))),
            !representable(value) ==> r == Err::<Char16, CharConversionError>(CharConversionError),
    {
        let code_point: u32 = value as u32;
        if code_point <= CHAR16_MAX {
            Ok(Char16(code_point as u16))
        } else {
            Err(CharConversionError)
        }
    }

    /// The numeric value of the code unit.
    pub fn code(&self) -> (r: u16)
        ensures
            r == self.0,
    {
        self.0
    }
}

} // verus!
