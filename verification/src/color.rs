use vstd::prelude::*;

verus! {

/// An opaque 8-bit RGB colour: red, green, blue.
#[derive(Clone, Copy, Debug, PartialEq, Eq, Structural)]
pub struct Color(pub u8, pub u8, pub u8);

} // verus!
