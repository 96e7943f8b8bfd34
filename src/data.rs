use vstd::prelude::*;

verus! {

/// The little-endian 16-bit value made of a low and a high byte.
pub open spec fn short_of(lo: u8, hi: u8) -> u16 {
    (lo as int + 256 * hi as int) as u16
}

/// Random-access reader over the song data, addressed by a 16-bit index.
///
/// An implementation gives `byte_at` as the plain lookup of the byte it
/// holds at an index; `read_byte` and `read_short` must agree with it.
pub trait DataAccessor {
    /// The byte stored at `index`.
    spec fn byte_at(&self, index: u16) -> u8;

    /// Reads the byte at `index`.
    fn read_byte(&self, index: u16) -> (r: u8)
        ensures
            r == self.byte_at(index),
    ;

    /// Reads the little-endian 16-bit value at `index` and the index after it.
    fn read_short(&self, index: u16) -> (r: u16)
        ensures
            r == short_of(self.byte_at(index), self.byte_at(index.wrapping_add(1))),
    ;
}

} // verus!
