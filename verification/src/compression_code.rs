use vstd::prelude::*;

verus! {

/// The closed set of payload encodings for bitmap-carrying commands. The
/// uncompressed passthrough is always available and is the default; the zlib
/// encoding trades encoding work for wire size.
#[derive(Clone, Copy, Debug, PartialEq, Eq, Structural)]
pub enum CompressionCode {
    Uncompressed,
    Zlib,
}

impl CompressionCode {
    /// The 16-bit tag carried in a packet header for this encoding, so the
    /// receiver knows how to reverse it.
    pub open spec fn spec_u16(self) -> u16 {
        match self {
            CompressionCode::Uncompressed => 0x0000,
            CompressionCode::Zlib => 0x677a,
        }
    }

    /// The 16-bit tag carried in a packet header for this encoding.
    pub fn to_u16(self) -> (r: u16)
        ensures
            r == self.spec_u16(),
    {
        match self {
            CompressionCode::Uncompressed => 0x0000,
            CompressionCode::Zlib => 0x677a,
        }
    }
}

impl Default for CompressionCode {
    /// The uncompressed passthrough is the default encoding, so the system
    /// degrades gracefully when no compression backend is wanted.
    fn default() -> (r: Self)
        ensures
            r == CompressionCode::Uncompressed,
    {
        CompressionCode::Uncompressed
    }
}

} // verus!
