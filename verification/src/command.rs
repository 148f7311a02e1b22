use crate::bit_vec::BitVec;
use crate::compression::encoded;
use crate::compression::into_compressed;
use crate::compression_code::CompressionCode;
use crate::data_ref::DataRef;
use crate::packet::Header;
use crate::packet::Packet;
use crate::pixel_grid::PixelGrid;
use vstd::prelude::*;

verus! {

/// An origin marks the top-left position of the data sent to the display,
/// in cells of the addressed layer.
#[derive(Debug)]
pub struct Origin(pub u16, pub u16);

/// The width and height of a window, in cells of the addressed layer.
#[derive(Debug)]
pub struct Size(pub u16, pub u16);

/// A rectangular sub-region of the canvas: an origin and a size.
#[derive(Debug)]
pub struct Window(pub Origin, pub Size);

/// A linear byte offset into the display's framebuffer.
pub type Offset = u16;

/// A global or per-tile brightness value.
pub type Brightness = u8;

/// A drawing command for the display. Each command owns the data it carries
/// and is consumed exactly once, when encoded into a packet.
#[derive(Debug)]
pub enum Command {
    /// Clears the whole screen.
    Clear,
    /// Resets the display hardware.
    HardReset,
    /// Fades the screen out.
    FadeOut,
    /// Sets per-tile brightness values for a window, row-major.
    CharBrightness(Window, Vec<Brightness>),
    /// Sets the global brightness.
    Brightness(Brightness),
    /// Overwrites a linear part of the framebuffer with a bit sequence.
    BitmapLinear(Offset, BitVec, CompressionCode),
    /// Combines a bit sequence into the framebuffer with bitwise and.
    BitmapLinearAnd(Offset, BitVec, CompressionCode),
    /// Combines a bit sequence into the framebuffer with bitwise or.
    BitmapLinearOr(Offset, BitVec, CompressionCode),
    /// Combines a bit sequence into the framebuffer with bitwise xor.
    BitmapLinearXor(Offset, BitVec, CompressionCode),
    /// Replaces a window of the screen with a pixel grid.
    BitmapLinearWin(Window, PixelGrid, CompressionCode),
}

impl Command {
    /// The header of the packet this command encodes to: the command code,
    /// then either the window geometry, or the offset, uncompressed length
    /// and compression tag of a linear bitmap.
    pub open spec fn spec_header(&self) -> Header {
        match self {
            Command::Clear => Header(0x0002, 0, 0, 0, 0),
            Command::HardReset => Header(0x000b, 0, 0, 0, 0),
            Command::FadeOut => Header(0x000d, 0, 0, 0, 0),
            Command::Brightness(_) => Header(0x0007, 0, 0, 0, 0),
            Command::CharBrightness(w, _) => Header(0x0005, w.0.0, w.0.1, w.1.0, w.1.1),
            Command::BitmapLinear(off, bits, comp) => Header(
                0x0012,
                *off,
                bits.bytes().len() as u16,
                comp.spec_u16(),
                0,
            ),
            Command::BitmapLinearAnd(off, bits, comp) => Header(
                0x0014,
                *off,
                bits.bytes().len() as u16,
                comp.spec_u16(),
                0,
            ),
            Command::BitmapLinearOr(off, bits, comp) => Header(
                0x0015,
                *off,
                bits.bytes().len() as u16,
                comp.spec_u16(),
                0,
            ),
            Command::BitmapLinearXor(off, bits, comp) => Header(
                0x0016,
                *off,
                bits.bytes().len() as u16,
                comp.spec_u16(),
                0,
            ),
            Command::BitmapLinearWin(w, _, comp) => Header(
                match comp {
                    CompressionCode::Uncompressed => 0x0013,
                    CompressionCode::Zlib => 0x0017,
                },
                w.0.0,
                w.0.1,
                w.1.0,
                w.1.1,
            ),
        }
    }

    /// The payload of the packet this command encodes to.
    pub open spec fn spec_payload(&self) -> Seq<u8> {
        match self {
            Command::Clear => Seq::empty(),
            Command::HardReset => Seq::empty(),
            Command::FadeOut => Seq::empty(),
            Command::Brightness(b) => seq![*b],
            Command::CharBrightness(_, vals) => vals@,
            Command::BitmapLinear(_, bits, comp) => encoded(*comp, bits.bytes()),
            Command::BitmapLinearAnd(_, bits, comp) => encoded(*comp, bits.bytes()),
            Command::BitmapLinearOr(_, bits, comp) => encoded(*comp, bits.bytes()),
            Command::BitmapLinearXor(_, bits, comp) => encoded(*comp, bits.bytes()),
            Command::BitmapLinearWin(_, px, comp) => encoded(*comp, px.bytes()),
        }
    }

    /// A linear bitmap's uncompressed byte length must fit the 16-bit header
    /// slot that carries it; encoding must not silently truncate.
    pub open spec fn encodable(&self) -> bool {
        match self {
            Command::BitmapLinear(_, bits, _) => bits.bytes().len() <= 0xFFFF,
            Command::BitmapLinearAnd(_, bits, _) => bits.bytes().len() <= 0xFFFF,
            Command::BitmapLinearOr(_, bits, _) => bits.bytes().len() <= 0xFFFF,
            Command::BitmapLinearXor(_, bits, _) => bits.bytes().len() <= 0xFFFF,
            _ => true,
        }
    }

    /// Decides whether the command can be encoded without truncation.
    pub fn is_encodable(&self) -> (r: bool)
        ensures
            r == self.encodable(),
    {
        match self {
            Command::BitmapLinear(_, bits, _) => bits.data_ref().len() <= 0xFFFF,
            Command::BitmapLinearAnd(_, bits, _) => bits.data_ref().len() <= 0xFFFF,
            Command::BitmapLinearOr(_, bits, _) => bits.data_ref().len() <= 0xFFFF,
            Command::BitmapLinearXor(_, bits, _) => bits.data_ref().len() <= 0xFFFF,
            _ => true,
        }
    }

    /// Encodes the command into its exact wire packet, applying the chosen
    /// payload encoding and tagging the header so the receiver can reverse
    /// it.
    pub fn to_packet(self) -> (r: Packet)
        requires
            self.encodable(),
        ensures
            r.0 == self.spec_header(),
            r.1@ == self.spec_payload(),
    {
        match self {
            Command::Clear => Packet(Header(0x0002, 0, 0, 0, 0), Vec::new()),
            Command::HardReset => Packet(Header(0x000b, 0, 0, 0, 0), Vec::new()),
            Command::FadeOut => Packet(Header(0x000d, 0, 0, 0, 0), Vec::new()),
            Command::Brightness(b) => {
                let mut payload: Vec<u8> = Vec::new();
                payload.push(b);
                proof {
                    assert(payload@ =~= seq![b]);
                }
                Packet(Header(0x0007, 0, 0, 0, 0), payload)
            },
            Command::CharBrightness(window, vals) => window_and_payload(0x0005, window, vals),
            Command::BitmapLinear(offset, bits, comp) => offset_and_payload(
                0x0012,
                offset,
                comp,
                bits,
            ),
            Command::BitmapLinearAnd(offset, bits, comp) => offset_and_payload(
                0x0014,
                offset,
                comp,
                bits,
            ),
            Command::BitmapLinearOr(offset, bits, comp) => offset_and_payload(
                0x0015,
                offset,
                comp,
                bits,
            ),
            Command::BitmapLinearXor(offset, bits, comp) => offset_and_payload(
                0x0016,
                offset,
                comp,
                bits,
            ),
            Command::BitmapLinearWin(window, pixels, comp) => {
                let mode: u16 = match comp {
                    CompressionCode::Uncompressed => 0x0013,
                    CompressionCode::Zlib => 0x0017,
                };
                let payload: Vec<u8> = into_compressed(comp, pixels.into_data());
                window_and_payload(mode, window, payload)
            },
        }
    }
}

/// Packs a linear bitmap command: the header carries the offset, the
/// uncompressed byte length and the compression tag; the payload is the
/// encoded bit sequence.
pub fn offset_and_payload(mode: u16, offset: Offset, compression: CompressionCode, bits: BitVec) -> (r:
    Packet)
    requires
        bits.bytes().len() <= 0xFFFF,
    ensures
        r.0 == Header(mode, offset, bits.bytes().len() as u16, compression.spec_u16(), 0),
        r.1@ == encoded(compression, bits.bytes()),
{
    let data: Vec<u8> = bits.into_data();
    let length: u16 = data.len() as u16;
    let tag: u16 = compression.to_u16();
    let payload: Vec<u8> = into_compressed(compression, data);
    Packet(Header(mode, offset, length, tag, 0), payload)
}

/// Packs a window command: the header carries the window geometry; the
/// payload is passed through unchanged.
pub fn window_and_payload(mode: u16, window: Window, payload: Vec<u8>) -> (r: Packet)
    ensures
        r.0 == Header(mode, window.0.0, window.0.1, window.1.0, window.1.1),
        r.1@ == payload@,
{
    let Window(Origin(x, y), Size(w, h)) = window;
    Packet(Header(mode, x, y, w, h), payload)
}

} // verus!
