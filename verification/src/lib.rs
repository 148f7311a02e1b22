//! Client-side codec for a fixed-size remote pixel-matrix display.
//!
//! Callers stage pixel and brightness data in grid structures, wrap them in a
//! command, and encode the command into the exact binary wire packet that the
//! display hardware interprets.

use vstd::prelude::*;

mod bit_vec;
mod byte_grid;
mod command;
mod compression;
mod compression_code;
mod data_ref;
mod grid;
mod packet;
mod pixel_grid;

pub use crate::bit_vec::BitVec;
pub use crate::bit_vec::bits_of_bytes;
pub use crate::bit_vec::byte_bit;
pub use crate::bit_vec::byte_len_for;
pub use crate::byte_grid::ByteGrid;
pub use crate::byte_grid::lemma_byte_grid_full_window_eq;
pub use crate::command::Brightness;
pub use crate::command::Command;
pub use crate::command::Offset;
pub use crate::command::Origin;
pub use crate::command::Size;
pub use crate::command::Window;
pub use crate::command::offset_and_payload;
pub use crate::command::window_and_payload;
pub use crate::compression::encoded;
pub use crate::compression::into_compressed;
pub use crate::compression::zlib_of;
pub use crate::compression_code::CompressionCode;
pub use crate::data_ref::DataRef;
pub use crate::grid::Grid;
pub use crate::packet::DecodeError;
pub use crate::packet::Header;
pub use crate::packet::Packet;
pub use crate::packet::Payload;
pub use crate::packet::be_combine;
pub use crate::packet::be_hi;
pub use crate::packet::be_lo;
pub use crate::packet::header_bytes;
pub use crate::packet::lemma_packet_round_trip;
pub use crate::packet::u16_from_be_slice;
pub use crate::pixel_grid::PixelGrid;
pub use crate::pixel_grid::lemma_pixel_grid_full_window_eq;
pub use crate::pixel_grid::lemma_pixel_grid_round_trip;

verus! {

/// Size of a single square tile in one dimension, in pixels.
pub const TILE_SIZE: usize = 8;

/// Tile count in the x-direction.
pub const TILE_WIDTH: usize = 56;

/// Tile count in the y-direction.
pub const TILE_HEIGHT: usize = 20;

/// Screen width in pixels.
pub const PIXEL_WIDTH: usize = 56 * 8;

/// Screen height in pixels.
pub const PIXEL_HEIGHT: usize = 20 * 8;

/// Pixel count of the whole screen.
pub const PIXEL_COUNT: usize = 448 * 160;

} // verus!
