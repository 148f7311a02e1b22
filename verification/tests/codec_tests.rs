use servicepoint2::BitVec;
use servicepoint2::Command;
use servicepoint2::CompressionCode;
use servicepoint2::DecodeError;
use servicepoint2::Header;
use servicepoint2::Origin;
use servicepoint2::Packet;
use servicepoint2::Size;
use servicepoint2::Window;
use servicepoint2::Grid;
use servicepoint2::PixelGrid;
use servicepoint2::u16_from_be_slice;

#[test]
fn packet_round_trip() {
    let packet = Packet(Header(0x8001, 1, 2, 3, 0xFFFF), vec![9, 8, 7]);
    let bytes = packet.to_bytes();
    assert_eq!(bytes.len(), 13);

    let decoded = Packet::from_bytes(&bytes).unwrap_or_else(|_| panic!("decode failed"));
    let Packet(Header(mode, a, b, c, d), payload) = decoded;
    assert_eq!((mode, a, b, c, d), (0x8001, 1, 2, 3, 0xFFFF));
    assert_eq!(payload, vec![9, 8, 7]);
}

#[test]
fn packet_round_trip_empty_payload() {
    let packet = Packet(Header(0xABCD, 0, 0xFFFF, 42, 0), Vec::new());
    let bytes = packet.to_bytes();
    assert_eq!(bytes.len(), 10);

    let decoded = Packet::from_bytes(&bytes).unwrap_or_else(|_| panic!("decode failed"));
    let Packet(Header(mode, a, b, c, d), payload) = decoded;
    assert_eq!((mode, a, b, c, d), (0xABCD, 0, 0xFFFF, 42, 0));
    assert!(payload.is_empty());
}

#[test]
fn packet_decode_rejects_short_buffer() {
    let result = Packet::from_bytes(&[0u8; 9]);
    assert!(matches!(result, Err(DecodeError::BufferTooShort)));

    let result = Packet::from_bytes(&[]);
    assert!(matches!(result, Err(DecodeError::BufferTooShort)));

    assert!(Packet::from_bytes(&[0u8; 10]).is_ok());
}

#[test]
fn u16_from_be_slice_reads_big_endian() {
    assert_eq!(u16_from_be_slice(&[0x12, 0x34]), 0x1234);
    assert_eq!(u16_from_be_slice(&[0x00, 0x01, 0xFF]), 0x0001);
    assert_eq!(u16_from_be_slice(&[0xFF, 0xFF]), 0xFFFF);
}

#[test]
fn clear_encodes_to_exact_bytes() {
    let bytes = Command::Clear.to_packet().to_bytes();
    assert_eq!(bytes, vec![0x00, 0x02, 0, 0, 0, 0, 0, 0, 0, 0]);
}

#[test]
fn hard_reset_encodes_to_exact_bytes() {
    let bytes = Command::HardReset.to_packet().to_bytes();
    assert_eq!(bytes, vec![0x00, 0x0b, 0, 0, 0, 0, 0, 0, 0, 0]);
}

#[test]
fn fade_out_encodes_to_exact_bytes() {
    let bytes = Command::FadeOut.to_packet().to_bytes();
    assert_eq!(bytes, vec![0x00, 0x0d, 0, 0, 0, 0, 0, 0, 0, 0]);
}

#[test]
fn brightness_encodes_to_exact_bytes() {
    let bytes = Command::Brightness(200).to_packet().to_bytes();
    assert_eq!(bytes, vec![0x00, 0x07, 0, 0, 0, 0, 0, 0, 0, 0, 0xC8]);
}

#[test]
fn char_brightness_encodes_window_and_values() {
    let window = Window(Origin(2, 3), Size(2, 2));
    let values = vec![10, 20, 30, 40];
    let bytes = Command::CharBrightness(window, values).to_packet().to_bytes();
    assert_eq!(
        bytes,
        vec![0x00, 0x05, 0x00, 0x02, 0x00, 0x03, 0x00, 0x02, 0x00, 0x02, 10, 20, 30, 40]
    );
}

#[test]
fn bitmap_linear_uncompressed_encodes_to_exact_bytes() {
    let bits = BitVec::from_bytes(&[0xAB, 0xCD]);
    let command = Command::BitmapLinear(0, bits, CompressionCode::Uncompressed);
    let bytes = command.to_packet().to_bytes();
    assert_eq!(
        bytes,
        vec![0x00, 0x12, 0x00, 0x00, 0x00, 0x02, 0x00, 0x00, 0x00, 0x00, 0xAB, 0xCD]
    );
}

#[test]
fn bitmap_linear_variants_use_distinct_command_codes() {
    let codes: Vec<(fn(u16, BitVec, CompressionCode) -> Command, u16)> = vec![
        (Command::BitmapLinear, 0x0012),
        (Command::BitmapLinearAnd, 0x0014),
        (Command::BitmapLinearOr, 0x0015),
        (Command::BitmapLinearXor, 0x0016),
    ];
    for (make, expected_mode) in codes {
        let bits = BitVec::from_bytes(&[0x0F]);
        let command = make(7, bits, CompressionCode::Uncompressed);
        let Packet(Header(mode, offset, length, compression, zero), payload) = command.to_packet();
        assert_eq!(mode, expected_mode);
        assert_eq!(offset, 7);
        assert_eq!(length, 1);
        assert_eq!(compression, 0x0000);
        assert_eq!(zero, 0);
        assert_eq!(payload, vec![0x0F]);
    }
}

#[test]
fn bitmap_linear_zlib_payload_inflates_back() {
    let raw: Vec<u8> = (0u16..512).map(|i| (i % 251) as u8).collect();
    let bits = BitVec::from_bytes(&raw);
    let command = Command::BitmapLinear(0, bits, CompressionCode::Zlib);
    let Packet(Header(mode, offset, length, compression, zero), payload) = command.to_packet();

    assert_eq!(mode, 0x0012);
    assert_eq!(offset, 0);
    assert_eq!(length, 512);
    assert_eq!(compression, 0x677a);
    assert_eq!(zero, 0);
    assert_ne!(payload, raw);

    let inflated = miniz_oxide::inflate::decompress_to_vec_zlib(&payload)
        .unwrap_or_else(|_| panic!("payload is not a zlib stream"));
    assert_eq!(inflated, raw);
}

#[test]
fn bitmap_linear_win_uncompressed_encodes_grid_bytes() {
    let mut pixels = PixelGrid::new(8, 2);
    pixels.set(5, 0, true);
    pixels.set(1, 1, true);

    let window = Window(Origin(0, 0), Size(8, 2));
    let command = Command::BitmapLinearWin(window, pixels, CompressionCode::Uncompressed);
    let bytes = command.to_packet().to_bytes();
    assert_eq!(
        bytes,
        vec![0x00, 0x13, 0x00, 0x00, 0x00, 0x00, 0x00, 0x08, 0x00, 0x02, 0x04, 0x40]
    );
}

#[test]
fn bitmap_linear_win_zlib_uses_compressed_mode() {
    let mut pixels = PixelGrid::new(64, 8);
    pixels.fill(true);
    let raw: Vec<u8> = vec![0xFF; 64];

    let window = Window(Origin(4, 2), Size(64, 8));
    let command = Command::BitmapLinearWin(window, pixels, CompressionCode::Zlib);
    let Packet(Header(mode, x, y, w, h), payload) = command.to_packet();

    assert_eq!(mode, 0x0017);
    assert_eq!((x, y, w, h), (4, 2, 64, 8));
    assert_ne!(payload, raw);

    let inflated = miniz_oxide::inflate::decompress_to_vec_zlib(&payload)
        .unwrap_or_else(|_| panic!("payload is not a zlib stream"));
    assert_eq!(inflated, raw);
}

#[test]
fn is_encodable_accepts_all_plain_commands() {
    assert!(Command::Clear.is_encodable());
    assert!(Command::Brightness(1).is_encodable());
    let bits = BitVec::from_bytes(&[0u8; 16]);
    assert!(Command::BitmapLinearXor(0, bits, CompressionCode::Uncompressed).is_encodable());
}

#[test]
fn compression_default_is_uncompressed() {
    let code: CompressionCode = Default::default();
    assert_eq!(code, CompressionCode::Uncompressed);
    let bits = BitVec::from_bytes(&[0xAA]);
    let command = Command::BitmapLinear(0, bits, code);
    let Packet(Header(_, _, _, compression, _), payload) = command.to_packet();
    assert_eq!(compression, 0x0000);
    assert_eq!(payload, vec![0xAA]);
}

#[test]
fn bit_vec_get_set_and_fill() {
    let mut bits = BitVec::new(16);
    assert_eq!(bits.len(), 16);
    assert!(!bits.get(0));

    assert!(!bits.set(3, true));
    assert!(bits.get(3));
    assert!(bits.set(3, false));
    assert!(!bits.get(3));

    bits.fill(true);
    for i in 0..16 {
        assert!(bits.get(i));
    }

    let data = bits.into_data();
    assert_eq!(data, vec![0xFF, 0xFF]);
}

#[test]
fn bit_vec_tracks_partial_tail_byte() {
    let mut bits = BitVec::new(12);
    assert_eq!(bits.len(), 12);
    bits.set(11, true);
    assert!(bits.get(11));
    assert!(!bits.get(10));
    let data = bits.into_data();
    assert_eq!(data.len(), 2);
    assert_eq!(data, vec![0x00, 0x10]);
}
