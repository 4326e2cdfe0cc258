use render_service::readback::bytes_per_row;
use render_service::readback::staging_buffer_size;
use render_service::readback::unpad_rows;
use render_service::readback::ReadbackError;
use render_service::readback::BYTES_PER_PIXEL;

/// A padded buffer whose pixel bytes follow `pattern` and whose padding
/// bytes are all `fill`.
fn padded(width: u32, height: u32, stride: usize, fill: u8, pattern: fn(usize) -> u8) -> Vec<u8> {
    let row_len = width as usize * 4;
    let mut buffer = vec![fill; stride * height as usize];
    for row in 0..height as usize {
        for col in 0..row_len {
            buffer[row * stride + col] = pattern(row * row_len + col);
        }
    }
    buffer
}

fn ramp(i: usize) -> u8 {
    (i % 251) as u8
}

#[test]
fn pixel_is_four_bytes() {
    assert_eq!(BYTES_PER_PIXEL, 4);
}

#[test]
fn stride_rounds_row_up_to_alignment() {
    assert_eq!(bytes_per_row(800, 256), Some(3328));
    assert_eq!(bytes_per_row(1, 256), Some(256));
    assert_eq!(bytes_per_row(65, 256), Some(512));
    assert_eq!(bytes_per_row(3, 16), Some(16));
    assert_eq!(bytes_per_row(5, 16), Some(32));
    assert_eq!(bytes_per_row(5, 1), Some(20));
    assert_eq!(bytes_per_row(5, 7), Some(21));
}

#[test]
fn stride_of_aligned_row_is_the_row() {
    assert_eq!(bytes_per_row(64, 256), Some(256));
    assert_eq!(bytes_per_row(128, 256), Some(512));
    assert_eq!(bytes_per_row(4, 16), Some(16));
}

#[test]
fn stride_of_empty_row_is_zero() {
    assert_eq!(bytes_per_row(0, 256), Some(0));
}

#[test]
fn stride_needs_positive_alignment() {
    assert_eq!(bytes_per_row(800, 0), None);
    assert_eq!(bytes_per_row(0, 0), None);
}

#[test]
fn stride_must_fit_in_32_bits() {
    assert_eq!(bytes_per_row(0x3FFF_FFC0, 256), Some(0xFFFF_FF00));
    assert_eq!(bytes_per_row(0x3FFF_FFC1, 256), None);
    assert_eq!(bytes_per_row(0x3FFF_FFFF, 256), None);
    assert_eq!(bytes_per_row(0x3FFF_FFFF, 1), Some(0xFFFF_FFFC));
    assert_eq!(bytes_per_row(0x4000_0000, 1), None);
    assert_eq!(bytes_per_row(u32::MAX, 256), None);
    assert_eq!(bytes_per_row(1, u32::MAX), Some(u32::MAX));
}

#[test]
fn staging_buffer_holds_whole_padded_rows() {
    assert_eq!(staging_buffer_size(800, 600, 256), Some(1_996_800));
    assert_eq!(staging_buffer_size(3, 2, 16), Some(32));
    assert_eq!(staging_buffer_size(800, 0, 256), Some(0));
    assert_eq!(staging_buffer_size(0, 600, 256), Some(0));
    assert_eq!(
        staging_buffer_size(0x3FFF_FFC0, u32::MAX, 256),
        Some(0xFFFF_FF00u64 * 0xFFFF_FFFFu64)
    );
}

#[test]
fn staging_buffer_needs_a_stride() {
    assert_eq!(staging_buffer_size(800, 600, 0), None);
    assert_eq!(staging_buffer_size(u32::MAX, 1, 256), None);
}

#[test]
fn unpad_drops_the_padding_of_each_row() {
    // 3 pixels wide: 12 bytes of pixels, 4 of padding
    let mut src = Vec::new();
    for row in 0..2u8 {
        for col in 0..12u8 {
            src.push(row * 100 + col);
        }
        src.extend_from_slice(&[0xEE; 4]);
    }
    let packed = unpad_rows(&src, 3, 2, 16).unwrap();
    let mut expected = Vec::new();
    for row in 0..2u8 {
        for col in 0..12u8 {
            expected.push(row * 100 + col);
        }
    }
    assert_eq!(packed.len(), 24);
    assert_eq!(packed, expected);
}

#[test]
fn unpad_reads_each_row_at_its_stride() {
    let src: Vec<u8> = (0..64u8).collect();
    let packed = unpad_rows(&src, 1, 4, 16).unwrap();
    assert_eq!(packed, vec![0, 1, 2, 3, 16, 17, 18, 19, 32, 33, 34, 35, 48, 49, 50, 51]);
}

#[test]
fn unpad_round_trip_at_standard_size() {
    let src = padded(800, 600, 3328, 0xAB, ramp);
    assert_eq!(src.len(), 600 * 3328);
    let packed = unpad_rows(&src, 800, 600, 256).unwrap();
    assert_eq!(packed.len(), 800 * 600 * 4);
    for (i, byte) in packed.iter().enumerate() {
        assert_eq!(*byte, ramp(i), "byte {}", i);
    }
}

#[test]
fn unpad_round_trip_ignores_what_the_padding_holds() {
    let zeros = padded(5, 7, 32, 0x00, ramp);
    let ones = padded(5, 7, 32, 0xFF, ramp);
    assert_ne!(zeros, ones);
    let from_zeros = unpad_rows(&zeros, 5, 7, 16).unwrap();
    let from_ones = unpad_rows(&ones, 5, 7, 16).unwrap();
    assert_eq!(from_zeros, from_ones);
    assert_eq!(from_zeros, (0..140).map(ramp).collect::<Vec<u8>>());
}

#[test]
fn unpad_of_unpadded_rows_is_the_identity() {
    let src: Vec<u8> = (0..=255u8).collect();
    assert_eq!(unpad_rows(&src, 64, 1, 256).unwrap(), src);
    assert_eq!(unpad_rows(&src, 4, 16, 16).unwrap(), src);
    assert_eq!(unpad_rows(&src, 4, 16, 1).unwrap(), src);
}

#[test]
fn unpad_needs_no_padding_after_the_last_row() {
    let whole = padded(3, 2, 16, 0xEE, ramp);
    assert_eq!(whole.len(), 32);
    let exact = &whole[..28];
    assert_eq!(unpad_rows(exact, 3, 2, 16).unwrap(), (0..24).map(ramp).collect::<Vec<u8>>());
}

#[test]
fn unpad_ignores_bytes_after_the_last_row() {
    let mut src = padded(3, 2, 16, 0xEE, ramp);
    src.extend_from_slice(&[9; 100]);
    assert_eq!(unpad_rows(&src, 3, 2, 16).unwrap(), (0..24).map(ramp).collect::<Vec<u8>>());
}

#[test]
fn unpad_rejects_a_short_buffer() {
    let whole = padded(3, 2, 16, 0xEE, ramp);
    assert_eq!(unpad_rows(&whole[..27], 3, 2, 16), Err(ReadbackError::BufferTooShort));
    assert_eq!(unpad_rows(&whole[..16], 3, 2, 16), Err(ReadbackError::BufferTooShort));
    assert_eq!(unpad_rows(&[], 3, 2, 16), Err(ReadbackError::BufferTooShort));
    assert_eq!(unpad_rows(&[], 1, 1, 1), Err(ReadbackError::BufferTooShort));
}

#[test]
fn unpad_rejects_zero_alignment() {
    let src = vec![0u8; 64];
    assert_eq!(unpad_rows(&src, 3, 2, 0), Err(ReadbackError::ZeroAlignment));
    assert_eq!(unpad_rows(&[], 0, 0, 0), Err(ReadbackError::ZeroAlignment));
}

#[test]
fn unpad_of_no_rows_is_empty() {
    assert_eq!(unpad_rows(&[], 800, 0, 256), Ok(Vec::new()));
    assert_eq!(unpad_rows(&[1, 2, 3], 800, 0, 256), Ok(Vec::new()));
}

#[test]
fn unpad_of_empty_rows_is_empty() {
    assert_eq!(unpad_rows(&[], 0, 600, 256), Ok(Vec::new()));
    assert_eq!(unpad_rows(&[1, 2, 3], 0, 600, 256), Ok(Vec::new()));
}

#[test]
fn unpad_rejects_sizes_beyond_any_buffer() {
    let src = vec![0u8; 1024];
    assert_eq!(
        unpad_rows(&src, u32::MAX, u32::MAX, u32::MAX),
        Err(ReadbackError::BufferTooShort)
    );
    assert_eq!(unpad_rows(&src, 1, u32::MAX, 256), Err(ReadbackError::BufferTooShort));
}

#[test]
fn unpad_single_row_may_be_shorter_than_the_stride() {
    // one row of one pixel: the stride of 256 is never reached
    assert_eq!(unpad_rows(&[7, 8, 9, 10], 1, 1, 256), Ok(vec![7, 8, 9, 10]));
    assert_eq!(unpad_rows(&[7, 8, 9], 1, 1, 256), Err(ReadbackError::BufferTooShort));
}
