//! JPEG decoding: a still image yields exactly one zero-delay frame, and
//! playback never advances past it.

use slark::format::ImageFormat;
use slark::formats::jpeg::frame_from_rgb;
use slark::frame::Frame;
use slark::producer::{decode_stream, DecodeStatus};
use slark::view::PlaybackView;

/// A minimal baseline JPEG of the given size: one flat DC-only block per
/// component, quantizer all ones, one-bit Huffman codes. Every pixel
/// decodes to mid gray.
fn flat_jpeg(width: u16, height: u16) -> Vec<u8> {
    let mut b: Vec<u8> = Vec::new();
    // start of image
    b.extend_from_slice(&[0xFF, 0xD8]);
    // quantization table 0, all ones
    b.extend_from_slice(&[0xFF, 0xDB, 0x00, 0x43, 0x00]);
    b.extend_from_slice(&[1u8; 64]);
    // baseline frame header: 8-bit precision, three components, no
    // subsampling, all using table 0
    b.extend_from_slice(&[0xFF, 0xC0, 0x00, 0x11, 0x08]);
    b.extend_from_slice(&height.to_be_bytes());
    b.extend_from_slice(&width.to_be_bytes());
    b.extend_from_slice(&[0x03, 0x01, 0x11, 0x00, 0x02, 0x11, 0x00, 0x03, 0x11, 0x00]);
    // DC Huffman table 0: a single one-bit code for category zero
    b.extend_from_slice(&[0xFF, 0xC4, 0x00, 0x14, 0x00, 0x01]);
    b.extend_from_slice(&[0u8; 15]);
    b.push(0x00);
    // AC Huffman table 0: a single one-bit code for end-of-block
    b.extend_from_slice(&[0xFF, 0xC4, 0x00, 0x14, 0x10, 0x01]);
    b.extend_from_slice(&[0u8; 15]);
    b.push(0x00);
    // start of scan: all three components, tables 0/0
    b.extend_from_slice(&[
        0xFF, 0xDA, 0x00, 0x0C, 0x03, 0x01, 0x00, 0x02, 0x00, 0x03, 0x00, 0x00, 0x3F, 0x00,
    ]);
    // entropy data: per MCU and component, a zero DC category and an
    // end-of-block, each a single 0 bit
    let mcus_x = (width as usize + 7) / 8;
    let mcus_y = (height as usize + 7) / 8;
    let bits = mcus_x * mcus_y * 3 * 2;
    let mut bytes = bits / 8;
    if bits % 8 != 0 {
        bytes += 1;
    }
    for _ in 0..bytes {
        b.push(0x00);
    }
    // end of image
    b.extend_from_slice(&[0xFF, 0xD9]);
    b
}

#[test]
fn jpeg_decodes_to_one_zero_delay_frame() {
    let bytes = flat_jpeg(10, 10);
    let (tx, rx) = std::sync::mpsc::channel::<Frame>();
    let (status, _) = decode_stream(ImageFormat::Jpeg, &bytes, &tx);
    drop(tx);
    assert_eq!(status, DecodeStatus::Completed);
    let frames: Vec<Frame> = rx.iter().collect();
    assert_eq!(frames.len(), 1);
    assert_eq!(frames[0].width, 10);
    assert_eq!(frames[0].height, 10);
    assert_eq!(frames[0].delay_ns, 0);
    assert_eq!(frames[0].pixels.len(), 100);
    // a flat DC-only scan decodes to one uniform gray
    let first = frames[0].pixels[0];
    assert_eq!(first.a, 255);
    assert!(frames[0].pixels.iter().all(|p| *p == first));
}

#[test]
fn playback_of_a_jpeg_never_leaves_frame_zero() {
    let bytes = flat_jpeg(10, 10);
    let (tx, rx) = std::sync::mpsc::channel::<Frame>();
    assert_eq!(decode_stream(ImageFormat::Jpeg, &bytes, &tx).0, DecodeStatus::Completed);
    drop(tx);
    let mut view = PlaybackView::new_streaming(rx);
    for _ in 0..5 {
        view.tick(250_000_000);
        assert_eq!(view.current_frame_index(), 0);
    }
    assert_eq!(view.frame_count(), 1);
    assert!(view.is_exhausted());
}

#[test]
fn grayscale_jpeg_is_reported_unsupported_not_guessed() {
    // The same flat scan with a single component decodes to a grayscale
    // raster, which the viewer does not handle: no frame is delivered.
    let mut b: Vec<u8> = Vec::new();
    b.extend_from_slice(&[0xFF, 0xD8]);
    b.extend_from_slice(&[0xFF, 0xDB, 0x00, 0x43, 0x00]);
    b.extend_from_slice(&[1u8; 64]);
    b.extend_from_slice(&[0xFF, 0xC0, 0x00, 0x0B, 0x08, 0x00, 0x08, 0x00, 0x08, 0x01, 0x01, 0x11,
        0x00]);
    b.extend_from_slice(&[0xFF, 0xC4, 0x00, 0x14, 0x00, 0x01]);
    b.extend_from_slice(&[0u8; 15]);
    b.push(0x00);
    b.extend_from_slice(&[0xFF, 0xC4, 0x00, 0x14, 0x10, 0x01]);
    b.extend_from_slice(&[0u8; 15]);
    b.push(0x00);
    b.extend_from_slice(&[0xFF, 0xDA, 0x00, 0x08, 0x01, 0x01, 0x00, 0x00, 0x3F, 0x00]);
    b.push(0x00);
    b.extend_from_slice(&[0xFF, 0xD9]);
    let (tx, rx) = std::sync::mpsc::channel::<Frame>();
    assert_eq!(decode_stream(ImageFormat::Jpeg, &b, &tx).0, DecodeStatus::Unsupported);
    drop(tx);
    assert_eq!(rx.iter().count(), 0);
}

#[test]
fn corrupt_jpeg_yields_no_frames() {
    let bytes = vec![0xFFu8, 0xD8, 0x00, 0x01];
    let (tx, rx) = std::sync::mpsc::channel::<Frame>();
    assert_eq!(decode_stream(ImageFormat::Jpeg, &bytes, &tx).0, DecodeStatus::HeaderFailed);
    drop(tx);
    assert_eq!(rx.iter().count(), 0);
}

#[test]
fn rgb_raster_expands_to_opaque_pixels() {
    // the verified conversion underneath the decoder: three bytes per
    // pixel in, opaque RGBA out, delay pinned to zero
    let data = [1u8, 2, 3, 4, 5, 6];
    let f = frame_from_rgb(2, 1, &data);
    assert_eq!(f.delay_ns, 0);
    assert_eq!(f.pixels.len(), 2);
    assert_eq!(f.pixels[0].r, 1);
    assert_eq!(f.pixels[0].a, 255);
    assert_eq!(f.pixels[1].b, 6);
}
