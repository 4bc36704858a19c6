//! PNG transparency-key handling and WebP channel normalization, each
//! through a real encode-and-decode round trip, plus the per-frame delay
//! arithmetic both formats declare.

use slark::format::ImageFormat;
use slark::formats::webp::{frame_from_webp, WebpOrder, WebpRaw};
use slark::frame::Frame;
use slark::pixel::Rgba;
use slark::producer::{decode_stream, DecodeStatus};

#[test]
fn png_transparency_key_sets_alpha_for_matching_pixels_only() {
    // A 2x1 eight-bit RGB PNG whose transparency chunk declares
    // (10, 20, 30): the matching pixel decodes fully clear, the other
    // fully opaque.
    let mut bytes: Vec<u8> = Vec::new();
    {
        let mut encoder = png::Encoder::new(&mut bytes, 2, 1);
        encoder.set_color(png::ColorType::Rgb);
        encoder.set_depth(png::BitDepth::Eight);
        // three big-endian sixteen-bit samples, low bytes 10, 20, 30
        encoder.set_trns(vec![0u8, 10, 0, 20, 0, 30]);
        let mut writer = encoder.write_header().unwrap();
        writer.write_image_data(&[10, 20, 30, 10, 20, 31]).unwrap();
        writer.finish().unwrap();
    }
    let (tx, rx) = std::sync::mpsc::channel::<Frame>();
    let (status, _) = decode_stream(ImageFormat::Png, &bytes, &tx);
    drop(tx);
    assert_eq!(status, DecodeStatus::Completed);
    let frames: Vec<Frame> = rx.iter().collect();
    assert_eq!(frames.len(), 1);
    let f = &frames[0];
    assert_eq!(f.width, 2);
    assert_eq!(f.height, 1);
    assert_eq!(f.pixel_at(0, 0), Rgba { r: 10, g: 20, b: 30, a: 0 });
    assert_eq!(f.pixel_at(1, 0), Rgba { r: 10, g: 20, b: 31, a: 255 });
    assert_eq!(f.delay_ns, 0);
}

#[test]
fn png_without_key_decodes_opaque() {
    let mut bytes: Vec<u8> = Vec::new();
    {
        let mut encoder = png::Encoder::new(&mut bytes, 1, 1);
        encoder.set_color(png::ColorType::Rgb);
        encoder.set_depth(png::BitDepth::Eight);
        let mut writer = encoder.write_header().unwrap();
        writer.write_image_data(&[7, 8, 9]).unwrap();
        writer.finish().unwrap();
    }
    let (tx, rx) = std::sync::mpsc::channel::<Frame>();
    assert_eq!(decode_stream(ImageFormat::Png, &bytes, &tx).0, DecodeStatus::Completed);
    drop(tx);
    let frames: Vec<Frame> = rx.iter().collect();
    assert_eq!(frames.len(), 1);
    assert_eq!(frames[0].pixel_at(0, 0), Rgba { r: 7, g: 8, b: 9, a: 255 });
}

#[test]
fn png_rgba_frames_keep_their_own_alpha() {
    let mut bytes: Vec<u8> = Vec::new();
    {
        let mut encoder = png::Encoder::new(&mut bytes, 2, 1);
        encoder.set_color(png::ColorType::Rgba);
        encoder.set_depth(png::BitDepth::Eight);
        let mut writer = encoder.write_header().unwrap();
        writer.write_image_data(&[1, 2, 3, 4, 5, 6, 7, 8]).unwrap();
        writer.finish().unwrap();
    }
    let (tx, rx) = std::sync::mpsc::channel::<Frame>();
    assert_eq!(decode_stream(ImageFormat::Png, &bytes, &tx).0, DecodeStatus::Completed);
    drop(tx);
    let frames: Vec<Frame> = rx.iter().collect();
    assert_eq!(frames.len(), 1);
    assert_eq!(frames[0].pixel_at(0, 0), Rgba { r: 1, g: 2, b: 3, a: 4 });
    assert_eq!(frames[0].pixel_at(1, 0), Rgba { r: 5, g: 6, b: 7, a: 8 });
}

#[test]
fn apng_frame_delays_are_the_declared_fractions() {
    // A two-frame animated PNG: one tenth of a second, then one third,
    // floor-rounded to whole nanoseconds.
    let mut bytes: Vec<u8> = Vec::new();
    {
        let mut encoder = png::Encoder::new(&mut bytes, 1, 1);
        encoder.set_color(png::ColorType::Rgb);
        encoder.set_depth(png::BitDepth::Eight);
        encoder.set_animated(2, 0).unwrap();
        encoder.set_frame_delay(1, 10).unwrap();
        let mut writer = encoder.write_header().unwrap();
        writer.write_image_data(&[1, 1, 1]).unwrap();
        writer.set_frame_delay(1, 3).unwrap();
        writer.write_image_data(&[2, 2, 2]).unwrap();
        writer.finish().unwrap();
    }
    let (tx, rx) = std::sync::mpsc::channel::<Frame>();
    assert_eq!(decode_stream(ImageFormat::Png, &bytes, &tx).0, DecodeStatus::Completed);
    drop(tx);
    let frames: Vec<Frame> = rx.iter().collect();
    assert_eq!(frames.len(), 2);
    assert_eq!(frames[0].delay_ns, 100_000_000);
    assert_eq!(frames[1].delay_ns, 333_333_333);
    assert_eq!(frames[0].pixel_at(0, 0).r, 1);
    assert_eq!(frames[1].pixel_at(0, 0).r, 2);
}

#[test]
fn corrupt_png_header_yields_no_frames() {
    let bytes = vec![9u8; 16];
    let (tx, rx) = std::sync::mpsc::channel::<Frame>();
    assert_eq!(decode_stream(ImageFormat::Png, &bytes, &tx).0, DecodeStatus::HeaderFailed);
    drop(tx);
    assert_eq!(rx.iter().count(), 0);
}

#[test]
fn webp_round_trip_preserves_pixels_and_total_duration() {
    // A two-frame 4x4 animation with frame starts at 0 ms and 40 ms and
    // an overall duration of 100 ms: the decoded delays telescope to the
    // nominal total duration.
    let mut red = Vec::new();
    let mut blue = Vec::new();
    for _ in 0..16 {
        red.extend_from_slice(&[255, 0, 0, 255]);
        blue.extend_from_slice(&[0, 0, 255, 255]);
    }
    let mut encoder = webp_animation::Encoder::new((4, 4)).unwrap();
    encoder.add_frame(&red, 0).unwrap();
    encoder.add_frame(&blue, 40).unwrap();
    let data = encoder.finalize(100).unwrap();
    let bytes: Vec<u8> = data.to_vec();
    let (tx, rx) = std::sync::mpsc::channel::<Frame>();
    let (status, _) = decode_stream(ImageFormat::Webp, &bytes, &tx);
    drop(tx);
    assert_eq!(status, DecodeStatus::Completed);
    let frames: Vec<Frame> = rx.iter().collect();
    assert_eq!(frames.len(), 2);
    assert_eq!(frames[0].width, 4);
    assert_eq!(frames[0].height, 4);
    assert_eq!(frames[0].pixel_at(0, 0), Rgba { r: 255, g: 0, b: 0, a: 255 });
    assert_eq!(frames[1].pixel_at(3, 3), Rgba { r: 0, g: 0, b: 255, a: 255 });
    let total: i64 = frames.iter().map(|f| f.delay_ns).sum();
    assert_eq!(total, 100_000_000);
    assert!(frames.iter().all(|f| f.delay_ns >= 0));
}

#[test]
fn corrupt_webp_header_yields_no_frames() {
    let bytes = vec![0u8, 1, 2, 3];
    let (tx, rx) = std::sync::mpsc::channel::<Frame>();
    assert_eq!(decode_stream(ImageFormat::Webp, &bytes, &tx).0, DecodeStatus::HeaderFailed);
    drop(tx);
    assert_eq!(rx.iter().count(), 0);
}

#[test]
fn webp_channel_orders_decode_to_identical_pixels() {
    // The same frame tagged once as RGBA and once as BGRA (with the red
    // and blue bytes swapped) normalizes to identical output.
    let rgba_frame = frame_from_webp(
        WebpRaw {
            timestamp_ms: 25,
            width: 1,
            height: 2,
            order: WebpOrder::Rgba,
            data: vec![1, 2, 3, 4, 50, 60, 70, 80],
        },
        0,
    )
    .unwrap();
    let bgra_frame = frame_from_webp(
        WebpRaw {
            timestamp_ms: 25,
            width: 1,
            height: 2,
            order: WebpOrder::Bgra,
            data: vec![3, 2, 1, 4, 70, 60, 50, 80],
        },
        0,
    )
    .unwrap();
    assert_eq!(rgba_frame.pixels, bgra_frame.pixels);
    assert_eq!(rgba_frame.delay_ns, bgra_frame.delay_ns);
    assert_eq!(rgba_frame.delay_ns, 25_000_000);
    assert_eq!(rgba_frame.pixels[0], Rgba { r: 1, g: 2, b: 3, a: 4 });
}
