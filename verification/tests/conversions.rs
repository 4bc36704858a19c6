//! Pixel conversions, delay arithmetic, format dispatch, the zoom knobs
//! and the frame-time statistics.

use slark::format::{from_extension, from_filename, ImageFormat};
use slark::pixel::{pixels_from_bgra, pixels_from_rgb_keyed, pixels_from_rgba, Rgba};
use slark::stats::Stats;
use slark::timing::{gif_delay_ns, png_delay_ns, webp_delay_ns};
use slark::zoom::Zoom;

#[test]
fn transparency_key_clears_exactly_matching_pixels() {
    // Two RGB pixels: the first matches the declared transparent color
    // and decodes fully clear, the second differs in one channel and
    // decodes fully opaque.
    let data = [10u8, 20, 30, 10, 20, 31];
    let px = pixels_from_rgb_keyed(&data, Some((10, 20, 30)));
    assert_eq!(px.len(), 2);
    assert_eq!(px[0], Rgba { r: 10, g: 20, b: 30, a: 0 });
    assert_eq!(px[1], Rgba { r: 10, g: 20, b: 31, a: 255 });
}

#[test]
fn no_key_means_every_pixel_is_opaque() {
    let data = [1u8, 2, 3, 4, 5, 6];
    let px = pixels_from_rgb_keyed(&data, None);
    assert_eq!(px[0].a, 255);
    assert_eq!(px[1].a, 255);
}

#[test]
fn reversed_channel_order_decodes_to_the_same_pixels() {
    // The same two pixels, once as RGBA bytes and once as BGRA bytes,
    // come out identical.
    let rgba = [1u8, 2, 3, 4, 50, 60, 70, 80];
    let bgra = [3u8, 2, 1, 4, 70, 60, 50, 80];
    let a = pixels_from_rgba(&rgba);
    let b = pixels_from_bgra(&bgra);
    assert_eq!(a.len(), 2);
    assert_eq!(a[0], b[0]);
    assert_eq!(a[1], b[1]);
    assert_eq!(a[0], Rgba { r: 1, g: 2, b: 3, a: 4 });
}

#[test]
fn trailing_bytes_are_dropped() {
    let px = pixels_from_rgba(&[9u8, 9, 9, 9, 1, 2]);
    assert_eq!(px.len(), 1);
    let px3 = pixels_from_rgb_keyed(&[5u8, 6, 7, 8], None);
    assert_eq!(px3.len(), 1);
}

#[test]
fn gif_delay_is_hundredths_of_a_second() {
    assert_eq!(gif_delay_ns(0), 0);
    assert_eq!(gif_delay_ns(7), 70_000_000);
    assert_eq!(gif_delay_ns(65535), 655_350_000_000);
}

#[test]
fn png_delay_is_the_declared_fraction_of_a_second() {
    assert_eq!(png_delay_ns(1, 10), 100_000_000);
    // a zero denominator stands for one hundred
    assert_eq!(png_delay_ns(1, 0), 10_000_000);
    // floor rounding: one third of a second in whole nanoseconds
    assert_eq!(png_delay_ns(1, 3), 333_333_333);
    assert_eq!(png_delay_ns(0, 5), 0);
}

#[test]
fn webp_delay_is_the_timestamp_gap() {
    assert_eq!(webp_delay_ns(40, 0), 40_000_000);
    assert_eq!(webp_delay_ns(100, 40), 60_000_000);
    // a regressing timestamp counts as no time
    assert_eq!(webp_delay_ns(10, 25), 0);
}

#[test]
fn extension_dispatch_is_case_sensitive_and_exact() {
    assert_eq!(from_extension("gif"), Some(ImageFormat::Gif));
    assert_eq!(from_extension("webp"), Some(ImageFormat::Webp));
    assert_eq!(from_extension("jpg"), Some(ImageFormat::Jpeg));
    assert_eq!(from_extension("jpeg"), Some(ImageFormat::Jpeg));
    assert_eq!(from_extension("png"), Some(ImageFormat::Png));
    assert_eq!(from_extension("GIF"), None);
    assert_eq!(from_extension("gifs"), None);
    assert_eq!(from_extension(""), None);
    assert_eq!(from_extension("bmp"), None);
}

#[test]
fn filename_dispatch_takes_the_last_extension() {
    assert_eq!(from_filename("cat.gif"), Some(ImageFormat::Gif));
    assert_eq!(from_filename("archive.tar.png"), Some(ImageFormat::Png));
    assert_eq!(from_filename("noext"), None);
    // a leading dot marks a hidden file, not an extension
    assert_eq!(from_filename(".gif"), None);
    assert_eq!(from_filename("trailing."), None);
    assert_eq!(from_filename("a.jpeg"), Some(ImageFormat::Jpeg));
}

#[test]
fn zoom_knob_sticks_only_when_the_scale_changes() {
    let mut z = Zoom::new();
    z.turn_the_knob(3);
    assert_eq!(z.knob(), 3);
    z.turn_the_knob(-28);
    assert_eq!(z.knob(), -25);
    // both positions sit in the floored region: the turn is reverted
    z.turn_the_knob(-1);
    assert_eq!(z.knob(), -25);
    // zooming back out of the floor works
    z.turn_the_knob(5);
    assert_eq!(z.knob(), -20);
    // a zero turn never sticks
    z.turn_the_knob(0);
    assert_eq!(z.knob(), -20);
}

#[test]
fn global_knob_always_sticks() {
    let mut z = Zoom::new();
    z.turn_the_global_knob(-4);
    assert_eq!(z.extra(), -4);
    z.turn_the_global_knob(9);
    assert_eq!(z.extra(), 5);
    assert_eq!(z.knob(), 0);
}

#[test]
fn zoom_equality_ignores_the_global_knob() {
    let mut a = Zoom::new();
    let mut b = Zoom::new();
    a.turn_the_global_knob(7);
    assert!(a == b);
    b.turn_the_knob(1);
    assert!(a != b);
    let c = Zoom::default();
    assert_eq!(c.knob(), 0);
    assert_eq!(c.extra(), 0);
}

#[test]
fn average_fps_inverts_the_mean_interval() {
    let mut s = Stats::new();
    assert_eq!(s.average_fps(), 0);
    // two frames of 20 ms and 30 ms: the mean interval is 25 ms, i.e. 40
    // frames per second
    s.add_frame_time(20_000_000);
    s.add_frame_time(30_000_000);
    assert_eq!(s.average_fps(), 40);
}

#[test]
fn filled_ring_averages_over_every_slot() {
    // Fill the whole ring with 10 ms intervals, wrapping the index; the
    // average then covers all slots, and one slower frame barely moves it.
    let mut s = Stats::new();
    for _ in 0..360 {
        s.add_frame_time(10_000_000);
    }
    assert_eq!(s.average_fps(), 100);
    s.add_frame_time(370_000_000);
    // one 370 ms outlier among 359 frames of 10 ms: the mean interval
    // becomes 11 ms
    assert_eq!(s.average_fps(), 1_000_000_000 / 11_000_000);
}

#[test]
fn average_fps_with_a_zero_interval_only_reads_zero() {
    let mut s = Stats::new();
    s.add_frame_time(0);
    assert_eq!(s.average_fps(), 0);
}
