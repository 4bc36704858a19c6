//! Clock-driven playback: cache growth, frame advancement, the carried
//! deficit, and the zero-delay guard.

use slark::frame::Frame;
use slark::pixel::Rgba;
use slark::view::PlaybackView;

fn frame(w: usize, h: usize, delay_ns: i64, shade: u8) -> Frame {
    Frame {
        width: w,
        height: h,
        pixels: vec![Rgba { r: shade, g: shade, b: shade, a: 255 }; w * h],
        delay_ns,
    }
}

#[test]
fn tick_carries_deficit_into_next_frame() {
    // Three frames of 100 ms, 50 ms and 200 ms; a fresh view ticked by
    // 120 ms consumes frame 0's full delay, carries a 20 ms deficit into
    // frame 1, and lands there with 30 ms left on the clock.
    let (tx, rx) = std::sync::mpsc::channel();
    tx.send(frame(2, 2, 100_000_000, 1)).unwrap();
    tx.send(frame(2, 2, 50_000_000, 2)).unwrap();
    tx.send(frame(2, 2, 200_000_000, 3)).unwrap();
    let mut v = PlaybackView::new_streaming(rx);
    assert_eq!(v.current_image_size(), None);
    v.tick(120_000_000);
    assert_eq!(v.current_frame_index(), 1);
    assert_eq!(v.accumulated_delay_ns(), 30_000_000);
    assert_eq!(v.frame_count(), 2);
    assert!(!v.is_exhausted());
    assert_eq!(v.current_image_size(), Some((2, 2)));
    drop(tx);
}

#[test]
fn still_image_never_advances_past_first_frame() {
    // A single zero-delay frame, then the producer finishes: however much
    // time passes, the current index stays at the only frame.
    let (tx, rx) = std::sync::mpsc::channel();
    tx.send(frame(10, 10, 0, 7)).unwrap();
    drop(tx);
    let mut v = PlaybackView::new_streaming(rx);
    v.tick(1_000_000_000);
    assert_eq!(v.current_frame_index(), 0);
    assert_eq!(v.frame_count(), 1);
    assert!(v.is_exhausted());
    v.tick(3_600_000_000_000);
    assert_eq!(v.current_frame_index(), 0);
    v.tick(1);
    assert_eq!(v.current_frame_index(), 0);
    let f = v.current().expect("one frame is cached");
    assert_eq!(f.width, 10);
    assert_eq!(f.height, 10);
    assert_eq!(f.delay_ns, 0);
}

#[test]
fn zero_delay_animation_terminates_with_valid_index() {
    // An animation made only of zero-delay frames: a tick walks once
    // around the cache, stops on the frame it started from, and leaves a
    // valid index.
    let (tx, rx) = std::sync::mpsc::channel();
    for shade in 0..3u8 {
        tx.send(frame(1, 1, 0, shade)).unwrap();
    }
    drop(tx);
    let mut v = PlaybackView::new_streaming(rx);
    v.tick(5);
    assert_eq!(v.current_frame_index(), 0);
    assert_eq!(v.frame_count(), 3);
    assert!(v.is_exhausted());
    v.tick(7);
    assert_eq!(v.current_frame_index(), 0);
    assert!(v.current_frame_index() < v.frame_count());
}

#[test]
fn split_ticks_match_one_combined_tick() {
    // Ticking by 25 ms then 17 ms reaches the same state as one 42 ms
    // tick (the zero-delay guard fires in neither run).
    let make = || {
        let (tx, rx) = std::sync::mpsc::channel();
        tx.send(frame(1, 1, 10_000_000, 1)).unwrap();
        tx.send(frame(1, 1, 20_000_000, 2)).unwrap();
        tx.send(frame(1, 1, 30_000_000, 3)).unwrap();
        drop(tx);
        PlaybackView::new_streaming(rx)
    };
    let mut split = make();
    split.tick(25_000_000);
    split.tick(17_000_000);
    let mut combined = make();
    combined.tick(42_000_000);
    assert_eq!(split.current_frame_index(), combined.current_frame_index());
    assert_eq!(split.accumulated_delay_ns(), combined.accumulated_delay_ns());
    assert_eq!(split.frame_count(), combined.frame_count());
}

#[test]
fn non_positive_elapsed_means_no_time_passed() {
    let (tx, rx) = std::sync::mpsc::channel();
    tx.send(frame(1, 1, 10_000_000, 1)).unwrap();
    drop(tx);
    let mut v = PlaybackView::new_streaming(rx);
    v.tick(0);
    assert_eq!(v.frame_count(), 0);
    assert_eq!(v.accumulated_delay_ns(), 0);
    v.tick(-5_000_000);
    assert_eq!(v.frame_count(), 0);
    assert_eq!(v.current_frame_index(), 0);
}

#[test]
fn empty_view_is_inert() {
    // An unsupported or unreadable file yields a view with zero frames:
    // painting and ticking are no-ops, nothing panics.
    let mut v = PlaybackView::new_empty();
    assert!(v.is_exhausted());
    assert_eq!(v.current_image_size(), None);
    assert!(v.current().is_none());
    v.tick(1_000_000);
    assert_eq!(v.current_frame_index(), 0);
    assert_eq!(v.frame_count(), 0);
}

#[test]
fn current_pulls_first_frame_into_empty_cache() {
    let (tx, rx) = std::sync::mpsc::channel();
    tx.send(frame(3, 2, 40_000_000, 9)).unwrap();
    let mut v = PlaybackView::new_streaming(rx);
    assert_eq!(v.frame_count(), 0);
    {
        let f = v.current().expect("the pull caches one frame");
        assert_eq!(f.pixels[0], Rgba { r: 9, g: 9, b: 9, a: 255 });
    }
    assert_eq!(v.frame_count(), 1);
    assert_eq!(v.current_frame_index(), 0);
    assert_eq!(v.accumulated_delay_ns(), 0);
    assert_eq!(v.current_image_size(), Some((3, 2)));
    drop(tx);
}

#[test]
fn load_next_caches_without_advancing() {
    let (tx, rx) = std::sync::mpsc::channel();
    tx.send(frame(1, 1, 30_000_000, 1)).unwrap();
    tx.send(frame(1, 1, 60_000_000, 2)).unwrap();
    drop(tx);
    let mut v = PlaybackView::new_streaming(rx);
    assert!(v.load_next());
    assert!(v.load_next());
    assert_eq!(v.frame_count(), 2);
    assert_eq!(v.current_frame_index(), 0);
    assert_eq!(v.accumulated_delay_ns(), 0);
    assert!(!v.is_exhausted());
    // the queue is empty and closed: the next pull observes exhaustion
    assert!(!v.load_next());
    assert!(v.is_exhausted());
    assert!(!v.load_next());
}

#[test]
fn known_size_is_kept_over_frame_sizes() {
    // A GIF's logical screen size is known from the header; the first
    // frame does not overwrite it.
    let (tx, rx) = std::sync::mpsc::channel();
    tx.send(frame(2, 2, 0, 1)).unwrap();
    drop(tx);
    let mut v = PlaybackView::new_with_size(rx, 8, 6);
    assert_eq!(v.current_image_size(), Some((8, 6)));
    v.tick(1);
    assert_eq!(v.current_image_size(), Some((8, 6)));
}

#[test]
fn frame_pixel_addressing_is_row_major() {
    let mut pixels = vec![Rgba { r: 0, g: 0, b: 0, a: 255 }; 6];
    pixels[5] = Rgba { r: 1, g: 2, b: 3, a: 4 };
    let f = Frame { width: 3, height: 2, pixels, delay_ns: 0 };
    assert_eq!(f.pixel_at(2, 1), Rgba { r: 1, g: 2, b: 3, a: 4 });
    assert_eq!(f.pixel_at(0, 0), Rgba { r: 0, g: 0, b: 0, a: 255 });
}
