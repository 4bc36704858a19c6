//! RGBA pixels and the byte-to-pixel conversions shared by all decoders.

use vstd::prelude::*;

verus! {

/// One pixel, eight bits per channel, in red, green, blue, alpha order.
#[derive(Clone, Copy, PartialEq, Eq, Structural, Debug)]
pub struct Rgba {
    pub r: u8,
    pub g: u8,
    pub b: u8,
    pub a: u8,
}

/// The pixel at position `i` of a buffer laid out as RGBA bytes.
pub open spec fn rgba_at(bytes: Seq<u8>, i: int) -> Rgba {
    Rgba { r: bytes[4 * i], g: bytes[4 * i + 1], b: bytes[4 * i + 2], a: bytes[4 * i + 3] }
}

/// The pixel at position `i` of a buffer laid out as BGRA bytes.
pub open spec fn bgra_at(bytes: Seq<u8>, i: int) -> Rgba {
    Rgba { r: bytes[4 * i + 2], g: bytes[4 * i + 1], b: bytes[4 * i], a: bytes[4 * i + 3] }
}

/// The alpha value assigned to an RGB pixel under an optional transparency
/// key: fully clear when the pixel equals the key, fully opaque otherwise.
pub open spec fn keyed_alpha(r: u8, g: u8, b: u8, key: Option<(u8, u8, u8)>) -> u8 {
    match key {
        Option::None => 255u8,
        Option::Some(k) => if k.0 == r && k.1 == g && k.2 == b {
            0u8
        } else {
            255u8
        },
    }
}

/// The pixel at position `i` of a buffer laid out as RGB bytes, with alpha
/// taken from the transparency key.
pub open spec fn rgb_keyed_at(bytes: Seq<u8>, key: Option<(u8, u8, u8)>, i: int) -> Rgba {
    Rgba {
        r: bytes[3 * i],
        g: bytes[3 * i + 1],
        b: bytes[3 * i + 2],
        a: keyed_alpha(bytes[3 * i], bytes[3 * i + 1], bytes[3 * i + 2], key),
    }
}

/// Converts a byte buffer in RGBA order to pixels; trailing bytes that do not
/// fill a whole pixel are dropped.
pub fn pixels_from_rgba(data: &[u8]) -> (r: Vec<Rgba>)
    ensures
        r@.len() == data@.len() / 4,
        forall|i: int| 0 <= i < r@.len() ==> r@[i] == rgba_at(data@, i),
{
    let n: usize = data.len() / 4;
    let mut out: Vec<Rgba> = Vec::new();
    let mut i: usize = 0;
    while i < n
        invariant
            data@.len() <= usize::MAX,
            n == data@.len() / 4,
            i <= n,
            out@.len() == i,
            forall|j: int| 0 <= j < i ==> out@[j] == rgba_at(data@, j),
        decreases n - i,
    {
        assert(4 * i + 3 < data@.len());
        out.push(Rgba { r: data[4 * i], g: data[4 * i + 1], b: data[4 * i + 2], a: data[4 * i + 3] });
        i = i + 1;
    }
    out
}

/// Converts a byte buffer in BGRA order to pixels in RGBA order; trailing
/// bytes that do not fill a whole pixel are dropped.
pub fn pixels_from_bgra(data: &[u8]) -> (r: Vec<Rgba>)
    ensures
        r@.len() == data@.len() / 4,
        forall|i: int| 0 <= i < r@.len() ==> r@[i] == bgra_at(data@, i),
{
    let n: usize = data.len() / 4;
    let mut out: Vec<Rgba> = Vec::new();
    let mut i: usize = 0;
    while i < n
        invariant
            data@.len() <= usize::MAX,
            n == data@.len() / 4,
            i <= n,
            out@.len() == i,
            forall|j: int| 0 <= j < i ==> out@[j] == bgra_at(data@, j),
        decreases n - i,
    {
        assert(4 * i + 3 < data@.len());
        out.push(Rgba { r: data[4 * i + 2], g: data[4 * i + 1], b: data[4 * i], a: data[4 * i + 3] });
        i = i + 1;
    }
    out
}

/// Converts a byte buffer in RGB order to RGBA pixels: a pixel whose three
/// channels equal the transparency key becomes fully clear, every other pixel
/// fully opaque. Trailing bytes that do not fill a whole pixel are dropped.
pub fn pixels_from_rgb_keyed(data: &[u8], key: Option<(u8, u8, u8)>) -> (r: Vec<Rgba>)
    ensures
        r@.len() == data@.len() / 3,
        forall|i: int| 0 <= i < r@.len() ==> r@[i] == rgb_keyed_at(data@, key, i),
{
    let n: usize = data.len() / 3;
    let mut out: Vec<Rgba> = Vec::new();
    let mut i: usize = 0;
    while i < n
        invariant
            data@.len() <= usize::MAX,
            n == data@.len() / 3,
            i <= n,
            out@.len() == i,
            forall|j: int| 0 <= j < i ==> out@[j] == rgb_keyed_at(data@, key, j),
        decreases n - i,
    {
        assert(3 * i + 2 < data@.len());
        let r0 = data[3 * i];
        let g0 = data[3 * i + 1];
        let b0 = data[3 * i + 2];
        let a0: u8 = match key {
            Option::None => 255,
            Option::Some(k) => if k.0 == r0 && k.1 == g0 && k.2 == b0 {
                0
            } else {
                255
            },
        };
        out.push(Rgba { r: r0, g: g0, b: b0, a: a0 });
        i = i + 1;
    }
    out
}

/// An element-for-element copy of a pixel buffer.
pub fn copy_pixels(src: &Vec<Rgba>) -> (r: Vec<Rgba>)
    ensures
        r@ == src@,
{
    let n: usize = src.len();
    let mut out: Vec<Rgba> = Vec::new();
    let mut i: usize = 0;
    while i < n
        invariant
            n == src@.len(),
            i <= n,
            out@.len() == i,
            forall|j: int| 0 <= j < i ==> out@[j] == src@[j],
        decreases n - i,
    {
        out.push(src[i]);
        i = i + 1;
    }
    proof {
        assert(out@ =~= src@);
    }
    out
}

/// Holds when pixel `i` of `bgra` carries the same channel values as pixel
/// `i` of `rgba`, with the red and blue bytes swapped.
pub open spec fn channel_swapped(rgba: Seq<u8>, bgra: Seq<u8>, i: int) -> bool {
    &&& bgra[4 * i] == rgba[4 * i + 2]
    &&& bgra[4 * i + 1] == rgba[4 * i + 1]
    &&& bgra[4 * i + 2] == rgba[4 * i]
    &&& bgra[4 * i + 3] == rgba[4 * i + 3]
}

/// Two equally long buffers that carry the same pixels, one in RGBA order and
/// one in BGRA order, decode to identical pixel sequences: the source's
/// channel order leaves no trace in the output.
pub proof fn lemma_channel_order_normalized(rgba: Seq<u8>, bgra: Seq<u8>)
    requires
        rgba.len() == bgra.len(),
        forall|i: int| 0 <= i < rgba.len() / 4 ==> #[trigger] channel_swapped(rgba, bgra, i),
    ensures
        forall|i: int| 0 <= i < rgba.len() / 4 ==> bgra_at(bgra, i) == rgba_at(rgba, i),
{
    assert forall|i: int| 0 <= i < rgba.len() / 4 implies bgra_at(bgra, i) == rgba_at(rgba, i) by {
        assert(channel_swapped(rgba, bgra, i));
    }
}

} // verus!
