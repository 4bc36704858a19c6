//! Format selection: the dispatch key is the filename extension, matched
//! case-sensitively against the supported set. Anything else is an
//! unsupported-format condition, reported as `None`, never a crash.

use vstd::prelude::*;
use vstd::string::StringSliceAdditionalSpecFns;

verus! {

/// The four stream formats the decoders understand.
#[derive(Clone, Copy, PartialEq, Eq, Structural, Debug)]
pub enum ImageFormat {
    Gif,
    Webp,
    Jpeg,
    Png,
}

/// The byte position of the last `.` in `name`, or -1 when there is none.
pub open spec fn last_dot(name: Seq<u8>) -> int
    decreases name.len(),
{
    if name.len() == 0 {
        -1int
    } else if name.last() == 46u8 {
        name.len() - 1
    } else {
        last_dot(name.drop_last())
    }
}

/// The extension bytes of a filename: what follows the last `.`, provided
/// that dot is neither missing nor leading (a leading dot marks a hidden
/// file, not an extension).
pub open spec fn extension_of(name: Seq<u8>) -> Option<Seq<u8>> {
    let d = last_dot(name);
    if d <= 0 {
        None
    } else {
        Some(name.subrange(d + 1, name.len() as int))
    }
}

/// The format an extension selects, by exact byte match.
pub open spec fn spec_format_from_ext(e: Seq<u8>) -> Option<ImageFormat> {
    if e == seq![103u8, 105u8, 102u8] {  // gif
        Some(ImageFormat::Gif)
    } else if e == seq![119u8, 101u8, 98u8, 112u8] {  // webp
        Some(ImageFormat::Webp)
    } else if e == seq![106u8, 112u8, 103u8] {  // jpg
        Some(ImageFormat::Jpeg)
    } else if e == seq![106u8, 112u8, 101u8, 103u8] {  // jpeg
        Some(ImageFormat::Jpeg)
    } else if e == seq![112u8, 110u8, 103u8] {  // png
        Some(ImageFormat::Png)
    } else {
        None
    }
}

/// The format a filename selects: its extension's format, or `None` when
/// the name has no extension.
pub open spec fn spec_format_from_filename(name: Seq<u8>) -> Option<ImageFormat> {
    match extension_of(name) {
        Some(e) => spec_format_from_ext(e),
        None => None,
    }
}

/// Whether `bytes` is exactly the three bytes given.
fn is3(bytes: &[u8], c0: u8, c1: u8, c2: u8) -> (r: bool)
    ensures
        r == (bytes@ == seq![c0, c1, c2]),
{
    let r = bytes.len() == 3 && bytes[0] == c0 && bytes[1] == c1 && bytes[2] == c2;
    proof {
        if r {
            assert(bytes@ =~= seq![c0, c1, c2]);
        }
    }
    r
}

/// Whether `bytes` is exactly the four bytes given.
fn is4(bytes: &[u8], c0: u8, c1: u8, c2: u8, c3: u8) -> (r: bool)
    ensures
        r == (bytes@ == seq![c0, c1, c2, c3]),
{
    let r = bytes.len() == 4 && bytes[0] == c0 && bytes[1] == c1 && bytes[2] == c2 && bytes[3]
        == c3;
    proof {
        if r {
            assert(bytes@ =~= seq![c0, c1, c2, c3]);
        }
    }
    r
}

/// Picks the format for an extension, matched byte for byte and
/// case-sensitively: `gif`, `webp`, `jpg`, `jpeg` or `png`, anything else
/// unsupported.
pub fn from_extension(ext: &str) -> (r: Option<ImageFormat>)
    ensures
        r == spec_format_from_ext(ext.spec_bytes()),
{
    let bytes: &[u8] = ext.as_bytes();
    if is3(bytes, 103, 105, 102) {
        Some(ImageFormat::Gif)
    } else if is4(bytes, 119, 101, 98, 112) {
        Some(ImageFormat::Webp)
    } else if is3(bytes, 106, 112, 103) {
        Some(ImageFormat::Jpeg)
    } else if is4(bytes, 106, 112, 101, 103) {
        Some(ImageFormat::Jpeg)
    } else if is3(bytes, 112, 110, 103) {
        Some(ImageFormat::Png)
    } else {
        None
    }
}

/// Picks the format for a whole filename: finds the extension after the
/// last dot (a missing or leading dot means no extension) and matches it.
pub fn from_filename(name: &str) -> (r: Option<ImageFormat>)
    ensures
        r == spec_format_from_filename(name.spec_bytes()),
{
    let bytes: &[u8] = name.as_bytes();
    let n: usize = bytes.len();
    let mut j: usize = 0;
    let mut dot: usize = 0;
    let mut found = false;
    proof {
        assert(bytes@.take(0) =~= Seq::<u8>::empty());
    }
    while j < n
        invariant
            n == bytes@.len(),
            j <= n,
            found == (last_dot(bytes@.take(j as int)) >= 0),
            found ==> dot as int == last_dot(bytes@.take(j as int)),
            found ==> dot < j,
        decreases n - j,
    {
        proof {
            assert(bytes@.take(j + 1).drop_last() =~= bytes@.take(j as int));
            assert(bytes@.take(j + 1).last() == bytes@[j as int]);
        }
        if bytes[j] == 46 {
            dot = j;
            found = true;
        }
        j = j + 1;
    }
    proof {
        assert(bytes@.take(n as int) =~= bytes@);
    }
    if !found || dot == 0 {
        return None;
    }
    let ext = &bytes[dot + 1..n];
    proof {
        assert(ext@ =~= bytes@.subrange(dot + 1, n as int));
    }
    if is3(ext, 103, 105, 102) {
        Some(ImageFormat::Gif)
    } else if is4(ext, 119, 101, 98, 112) {
        Some(ImageFormat::Webp)
    } else if is3(ext, 106, 112, 103) {
        Some(ImageFormat::Jpeg)
    } else if is4(ext, 106, 112, 101, 103) {
        Some(ImageFormat::Jpeg)
    } else if is3(ext, 112, 110, 103) {
        Some(ImageFormat::Png)
    } else {
        None
    }
}

} // verus!
