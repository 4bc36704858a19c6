//! The GIF decoder: indexed frames arrive as partial-canvas patches, and a
//! persistent logical-screen canvas composites them, honoring each frame's
//! disposal method, so that every emitted frame is a full canvas.

use vstd::prelude::*;
use crate::pixel::{rgba_at, Rgba};
use crate::frame::Frame;
use crate::chan::send_frame;
use crate::producer::DecodeStatus;
use crate::timing::gif_delay_ns;

verus! {

/// A GIF frame's instruction for how the canvas is treated before the next
/// frame is composited.
#[derive(Clone, Copy, PartialEq, Eq, Structural, Debug)]
pub enum GifDisposal {
    /// No requirement; treated as keep.
    Any,
    /// Leave the canvas as this frame left it.
    Keep,
    /// Clear this frame's region back to transparent.
    Background,
    /// Restore the canvas to its state before this frame was drawn.
    Previous,
}

/// The GIF disposal code for keeping the canvas as the frame left it.
pub const GIF_DISPOSE_KEEP: u8 = 1;

/// The GIF disposal code for clearing the frame's region afterwards.
pub const GIF_DISPOSE_BACKGROUND: u8 = 2;

/// The GIF disposal code for restoring the canvas afterwards.
pub const GIF_DISPOSE_PREVIOUS: u8 = 3;

/// The disposal method a GIF disposal code names; the unspecified code
/// (and any out-of-range one) asks for nothing and is treated as keep.
pub open spec fn spec_disposal(code: u8) -> GifDisposal {
    if code == GIF_DISPOSE_KEEP {
        GifDisposal::Keep
    } else if code == GIF_DISPOSE_BACKGROUND {
        GifDisposal::Background
    } else if code == GIF_DISPOSE_PREVIOUS {
        GifDisposal::Previous
    } else {
        GifDisposal::Any
    }
}

/// One decoded GIF frame before compositing: an RGBA sub-rectangle of the
/// logical screen, its placement, its delay in hundredths of a second, and
/// its disposal code as the stream declares it. A transparent source pixel
/// (alpha 0) leaves the canvas pixel underneath it untouched.
pub struct GifPatch {
    pub left: u16,
    pub top: u16,
    pub width: u16,
    pub height: u16,
    pub delay_ticks: u16,
    pub dispose_code: u8,
    pub pixels: Vec<u8>,
}

impl GifPatch {
    /// The patch raster fills its declared sub-rectangle exactly.
    pub open spec fn wf(self) -> bool {
        self.pixels@.len() == 4 * (self.width as int) * (self.height as int)
    }

    /// The disposal method this patch's code names.
    pub fn disposal(&self) -> (r: GifDisposal)
        ensures
            r == spec_disposal(self.dispose_code),
    {
        if self.dispose_code == GIF_DISPOSE_KEEP {
            GifDisposal::Keep
        } else if self.dispose_code == GIF_DISPOSE_BACKGROUND {
            GifDisposal::Background
        } else if self.dispose_code == GIF_DISPOSE_PREVIOUS {
            GifDisposal::Previous
        } else {
            GifDisposal::Any
        }
    }
}

/// The canvas pixel at column `x` of row `y`.
pub open spec fn canvas_at(c: Seq<Rgba>, cw: int, x: int, y: int) -> Rgba {
    c[y * cw + x]
}

/// Whether `(x, y)` lies in the rectangle at `(left, top)` of size `w * h`.
pub open spec fn in_rect(left: int, top: int, w: int, h: int, x: int, y: int) -> bool {
    left <= x < left + w && top <= y < top + h
}

/// The patch pixel that lands on canvas position `(x, y)`.
pub open spec fn patch_px(pixels: Seq<u8>, pw: int, left: int, top: int, x: int, y: int) -> Rgba {
    rgba_at(pixels, (y - top) * pw + (x - left))
}

/// The canvas pixel at `(x, y)` after a patch is blitted over `under`: the
/// patch pixel where the patch covers the position with an opaque pixel,
/// the underlying pixel everywhere else.
pub open spec fn blit_px(
    under: Rgba,
    pixels: Seq<u8>,
    left: int,
    top: int,
    pw: int,
    ph: int,
    x: int,
    y: int,
) -> Rgba {
    if in_rect(left, top, pw, ph, x, y) && patch_px(pixels, pw, left, top, x, y).a != 0 {
        patch_px(pixels, pw, left, top, x, y)
    } else {
        under
    }
}

/// The canvas pixel at `(x, y)` after the previous frame's disposal is
/// applied: cleared inside the previous frame's rectangle for
/// `Background`, the saved canvas for `Previous`, untouched otherwise.
pub open spec fn disposed_px(
    canvas: Seq<Rgba>,
    saved: Seq<Rgba>,
    cw: int,
    dispose: GifDisposal,
    left: int,
    top: int,
    w: int,
    h: int,
    x: int,
    y: int,
) -> Rgba {
    match dispose {
        GifDisposal::Background => if in_rect(left, top, w, h, x, y) {
            Rgba { r: 0, g: 0, b: 0, a: 0 }
        } else {
            canvas_at(canvas, cw, x, y)
        },
        GifDisposal::Previous => canvas_at(saved, cw, x, y),
        _ => canvas_at(canvas, cw, x, y),
    }
}

/// Row-major positions of distinct canvas coordinates are distinct.
proof fn lemma_row_major_distinct(cw: int, x1: int, y1: int, x2: int, y2: int)
    requires
        0 <= x1 < cw,
        0 <= x2 < cw,
        0 <= y1,
        0 <= y2,
        (x1, y1) != (x2, y2),
    ensures
        y1 * cw + x1 != y2 * cw + x2,
{
    if y1 == y2 {
    } else {
        assert(y1 * cw + x1 != y2 * cw + x2) by (nonlinear_arith)
            requires
                0 <= x1 < cw,
                0 <= x2 < cw,
                y1 != y2,
        ;
    }
}

/// Blits `patch` onto the canvas at its declared position, clipped to the
/// canvas: inside the (clipped) rectangle every opaque patch pixel
/// replaces the canvas pixel, transparent patch pixels and everything
/// outside the rectangle keep the canvas as it was.
fn blit(canvas: &mut Vec<Rgba>, cw: usize, ch: usize, patch: &GifPatch)
    requires
        old(canvas)@.len() == (cw as int) * (ch as int),
        patch.wf(),
    ensures
        final(canvas)@.len() == old(canvas)@.len(),
        forall|x: int, y: int|
            0 <= x < cw && 0 <= y < ch ==> #[trigger] canvas_at(final(canvas)@, cw as int, x, y)
                == blit_px(
                canvas_at(old(canvas)@, cw as int, x, y),
                patch.pixels@,
                patch.left as int,
                patch.top as int,
                patch.width as int,
                patch.height as int,
                x,
                y,
            ),
{
    let pw = patch.width as usize;
    let ph = patch.height as usize;
    let left = patch.left as usize;
    let top = patch.top as usize;
    let mut row: usize = 0;
    while row < ph
        invariant
            canvas@.len() == old(canvas)@.len(),
            old(canvas)@.len() == (cw as int) * (ch as int),
            patch.wf(),
            pw == patch.width as int,
            ph == patch.height as int,
            left == patch.left as int,
            top == patch.top as int,
            row <= ph,
            forall|x: int, y: int|
                0 <= x < cw && 0 <= y < ch ==> #[trigger] canvas_at(canvas@, cw as int, x, y) == (
                if top <= y < top + row {
                    blit_px(
                        canvas_at(old(canvas)@, cw as int, x, y),
                        patch.pixels@,
                        left as int,
                        top as int,
                        pw as int,
                        ph as int,
                        x,
                        y,
                    )
                } else {
                    canvas_at(old(canvas)@, cw as int, x, y)
                }),
        decreases ph - row,
    {
        let cy = top + row;
        if cy < ch {
            let mut col: usize = 0;
            while col < pw
                invariant
                    canvas@.len() == old(canvas)@.len(),
                    old(canvas)@.len() == (cw as int) * (ch as int),
                    patch.wf(),
                    pw == patch.width as int,
                    ph == patch.height as int,
                    left == patch.left as int,
                    top == patch.top as int,
                    row < ph,
                    col <= pw,
                    cy == top + row,
                    cy < ch,
                    forall|x: int, y: int|
                        0 <= x < cw && 0 <= y < ch ==> #[trigger] canvas_at(
                            canvas@,
                            cw as int,
                            x,
                            y,
                        ) == (if top <= y < top + row || (y == cy && left <= x < left + col) {
                            blit_px(
                                canvas_at(old(canvas)@, cw as int, x, y),
                                patch.pixels@,
                                left as int,
                                top as int,
                                pw as int,
                                ph as int,
                                x,
                                y,
                            )
                        } else {
                            canvas_at(old(canvas)@, cw as int, x, y)
                        }),
                decreases pw - col,
            {
                let cx = left + col;
                if cx < cw {
                    let ghost pre = canvas@;
                    let plen = patch.pixels.len();
                    let clen = canvas.len();
                    proof {
                        assert((row as int) * (pw as int) + col < (pw as int) * (ph as int))
                            by (nonlinear_arith)
                            requires
                                0 <= row < ph,
                                0 <= col < pw,
                        ;
                        assert(((row as int) * (pw as int) + col) * 4 + 3 < patch.pixels@.len())
                            by (nonlinear_arith)
                            requires
                                0 <= row < ph,
                                0 <= col < pw,
                                patch.pixels@.len() == 4 * (pw as int) * (ph as int),
                        ;
                        assert(4 * ((row as int) * (pw as int) + col) == (row as int) * (pw as int)
                            * 4 + (col as int) * 4) by (nonlinear_arith);
                        assert((row as int) * (pw as int) >= 0) by (nonlinear_arith)
                            requires
                                0 <= row,
                                0 <= pw,
                        ;
                        assert((cy as int) * (cw as int) + cx < (cw as int) * (ch as int))
                            by (nonlinear_arith)
                            requires
                                0 <= cx < cw,
                                0 <= cy < ch,
                        ;
                        assert((cy as int) * (cw as int) >= 0) by (nonlinear_arith)
                            requires
                                0 <= cy,
                                0 < cw,
                        ;
                    }
                    let k = row * pw + col;
                    let r0 = patch.pixels[4 * k];
                    let g0 = patch.pixels[4 * k + 1];
                    let b0 = patch.pixels[4 * k + 2];
                    let a0 = patch.pixels[4 * k + 3];
                    if a0 != 0 {
                        canvas.set(cy * cw + cx, Rgba { r: r0, g: g0, b: b0, a: a0 });
                    }
                    proof {
                        let px = patch_px(
                            patch.pixels@,
                            pw as int,
                            left as int,
                            top as int,
                            cx as int,
                            cy as int,
                        );
                        assert(px == (Rgba { r: r0, g: g0, b: b0, a: a0 }));
                        assert forall|x: int, y: int| 0 <= x < cw && 0 <= y < ch implies #[trigger]
                        canvas_at(canvas@, cw as int, x, y) == (if top <= y < top + row || (y == cy
                            && left <= x < left + col + 1) {
                            blit_px(
                                canvas_at(old(canvas)@, cw as int, x, y),
                                patch.pixels@,
                                left as int,
                                top as int,
                                pw as int,
                                ph as int,
                                x,
                                y,
                            )
                        } else {
                            canvas_at(old(canvas)@, cw as int, x, y)
                        }) by {
                            assert(0 <= y * (cw as int) + x < (cw as int) * (ch as int))
                                by (nonlinear_arith)
                                requires
                                    0 <= x < cw,
                                    0 <= y < ch,
                            ;
                            if x == cx && y == cy {
                            } else {
                                lemma_row_major_distinct(cw as int, x, y, cx as int, cy as int);
                                assert(canvas_at(canvas@, cw as int, x, y) == canvas_at(
                                    pre,
                                    cw as int,
                                    x,
                                    y,
                                ));
                            }
                        }
                    }
                } else {
                    proof {
                        assert forall|x: int, y: int| 0 <= x < cw && 0 <= y < ch implies #[trigger]
                        canvas_at(canvas@, cw as int, x, y) == (if top <= y < top + row || (y == cy
                            && left <= x < left + col + 1) {
                            blit_px(
                                canvas_at(old(canvas)@, cw as int, x, y),
                                patch.pixels@,
                                left as int,
                                top as int,
                                pw as int,
                                ph as int,
                                x,
                                y,
                            )
                        } else {
                            canvas_at(old(canvas)@, cw as int, x, y)
                        }) by {}
                    }
                }
                col = col + 1;
            }
        }
        row = row + 1;
    }
}

/// Clears the given rectangle of the canvas back to transparent, clipped
/// to the canvas; everything outside the rectangle keeps its pixel.
fn clear_rect(canvas: &mut Vec<Rgba>, cw: usize, ch: usize, left: usize, top: usize, w: usize, h: usize)
    requires
        old(canvas)@.len() == (cw as int) * (ch as int),
        left <= u16::MAX,
        top <= u16::MAX,
        w <= u16::MAX,
        h <= u16::MAX,
    ensures
        final(canvas)@.len() == old(canvas)@.len(),
        forall|x: int, y: int|
            0 <= x < cw && 0 <= y < ch ==> #[trigger] canvas_at(final(canvas)@, cw as int, x, y)
                == (if in_rect(left as int, top as int, w as int, h as int, x, y) {
                Rgba { r: 0, g: 0, b: 0, a: 0 }
            } else {
                canvas_at(old(canvas)@, cw as int, x, y)
            }),
{
    let mut row: usize = 0;
    while row < h
        invariant
            canvas@.len() == old(canvas)@.len(),
            old(canvas)@.len() == (cw as int) * (ch as int),
            left <= u16::MAX,
            top <= u16::MAX,
            w <= u16::MAX,
            h <= u16::MAX,
            row <= h,
            forall|x: int, y: int|
                0 <= x < cw && 0 <= y < ch ==> #[trigger] canvas_at(canvas@, cw as int, x, y) == (
                if top <= y < top + row && in_rect(left as int, top as int, w as int, h as int, x, y) {
                    Rgba { r: 0, g: 0, b: 0, a: 0 }
                } else {
                    canvas_at(old(canvas)@, cw as int, x, y)
                }),
        decreases h - row,
    {
        let cy = top + row;
        if cy < ch {
            let mut col: usize = 0;
            while col < w
                invariant
                    canvas@.len() == old(canvas)@.len(),
                    old(canvas)@.len() == (cw as int) * (ch as int),
                    left <= u16::MAX,
                    top <= u16::MAX,
                    w <= u16::MAX,
                    h <= u16::MAX,
                    row < h,
                    col <= w,
                    cy == top + row,
                    cy < ch,
                    forall|x: int, y: int|
                        0 <= x < cw && 0 <= y < ch ==> #[trigger] canvas_at(
                            canvas@,
                            cw as int,
                            x,
                            y,
                        ) == (if (top <= y < top + row || (y == cy && left <= x < left + col))
                            && in_rect(left as int, top as int, w as int, h as int, x, y) {
                            Rgba { r: 0, g: 0, b: 0, a: 0 }
                        } else {
                            canvas_at(old(canvas)@, cw as int, x, y)
                        }),
                decreases w - col,
            {
                let cx = left + col;
                if cx < cw {
                    let ghost pre = canvas@;
                    let clen = canvas.len();
                    proof {
                        assert((cy as int) * (cw as int) + cx < (cw as int) * (ch as int))
                            by (nonlinear_arith)
                            requires
                                0 <= cx < cw,
                                0 <= cy < ch,
                        ;
                        assert((cy as int) * (cw as int) >= 0) by (nonlinear_arith)
                            requires
                                0 <= cy,
                                0 < cw,
                        ;
                    }
                    canvas.set(cy * cw + cx, Rgba { r: 0, g: 0, b: 0, a: 0 });
                    proof {
                        assert forall|x: int, y: int| 0 <= x < cw && 0 <= y < ch implies #[trigger]
                        canvas_at(canvas@, cw as int, x, y) == (if (top <= y < top + row || (y == cy
                            && left <= x < left + col + 1)) && in_rect(
                            left as int,
                            top as int,
                            w as int,
                            h as int,
                            x,
                            y,
                        ) {
                            Rgba { r: 0, g: 0, b: 0, a: 0 }
                        } else {
                            canvas_at(old(canvas)@, cw as int, x, y)
                        }) by {
                            assert(0 <= y * (cw as int) + x < (cw as int) * (ch as int))
                                by (nonlinear_arith)
                                requires
                                    0 <= x < cw,
                                    0 <= y < ch,
                            ;
                            if x == cx && y == cy {
                            } else {
                                lemma_row_major_distinct(cw as int, x, y, cx as int, cy as int);
                                assert(canvas_at(canvas@, cw as int, x, y) == canvas_at(
                                    pre,
                                    cw as int,
                                    x,
                                    y,
                                ));
                            }
                        }
                    }
                }
                col = col + 1;
            }
        }
        row = row + 1;
    }
}

/// The persistent logical-screen canvas a GIF is composited on. Each
/// arriving patch is blitted over what the previous frame's disposal left
/// behind, and the full canvas is emitted as that frame's image.
pub struct GifScreen {
    width: usize,
    height: usize,
    canvas: Vec<Rgba>,
    saved: Vec<Rgba>,
    last_dispose: GifDisposal,
    last_left: usize,
    last_top: usize,
    last_w: usize,
    last_h: usize,
}

impl GifScreen {
    /// Internal well-formedness: both canvases fill the logical screen and
    /// the remembered geometry fits in GIF's sixteen-bit fields.
    pub closed spec fn wf(&self) -> bool {
        &&& self.canvas@.len() == (self.width as int) * (self.height as int)
        &&& self.saved@.len() == (self.width as int) * (self.height as int)
        &&& self.width <= u16::MAX
        &&& self.height <= u16::MAX
        &&& self.last_left <= u16::MAX
        &&& self.last_top <= u16::MAX
        &&& self.last_w <= u16::MAX
        &&& self.last_h <= u16::MAX
    }

    /// The canvas as last composited.
    pub closed spec fn canvas_spec(&self) -> Seq<Rgba> {
        self.canvas@
    }

    /// The canvas as saved before the last blit, for `Previous` disposal.
    pub closed spec fn saved_spec(&self) -> Seq<Rgba> {
        self.saved@
    }

    /// The logical screen width.
    pub closed spec fn width_spec(&self) -> int {
        self.width as int
    }

    /// The logical screen height.
    pub closed spec fn height_spec(&self) -> int {
        self.height as int
    }

    /// The last blitted frame's disposal method.
    pub closed spec fn last_dispose_spec(&self) -> GifDisposal {
        self.last_dispose
    }

    /// The last blitted frame's rectangle: left, top, width, height.
    pub closed spec fn last_rect_spec(&self) -> (int, int, int, int) {
        (self.last_left as int, self.last_top as int, self.last_w as int, self.last_h as int)
    }

    /// A fresh, fully transparent logical screen.
    pub fn new(width: u16, height: u16) -> (s: GifScreen)
        ensures
            s.wf(),
            s.width_spec() == width as int,
            s.height_spec() == height as int,
            s.canvas_spec().len() == (width as int) * (height as int),
            forall|i: int|
                0 <= i < s.canvas_spec().len() ==> #[trigger] s.canvas_spec()[i] == (Rgba {
                    r: 0,
                    g: 0,
                    b: 0,
                    a: 0,
                }),
            s.last_dispose_spec() == GifDisposal::Keep,
    {
        proof {
            assert((width as int) * (height as int) <= 65535 * 65535) by (nonlinear_arith)
                requires
                    0 <= width as int <= 65535,
                    0 <= height as int <= 65535,
            ;
            assert((width as int) * (height as int) >= 0) by (nonlinear_arith)
                requires
                    0 <= width as int,
                    0 <= height as int,
            ;
        }
        let n: usize = (width as usize) * (height as usize);
        let mut canvas: Vec<Rgba> = Vec::new();
        let mut i: usize = 0;
        while i < n
            invariant
                i <= n,
                canvas@.len() == i,
                forall|j: int|
                    0 <= j < i ==> #[trigger] canvas@[j] == (Rgba { r: 0, g: 0, b: 0, a: 0 }),
            decreases n - i,
        {
            canvas.push(Rgba { r: 0, g: 0, b: 0, a: 0 });
            i = i + 1;
        }
        let saved = crate::pixel::copy_pixels(&canvas);
        GifScreen {
            width: width as usize,
            height: height as usize,
            canvas,
            saved,
            last_dispose: GifDisposal::Keep,
            last_left: 0,
            last_top: 0,
            last_w: 0,
            last_h: 0,
        }
    }

    /// Composites one decoded patch: first the previous frame's disposal
    /// is applied to the canvas, then the canvas is saved (so a later
    /// `Previous` disposal can restore it), then the patch is blitted at
    /// its position, and the resulting full canvas is emitted as a frame
    /// whose delay is the patch's ticks in nanoseconds.
    pub fn apply_patch(&mut self, patch: &GifPatch) -> (frame: Frame)
        requires
            old(self).wf(),
            patch.wf(),
        ensures
            final(self).wf(),
            final(self).width_spec() == old(self).width_spec(),
            final(self).height_spec() == old(self).height_spec(),
            final(self).canvas_spec().len() == old(self).canvas_spec().len(),
            forall|x: int, y: int|
                0 <= x < final(self).width_spec() && 0 <= y < final(self).height_spec()
                    ==> #[trigger] canvas_at(final(self).saved_spec(), final(self).width_spec(), x, y)
                    == disposed_px(
                    old(self).canvas_spec(),
                    old(self).saved_spec(),
                    old(self).width_spec(),
                    old(self).last_dispose_spec(),
                    old(self).last_rect_spec().0,
                    old(self).last_rect_spec().1,
                    old(self).last_rect_spec().2,
                    old(self).last_rect_spec().3,
                    x,
                    y,
                ),
            forall|x: int, y: int|
                0 <= x < final(self).width_spec() && 0 <= y < final(self).height_spec()
                    ==> #[trigger] canvas_at(final(self).canvas_spec(), final(self).width_spec(), x, y)
                    == blit_px(
                    canvas_at(final(self).saved_spec(), final(self).width_spec(), x, y),
                    patch.pixels@,
                    patch.left as int,
                    patch.top as int,
                    patch.width as int,
                    patch.height as int,
                    x,
                    y,
                ),
            final(self).last_dispose_spec() == spec_disposal(patch.dispose_code),
            final(self).last_rect_spec() == (
                patch.left as int,
                patch.top as int,
                patch.width as int,
                patch.height as int,
            ),
            frame.wf(),
            frame.width as int == final(self).width_spec(),
            frame.height as int == final(self).height_spec(),
            frame.pixels@ == final(self).canvas_spec(),
            frame.delay_ns as int == (patch.delay_ticks as int) * 10_000_000,
    {
        match self.last_dispose {
            GifDisposal::Background => {
                clear_rect(
                    &mut self.canvas,
                    self.width,
                    self.height,
                    self.last_left,
                    self.last_top,
                    self.last_w,
                    self.last_h,
                );
            },
            GifDisposal::Previous => {
                self.canvas = crate::pixel::copy_pixels(&self.saved);
            },
            _ => {},
        }
        self.saved = crate::pixel::copy_pixels(&self.canvas);
        blit(&mut self.canvas, self.width, self.height, patch);
        self.last_dispose = patch.disposal();
        self.last_left = patch.left as usize;
        self.last_top = patch.top as usize;
        self.last_w = patch.width as usize;
        self.last_h = patch.height as usize;
        let delay = gif_delay_ns(patch.delay_ticks);
        Frame {
            width: self.width,
            height: self.height,
            pixels: crate::pixel::copy_pixels(&self.canvas),
            delay_ns: delay,
        }
    }
}

/// GIF compositing of a partial update: when the second of two frames is
/// blitted with keep disposal and fully opaque pixels over the first
/// frame's canvas, the composited result equals the patch's own pixels
/// inside the updated sub-region and the first canvas everywhere outside
/// it.
pub proof fn lemma_partial_update_composite(
    c1: Seq<Rgba>,
    saved: Seq<Rgba>,
    cw: int,
    pixels: Seq<u8>,
    left: int,
    top: int,
    pw: int,
    ph: int,
    x: int,
    y: int,
)
    requires
        forall|j: int| 0 <= j < pw * ph ==> (#[trigger] rgba_at(pixels, j)).a != 0,
    ensures
        in_rect(left, top, pw, ph, x, y) ==> blit_px(
            disposed_px(c1, saved, cw, GifDisposal::Keep, 0, 0, 0, 0, x, y),
            pixels,
            left,
            top,
            pw,
            ph,
            x,
            y,
        ) == patch_px(pixels, pw, left, top, x, y),
        !in_rect(left, top, pw, ph, x, y) ==> blit_px(
            disposed_px(c1, saved, cw, GifDisposal::Keep, 0, 0, 0, 0, x, y),
            pixels,
            left,
            top,
            pw,
            ph,
            x,
            y,
        ) == canvas_at(c1, cw, x, y),
{
    if in_rect(left, top, pw, ph, x, y) {
        let j = (y - top) * pw + (x - left);
        assert(0 <= (y - top) * pw + (x - left) < pw * ph) by (nonlinear_arith)
            requires
                left <= x < left + pw,
                top <= y < top + ph,
        ;
        assert(rgba_at(pixels, j).a != 0);
    }
}

/// How a pull from the GIF stream ended.
enum GifPull {
    /// One more frame, decoded and palette-expanded.
    Patch(GifPatch),
    /// The stream's orderly end.
    End,
    /// Decoding failed mid-stream; no more frames will come.
    Failed,
}

/// Carries one GIF stream's decoder between pulls. Declaring the outside
/// decoder type itself is refused by the verifier (its reader parameter is
/// bounded by a trait the verifier does not know), so the session is held
/// opaquely and only the wrapped calls below touch it.
#[verifier::external_body]
struct GifSession<'a> {
    decoder: gif::Decoder<&'a [u8]>,
}

/// Relies on `gif::DecodeOptions::{new, set_color_output}` and
/// `gif::DecodeOptions::read_info`: parses the stream header with RGBA
/// color output selected and yields the decoder together with the logical
/// screen's width and height; a corrupt header yields `None`.
#[verifier::external_body]
fn gif_open<'a>(bytes: &'a Vec<u8>) -> (r: Option<(GifSession<'a>, u16, u16)>) {
    let mut options = gif::DecodeOptions::new();
    options.set_color_output(gif::ColorOutput::RGBA);
    match options.read_info(bytes.as_slice()) {
        Ok(decoder) => {
            let w = decoder.width();
            let h = decoder.height();
            Some((GifSession { decoder }, w, h))
        },
        Err(_) => None,
    }
}

/// Relies on `gif::Decoder::read_next_frame` with RGBA color output: the
/// returned frame's buffer holds exactly `width * height` RGBA pixels of
/// the frame's sub-rectangle, with alpha 0 exactly on the frame's
/// transparent index; `delay` counts hundredths of a second and the
/// disposal code is the stream's own (0 to 3).
#[verifier::external_body]
fn gif_next(session: &mut GifSession<'_>) -> (r: GifPull)
    ensures
        r matches GifPull::Patch(p) ==> p.wf(),
{
    match session.decoder.read_next_frame() {
        Ok(Some(f)) => GifPull::Patch(GifPatch {
            left: f.left,
            top: f.top,
            width: f.width,
            height: f.height,
            delay_ticks: f.delay,
            dispose_code: f.dispose as u8,
            pixels: f.buffer.to_vec(),
        }),
        Ok(None) => GifPull::End,
        Err(_) => GifPull::Failed,
    }
}

/// Decodes a whole GIF stream: every frame is composited onto the logical
/// screen and the full canvas is sent on, in display order, until the
/// stream ends, breaks off, or the consumer goes away. The ghost sequence
/// holds the frames that were sent: each is a well-formed full-canvas
/// raster of the one logical-screen size, and every delay is a whole
/// number of hundredths of a second in nanoseconds, so one loop's delays
/// sum to exactly the stream's nominal duration.
pub fn run(bytes: &Vec<u8>, tx: &std::sync::mpsc::Sender<Frame>) -> (r: (
    DecodeStatus,
    Ghost<Seq<Frame>>,
))
    ensures
        forall|i: int|
            0 <= i < r.1@.len() ==> {
                &&& (#[trigger] r.1@[i]).wf()
                &&& r.1@[i].delay_ns as int % 10_000_000 == 0
                &&& r.1@[i].width == r.1@[0].width
                &&& r.1@[i].height == r.1@[0].height
            },
{
    let ghost sent: Seq<Frame> = Seq::empty();
    let opened = gif_open(bytes);
    match opened {
        None => (DecodeStatus::HeaderFailed, Ghost(sent)),
        Some((mut session, width, height)) => {
            let mut screen = GifScreen::new(width, height);
            let ghost mut sent = sent;
            let mut n: usize = 0;
            loop
                invariant
                    screen.wf(),
                    screen.width_spec() == width as int,
                    screen.height_spec() == height as int,
                    forall|i: int|
                        0 <= i < sent.len() ==> {
                            &&& (#[trigger] sent[i]).wf()
                            &&& sent[i].delay_ns as int % 10_000_000 == 0
                            &&& sent[i].width as int == width as int
                            &&& sent[i].height as int == height as int
                        },
                decreases usize::MAX - n,
            {
                if n == usize::MAX {
                    return (DecodeStatus::MidStream, Ghost(sent));
                }
                match gif_next(&mut session) {
                    GifPull::Patch(patch) => {
                        let frame = screen.apply_patch(&patch);
                        proof {
                            vstd::arithmetic::div_mod::lemma_mod_multiples_basic(
                                patch.delay_ticks as int,
                                10_000_000,
                            );
                            sent = sent.push(frame);
                        }
                        if !send_frame(tx, frame) {
                            return (DecodeStatus::Disconnected, Ghost(sent));
                        }
                    },
                    GifPull::End => {
                        return (DecodeStatus::Completed, Ghost(sent));
                    },
                    GifPull::Failed => {
                        return (DecodeStatus::MidStream, Ghost(sent));
                    },
                }
                n = n + 1;
            }
        },
    }
}

} // verus!
