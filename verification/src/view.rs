//! The playback engine: one per visible image. It owns the consumer end of
//! the hand-off queue, caches decoded frames in arrival order, and advances
//! the current frame as the render clock reports elapsed time.

use vstd::prelude::*;
use crate::chan::recv_frame;
use crate::frame::Frame;

verus! {

/// The mathematical playback state: the delays of the cached frames in
/// display order, the index of the frame on screen, the accumulated delay
/// (nanoseconds left before the next transition; negative is a carried
/// deficit), and whether the producer has finished.
pub ghost struct PlaybackModel {
    pub delays: Seq<i64>,
    pub index: int,
    pub acc_ns: int,
    pub exhausted: bool,
}

/// `v` clamped into the representable range of `i64`.
pub open spec fn clamp_i64(v: int) -> int {
    if v < i64::MIN {
        i64::MIN as int
    } else if v > i64::MAX {
        i64::MAX as int
    } else {
        v
    }
}

/// Saturating addition on `i64` values, as mathematical integers.
pub open spec fn sat_add_i64(x: int, y: int) -> int {
    clamp_i64(x + y)
}

/// Saturating subtraction on `i64` values, as mathematical integers.
pub open spec fn sat_sub_i64(x: int, y: int) -> int {
    clamp_i64(x - y)
}

/// The index after `idx`, wrapping to 0 past the last cached frame.
pub open spec fn wrap_next(len: int, idx: int) -> int {
    if idx + 1 >= len {
        0int
    } else {
        idx + 1
    }
}

/// The delays of a sequence of frames, in order.
pub open spec fn delays_of(frames: Seq<Frame>) -> Seq<i64> {
    frames.map_values(|f: Frame| f.delay_ns)
}

/// How many further steps a walk from `idx` takes until the step that lands
/// on `start` (0 when the very next step lands there). Meaningful for
/// `0 <= idx < len` and `0 <= start < len`.
pub open spec fn steps_to_start(len: int, idx: int, start: int) -> int {
    if start > idx {
        start - idx - 1
    } else {
        start - idx - 1 + len
    }
}

/// One step of the streaming phase: append a pulled frame's delay to the
/// cache, advance the current index by one (wrapping over the grown cache),
/// and credit the new current frame's delay.
pub open spec fn fill_step(m: PlaybackModel, d: i64) -> PlaybackModel {
    let d2 = m.delays.push(d);
    let nidx = wrap_next(d2.len() as int, m.index);
    let nacc = sat_add_i64(m.acc_ns, d2[nidx] as int);
    PlaybackModel { delays: d2, index: nidx, acc_ns: nacc, exhausted: m.exhausted }
}

/// The streaming phase of a clock tick: while time is owed, append one
/// pulled frame to the cache, advance the current index by one (wrapping
/// over the grown cache), and credit the new current frame's delay.
pub open spec fn stream_fill(m: PlaybackModel, pulled: Seq<i64>) -> PlaybackModel
    decreases pulled.len(),
{
    if m.acc_ns > 0 || pulled.len() == 0 {
        m
    } else {
        stream_fill(fill_step(m, pulled[0]), pulled.drop_first())
    }
}

/// Feeding one more frame into a streaming phase that is still owing time
/// applies exactly one further step.
pub proof fn lemma_stream_fill_snoc(m: PlaybackModel, pulled: Seq<i64>, d: i64)
    requires
        stream_fill(m, pulled).acc_ns <= 0,
    ensures
        stream_fill(m, pulled.push(d)) == fill_step(stream_fill(m, pulled), d),
    decreases pulled.len(),
{
    if m.acc_ns > 0 {
        // stream_fill(m, pulled) == m, so the hypothesis puts m.acc_ns <= 0:
        // contradiction, nothing to show.
        assert(stream_fill(m, pulled) == m);
    } else if pulled.len() == 0 {
        assert(pulled.push(d)[0] == d);
        assert(pulled.push(d).drop_first() =~= Seq::<i64>::empty());
        assert(stream_fill(m, pulled.push(d)) == stream_fill(fill_step(m, d), Seq::<i64>::empty()));
    } else {
        assert(pulled.push(d)[0] == pulled[0]);
        assert(pulled.push(d).drop_first() =~= pulled.drop_first().push(d));
        lemma_stream_fill_snoc(fill_step(m, pulled[0]), pulled.drop_first(), d);
    }
}

/// The cache-only phase of a clock tick: while time is owed, advance the
/// current index by one (wrapping past the last cached frame) and credit the
/// new current frame's delay. The walk stops as soon as it lands back on
/// `start`, the index held when the tick began: the second component reports
/// whether that stop cut the walk short while time was still owed (the
/// guard against animations made only of zero-delay frames).
pub open spec fn advance(m: PlaybackModel, start: int) -> (PlaybackModel, bool)
    decreases
            (if m.acc_ns > 0 || m.delays.len() == 0 || !(0 <= m.index < m.delays.len()) || !(0
                <= start < m.delays.len()) {
                0int
            } else {
                1 + steps_to_start(m.delays.len() as int, m.index, start)
            }),
{
    let len = m.delays.len() as int;
    if m.acc_ns > 0 || len == 0 || !(0 <= m.index < len) || !(0 <= start < len) {
        (m, false)
    } else {
        let nidx = wrap_next(len, m.index);
        let nacc = sat_add_i64(m.acc_ns, m.delays[nidx] as int);
        let m2 = PlaybackModel { delays: m.delays, index: nidx, acc_ns: nacc, exhausted: m.exhausted };
        if nidx == start {
            (m2, nacc <= 0)
        } else {
            advance(m2, start)
        }
    }
}

/// One whole clock tick over the model. `pulled` holds the delays of the
/// frames the streaming phase received, `closed` whether the producer was
/// seen to finish during this tick (always true once exhausted). Elapsed
/// time that is zero or negative means no time passed. The second component
/// reports whether the zero-delay guard cut the advance short.
pub open spec fn tick_outcome(m: PlaybackModel, pulled: Seq<i64>, closed: bool, elapsed: int) -> (
    PlaybackModel,
    bool,
) {
    if elapsed <= 0 {
        (m, false)
    } else {
        let m0 = PlaybackModel {
            delays: m.delays,
            index: m.index,
            acc_ns: sat_sub_i64(m.acc_ns, elapsed),
            exhausted: m.exhausted,
        };
        if m.exhausted {
            advance(m0, m.index)
        } else {
            let mf = stream_fill(m0, pulled);
            if closed {
                advance(
                    PlaybackModel {
                        delays: mf.delays,
                        index: mf.index,
                        acc_ns: mf.acc_ns,
                        exhausted: true,
                    },
                    m.index,
                )
            } else {
                (mf, false)
            }
        }
    }
}

/// However a cache-only advance ends, the current frame index stays a
/// valid position in the unchanged cache.
pub proof fn lemma_advance_index_valid(m: PlaybackModel, start: int)
    requires
        m.delays.len() > 0,
        0 <= m.index < m.delays.len(),
        0 <= start < m.delays.len(),
    ensures
        advance(m, start).0.delays == m.delays,
        advance(m, start).0.exhausted == m.exhausted,
        0 <= advance(m, start).0.index < m.delays.len(),
    decreases
            (if m.acc_ns > 0 {
                0int
            } else {
                1 + steps_to_start(m.delays.len() as int, m.index, start)
            }),
{
    if m.acc_ns > 0 {
    } else {
        let len = m.delays.len() as int;
        let nidx = wrap_next(len, m.index);
        let nacc = sat_add_i64(m.acc_ns, m.delays[nidx] as int);
        let m2 = PlaybackModel { delays: m.delays, index: nidx, acc_ns: nacc, exhausted: m.exhausted };
        if nidx == start {
        } else {
            lemma_advance_index_valid(m2, start);
        }
    }
}

/// An animation made only of zero-delay frames cannot stall a tick: when
/// time is owed, the cache-only advance walks at most once around the
/// cache, the guard stops it back on the frame the tick started from, and
/// the index it leaves is a valid, defined frame.
pub proof fn lemma_zero_delay_guard(m: PlaybackModel, start: int)
    requires
        m.delays.len() > 0,
        0 <= m.index < m.delays.len(),
        0 <= start < m.delays.len(),
        i64::MIN <= m.acc_ns <= 0,
        forall|i: int| 0 <= i < m.delays.len() ==> #[trigger] m.delays[i] == 0,
    ensures
        advance(m, start) == (
            PlaybackModel {
                delays: m.delays,
                index: start,
                acc_ns: m.acc_ns,
                exhausted: m.exhausted,
            },
            true,
        ),
    decreases steps_to_start(m.delays.len() as int, m.index, start),
{
    let len = m.delays.len() as int;
    let nidx = wrap_next(len, m.index);
    assert(m.delays[nidx] == 0);
    let nacc = sat_add_i64(m.acc_ns, 0);
    assert(nacc == m.acc_ns);
    let m2 = PlaybackModel { delays: m.delays, index: nidx, acc_ns: m.acc_ns, exhausted: m.exhausted };
    if nidx == start {
    } else {
        lemma_zero_delay_guard(m2, start);
    }
}

/// A cache-only advance that the guard does not cut short ends in the
/// same place whatever index the guard is anchored to.
proof fn lemma_advance_anchor(m: PlaybackModel, s1: int, s2: int)
    requires
        m.delays.len() > 0,
        0 <= m.index < m.delays.len(),
        0 <= s1 < m.delays.len(),
        0 <= s2 < m.delays.len(),
        !advance(m, s1).1,
        !advance(m, s2).1,
    ensures
        advance(m, s1).0 == advance(m, s2).0,
    decreases
            (if m.acc_ns > 0 {
                0int
            } else {
                1 + steps_to_start(m.delays.len() as int, m.index, s1)
            }),
{
    if m.acc_ns > 0 {
    } else {
        let len = m.delays.len() as int;
        let nidx = wrap_next(len, m.index);
        let nacc = sat_add_i64(m.acc_ns, m.delays[nidx] as int);
        let m2 = PlaybackModel { delays: m.delays, index: nidx, acc_ns: nacc, exhausted: m.exhausted };
        if nidx == s1 && nidx == s2 {
        } else if nidx == s1 {
            // the first walk stops here; being guard-free it owes no time,
            // so the second walk stops at the very next check
            assert(advance(m, s1) == (m2, nacc <= 0));
            assert(nacc > 0);
            assert(advance(m, s2) == advance(m2, s2));
            assert(advance(m2, s2) == (m2, false));
        } else if nidx == s2 {
            assert(advance(m, s2) == (m2, nacc <= 0));
            assert(nacc > 0);
            assert(advance(m, s1) == advance(m2, s1));
            assert(advance(m2, s1) == (m2, false));
        } else {
            lemma_advance_anchor(m2, s1, s2);
        }
    }
}

/// The playback state with `b` nanoseconds charged against its
/// accumulated delay.
pub open spec fn charged(m: PlaybackModel, b: int) -> PlaybackModel {
    PlaybackModel { delays: m.delays, index: m.index, acc_ns: m.acc_ns - b, exhausted: m.exhausted }
}

/// Charging time commutes with the cache-only advance: walking first and
/// charging `b` against the result reaches the same state as charging `b`
/// up front and walking, provided neither walk is cut short by the guard
/// and no delay is negative.
proof fn lemma_advance_charge_commutes(m: PlaybackModel, start: int, b: int)
    requires
        m.delays.len() > 0,
        0 <= m.index < m.delays.len(),
        0 <= start < m.delays.len(),
        forall|i: int| 0 <= i < m.delays.len() ==> 0 <= #[trigger] m.delays[i],
        0 <= b,
        i64::MIN <= m.acc_ns - b,
        m.acc_ns <= i64::MAX,
        !advance(m, start).1,
        !advance(charged(m, b), start).1,
    ensures
        advance(charged(m, b), start) == advance(charged(advance(m, start).0, b), start),
    decreases
            (if m.acc_ns > 0 {
                0int
            } else {
                1 + steps_to_start(m.delays.len() as int, m.index, start)
            }),
{
    if m.acc_ns > 0 {
        // the uncharged walk does not move, so both sides charge the same
        // state
        assert(advance(m, start).0 == m);
    } else {
        let len = m.delays.len() as int;
        let nidx = wrap_next(len, m.index);
        let d = m.delays[nidx] as int;
        let nacc = sat_add_i64(m.acc_ns, d);
        assert(nacc == m.acc_ns + d);
        let m2 = PlaybackModel { delays: m.delays, index: nidx, acc_ns: nacc, exhausted: m.exhausted };
        let mc = charged(m, b);
        let nacc_c = sat_add_i64(mc.acc_ns, d);
        assert(nacc_c == m.acc_ns - b + d);
        let m2c = PlaybackModel {
            delays: m.delays,
            index: nidx,
            acc_ns: nacc_c,
            exhausted: m.exhausted,
        };
        assert(m2c == charged(m2, b));
        if nidx == start {
            // the uncharged walk stops on its anchor; guard-free, it owes
            // no time, and neither does the charged walk by its own
            // guard-freedom
            assert(nacc > 0);
            assert(nacc_c > 0);
            assert(advance(m, start).0 == m2);
            assert(advance(charged(m, b), start) == (m2c, false));
            assert(advance(charged(m2, b), start) == (m2c, false));
        } else {
            lemma_advance_charge_commutes(m2, start, b);
        }
    }
}

/// With no negative delay in the cache, a cache-only advance never
/// lowers the accumulated delay, and keeps it representable.
proof fn lemma_advance_acc_bounded(m: PlaybackModel, start: int)
    requires
        m.delays.len() > 0,
        0 <= m.index < m.delays.len(),
        0 <= start < m.delays.len(),
        forall|i: int| 0 <= i < m.delays.len() ==> 0 <= #[trigger] m.delays[i],
        i64::MIN <= m.acc_ns <= i64::MAX,
    ensures
        advance(m, start).0.acc_ns >= m.acc_ns,
        i64::MIN <= advance(m, start).0.acc_ns <= i64::MAX,
    decreases
            (if m.acc_ns > 0 {
                0int
            } else {
                1 + steps_to_start(m.delays.len() as int, m.index, start)
            }),
{
    if m.acc_ns > 0 {
    } else {
        let len = m.delays.len() as int;
        let nidx = wrap_next(len, m.index);
        let nacc = sat_add_i64(m.acc_ns, m.delays[nidx] as int);
        let m2 = PlaybackModel { delays: m.delays, index: nidx, acc_ns: nacc, exhausted: m.exhausted };
        if nidx == start {
        } else {
            lemma_advance_acc_bounded(m2, start);
        }
    }
}

/// Ticking a completed animation by `a` and then by `b` lands in exactly
/// the state a single tick of `a + b` reaches, for any split of a
/// nonnegative elapsed duration on which the zero-delay guard does not cut
/// any of the three walks short. (The guard deliberately trades a little
/// timing for liveness; splits on which it fires are exempt.)
pub proof fn lemma_tick_decomposes(m: PlaybackModel, a: int, b: int)
    requires
        m.exhausted,
        m.delays.len() > 0,
        0 <= m.index < m.delays.len(),
        forall|i: int| 0 <= i < m.delays.len() ==> 0 <= #[trigger] m.delays[i],
        0 <= a,
        0 <= b,
        i64::MIN <= m.acc_ns - a - b,
        m.acc_ns <= i64::MAX,
        !tick_outcome(m, Seq::empty(), true, a).1,
        !tick_outcome(tick_outcome(m, Seq::empty(), true, a).0, Seq::empty(), true, b).1,
        !tick_outcome(m, Seq::empty(), true, a + b).1,
    ensures
        tick_outcome(tick_outcome(m, Seq::empty(), true, a).0, Seq::empty(), true, b).0
            == tick_outcome(m, Seq::empty(), true, a + b).0,
{
    if a == 0 {
        assert(tick_outcome(m, Seq::empty(), true, a).0 == m);
    } else if b == 0 {
        let s1 = tick_outcome(m, Seq::empty(), true, a).0;
        assert(tick_outcome(s1, Seq::empty(), true, b).0 == s1);
    } else {
        let ma = charged(m, a);
        assert(sat_sub_i64(m.acc_ns, a) == m.acc_ns - a);
        assert(sat_sub_i64(m.acc_ns, a + b) == m.acc_ns - a - b);
        let s1 = advance(ma, m.index).0;
        assert(tick_outcome(m, Seq::empty(), true, a).0 == s1);
        lemma_advance_index_valid(ma, m.index);
        lemma_advance_charge_commutes(ma, m.index, b);
        assert(charged(ma, b) == charged(m, a + b));
        assert(advance(charged(m, a + b), m.index) == advance(charged(s1, b), m.index));
        // the second tick anchors on where the first one landed; with both
        // walks guard-free the anchor makes no difference
        lemma_advance_acc_bounded(ma, m.index);
        assert(s1.acc_ns >= ma.acc_ns);
        assert(s1.acc_ns - b >= m.acc_ns - a - b);
        assert(s1.acc_ns <= i64::MAX);
        assert(sat_sub_i64(s1.acc_ns, b) == s1.acc_ns - b);
        assert(tick_outcome(s1, Seq::empty(), true, b).0 == advance(charged(s1, b), s1.index).0);
        lemma_advance_anchor(charged(s1, b), m.index, s1.index);
    }
}

/// Saturating `i64` subtraction: the accumulated delay bottoms out rather
/// than wrapping when a clock reports an absurd elapsed time.
fn sat_sub_exec(x: i64, y: i64) -> (r: i64)
    ensures
        r as int == sat_sub_i64(x as int, y as int),
{
    match x.checked_sub(y) {
        Some(v) => v,
        None => if y >= 0 {
            i64::MIN
        } else {
            i64::MAX
        },
    }
}

/// Saturating `i64` addition, the mirror of `sat_sub_exec`.
fn sat_add_exec(x: i64, y: i64) -> (r: i64)
    ensures
        r as int == sat_add_i64(x as int, y as int),
{
    match x.checked_add(y) {
        Some(v) => v,
        None => if y >= 0 {
            i64::MAX
        } else {
            i64::MIN
        },
    }
}

/// Frame cache and playback state for one image. Frames arrive from a
/// background decode task through the hand-off queue; once the queue closes
/// the animation is complete and playback loops over the cache.
pub struct PlaybackView {
    source: Option<std::sync::mpsc::Receiver<Frame>>,
    frames: Vec<Frame>,
    current: usize,
    acc_delay_ns: i64,
    size: Option<(usize, usize)>,
}

impl PlaybackView {
    /// Internal well-formedness: the current index stays inside the cache
    /// (and is pinned to 0 while the cache is empty). Constructors establish
    /// it and every operation preserves it.
    pub closed spec fn wf(&self) -> bool {
        &&& self.frames@.len() == 0 ==> self.current == 0
        &&& self.frames@.len() > 0 ==> (self.current as int) < self.frames@.len()
    }

    /// The cached frames, in arrival (display) order.
    pub closed spec fn frame_seq(&self) -> Seq<Frame> {
        self.frames@
    }

    /// The playback state this view is in.
    pub closed spec fn model(&self) -> PlaybackModel {
        PlaybackModel {
            delays: delays_of(self.frames@),
            index: self.current as int,
            acc_ns: self.acc_delay_ns as int,
            exhausted: self.source is None,
        }
    }

    /// The image size this view reports to the compositor.
    pub closed spec fn size_spec(&self) -> Option<(usize, usize)> {
        self.size
    }

    /// A fresh view in the streaming state: no frame cached yet, the image
    /// size unknown until the first frame arrives.
    pub fn new_streaming(rx: std::sync::mpsc::Receiver<Frame>) -> (v: PlaybackView)
        ensures
            v.wf(),
            v.frame_seq() == Seq::<Frame>::empty(),
            v.model() == (PlaybackModel {
                delays: Seq::<i64>::empty(),
                index: 0,
                acc_ns: 0,
                exhausted: false,
            }),
            v.size_spec() is None,
    {
        let v = PlaybackView {
            source: Some(rx),
            frames: Vec::new(),
            current: 0,
            acc_delay_ns: 0,
            size: None,
        };
        proof {
            assert(delays_of(v.frames@) =~= Seq::<i64>::empty());
        }
        v
    }

    /// A fresh streaming view whose image size is already known from the
    /// stream's header, as a GIF's logical screen declares it.
    pub fn new_with_size(rx: std::sync::mpsc::Receiver<Frame>, width: usize, height: usize) -> (v:
        PlaybackView)
        ensures
            v.wf(),
            v.frame_seq() == Seq::<Frame>::empty(),
            v.model() == (PlaybackModel {
                delays: Seq::<i64>::empty(),
                index: 0,
                acc_ns: 0,
                exhausted: false,
            }),
            v.size_spec() == Some((width, height)),
    {
        let v = PlaybackView {
            source: Some(rx),
            frames: Vec::new(),
            current: 0,
            acc_delay_ns: 0,
            size: Some((width, height)),
        };
        proof {
            assert(delays_of(v.frames@) =~= Seq::<i64>::empty());
        }
        v
    }

    /// A view that never had a producer: zero frames, nothing to paint. This
    /// is what an unsupported or unreadable file yields; every operation on
    /// it is a no-op.
    pub fn new_empty() -> (v: PlaybackView)
        ensures
            v.wf(),
            v.frame_seq() == Seq::<Frame>::empty(),
            v.model() == (PlaybackModel {
                delays: Seq::<i64>::empty(),
                index: 0,
                acc_ns: 0,
                exhausted: true,
            }),
            v.size_spec() is None,
    {
        let v = PlaybackView { source: None, frames: Vec::new(), current: 0, acc_delay_ns: 0, size: None };
        proof {
            assert(delays_of(v.frames@) =~= Seq::<i64>::empty());
        }
        v
    }

    /// The image size, `None` until the first frame has arrived (or the
    /// size was known from the stream's header).
    pub fn current_image_size(&self) -> (r: Option<(usize, usize)>)
        ensures
            r == self.size_spec(),
    {
        self.size
    }

    /// The index of the frame currently on screen.
    pub fn current_frame_index(&self) -> (r: usize)
        ensures
            r as int == self.model().index,
    {
        self.current
    }

    /// Nanoseconds left before the next frame transition; negative values
    /// are a deficit carried into later transitions.
    pub fn accumulated_delay_ns(&self) -> (r: i64)
        ensures
            r as int == self.model().acc_ns,
    {
        self.acc_delay_ns
    }

    /// How many frames have been cached so far.
    pub fn frame_count(&self) -> (r: usize)
        ensures
            r as int == self.frame_seq().len(),
    {
        self.frames.len()
    }

    /// Whether the producer has finished (the queue closed): the animation
    /// is complete and playback is served from the cache alone.
    pub fn is_exhausted(&self) -> (r: bool)
        ensures
            r == self.model().exhausted,
    {
        self.source.is_none()
    }

    /// The cached frame at `i`.
    pub fn frame_at(&self, i: usize) -> (r: &Frame)
        requires
            i < self.frame_seq().len(),
        ensures
            *r == self.frame_seq()[i as int],
    {
        &self.frames[i]
    }

    /// How the image size reported after an operation relates to the size
    /// before it and to the frames pulled during it: the first frame ever
    /// pulled fixes the size, unless the stream's header already had.
    pub open spec fn size_after(
        before: Option<(usize, usize)>,
        pulled: Seq<Frame>,
    ) -> Option<(usize, usize)> {
        if before is Some {
            before
        } else if pulled.len() > 0 {
            Some((pulled[0].width, pulled[0].height))
        } else {
            None
        }
    }

    /// One clock tick: charge `elapsed_ns` against the accumulated delay,
    /// then, while time is owed, pull frames from the producer (while it
    /// still streams) and advance through the cache, stopping early only if
    /// the walk would revisit the frame the tick started on. The returned
    /// ghost sequence holds the frames pulled during this tick.
    pub fn tick(&mut self, elapsed_ns: i64) -> (pulled: Ghost<Seq<Frame>>)
        requires
            old(self).wf(),
        ensures
            final(self).wf(),
            final(self).frame_seq() == old(self).frame_seq() + pulled@,
            old(self).model().exhausted ==> pulled@.len() == 0,
            final(self).model() == tick_outcome(
                old(self).model(),
                delays_of(pulled@),
                final(self).model().exhausted,
                elapsed_ns as int,
            ).0,
            final(self).size_spec() == Self::size_after(old(self).size_spec(), pulled@),
            elapsed_ns > 0 && !final(self).model().exhausted ==> final(self).model().acc_ns > 0,
            old(self).model().exhausted ==> final(self).model().exhausted,
    {
        let ghost mut pulled: Seq<Frame> = Seq::empty();
        if elapsed_ns <= 0 {
            proof {
                assert(old(self).frame_seq() + pulled =~= old(self).frame_seq());
            }
            return Ghost(pulled);
        }
        let start: usize = self.current;
        self.acc_delay_ns = sat_sub_exec(self.acc_delay_ns, elapsed_ns);
        let ghost m0 = self.model();
        // Streaming phase: grow the cache while time is owed.
        if self.source.is_some() {
            loop
                invariant_except_break
                    self.source is Some,
                invariant
                    old(self).model().exhausted == false,
                    m0 == (PlaybackModel {
                        delays: delays_of(old(self).frame_seq()),
                        index: old(self).model().index,
                        acc_ns: sat_sub_i64(old(self).model().acc_ns, elapsed_ns as int),
                        exhausted: false,
                    }),
                    start as int == old(self).model().index,
                    self.frames@ == old(self).frame_seq() + pulled,
                    self.size == Self::size_after(old(self).size_spec(), pulled),
                    stream_fill(m0, delays_of(pulled)) == (PlaybackModel {
                        delays: delays_of(self.frames@),
                        index: self.current as int,
                        acc_ns: self.acc_delay_ns as int,
                        exhausted: false,
                    }),
                    self.frames@.len() == 0 ==> self.current == 0,
                    self.frames@.len() > 0 ==> (self.current as int) < self.frames@.len(),
                ensures
                    self.source is None || self.acc_delay_ns > 0,
                decreases usize::MAX - self.frames.len(),
            {
                if self.acc_delay_ns > 0 {
                    break;
                }
                let got = recv_frame(self.source.as_ref().unwrap());
                match got {
                    None => {
                        self.source = None;
                        break;
                    },
                    Some(f) => {
                        proof {
                            lemma_stream_fill_snoc(m0, delays_of(pulled), f.delay_ns);
                            assert(delays_of(pulled.push(f)) =~= delays_of(pulled).push(
                                f.delay_ns,
                            ));
                            assert(delays_of(self.frames@.push(f)) =~= delays_of(
                                self.frames@,
                            ).push(f.delay_ns));
                            assert(old(self).frame_seq() + pulled.push(f) =~= (old(
                                self,
                            ).frame_seq() + pulled).push(f));
                        }
                        if self.size.is_none() {
                            self.size = Some((f.width, f.height));
                        }
                        self.frames.push(f);
                        let len_now = self.frames.len();
                        let next = self.current + 1;
                        self.current = if next >= len_now {
                            0
                        } else {
                            next
                        };
                        let d = self.frames[self.current].delay_ns;
                        self.acc_delay_ns = sat_add_exec(self.acc_delay_ns, d);
                        proof {
                            pulled = pulled.push(f);
                        }
                    },
                }
            }
        } else {
            proof {
                assert(self.frames@ =~= old(self).frame_seq() + pulled);
            }
        }
        // Cache-only phase: loop over what is cached, guarding against a
        // walk that never stops on zero-delay frames.
        if self.source.is_none() && self.frames.len() > 0 {
            let ghost m1 = PlaybackModel {
                delays: delays_of(self.frames@),
                index: self.current as int,
                acc_ns: self.acc_delay_ns as int,
                exhausted: true,
            };
            let ghost frames1 = self.frames@;
            let ghost size1 = self.size;
            proof {
                assert(old(self).frame_seq().len() <= self.frames@.len());
                assert((start as int) < self.frames@.len());
            }
            loop
                invariant_except_break
                    advance(
                        PlaybackModel {
                            delays: delays_of(self.frames@),
                            index: self.current as int,
                            acc_ns: self.acc_delay_ns as int,
                            exhausted: true,
                        },
                        start as int,
                    ) == advance(m1, start as int),
                invariant
                    self.source is None,
                    self.frames@ == frames1,
                    self.size == size1,
                    self.frames@.len() > 0,
                    (self.current as int) < self.frames@.len(),
                    (start as int) < self.frames@.len(),
                    m1.delays == delays_of(frames1),
                    m1.exhausted,
                ensures
                    self.source is None,
                    self.frames@ == frames1,
                    self.size == size1,
                    (self.current as int) < self.frames@.len(),
                    (PlaybackModel {
                        delays: delays_of(self.frames@),
                        index: self.current as int,
                        acc_ns: self.acc_delay_ns as int,
                        exhausted: true,
                    }) == advance(m1, start as int).0,
                decreases steps_to_start(
                    self.frames@.len() as int,
                    self.current as int,
                    start as int,
                ),
            {
                if self.acc_delay_ns > 0 {
                    break;
                }
                let ghost h = PlaybackModel {
                    delays: delays_of(self.frames@),
                    index: self.current as int,
                    acc_ns: self.acc_delay_ns as int,
                    exhausted: true,
                };
                let len_now = self.frames.len();
                let next = self.current + 1;
                self.current = if next >= len_now {
                    0
                } else {
                    next
                };
                let d = self.frames[self.current].delay_ns;
                self.acc_delay_ns = sat_add_exec(self.acc_delay_ns, d);
                proof {
                    let h2 = PlaybackModel {
                        delays: delays_of(self.frames@),
                        index: self.current as int,
                        acc_ns: self.acc_delay_ns as int,
                        exhausted: true,
                    };
                    assert(delays_of(self.frames@)[h2.index] == self.frames@[h2.index].delay_ns);
                    assert(h2.index == wrap_next(h.delays.len() as int, h.index));
                    assert(h2.acc_ns == sat_add_i64(h.acc_ns, h.delays[h2.index] as int));
                    if h2.index == start as int {
                        assert(advance(h, start as int).0 == h2);
                    } else {
                        assert(advance(h, start as int) == advance(h2, start as int));
                        assert(steps_to_start(
                            self.frames@.len() as int,
                            h2.index,
                            start as int,
                        ) == steps_to_start(self.frames@.len() as int, h.index, start as int) - 1);
                    }
                }
                if self.current == start {
                    break;
                }
            }
        }
        Ghost(pulled)
    }

    /// Pulls one frame from the producer if it is still streaming, caching
    /// it without advancing playback. Returns whether a frame arrived; a
    /// `false` on a streaming view means the queue closed and the animation
    /// is complete.
    pub fn load_next(&mut self) -> (loaded: bool)
        requires
            old(self).wf(),
        ensures
            final(self).wf(),
            final(self).model().index == old(self).model().index,
            final(self).model().acc_ns == old(self).model().acc_ns,
            old(self).model().exhausted ==> {
                &&& final(self).frame_seq() == old(self).frame_seq()
                &&& final(self).model() == old(self).model()
                &&& final(self).size_spec() == old(self).size_spec()
                &&& !loaded
            },
            loaded ==> {
                &&& !old(self).model().exhausted
                &&& !final(self).model().exhausted
                &&& final(self).frame_seq() == old(self).frame_seq().push(
                    final(self).frame_seq().last(),
                )
                &&& final(self).size_spec() == Self::size_after(
                    old(self).size_spec(),
                    Seq::empty().push(final(self).frame_seq().last()),
                )
            },
            !loaded && !old(self).model().exhausted ==> {
                &&& final(self).model().exhausted
                &&& final(self).frame_seq() == old(self).frame_seq()
                &&& final(self).size_spec() == old(self).size_spec()
            },
    {
        if self.source.is_some() {
            let got = recv_frame(self.source.as_ref().unwrap());
            match got {
                None => {
                    self.source = None;
                    false
                },
                Some(f) => {
                    if self.size.is_none() {
                        self.size = Some((f.width, f.height));
                    }
                    let ghost fg = f;
                    self.frames.push(f);
                    proof {
                        assert(self.frames@ =~= old(self).frame_seq().push(fg));
                        assert(delays_of(self.frames@) =~= delays_of(old(self).frame_seq()).push(
                            fg.delay_ns,
                        ));
                    }
                    true
                },
            }
        } else {
            false
        }
    }

    /// The frame to paint now: the cached frame at the current index,
    /// pulling one frame first if the cache is still empty, so that a view
    /// has something to paint as soon as any data exists. With zero frames
    /// decoded this is a no-op returning `None`.
    pub fn current(&mut self) -> (r: Option<&Frame>)
        requires
            old(self).wf(),
        ensures
            final(self).wf(),
            final(self).model().index == old(self).model().index,
            final(self).model().acc_ns == old(self).model().acc_ns,
            old(self).frame_seq().len() > 0 ==> {
                &&& final(self).frame_seq() == old(self).frame_seq()
                &&& final(self).model() == old(self).model()
                &&& final(self).size_spec() == old(self).size_spec()
            },
            final(self).frame_seq().len() > 0 ==> (r matches Some(f) && *f
                == final(self).frame_seq()[final(self).model().index]),
            final(self).frame_seq().len() == 0 ==> r is None,
            final(self).frame_seq().len() >= old(self).frame_seq().len(),
            final(self).frame_seq().len() <= old(self).frame_seq().len() + 1,
    {
        if self.frames.len() == 0 {
            self.load_next();
        }
        if self.frames.len() == 0 {
            None
        } else {
            Some(&self.frames[self.current])
        }
    }
}

} // verus!
