//! The frame-delay timing model: each format declares delays in its own
//! unit, and every emitted frame carries nanoseconds. The conversions are
//! exact where the unit divides a nanosecond count, and floor-rounded with
//! a bounded error where it does not.

use vstd::prelude::*;

verus! {

/// The sum of a sequence of delays, as a mathematical integer.
pub open spec fn sum_i64(s: Seq<i64>) -> int
    decreases s.len(),
{
    if s.len() == 0 {
        0
    } else {
        sum_i64(s.drop_last()) + s.last()
    }
}

/// The sum of a sequence of GIF delay ticks, as a mathematical integer.
pub open spec fn sum_u16(s: Seq<u16>) -> int
    decreases s.len(),
{
    if s.len() == 0 {
        0
    } else {
        sum_u16(s.drop_last()) + s.last()
    }
}

/// A GIF delay is counted in hundredths of a second.
pub fn gif_delay_ns(ticks: u16) -> (r: i64)
    ensures
        r as int == (ticks as int) * 10_000_000,
        0 <= r <= 655_350_000_000,
{
    proof {
        assert((ticks as int) * 10_000_000 <= 65535 * 10_000_000) by (nonlinear_arith)
            requires
                0 <= ticks as int <= 65535,
        ;
        assert((ticks as int) * 10_000_000 >= 0) by (nonlinear_arith)
            requires
                0 <= ticks as int,
        ;
    }
    (ticks as i64) * 10_000_000
}

/// A WebP frame's delay is the gap between its timestamp and the previous
/// frame's, in milliseconds; a regressing timestamp counts as no time.
pub fn webp_delay_ns(timestamp_ms: i32, prev_timestamp_ms: i32) -> (r: i64)
    ensures
        timestamp_ms >= prev_timestamp_ms ==> r as int == (timestamp_ms - prev_timestamp_ms)
            * 1_000_000,
        timestamp_ms < prev_timestamp_ms ==> r == 0,
        r >= 0,
{
    if timestamp_ms < prev_timestamp_ms {
        return 0;
    }
    let gap: i64 = (timestamp_ms as i64) - (prev_timestamp_ms as i64);
    proof {
        assert(gap * 1_000_000 <= 4_294_967_296i64 * 1_000_000) by (nonlinear_arith)
            requires
                0 <= gap <= 4_294_967_296i64,
        ;
        assert(gap * 1_000_000 >= 0) by (nonlinear_arith)
            requires
                gap >= 0,
        ;
    }
    gap * 1_000_000
}

/// The denominator an APNG delay fraction actually uses: a declared zero
/// stands for 100.
pub open spec fn png_den(den: u16) -> int {
    if den == 0 {
        100
    } else {
        den as int
    }
}

/// An APNG delay is the fraction `num / den` of a second, floor-rounded to
/// whole nanoseconds.
pub fn png_delay_ns(num: u16, den: u16) -> (r: i64)
    ensures
        r as int == 1_000_000_000 * (num as int) / png_den(den),
        0 <= r <= 65_535_000_000_000,
{
    let d: u64 = if den == 0 {
        100
    } else {
        den as u64
    };
    let total: u64 = 1_000_000_000u64 * (num as u64);
    proof {
        assert(1_000_000_000 * (num as int) <= 1_000_000_000 * 65535) by (nonlinear_arith)
            requires
                0 <= num as int <= 65535,
        ;
        assert(1_000_000_000 * (num as int) >= 0) by (nonlinear_arith)
            requires
                0 <= num as int,
        ;
        vstd::arithmetic::div_mod::lemma_div_is_ordered(
            1_000_000_000 * (num as int),
            1_000_000_000int * 65535,
            d as int,
        );
        vstd::arithmetic::div_mod::lemma_div_is_ordered(0, 1_000_000_000 * (num as int), d as int);
        assert(1_000_000_000int * 65535 / (d as int) <= 1_000_000_000int * 65535) by {
            vstd::arithmetic::div_mod::lemma_div_is_ordered_by_denominator(
                1_000_000_000int * 65535,
                1,
                d as int,
            );
        }
    }
    (total / d) as i64
}

/// The floor rounding in an APNG delay loses less than one denominator
/// unit: scaled back by the denominator, the emitted nanoseconds bracket
/// the exact fraction.
pub proof fn lemma_png_delay_rounding(num: u16, den: u16, delay: int)
    requires
        delay == 1_000_000_000 * (num as int) / png_den(den),
    ensures
        png_den(den) * delay <= 1_000_000_000 * (num as int) < png_den(den) * (delay + 1),
{
    let d = png_den(den);
    let n = 1_000_000_000 * (num as int);
    vstd::arithmetic::div_mod::lemma_fundamental_div_mod(n, d);
    vstd::arithmetic::div_mod::lemma_mod_bound(n, d);
    assert(d * delay <= d * delay + n % d) by (nonlinear_arith)
        requires
            n % d >= 0,
    ;
    assert(d * (delay + 1) == d * delay + d) by (nonlinear_arith);
}

/// Over one full loop of a GIF, the emitted delays sum to exactly the
/// stream's nominal duration: ten million nanoseconds per declared tick,
/// with no rounding at all.
pub proof fn lemma_gif_total_duration(ticks: Seq<u16>, delays: Seq<i64>)
    requires
        delays.len() == ticks.len(),
        forall|i: int|
            0 <= i < ticks.len() ==> (#[trigger] delays[i]) as int == (ticks[i] as int)
                * 10_000_000,
    ensures
        sum_i64(delays) == 10_000_000 * sum_u16(ticks),
    decreases ticks.len(),
{
    if ticks.len() == 0 {
    } else {
        lemma_gif_total_duration(ticks.drop_last(), delays.drop_last());
        assert(10_000_000 * sum_u16(ticks) == 10_000_000 * sum_u16(ticks.drop_last()) + 10_000_000
            * (ticks.last() as int)) by (nonlinear_arith)
            requires
                sum_u16(ticks) == sum_u16(ticks.drop_last()) + ticks.last(),
        ;
    }
}

/// Over one full loop of a WebP animation with nondecreasing timestamps,
/// the emitted delays telescope to exactly the last timestamp times one
/// million: the nominal total duration in nanoseconds.
pub proof fn lemma_webp_total_duration(stamps: Seq<i32>, delays: Seq<i64>)
    requires
        delays.len() == stamps.len(),
        forall|i: int|
            0 < i < stamps.len() ==> (stamps[i - 1] as int) <= (#[trigger] stamps[i]) as int,
        stamps.len() > 0 ==> 0 <= (stamps[0] as int),
        forall|i: int|
            0 < i < stamps.len() ==> (#[trigger] delays[i]) as int == ((stamps[i] as int) - (
            stamps[i - 1] as int)) * 1_000_000,
        stamps.len() > 0 ==> (delays[0] as int) == (stamps[0] as int) * 1_000_000,
    ensures
        stamps.len() == 0 ==> sum_i64(delays) == 0,
        stamps.len() > 0 ==> sum_i64(delays) == (stamps.last() as int) * 1_000_000,
    decreases stamps.len(),
{
    if stamps.len() == 0 {
    } else if stamps.len() == 1 {
        assert(delays.drop_last() =~= Seq::<i64>::empty());
        assert(sum_i64(Seq::<i64>::empty()) == 0);
        assert(delays.last() == delays[0]);
        assert(sum_i64(delays) == sum_i64(delays.drop_last()) + delays.last());
        assert(sum_i64(delays) == delays[0]);
        assert(stamps.last() == stamps[0]);
        assert(sum_i64(delays) == (stamps.last() as int) * 1_000_000);
    } else {
        let k = stamps.len() - 1;
        let s2 = stamps.drop_last();
        let d2 = delays.drop_last();
        assert forall|i: int| 0 < i < s2.len() implies (s2[i - 1] as int) <= (
        #[trigger] s2[i]) as int by {
            assert(s2[i] == stamps[i]);
            assert(s2[i - 1] == stamps[i - 1]);
        }
        assert forall|i: int| 0 < i < s2.len() implies (#[trigger] d2[i]) as int == ((
        s2[i] as int) - (s2[i - 1] as int)) * 1_000_000 by {
            assert(d2[i] == delays[i]);
            assert(s2[i] == stamps[i]);
            assert(s2[i - 1] == stamps[i - 1]);
        }
        assert(s2[0] == stamps[0]);
        assert(d2[0] == delays[0]);
        lemma_webp_total_duration(s2, d2);
        assert(s2.last() == stamps[k - 1]);
        assert(delays.last() == delays[k]);
        assert(stamps.last() == stamps[k]);
        assert((delays[k] as int) == ((stamps[k] as int) - (stamps[k - 1] as int)) * 1_000_000);
        assert((stamps[k - 1] as int) * 1_000_000 + ((stamps[k] as int) - (stamps[k - 1] as int))
            * 1_000_000 == (stamps[k] as int) * 1_000_000) by (nonlinear_arith);
        assert(sum_i64(d2) == (stamps[k - 1] as int) * 1_000_000);
        assert(sum_i64(delays) == sum_i64(d2) + delays[k]);
        assert(sum_i64(delays) == (stamps.last() as int) * 1_000_000);
    }
}

} // verus!
