//! The zoom knob of a layer: an integer position per image plus a global
//! adjustment. Turning a knob is reverted when it cannot change the scale
//! factor any more, so the knob never drifts into a dead zone.

use vstd::prelude::*;

verus! {

/// Below this knob position the scale factor is pinned to its floor value,
/// so turns that stay at or below it leave the scale unchanged.
pub const KNOB_FLOOR: i32 = -25;

/// Per-image zoom state. `knob` is the image's own zoom position (0 means no
/// zoom, negative zooms out); `extra` is the global zoom applied on top.
/// The scale factor itself is display math left to the renderer; what this
/// type pins down is when a turn of either knob takes effect.
#[derive(Clone, Copy, Debug)]
pub struct Zoom {
    knob: i32,
    extra: i32,
}

/// Whether moving the image knob from `from` to `to` changes the scale
/// factor: any move between distinct positions does, except one that stays
/// inside the floored region where the scale is pinned.
pub open spec fn knob_scale_changes(from: int, to: int) -> bool {
    from != to && !(from <= KNOB_FLOOR && to <= KNOB_FLOOR)
}

impl Zoom {
    /// The image knob position.
    pub closed spec fn knob_spec(&self) -> int {
        self.knob as int
    }

    /// The global knob position.
    pub closed spec fn extra_spec(&self) -> int {
        self.extra as int
    }

    /// A zoom at rest: both knobs at 0, scale factor 1.
    pub fn new() -> (z: Zoom)
        ensures
            z.knob_spec() == 0,
            z.extra_spec() == 0,
    {
        Zoom { knob: 0, extra: 0 }
    }

    /// The image knob position.
    pub fn knob(&self) -> (r: i32)
        ensures
            r as int == self.knob_spec(),
    {
        self.knob
    }

    /// The global knob position.
    pub fn extra(&self) -> (r: i32)
        ensures
            r as int == self.extra_spec(),
    {
        self.extra
    }

    /// Turns the image knob by `delta`. The turn sticks exactly when it
    /// changes the scale factor; a turn that leaves the scale where it was
    /// (both positions inside the floored region, or a zero delta) is
    /// reverted.
    pub fn turn_the_knob(&mut self, delta: i32)
        requires
            i32::MIN <= old(self).knob_spec() + delta <= i32::MAX,
        ensures
            final(self).extra_spec() == old(self).extra_spec(),
            final(self).knob_spec() == if knob_scale_changes(
                old(self).knob_spec(),
                old(self).knob_spec() + delta,
            ) {
                old(self).knob_spec() + delta
            } else {
                old(self).knob_spec()
            },
    {
        let old_knob = self.knob;
        self.knob = self.knob + delta;
        // If the scale factor cannot have changed, revert the turn.
        if !(self.knob != old_knob && !(old_knob <= KNOB_FLOOR && self.knob <= KNOB_FLOOR)) {
            self.knob = old_knob;
        }
    }

    /// Turns the global knob by `delta`. The global factor has no floor, so
    /// every nonzero turn changes the scale and sticks.
    pub fn turn_the_global_knob(&mut self, delta: i32)
        requires
            i32::MIN <= old(self).extra_spec() + delta <= i32::MAX,
        ensures
            final(self).knob_spec() == old(self).knob_spec(),
            final(self).extra_spec() == old(self).extra_spec() + delta,
    {
        self.extra = self.extra + delta;
    }
}

impl PartialEq for Zoom {
    /// Two zooms are the same when their image knobs agree: the global knob
    /// is shared state that is not persisted with the image.
    fn eq(&self, other: &Self) -> (r: bool) {
        self.knob == other.knob
    }
}

impl vstd::std_specs::cmp::PartialEqSpecImpl for Zoom {
    open spec fn obeys_eq_spec() -> bool {
        true
    }

    open spec fn eq_spec(&self, other: &Zoom) -> bool {
        self.knob_spec() == other.knob_spec()
    }
}

impl Default for Zoom {
    fn default() -> (z: Zoom)
        ensures
            z.knob_spec() == 0,
            z.extra_spec() == 0,
    {
        Zoom { knob: 0, extra: 0 }
    }
}

} // verus!
