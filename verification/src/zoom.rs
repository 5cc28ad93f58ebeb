//! A validated map zoom level.
//!
//! The level is held in thousandths of a zoom level ("millis"), so that the
//! range check, the unit steps and the rounding are exact integer arithmetic.
//! A widget driven by a continuous input device converts its floating-point
//! deltas to thousandths at this crate's edge.

use vstd::prelude::*;

verus! {

/// Error returned when a zoom level outside the supported range is requested.
#[derive(Debug, Clone, Copy, PartialEq, Eq, Structural)]
pub struct InvalidZoom;

/// One zoom level, in thousandths.
pub const ZOOM_LEVEL_MILLIS: u32 = 1_000;

/// The largest supported zoom level (19), in thousandths.
/// Mapnik-style tile servers support zooms up to 19.
pub const MAX_ZOOM_MILLIS: u32 = 19_000;

/// The zoom level used when none was chosen (16), in thousandths.
pub const DEFAULT_ZOOM_MILLIS: u32 = 16_000;

/// Map zoom level, in thousandths of a level.
///
/// Always within `[0, MAX_ZOOM_MILLIS]`: construction validates the value and
/// the adjustment operations leave the level unchanged instead of moving it
/// out of range, so an invalid level is unconstructible.
#[derive(Debug, Clone, Copy)]
pub struct Zoom {
    millis: u32,
}

impl View for Zoom {
    type V = int;

    /// The level in thousandths, as a mathematical integer.
    closed spec fn view(&self) -> int {
        self.millis as int
    }
}

impl Default for Zoom {
    /// The zoom level used when none was chosen.
    fn default() -> (zoom: Self)
        ensures
            zoom@ == DEFAULT_ZOOM_MILLIS,
    {
        Zoom { millis: DEFAULT_ZOOM_MILLIS }
    }
}

impl Zoom {
    #[verifier::type_invariant]
    spec fn in_range(self) -> bool {
        self.millis <= MAX_ZOOM_MILLIS
    }

    /// Validated construction: accepts exactly the levels within
    /// `[0, MAX_ZOOM_MILLIS]` thousandths, and rejects every other value
    /// with [`InvalidZoom`].
    pub fn try_from(millis: i32) -> (result: Result<Zoom, InvalidZoom>)
        ensures
            result is Ok <==> 0 <= millis <= MAX_ZOOM_MILLIS,
            result matches Ok(zoom) ==> zoom@ == millis,
    {
        if 0 <= millis && millis <= MAX_ZOOM_MILLIS as i32 {
            Ok(Zoom { millis: millis as u32 })
        } else {
            Err(InvalidZoom)
        }
    }

    /// The level in thousandths. Every observable level lies within the
    /// supported range.
    pub fn millis(&self) -> (millis: u32)
        ensures
            millis == self@,
            0 <= self@ <= MAX_ZOOM_MILLIS,
    {
        proof {
            use_type_invariant(self);
        }
        self.millis
    }

    /// The nearest whole zoom level. Halves round up, which on this
    /// non-negative range is rounding half away from zero.
    pub fn round(&self) -> (level: u8)
        ensures
            level == (self@ + ZOOM_LEVEL_MILLIS / 2) / (ZOOM_LEVEL_MILLIS as int),
    {
        proof {
            use_type_invariant(self);
        }
        ((self.millis + ZOOM_LEVEL_MILLIS / 2) / ZOOM_LEVEL_MILLIS) as u8
    }

    /// One level deeper. Succeeds exactly when the result stays within range;
    /// otherwise the level is unchanged and the error is reported.
    pub fn zoom_in(&mut self) -> (result: Result<(), InvalidZoom>)
        ensures
            old(self)@ + ZOOM_LEVEL_MILLIS <= MAX_ZOOM_MILLIS ==> {
                &&& final(self)@ == old(self)@ + ZOOM_LEVEL_MILLIS
                &&& result is Ok
            },
            old(self)@ + ZOOM_LEVEL_MILLIS > MAX_ZOOM_MILLIS ==> {
                &&& final(self)@ == old(self)@
                &&& result is Err
            },
    {
        proof {
            use_type_invariant(&*self);
        }
        if self.millis + ZOOM_LEVEL_MILLIS <= MAX_ZOOM_MILLIS {
            self.millis = self.millis + ZOOM_LEVEL_MILLIS;
            Ok(())
        } else {
            Err(InvalidZoom)
        }
    }

    /// One level shallower. Succeeds exactly when the result stays within
    /// range; otherwise the level is unchanged and the error is reported.
    pub fn zoom_out(&mut self) -> (result: Result<(), InvalidZoom>)
        ensures
            old(self)@ >= ZOOM_LEVEL_MILLIS ==> {
                &&& final(self)@ == old(self)@ - ZOOM_LEVEL_MILLIS
                &&& result is Ok
            },
            old(self)@ < ZOOM_LEVEL_MILLIS ==> {
                &&& final(self)@ == old(self)@
                &&& result is Err
            },
    {
        proof {
            use_type_invariant(&*self);
        }
        if self.millis >= ZOOM_LEVEL_MILLIS {
            self.millis = self.millis - ZOOM_LEVEL_MILLIS;
            Ok(())
        } else {
            Err(InvalidZoom)
        }
    }

    /// Relative adjustment, meant for continuous input devices: applies the
    /// delta when the result stays within range, and otherwise leaves the
    /// level unchanged without reporting anything.
    pub fn zoom_by(&mut self, delta_millis: i32)
        ensures
            0 <= old(self)@ + delta_millis <= MAX_ZOOM_MILLIS ==> final(self)@ == old(self)@
                + delta_millis,
            !(0 <= old(self)@ + delta_millis <= MAX_ZOOM_MILLIS) ==> final(self)@ == old(self)@,
    {
        proof {
            use_type_invariant(&*self);
        }
        let candidate: i64 = self.millis as i64 + delta_millis as i64;
        if 0 <= candidate && candidate <= MAX_ZOOM_MILLIS as i64 {
            self.millis = candidate as u32;
        }
    }
}

} // verus!
