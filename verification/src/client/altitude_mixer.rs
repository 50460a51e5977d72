//! Values that change with altitude: one-dimensional gradients.

use vstd::prelude::*;

verus! {

/// A value that changes with altitude, a one-dimensional gradient: one value
/// at or above a top altitude, another at or below a bottom altitude, and a
/// blend of the two between them.
pub struct AltitudeMixer<T> {
    bottom_bevy: T,
    bottom_limit: u32,
    bottom_value: T,
    top_bevy: T,
    top_limit: u32,
    top_value: T,
}

impl<T: Clone> AltitudeMixer<T> {
    /// The value used at or above the top altitude.
    pub closed spec fn top(&self) -> T {
        self.top_bevy
    }

    /// The value used at or below the bottom altitude.
    pub closed spec fn bottom(&self) -> T {
        self.bottom_bevy
    }

    /// The top end of a blend.
    pub closed spec fn top_end(&self) -> T {
        self.top_value
    }

    /// The bottom end of a blend.
    pub closed spec fn bottom_end(&self) -> T {
        self.bottom_value
    }

    /// The top altitude.
    pub closed spec fn top_limit(&self) -> u32 {
        self.top_limit
    }

    /// The bottom altitude.
    pub closed spec fn bottom_limit(&self) -> u32 {
        self.bottom_limit
    }

    /// A mixer between `bottom_value` at `bottom_limit` and `top_value` at `top_limit`.
    pub fn new(bottom_limit: u32, bottom_value: T, top_limit: u32, top_value: T) -> (r: Self)
        ensures
            cloned::<T>(bottom_value, r.bottom()),
            cloned::<T>(top_value, r.top()),
            r.bottom_end() == bottom_value,
            r.top_end() == top_value,
            r.top_limit() == top_limit,
            r.bottom_limit() == bottom_limit,
    {
        let bottom_bevy = bottom_value.clone();
        let top_bevy = top_value.clone();
        AltitudeMixer { bottom_bevy, bottom_limit, bottom_value, top_bevy, top_limit, top_value }
    }

    /// The value at altitude `z`: the top value at or above the top limit;
    /// the bottom value at or below the bottom limit; between the two, a
    /// blend weighting the top value by `(top_limit - z) / (top_limit -
    /// bottom_limit)` and the bottom value by the rest.
    pub fn register(&mut self, z: u32) -> (r: AltitudeMix<T>)
        ensures
            *final(self) == *old(self),
            z >= old(self).top_limit() ==> (match r {
                AltitudeMix::Top(v) => cloned::<T>(old(self).top(), v),
                _ => false,
            }),
            z < old(self).top_limit() && z <= old(self).bottom_limit() ==> (match r {
                AltitudeMix::Bottom(v) => cloned::<T>(old(self).bottom(), v),
                _ => false,
            }),
            old(self).bottom_limit() < z < old(self).top_limit() ==> (match r {
                AltitudeMix::Blend { top_weight, total, top, bottom } => {
                    &&& top_weight == old(self).top_limit() - z
                    &&& total == old(self).top_limit() - old(self).bottom_limit()
                    &&& cloned::<T>(old(self).top_end(), top)
                    &&& cloned::<T>(old(self).bottom_end(), bottom)
                },
                _ => false,
            }),
    {
        if z >= self.top_limit {
            AltitudeMix::Top(self.top_bevy.clone())
        } else if z <= self.bottom_limit || self.top_limit <= self.bottom_limit {
            AltitudeMix::Bottom(self.bottom_bevy.clone())
        } else {
            AltitudeMix::Blend {
                top_weight: self.top_limit - z,
                total: self.top_limit - self.bottom_limit,
                top: self.top_value.clone(),
                bottom: self.bottom_value.clone(),
            }
        }
    }
}

/// What a mixer gives at an altitude: one of its ends, or a blend whose top
/// end weighs `top_weight / total` and whose bottom end weighs the rest.
#[derive(Clone, Debug, PartialEq, Eq)]
pub enum AltitudeMix<T> {
    Top(T),
    Bottom(T),
    Blend { top_weight: u32, total: u32, top: T, bottom: T },
}

} // verus!
