//! The sports events are filed under.

use vstd::prelude::*;

verus! {

/// A sport.
#[derive(Clone, Copy, Debug, PartialEq, Eq, Structural)]
pub enum Sport {
    Football,
    Tennis,
    Basketball,
    Hockey,
    Volleyball,
    TableTennis,
    Esports,
    Handball,
    Futsal,
    Baseball,
    Badminton,
    Boxing,
    Cricket,
    Darts,
    MMA,
    Motorsport,
    Rugby,
    Snooker,
    WaterPolo,
    Other,
}

} // verus!
