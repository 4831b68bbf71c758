use vstd::prelude::*;

verus! {

/// Whether the battery is being charged.
#[derive(Clone, Copy, Debug, PartialEq, Eq, Structural)]
pub enum BatteryStatus {
    Charging,
    NotCharging,
}

/// A point-in-time reading of the battery: charge percentage and status.
#[derive(Clone, Copy, Debug, PartialEq, Eq, Structural)]
pub struct Battery {
    pub capacity: u8,
    pub status: BatteryStatus,
}

/// The reading held as current before the first poll.
pub open spec fn initial_reading() -> Battery {
    Battery { capacity: 0, status: BatteryStatus::NotCharging }
}

impl Battery {
    /// The reading that stands before any real poll: empty and not charging.
    pub fn sentinel() -> (r: Battery)
        ensures
            r == initial_reading(),
    {
        Battery { capacity: 0, status: BatteryStatus::NotCharging }
    }
}

} // verus!
