use vstd::prelude::*;
use crate::battery::{Battery, BatteryStatus};

verus! {

/// Below this charge percentage a discharging battery is shown as low.
pub const LOW_BATTERY_THRESHOLD: u8 = 30;

/// A color scheme: four RGB triples.
#[derive(Clone, Copy, Debug)]
pub struct Colors {
    pub charging: [u8; 3],
    pub default: [u8; 3],
    pub low_battery: [u8; 3],
    pub background: [u8; 3],
}

impl Default for Colors {
    /// The built-in scheme used when no configured one is available.
    fn default() -> (r: Colors)
        ensures
            r.charging@ == seq![255u8, 255u8, 0u8],
            r.default@ == seq![91u8, 194u8, 54u8],
            r.low_battery@ == seq![191u8, 19u8, 28u8],
            r.background@ == seq![40u8, 40u8, 40u8],
    {
        let r = Colors {
            charging: [255, 255, 0],
            default: [91, 194, 54],
            low_battery: [191, 19, 28],
            background: [40, 40, 40],
        };
        assert(r.charging@ =~= seq![255u8, 255u8, 0u8]);
        assert(r.default@ =~= seq![91u8, 194u8, 54u8]);
        assert(r.low_battery@ =~= seq![191u8, 19u8, 28u8]);
        assert(r.background@ =~= seq![40u8, 40u8, 40u8]);
        r
    }
}

/// The gauge color for a battery reading: charging wins over everything,
/// then a discharging battery at or above the threshold gets the default
/// color, and a lower one the low-battery color.
pub open spec fn gauge_color_spec(battery: Battery, colors: Colors) -> [u8; 3] {
    if battery.status == BatteryStatus::Charging {
        colors.charging
    } else if battery.capacity >= LOW_BATTERY_THRESHOLD {
        colors.default
    } else {
        colors.low_battery
    }
}

/// While charging, the gauge shows the charging color whatever the charge.
pub proof fn lemma_charging_wins(battery: Battery, colors: Colors)
    requires
        battery.status == BatteryStatus::Charging,
    ensures
        gauge_color_spec(battery, colors) == colors.charging,
{
}

/// While not charging, the gauge shows the default color from the threshold
/// up and the low-battery color below it.
pub proof fn lemma_discharging_bands(battery: Battery, colors: Colors)
    requires
        battery.status == BatteryStatus::NotCharging,
    ensures
        battery.capacity >= 30 ==> gauge_color_spec(battery, colors) == colors.default,
        battery.capacity < 30 ==> gauge_color_spec(battery, colors) == colors.low_battery,
{
}

impl Colors {
    /// Picks the gauge color for `battery` from this scheme.
    pub fn gauge_color(&self, battery: &Battery) -> (r: [u8; 3])
        ensures
            r == gauge_color_spec(*battery, *self),
    {
        match battery.status {
            BatteryStatus::Charging => self.charging,
            BatteryStatus::NotCharging => {
                if battery.capacity >= LOW_BATTERY_THRESHOLD {
                    self.default
                } else {
                    self.low_battery
                }
            },
        }
    }
}

} // verus!
