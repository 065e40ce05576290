use vstd::prelude::*;
use crate::device::{ac_index, DeviceManager};

verus! {

/// Band edges, in thousandths of a degree Celsius.
pub const TEMP_LOW: i32 = 50000;
pub const TEMP_MEDIUM: i32 = 65000;
pub const TEMP_HIGH: i32 = 75000;
pub const TEMP_CRITICAL: i32 = 85000;

/// Fan speeds; 0 hands the fan back to the firmware.
pub const FAN_AUTO: i32 = 0;
pub const FAN_LOW: i32 = 2000;
pub const FAN_MEDIUM: i32 = 3500;
pub const FAN_HIGH: i32 = 4500;
pub const FAN_MAX: i32 = 5500;

/// The last applied speed before any write.
pub const FAN_UNSET: i32 = -1;

/// The fan speed for a temperature of `t` thousandths of a degree: each band
/// includes its lower edge.
pub open spec fn fan_rpm_for(t: int) -> i32 {
    if t < TEMP_LOW {
        FAN_AUTO
    } else if t < TEMP_MEDIUM {
        FAN_LOW
    } else if t < TEMP_HIGH {
        FAN_MEDIUM
    } else if t < TEMP_CRITICAL {
        FAN_HIGH
    } else {
        FAN_MAX
    }
}

/// One poll of the loop on a laptop: the speed applied afterwards, and whether
/// the fan was written. A failed reading changes nothing.
pub open spec fn fan_step(last: i32, reading: Option<int>) -> (i32, bool) {
    match reading {
        Some(t) => if fan_rpm_for(t) != last {
            (fan_rpm_for(t), true)
        } else {
            (last, false)
        },
        None => (last, false),
    }
}

/// How many fan writes the loop makes over `temps`, starting from `last`.
pub open spec fn fan_writes(last: i32, temps: Seq<int>) -> nat
    decreases temps.len(),
{
    if temps.len() == 0 {
        0
    } else {
        let (next, wrote) = fan_step(last, Some(temps[0]));
        (if wrote { 1nat } else { 0nat }) + fan_writes(next, temps.drop_first())
    }
}

/// The speed for a temperature given in thousandths of a degree Celsius.
pub fn required_fan_speed(milli_celsius: i32) -> (r: i32)
    ensures
        r == fan_rpm_for(milli_celsius as int),
{
    if milli_celsius < TEMP_LOW {
        FAN_AUTO
    } else if milli_celsius < TEMP_MEDIUM {
        FAN_LOW
    } else if milli_celsius < TEMP_HIGH {
        FAN_MEDIUM
    } else if milli_celsius < TEMP_CRITICAL {
        FAN_HIGH
    } else {
        FAN_MAX
    }
}

/// The temperature-driven fan loop's memory: the speed it last applied.
pub struct FanControl {
    pub last_fan_speed: i32,
}

impl FanControl {
    pub fn new() -> (r: FanControl)
        ensures
            r.last_fan_speed == FAN_UNSET,
    {
        FanControl { last_fan_speed: FAN_UNSET }
    }

    /// One poll with the temperature read (`None` where it could not be read):
    /// writes the fan, for the current AC state, only when the speed the
    /// temperature calls for differs from the last one applied. Returns whether
    /// it wrote.
    pub fn control_step(&mut self, d: &mut DeviceManager, reading: Option<i32>) -> (wrote: bool)
        ensures
            old(d).device is None ==> !wrote && *final(d) == *old(d) && *final(self) == *old(self),
            old(d).device matches Some(l) ==> {
                let step = fan_step(
                    old(self).last_fan_speed,
                    match reading {
                        Some(t) => Some(t as int),
                        None => None,
                    },
                );
                &&& wrote == step.1
                &&& final(self).last_fan_speed == step.0
                &&& *final(d) == if wrote {
                    old(d).spec_set_fan_rpm(ac_index(l.ac_state), step.0)
                } else {
                    *old(d)
                }
            },
    {
        if let Some(t) = reading {
            let rpm = required_fan_speed(t);
            if rpm != self.last_fan_speed && d.has_device() {
                let ac = d.get_ac_index();
                if d.set_fan_rpm(ac, rpm) {
                    self.last_fan_speed = rpm;
                }
                return true;
            }
        }
        false
    }
}

/// With every temperature of a sequence in one band, the loop writes the fan
/// at most once over the whole sequence, whatever speed it applied before.
pub proof fn lemma_one_band_at_most_one_write(last: i32, temps: Seq<int>)
    requires
        forall|i: int| 0 <= i < temps.len() ==> fan_rpm_for(#[trigger] temps[i]) == fan_rpm_for(temps[0]),
    ensures
        fan_writes(last, temps) <= 1,
{
    if temps.len() > 0 {
        let rpm = fan_rpm_for(temps[0]);
        let rest = temps.drop_first();
        assert forall|i: int| 0 <= i < rest.len() implies fan_rpm_for(#[trigger] rest[i]) == rpm by {
            assert(rest[i] == temps[i + 1]);
        }
        lemma_steady_band_no_write(rpm, rest);
    }
}

/// Once the band's speed is applied, staying in the band writes nothing.
pub proof fn lemma_steady_band_no_write(rpm: i32, temps: Seq<int>)
    requires
        forall|i: int| 0 <= i < temps.len() ==> fan_rpm_for(#[trigger] temps[i]) == rpm,
    ensures
        fan_writes(rpm, temps) == 0,
    decreases temps.len(),
{
    if temps.len() > 0 {
        let rest = temps.drop_first();
        assert(fan_rpm_for(temps[0]) == rpm);
        assert forall|i: int| 0 <= i < rest.len() implies fan_rpm_for(#[trigger] rest[i]) == rpm by {
            assert(rest[i] == temps[i + 1]);
        }
        lemma_steady_band_no_write(rpm, rest);
    }
}

} // verus!
