use vstd::prelude::*;
use crate::effects::StandardEffect;

verus! {

/// The settings the hardware keeps for one power source.
#[derive(Clone, Copy)]
pub struct PowerProfile {
    pub pwr: u8,
    pub cpu: u8,
    pub gpu: u8,
    pub fan_rpm: i32,
    pub logo_state: u8,
    pub brightness: u8,
    pub idle: u32,
}

/// The state of the discovered laptop, as the daemon last commanded it.
pub struct Laptop {
    pub name: String,
    /// Profile used on battery (`ac == 0`).
    pub battery: PowerProfile,
    /// Profile used on wall power (`ac == 1`).
    pub plugged: PowerProfile,
    pub ac_state: bool,
    pub light_on: bool,
    pub sync: bool,
    /// Battery health optimizer: `(is_on, threshold)`, `None` where the hardware has none.
    pub bho: Option<(bool, u8)>,
    pub standard_effect: Option<(StandardEffect, Vec<u8>)>,
}

/// The device controller: the discovered laptop, if any, and the identifiers of
/// the two idle-monitor watches currently registered.
pub struct DeviceManager {
    pub device: Option<Laptop>,
    pub idle_id: u32,
    pub active_id: u32,
}

/// The profile index that an AC state selects.
pub open spec fn ac_index(online: bool) -> usize {
    if online { 1 } else { 0 }
}

impl Laptop {
    /// A freshly discovered laptop: zeroed profiles, on battery, light on, no
    /// hardware effect chosen and no battery health optimizer.
    pub fn new(name: String) -> (r: Laptop)
        ensures
            r.name == name,
            r.battery == r.plugged,
            r.battery.fan_rpm == 0 && r.battery.pwr == 0 && r.battery.brightness == 0,
            !r.ac_state,
            r.light_on,
            !r.sync,
            r.bho is None,
            r.standard_effect is None,
    {
        let p = PowerProfile { pwr: 0, cpu: 0, gpu: 0, fan_rpm: 0, logo_state: 0, brightness: 0, idle: 0 };
        Laptop {
            name,
            battery: p,
            plugged: p,
            ac_state: false,
            light_on: true,
            sync: false,
            bho: None,
            standard_effect: None,
        }
    }

    pub open spec fn profile(self, ac: usize) -> Option<PowerProfile> {
        if ac == 0 {
            Some(self.battery)
        } else if ac == 1 {
            Some(self.plugged)
        } else {
            None
        }
    }

    pub open spec fn with_profile(self, ac: usize, p: PowerProfile) -> Laptop {
        if ac == 0 {
            Laptop { battery: p, ..self }
        } else if ac == 1 {
            Laptop { plugged: p, ..self }
        } else {
            self
        }
    }
}

impl DeviceManager {
    /// The profile that `ac` selects on the discovered device.
    pub open spec fn profile_of(self, ac: usize) -> Option<PowerProfile> {
        match self.device {
            Some(l) => l.profile(ac),
            None => None,
        }
    }

    /// The state after storing `p` as the profile `ac` selects; unchanged where
    /// there is no such profile.
    pub open spec fn with_profile(self, ac: usize, p: PowerProfile) -> DeviceManager {
        match self.device {
            Some(l) => if l.profile(ac) is Some {
                DeviceManager { device: Some(l.with_profile(ac, p)), ..self }
            } else {
                self
            },
            None => self,
        }
    }

    /// The state after applying `f` to the laptop; unchanged without one.
    pub open spec fn map_laptop(self, f: spec_fn(Laptop) -> Laptop) -> DeviceManager {
        match self.device {
            Some(l) => DeviceManager { device: Some(f(l)), ..self },
            None => self,
        }
    }

    pub open spec fn spec_set_power_mode(self, ac: usize, pwr: u8, cpu: u8, gpu: u8) -> DeviceManager {
        match self.profile_of(ac) {
            Some(p) => self.with_profile(ac, PowerProfile { pwr, cpu, gpu, ..p }),
            None => self,
        }
    }

    pub open spec fn spec_set_fan_rpm(self, ac: usize, rpm: i32) -> DeviceManager {
        match self.profile_of(ac) {
            Some(p) => self.with_profile(ac, PowerProfile { fan_rpm: rpm, ..p }),
            None => self,
        }
    }

    pub open spec fn spec_set_logo_led_state(self, ac: usize, logo_state: u8) -> DeviceManager {
        match self.profile_of(ac) {
            Some(p) => self.with_profile(ac, PowerProfile { logo_state, ..p }),
            None => self,
        }
    }

    pub open spec fn spec_set_brightness(self, ac: usize, val: u8) -> DeviceManager {
        match self.profile_of(ac) {
            Some(p) => self.with_profile(ac, PowerProfile { brightness: val, ..p }),
            None => self,
        }
    }

    pub open spec fn spec_change_idle(self, ac: usize, val: u32) -> DeviceManager {
        match self.profile_of(ac) {
            Some(p) => self.with_profile(ac, PowerProfile { idle: val, ..p }),
            None => self,
        }
    }

    pub open spec fn spec_set_sync(self, sync: bool) -> DeviceManager {
        self.map_laptop(|l: Laptop| Laptop { sync, ..l })
    }

    pub open spec fn spec_set_light(self, on: bool) -> DeviceManager {
        self.map_laptop(|l: Laptop| Laptop { light_on: on, ..l })
    }

    pub open spec fn spec_set_ac_state(self, online: bool) -> DeviceManager {
        self.map_laptop(|l: Laptop| Laptop { ac_state: online, ..l })
    }

    pub open spec fn spec_set_bho(self, is_on: bool, threshold: u8) -> DeviceManager {
        self.map_laptop(|l: Laptop| Laptop { bho: Some((is_on, threshold)), ..l })
    }

    /// What a getter of the profile `ac` reports: `field` of it, or 0 without one.
    pub open spec fn read_profile(self, ac: usize, field: spec_fn(PowerProfile) -> int) -> int {
        match self.profile_of(ac) {
            Some(p) => field(p),
            None => 0,
        }
    }

    /// The light state the device reports; a missing device reports it off.
    pub open spec fn is_light_on(self) -> bool {
        match self.device {
            Some(l) => l.light_on,
            None => false,
        }
    }

    /// A manager with the given laptop and no watch registered yet.
    pub fn new(device: Option<Laptop>) -> (r: DeviceManager)
        ensures
            r.device == device,
            r.idle_id == 0,
            r.active_id == 0,
    {
        DeviceManager { device, idle_id: 0, active_id: 0 }
    }

    pub fn has_device(&self) -> (r: bool)
        ensures
            r == (self.device is Some),
    {
        self.device.is_some()
    }

    /// A copy of the profile that `ac` selects.
    fn current_profile(&self, ac: usize) -> (r: Option<PowerProfile>)
        ensures
            r == self.profile_of(ac),
    {
        match &self.device {
            Some(l) => if ac == 0 {
                Some(l.battery)
            } else if ac == 1 {
                Some(l.plugged)
            } else {
                None
            },
            None => None,
        }
    }

    /// Stores `p` as the profile that `ac` selects.
    fn store_profile(&mut self, ac: usize, p: PowerProfile)
        requires
            old(self).profile_of(ac) is Some,
        ensures
            *final(self) == old(self).with_profile(ac, p),
    {
        match &mut self.device {
            Some(l) => {
                if ac == 0 {
                    l.battery = p;
                } else {
                    l.plugged = p;
                }
            },
            None => {},
        }
    }

    pub fn set_power_mode(&mut self, ac: usize, pwr: u8, cpu: u8, gpu: u8) -> (r: bool)
        ensures
            r == (old(self).profile_of(ac) is Some),
            *final(self) == old(self).spec_set_power_mode(ac, pwr, cpu, gpu),
    {
        match self.current_profile(ac) {
            Some(p) => {
                self.store_profile(ac, PowerProfile { pwr, cpu, gpu, ..p });
                true
            },
            None => false,
        }
    }

    pub fn set_fan_rpm(&mut self, ac: usize, rpm: i32) -> (r: bool)
        ensures
            r == (old(self).profile_of(ac) is Some),
            *final(self) == old(self).spec_set_fan_rpm(ac, rpm),
    {
        match self.current_profile(ac) {
            Some(p) => {
                self.store_profile(ac, PowerProfile { fan_rpm: rpm, ..p });
                true
            },
            None => false,
        }
    }

    pub fn set_logo_led_state(&mut self, ac: usize, logo_state: u8) -> (r: bool)
        ensures
            r == (old(self).profile_of(ac) is Some),
            *final(self) == old(self).spec_set_logo_led_state(ac, logo_state),
    {
        match self.current_profile(ac) {
            Some(p) => {
                self.store_profile(ac, PowerProfile { logo_state, ..p });
                true
            },
            None => false,
        }
    }

    pub fn set_brightness(&mut self, ac: usize, val: u8) -> (r: bool)
        ensures
            r == (old(self).profile_of(ac) is Some),
            *final(self) == old(self).spec_set_brightness(ac, val),
    {
        match self.current_profile(ac) {
            Some(p) => {
                self.store_profile(ac, PowerProfile { brightness: val, ..p });
                true
            },
            None => false,
        }
    }

    pub fn change_idle(&mut self, ac: usize, val: u32) -> (r: bool)
        ensures
            r == (old(self).profile_of(ac) is Some),
            *final(self) == old(self).spec_change_idle(ac, val),
    {
        match self.current_profile(ac) {
            Some(p) => {
                self.store_profile(ac, PowerProfile { idle: val, ..p });
                true
            },
            None => false,
        }
    }

    pub fn set_sync(&mut self, sync: bool) -> (r: bool)
        ensures
            r == (old(self).device is Some),
            *final(self) == old(self).spec_set_sync(sync),
    {
        match &mut self.device {
            Some(l) => {
                l.sync = sync;
                true
            },
            None => false,
        }
    }

    pub fn get_fan_rpm(&self, ac: usize) -> (r: i32)
        ensures
            r == self.read_profile(ac, |p: PowerProfile| p.fan_rpm as int),
    {
        match self.current_profile(ac) {
            Some(p) => p.fan_rpm,
            None => 0,
        }
    }

    pub fn get_power_mode(&self, ac: usize) -> (r: u8)
        ensures
            r == self.read_profile(ac, |p: PowerProfile| p.pwr as int),
    {
        match self.current_profile(ac) {
            Some(p) => p.pwr,
            None => 0,
        }
    }

    pub fn get_cpu_boost(&self, ac: usize) -> (r: u8)
        ensures
            r == self.read_profile(ac, |p: PowerProfile| p.cpu as int),
    {
        match self.current_profile(ac) {
            Some(p) => p.cpu,
            None => 0,
        }
    }

    pub fn get_gpu_boost(&self, ac: usize) -> (r: u8)
        ensures
            r == self.read_profile(ac, |p: PowerProfile| p.gpu as int),
    {
        match self.current_profile(ac) {
            Some(p) => p.gpu,
            None => 0,
        }
    }

    pub fn get_logo_led_state(&self, ac: usize) -> (r: u8)
        ensures
            r == self.read_profile(ac, |p: PowerProfile| p.logo_state as int),
    {
        match self.current_profile(ac) {
            Some(p) => p.logo_state,
            None => 0,
        }
    }

    pub fn get_brightness(&self, ac: usize) -> (r: u8)
        ensures
            r == self.read_profile(ac, |p: PowerProfile| p.brightness as int),
    {
        match self.current_profile(ac) {
            Some(p) => p.brightness,
            None => 0,
        }
    }

    pub fn get_sync(&self) -> (r: bool)
        ensures
            r == (match self.device {
                Some(l) => l.sync,
                None => false,
            }),
    {
        match &self.device {
            Some(l) => l.sync,
            None => false,
        }
    }

    /// Turns the keyboard light off.
    pub fn light_off(&mut self)
        ensures
            *final(self) == old(self).spec_set_light(false),
    {
        if let Some(l) = &mut self.device {
            l.light_on = false;
        }
    }

    /// Turns the keyboard light back on.
    pub fn restore_light(&mut self)
        ensures
            *final(self) == old(self).spec_set_light(true),
    {
        if let Some(l) = &mut self.device {
            l.light_on = true;
        }
    }

    pub fn set_ac_state(&mut self, online: bool)
        ensures
            *final(self) == old(self).spec_set_ac_state(online),
    {
        if let Some(l) = &mut self.device {
            l.ac_state = online;
        }
    }

    /// The profile index of the current AC state; battery without a device.
    pub fn get_ac_index(&self) -> (r: usize)
        ensures
            r == (match self.device {
                Some(l) => ac_index(l.ac_state),
                None => 0,
            }),
    {
        match &self.device {
            Some(l) => if l.ac_state { 1 } else { 0 },
            None => 0,
        }
    }

    pub fn set_standard_effect(&mut self, effect: StandardEffect, params: Vec<u8>) -> (r: bool)
        ensures
            r == (old(self).device is Some),
            *final(self) == old(self).map_laptop(
                |l: Laptop| Laptop { standard_effect: Some((effect, params)), ..l },
            ),
    {
        match &mut self.device {
            Some(l) => {
                l.standard_effect = Some((effect, params));
                true
            },
            None => false,
        }
    }

    pub fn set_bho_handler(&mut self, is_on: bool, threshold: u8) -> (r: bool)
        ensures
            r == (old(self).device is Some),
            *final(self) == old(self).spec_set_bho(is_on, threshold),
    {
        match &mut self.device {
            Some(l) => {
                l.bho = Some((is_on, threshold));
                true
            },
            None => false,
        }
    }

    pub fn get_bho_handler(&self) -> (r: Option<(bool, u8)>)
        ensures
            r == (match self.device {
                Some(l) => l.bho,
                None => None,
            }),
    {
        match &self.device {
            Some(l) => l.bho,
            None => None,
        }
    }

    /// The device's name, or "Unknown Device" without one.
    pub fn get_device_name(&self) -> (r: String)
        ensures
            r@ == (match self.device {
                Some(l) => l.name@,
                None => "Unknown Device"@,
            }),
    {
        match &self.device {
            Some(l) => l.name.clone(),
            None => {
                proof {
                    reveal_strlit("Unknown Device");
                }
                String::from_str("Unknown Device")
            },
        }
    }

    pub fn set_idle_watch(&mut self, id: u32)
        ensures
            *final(self) == (DeviceManager { idle_id: id, ..*old(self) }),
    {
        self.idle_id = id;
    }

    pub fn set_active_watch(&mut self, id: u32)
        ensures
            *final(self) == (DeviceManager { active_id: id, ..*old(self) }),
    {
        self.active_id = id;
    }
}

} // verus!
