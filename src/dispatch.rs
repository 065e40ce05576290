use vstd::prelude::*;
use crate::comms::{DaemonCommand, DaemonResponse};
use crate::device::{DeviceManager, Laptop, PowerProfile};
use crate::effects::{
    effect_kind_from_name, effect_kind_named, full_key_mask, full_mask, popped,
    standard_effect_from_name, standard_effect_named, EffectManager, LayerModel,
};

verus! {

/// The name a device reports, or "Unknown Device" without one.
pub open spec fn device_name(d: DeviceManager) -> Seq<char> {
    match d.device {
        Some(l) => l.name@,
        None => "Unknown Device"@,
    }
}

/// How a request changes the device `d` into `d2` and the compositor `k` into
/// `k2`, and what it answers (`None`: no reply at all).
pub open spec fn request_outcome(
    d: DeviceManager,
    k: EffectManager,
    cmd: DaemonCommand,
    d2: DeviceManager,
    k2: EffectManager,
    r: Option<DaemonResponse>,
) -> bool {
    match cmd {
        DaemonCommand::SetPowerMode { ac, pwr, cpu, gpu } => {
            &&& r == Some(DaemonResponse::SetPowerMode { result: d.profile_of(ac) is Some })
            &&& d2 == d.spec_set_power_mode(ac, pwr, cpu, gpu)
            &&& k2 == k
        },
        DaemonCommand::SetFanSpeed { ac, rpm } => {
            &&& r == Some(DaemonResponse::SetFanSpeed { result: d.profile_of(ac) is Some })
            &&& d2 == d.spec_set_fan_rpm(ac, rpm)
            &&& k2 == k
        },
        DaemonCommand::SetLogoLedState { ac, logo_state } => {
            &&& r == Some(DaemonResponse::SetLogoLedState { result: d.profile_of(ac) is Some })
            &&& d2 == d.spec_set_logo_led_state(ac, logo_state)
            &&& k2 == k
        },
        DaemonCommand::SetBrightness { ac, val } => {
            &&& r == Some(DaemonResponse::SetBrightness { result: d.profile_of(ac) is Some })
            &&& d2 == d.spec_set_brightness(ac, val)
            &&& k2 == k
        },
        DaemonCommand::SetIdle { ac, val } => {
            &&& r == Some(DaemonResponse::SetIdle { result: d.profile_of(ac) is Some })
            &&& d2 == d.spec_change_idle(ac, val)
            &&& k2 == k
        },
        DaemonCommand::SetSync { sync } => {
            &&& r == Some(DaemonResponse::SetSync { result: d.device is Some })
            &&& d2 == d.spec_set_sync(sync)
            &&& k2 == k
        },
        DaemonCommand::GetBrightness { ac } => {
            &&& r == Some(
                DaemonResponse::GetBrightness {
                    result: d.read_profile(ac, |p: PowerProfile| p.brightness as int) as u8,
                },
            )
            &&& d2 == d
            &&& k2 == k
        },
        DaemonCommand::GetLogoLedState { ac } => {
            &&& r == Some(
                DaemonResponse::GetLogoLedState {
                    logo_state: d.read_profile(ac, |p: PowerProfile| p.logo_state as int) as u8,
                },
            )
            &&& d2 == d
            &&& k2 == k
        },
        DaemonCommand::GetKeyboardRGB { layer } => {
            &&& r matches Some(DaemonResponse::GetKeyboardRGB { .. })
            &&& r->Some_0->GetKeyboardRGB_layer == layer
            &&& r->Some_0->GetKeyboardRGB_rgbdata@ == k.map_of(layer)
            &&& d2 == d
            &&& k2 == k
        },
        DaemonCommand::GetSync() => {
            &&& r == Some(
                DaemonResponse::GetSync {
                    sync: match d.device {
                        Some(l) => l.sync,
                        None => false,
                    },
                },
            )
            &&& d2 == d
            &&& k2 == k
        },
        DaemonCommand::GetFanSpeed { ac } => {
            &&& r == Some(
                DaemonResponse::GetFanSpeed {
                    rpm: d.read_profile(ac, |p: PowerProfile| p.fan_rpm as int) as i32,
                },
            )
            &&& d2 == d
            &&& k2 == k
        },
        DaemonCommand::GetPwrLevel { ac } => {
            &&& r == Some(
                DaemonResponse::GetPwrLevel {
                    pwr: d.read_profile(ac, |p: PowerProfile| p.pwr as int) as u8,
                },
            )
            &&& d2 == d
            &&& k2 == k
        },
        DaemonCommand::GetCPUBoost { ac } => {
            &&& r == Some(
                DaemonResponse::GetCPUBoost {
                    cpu: d.read_profile(ac, |p: PowerProfile| p.cpu as int) as u8,
                },
            )
            &&& d2 == d
            &&& k2 == k
        },
        DaemonCommand::GetGPUBoost { ac } => {
            &&& r == Some(
                DaemonResponse::GetGPUBoost {
                    gpu: d.read_profile(ac, |p: PowerProfile| p.gpu as int) as u8,
                },
            )
            &&& d2 == d
            &&& k2 == k
        },
        DaemonCommand::SetEffect { name, params } => {
            let kind = effect_kind_named(name@);
            let ok = d.device is Some && kind is Some;
            &&& r == Some(DaemonResponse::SetEffect { result: ok })
            &&& d2 == d
            &&& if ok {
                k2@ == popped(k@).push(
                    LayerModel { kind: kind->Some_0, params: params@, mask: full_mask() },
                )
            } else {
                k2 == k
            }
        },
        DaemonCommand::SetStandardEffect { name, params } => {
            match d.device {
                Some(_) => {
                    let e = standard_effect_named(name@);
                    &&& r == Some(DaemonResponse::SetStandardEffect { result: e is Some })
                    &&& k2@ == popped(k@)
                    &&& d2 == match e {
                        Some(e) => d.map_laptop(
                            |l: Laptop| Laptop { standard_effect: Some((e, params)), ..l },
                        ),
                        None => d,
                    }
                },
                None => {
                    &&& r == Some(DaemonResponse::SetStandardEffect { result: false })
                    &&& d2 == d
                    &&& k2 == k
                },
            }
        },
        DaemonCommand::SetBatteryHealthOptimizer { is_on, threshold } => {
            &&& r == Some(DaemonResponse::SetBatteryHealthOptimizer { result: d.device is Some })
            &&& d2 == d.spec_set_bho(is_on, threshold)
            &&& k2 == k
        },
        DaemonCommand::GetBatteryHealthOptimizer() => {
            &&& r == match d.device {
                Some(l) => match l.bho {
                    Some((is_on, threshold)) => Some(
                        DaemonResponse::GetBatteryHealthOptimizer { is_on, threshold },
                    ),
                    None => None,
                },
                None => None,
            }
            &&& d2 == d
            &&& k2 == k
        },
        DaemonCommand::GetDeviceName => {
            &&& r matches Some(DaemonResponse::GetDeviceName { .. })
            &&& r->Some_0->GetDeviceName_name@ == device_name(d)
            &&& d2 == d
            &&& k2 == k
        },
    }
}

/// Carries out one client request against the device and the compositor, the
/// caller holding both (device first), and builds the reply.
pub fn process_client_request(
    d: &mut DeviceManager,
    k: &mut EffectManager,
    cmd: DaemonCommand,
) -> (r: Option<DaemonResponse>)
    ensures
        request_outcome(*old(d), *old(k), cmd, *final(d), *final(k), r),
        old(k).wf() ==> final(k).wf(),
{
    match cmd {
        DaemonCommand::SetPowerMode { ac, pwr, cpu, gpu } => {
            Some(DaemonResponse::SetPowerMode { result: d.set_power_mode(ac, pwr, cpu, gpu) })
        },
        DaemonCommand::SetFanSpeed { ac, rpm } => {
            Some(DaemonResponse::SetFanSpeed { result: d.set_fan_rpm(ac, rpm) })
        },
        DaemonCommand::SetLogoLedState { ac, logo_state } => {
            Some(DaemonResponse::SetLogoLedState { result: d.set_logo_led_state(ac, logo_state) })
        },
        DaemonCommand::SetBrightness { ac, val } => {
            Some(DaemonResponse::SetBrightness { result: d.set_brightness(ac, val) })
        },
        DaemonCommand::SetIdle { ac, val } => {
            Some(DaemonResponse::SetIdle { result: d.change_idle(ac, val) })
        },
        DaemonCommand::SetSync { sync } => {
            Some(DaemonResponse::SetSync { result: d.set_sync(sync) })
        },
        DaemonCommand::GetBrightness { ac } => {
            Some(DaemonResponse::GetBrightness { result: d.get_brightness(ac) })
        },
        DaemonCommand::GetLogoLedState { ac } => {
            Some(DaemonResponse::GetLogoLedState { logo_state: d.get_logo_led_state(ac) })
        },
        DaemonCommand::GetKeyboardRGB { layer } => {
            let map = k.get_map(layer);
            Some(DaemonResponse::GetKeyboardRGB { layer, rgbdata: map })
        },
        DaemonCommand::GetSync() => Some(DaemonResponse::GetSync { sync: d.get_sync() }),
        DaemonCommand::GetFanSpeed { ac } => {
            Some(DaemonResponse::GetFanSpeed { rpm: d.get_fan_rpm(ac) })
        },
        DaemonCommand::GetPwrLevel { ac } => {
            Some(DaemonResponse::GetPwrLevel { pwr: d.get_power_mode(ac) })
        },
        DaemonCommand::GetCPUBoost { ac } => {
            Some(DaemonResponse::GetCPUBoost { cpu: d.get_cpu_boost(ac) })
        },
        DaemonCommand::GetGPUBoost { ac } => {
            Some(DaemonResponse::GetGPUBoost { gpu: d.get_gpu_boost(ac) })
        },
        DaemonCommand::SetEffect { name, params } => {
            let kind = effect_kind_from_name(name.as_str());
            let mut res = false;
            if d.has_device() {
                if let Some(kind) = kind {
                    k.pop_effect();
                    k.push_effect(kind, params, full_key_mask());
                    res = true;
                }
            }
            Some(DaemonResponse::SetEffect { result: res })
        },
        DaemonCommand::SetStandardEffect { name, params } => {
            let mut res = false;
            if d.has_device() {
                k.pop_effect();
                res = match standard_effect_from_name(name.as_str()) {
                    Some(e) => d.set_standard_effect(e, params),
                    None => false,
                };
            }
            Some(DaemonResponse::SetStandardEffect { result: res })
        },
        DaemonCommand::SetBatteryHealthOptimizer { is_on, threshold } => {
            Some(
                DaemonResponse::SetBatteryHealthOptimizer {
                    result: d.set_bho_handler(is_on, threshold),
                },
            )
        },
        DaemonCommand::GetBatteryHealthOptimizer() => {
            match d.get_bho_handler() {
                Some((is_on, threshold)) => Some(
                    DaemonResponse::GetBatteryHealthOptimizer { is_on, threshold },
                ),
                None => None,
            }
        },
        DaemonCommand::GetDeviceName => {
            Some(DaemonResponse::GetDeviceName { name: d.get_device_name() })
        },
    }
}

/// A request to set a software effect under a name that names none fails,
/// and leaves the layer stack and the device as they were.
pub proof fn lemma_unknown_effect_fails_closed(
    d: DeviceManager,
    k: EffectManager,
    name: String,
    params: Vec<u8>,
    d2: DeviceManager,
    k2: EffectManager,
    r: Option<DaemonResponse>,
)
    requires
        request_outcome(d, k, DaemonCommand::SetEffect { name, params }, d2, k2, r),
        effect_kind_named(name@) is None,
    ensures
        r == Some(DaemonResponse::SetEffect { result: false }),
        k2 == k,
        d2 == d,
{
}

} // verus!
