use razer_daemon::comms::{DaemonCommand, DaemonResponse};
use razer_daemon::device::{DeviceManager, Laptop};
use razer_daemon::dispatch::process_client_request;
use razer_daemon::effects::{
    effect_kind_from_name, full_key_mask, standard_effect_from_name, EffectKind, EffectManager,
    StandardEffect, KEY_COUNT,
};
use razer_daemon::fan::{
    required_fan_speed, FanControl, FAN_AUTO, FAN_HIGH, FAN_LOW, FAN_MAX, FAN_MEDIUM, FAN_UNSET,
};
use razer_daemon::locks::{locks_needed, SharedState};
use razer_daemon::sensors::{cpu_temperature_plain, cpu_temperature_raw};
use razer_daemon::router::{
    on_ac_online, on_power_save_mode, on_prepare_for_sleep, on_screensaver_active,
    on_watch_fired, watches_to_rearm,
};

fn laptop_manager() -> DeviceManager {
    DeviceManager::new(Some(Laptop::new("Blade 15".to_string())))
}

fn milli(celsius: f32) -> i32 {
    (celsius * 1000.0).round() as i32
}

fn top(k: &EffectManager) -> (EffectKind, Vec<u8>, Vec<bool>) {
    let l = k.layers.last().unwrap();
    (l.kind, l.params.clone(), l.mask.clone())
}

#[test]
fn fan_policy_table() {
    assert_eq!(required_fan_speed(milli(49.9)), FAN_AUTO);
    assert_eq!(required_fan_speed(milli(64.9)), FAN_LOW);
    assert_eq!(required_fan_speed(milli(74.9)), FAN_MEDIUM);
    assert_eq!(required_fan_speed(milli(84.9)), FAN_HIGH);
    assert_eq!(required_fan_speed(milli(90.0)), FAN_MAX);
}

#[test]
fn fan_policy_band_edges_belong_to_upper_band() {
    assert_eq!(required_fan_speed(50000), FAN_LOW);
    assert_eq!(required_fan_speed(65000), FAN_MEDIUM);
    assert_eq!(required_fan_speed(75000), FAN_HIGH);
    assert_eq!(required_fan_speed(85000), FAN_MAX);
    assert_eq!(required_fan_speed(49999), FAN_AUTO);
    assert_eq!((FAN_LOW, FAN_MEDIUM, FAN_HIGH, FAN_MAX), (2000, 3500, 4500, 5500));
}

#[test]
fn fan_writes_once_within_one_band() {
    let mut d = laptop_manager();
    let mut f = FanControl::new();
    assert_eq!(f.last_fan_speed, FAN_UNSET);
    let mut writes = 0;
    for t in [66.0f32, 70.5, 74.9, 65.0, 72.0] {
        if f.control_step(&mut d, Some(milli(t))) {
            writes += 1;
        }
    }
    assert_eq!(writes, 1);
    assert_eq!(d.get_fan_rpm(0), FAN_MEDIUM);
}

#[test]
fn fan_follows_ac_profile_and_skips_failed_reads() {
    let mut d = laptop_manager();
    d.set_ac_state(true);
    let mut f = FanControl::new();
    assert!(!f.control_step(&mut d, None));
    assert_eq!(f.last_fan_speed, FAN_UNSET);
    assert!(f.control_step(&mut d, Some(90000)));
    assert_eq!(d.get_fan_rpm(1), FAN_MAX);
    assert_eq!(d.get_fan_rpm(0), 0);
    assert!(f.control_step(&mut d, Some(30000)));
    assert_eq!(d.get_fan_rpm(1), FAN_AUTO);
}

#[test]
fn fan_does_nothing_without_device() {
    let mut d = DeviceManager::new(None);
    let mut f = FanControl::new();
    assert!(!f.control_step(&mut d, Some(90000)));
    assert_eq!(f.last_fan_speed, FAN_UNSET);
}

#[test]
fn light_off_twice_same_as_once() {
    let mut d = laptop_manager();
    d.light_off();
    assert!(!d.device.as_ref().unwrap().light_on);
    d.light_off();
    assert!(!d.device.as_ref().unwrap().light_on);
    d.restore_light();
    d.restore_light();
    assert!(d.device.as_ref().unwrap().light_on);
}

#[test]
fn display_and_screensaver_events() {
    let mut d = laptop_manager();
    on_power_save_mode(&mut d, 3);
    assert!(!d.device.as_ref().unwrap().light_on);
    on_power_save_mode(&mut d, 1);
    assert!(!d.device.as_ref().unwrap().light_on);
    on_power_save_mode(&mut d, 0);
    assert!(d.device.as_ref().unwrap().light_on);
    on_screensaver_active(&mut d, true);
    assert!(!d.device.as_ref().unwrap().light_on);
    on_screensaver_active(&mut d, false);
    assert!(d.device.as_ref().unwrap().light_on);
}

#[test]
fn sleep_refreshes_ac_state() {
    let mut d = laptop_manager();
    on_prepare_for_sleep(&mut d, true, true);
    assert!(d.device.as_ref().unwrap().ac_state);
    assert!(!d.device.as_ref().unwrap().light_on);
    on_prepare_for_sleep(&mut d, false, false);
    assert!(!d.device.as_ref().unwrap().ac_state);
    assert!(d.device.as_ref().unwrap().light_on);
}

#[test]
fn ac_change_names_handler_argument() {
    let mut d = laptop_manager();
    assert_eq!(on_ac_online(&mut d, true), "plugged");
    assert!(d.device.as_ref().unwrap().ac_state);
    assert_eq!(on_ac_online(&mut d, false), "unplugged");
    assert!(!d.device.as_ref().unwrap().ac_state);
}

#[test]
fn active_watch_restores_after_idle_fire() {
    let mut d = laptop_manager();
    d.set_idle_watch(7);
    d.set_active_watch(8);
    on_watch_fired(&mut d, 7);
    assert!(!d.device.as_ref().unwrap().light_on);
    let rearm = watches_to_rearm(Some(true));
    assert!(rearm.active && rearm.idle);
    d.set_active_watch(9);
    d.set_idle_watch(10);
    on_watch_fired(&mut d, 9);
    assert!(d.device.as_ref().unwrap().light_on);
    on_watch_fired(&mut d, 42);
    assert!(d.device.as_ref().unwrap().light_on);
}

#[test]
fn rearm_only_idle_after_empty_poll() {
    let r = watches_to_rearm(Some(false));
    assert!(!r.active && r.idle);
    let r = watches_to_rearm(None);
    assert!(!r.active && !r.idle);
}

#[test]
fn effect_names() {
    assert!(matches!(effect_kind_from_name("static"), Some(EffectKind::Static)));
    assert!(matches!(effect_kind_from_name("wave_gradient"), Some(EffectKind::WaveGradient)));
    assert!(effect_kind_from_name("stat").is_none());
    assert!(effect_kind_from_name("Static").is_none());
    assert!(matches!(standard_effect_from_name("starlight"), Some(StandardEffect::Starlight)));
    assert!(standard_effect_from_name("rainbow").is_none());
}

#[test]
fn save_then_load_round_trip() {
    let mut k = EffectManager::new();
    k.push_effect(EffectKind::Static, vec![0, 255, 0], full_key_mask());
    let mut mask = full_key_mask();
    mask[3] = false;
    k.push_effect(EffectKind::BreathingSingle, vec![1, 2, 3, 4, 5, 6, 7], mask.clone());
    let bytes = k.save();
    assert_eq!(bytes.len(), 8 + (1 + 8 + 3 + KEY_COUNT) + (1 + 8 + 7 + KEY_COUNT));
    let mut back = EffectManager::new();
    assert!(back.load_from_save(&bytes));
    assert_eq!(back.len(), 2);
    assert!(matches!(back.layers[0].kind, EffectKind::Static));
    assert_eq!(back.layers[0].params, vec![0, 255, 0]);
    assert_eq!(back.layers[0].mask, vec![true; KEY_COUNT]);
    assert!(matches!(back.layers[1].kind, EffectKind::BreathingSingle));
    assert_eq!(back.layers[1].params, vec![1, 2, 3, 4, 5, 6, 7]);
    assert_eq!(back.layers[1].mask, mask);
}

#[test]
fn load_rejects_damaged_bytes() {
    let mut k = EffectManager::new();
    k.push_effect(EffectKind::Static, vec![0, 255, 0], full_key_mask());
    let bytes = k.save();
    let mut target = EffectManager::new();
    target.push_effect(EffectKind::WaveGradient, vec![9], full_key_mask());
    assert!(!target.load_from_save(&bytes[..bytes.len() - 1]));
    let mut longer = bytes.clone();
    longer.push(0);
    assert!(!target.load_from_save(&longer));
    let mut bad_mask = bytes.clone();
    let last = bad_mask.len() - 1;
    bad_mask[last] = 2;
    assert!(!target.load_from_save(&bad_mask));
    assert!(!target.load_from_save(&[1, 2, 3]));
    assert_eq!(target.len(), 1);
    assert!(matches!(target.layers[0].kind, EffectKind::WaveGradient));
    assert!(target.load_from_save(&[0, 0, 0, 0, 0, 0, 0, 0]));
    assert_eq!(target.len(), 0);
}

#[test]
fn set_effect_unknown_name_fails_and_keeps_stack() {
    let mut d = laptop_manager();
    let mut k = EffectManager::new();
    k.push_effect(EffectKind::Static, vec![0, 255, 0], full_key_mask());
    let r = process_client_request(
        &mut d,
        &mut k,
        DaemonCommand::SetEffect { name: "sparkle".to_string(), params: vec![1] },
    );
    assert!(matches!(r, Some(DaemonResponse::SetEffect { result: false })));
    assert_eq!(k.len(), 1);
    assert_eq!(top(&k), (EffectKind::Static, vec![0, 255, 0], vec![true; KEY_COUNT]));
}

#[test]
fn set_effect_replaces_top_layer() {
    let mut d = laptop_manager();
    let mut k = EffectManager::new();
    k.push_effect(EffectKind::Static, vec![0, 255, 0], full_key_mask());
    let r = process_client_request(
        &mut d,
        &mut k,
        DaemonCommand::SetEffect { name: "wave_gradient".to_string(), params: vec![4, 5] },
    );
    assert!(matches!(r, Some(DaemonResponse::SetEffect { result: true })));
    assert_eq!(k.len(), 1);
    assert_eq!(top(&k), (EffectKind::WaveGradient, vec![4, 5], vec![true; KEY_COUNT]));
}

#[test]
fn set_effect_without_device_fails() {
    let mut d = DeviceManager::new(None);
    let mut k = EffectManager::new();
    let r = process_client_request(
        &mut d,
        &mut k,
        DaemonCommand::SetEffect { name: "static".to_string(), params: vec![1, 2, 3] },
    );
    assert!(matches!(r, Some(DaemonResponse::SetEffect { result: false })));
    assert_eq!(k.len(), 0);
}

#[test]
fn requests_handled_one_after_another() {
    let mut d = laptop_manager();
    let mut k = EffectManager::new();
    k.push_effect(EffectKind::Static, vec![0, 255, 0], full_key_mask());
    let first = DaemonCommand::SetEffect { name: "static".to_string(), params: vec![255, 0, 0] };
    let second = DaemonCommand::SetEffect { name: "breathing_single".to_string(), params: vec![1] };
    let r1 = process_client_request(&mut d, &mut k, first);
    let r2 = process_client_request(&mut d, &mut k, second);
    assert!(matches!(r1, Some(DaemonResponse::SetEffect { result: true })));
    assert!(matches!(r2, Some(DaemonResponse::SetEffect { result: true })));
    assert_eq!(k.len(), 1);
    assert_eq!(top(&k), (EffectKind::BreathingSingle, vec![1], vec![true; KEY_COUNT]));
}

#[test]
fn standard_effect_requests() {
    let mut d = laptop_manager();
    let mut k = EffectManager::new();
    k.push_effect(EffectKind::Static, vec![0, 255, 0], full_key_mask());
    let r = process_client_request(
        &mut d,
        &mut k,
        DaemonCommand::SetStandardEffect { name: "spectrum".to_string(), params: vec![] },
    );
    assert!(matches!(r, Some(DaemonResponse::SetStandardEffect { result: true })));
    assert_eq!(k.len(), 0);
    assert!(matches!(
        d.device.as_ref().unwrap().standard_effect,
        Some((StandardEffect::Spectrum, _))
    ));
    let r = process_client_request(
        &mut d,
        &mut k,
        DaemonCommand::SetStandardEffect { name: "disco".to_string(), params: vec![] },
    );
    assert!(matches!(r, Some(DaemonResponse::SetStandardEffect { result: false })));
}

#[test]
fn device_setters_and_getters() {
    let mut d = laptop_manager();
    let mut k = EffectManager::new();
    let r = process_client_request(&mut d, &mut k, DaemonCommand::SetFanSpeed { ac: 1, rpm: 3100 });
    assert!(matches!(r, Some(DaemonResponse::SetFanSpeed { result: true })));
    let r = process_client_request(&mut d, &mut k, DaemonCommand::GetFanSpeed { ac: 1 });
    assert!(matches!(r, Some(DaemonResponse::GetFanSpeed { rpm: 3100 })));
    let r = process_client_request(&mut d, &mut k, DaemonCommand::GetFanSpeed { ac: 0 });
    assert!(matches!(r, Some(DaemonResponse::GetFanSpeed { rpm: 0 })));
    let r = process_client_request(&mut d, &mut k, DaemonCommand::SetFanSpeed { ac: 2, rpm: 3100 });
    assert!(matches!(r, Some(DaemonResponse::SetFanSpeed { result: false })));
    let r = process_client_request(
        &mut d,
        &mut k,
        DaemonCommand::SetPowerMode { ac: 0, pwr: 4, cpu: 2, gpu: 1 },
    );
    assert!(matches!(r, Some(DaemonResponse::SetPowerMode { result: true })));
    let r = process_client_request(&mut d, &mut k, DaemonCommand::GetPwrLevel { ac: 0 });
    assert!(matches!(r, Some(DaemonResponse::GetPwrLevel { pwr: 4 })));
    let r = process_client_request(&mut d, &mut k, DaemonCommand::GetCPUBoost { ac: 0 });
    assert!(matches!(r, Some(DaemonResponse::GetCPUBoost { cpu: 2 })));
    let r = process_client_request(&mut d, &mut k, DaemonCommand::GetGPUBoost { ac: 0 });
    assert!(matches!(r, Some(DaemonResponse::GetGPUBoost { gpu: 1 })));
    let r = process_client_request(&mut d, &mut k, DaemonCommand::SetBrightness { ac: 1, val: 128 });
    assert!(matches!(r, Some(DaemonResponse::SetBrightness { result: true })));
    let r = process_client_request(&mut d, &mut k, DaemonCommand::GetBrightness { ac: 1 });
    assert!(matches!(r, Some(DaemonResponse::GetBrightness { result: 128 })));
    let r = process_client_request(
        &mut d,
        &mut k,
        DaemonCommand::SetLogoLedState { ac: 1, logo_state: 2 },
    );
    assert!(matches!(r, Some(DaemonResponse::SetLogoLedState { result: true })));
    let r = process_client_request(&mut d, &mut k, DaemonCommand::GetLogoLedState { ac: 1 });
    assert!(matches!(r, Some(DaemonResponse::GetLogoLedState { logo_state: 2 })));
    let r = process_client_request(&mut d, &mut k, DaemonCommand::SetIdle { ac: 0, val: 600 });
    assert!(matches!(r, Some(DaemonResponse::SetIdle { result: true })));
    assert_eq!(d.device.as_ref().unwrap().battery.idle, 600);
    let r = process_client_request(&mut d, &mut k, DaemonCommand::SetSync { sync: true });
    assert!(matches!(r, Some(DaemonResponse::SetSync { result: true })));
    let r = process_client_request(&mut d, &mut k, DaemonCommand::GetSync());
    assert!(matches!(r, Some(DaemonResponse::GetSync { sync: true })));
}

#[test]
fn battery_health_optimizer_reply() {
    let mut d = laptop_manager();
    let mut k = EffectManager::new();
    let r = process_client_request(&mut d, &mut k, DaemonCommand::GetBatteryHealthOptimizer());
    assert!(r.is_none());
    let r = process_client_request(
        &mut d,
        &mut k,
        DaemonCommand::SetBatteryHealthOptimizer { is_on: true, threshold: 80 },
    );
    assert!(matches!(r, Some(DaemonResponse::SetBatteryHealthOptimizer { result: true })));
    let r = process_client_request(&mut d, &mut k, DaemonCommand::GetBatteryHealthOptimizer());
    assert!(matches!(
        r,
        Some(DaemonResponse::GetBatteryHealthOptimizer { is_on: true, threshold: 80 })
    ));
}

#[test]
fn device_name_reply() {
    let mut d = laptop_manager();
    let mut k = EffectManager::new();
    match process_client_request(&mut d, &mut k, DaemonCommand::GetDeviceName) {
        Some(DaemonResponse::GetDeviceName { name }) => assert_eq!(name, "Blade 15"),
        _ => panic!("no device name"),
    }
    let mut none = DeviceManager::new(None);
    match process_client_request(&mut none, &mut k, DaemonCommand::GetDeviceName) {
        Some(DaemonResponse::GetDeviceName { name }) => assert_eq!(name, "Unknown Device"),
        _ => panic!("no device name"),
    }
    let r = process_client_request(&mut none, &mut k, DaemonCommand::SetSync { sync: true });
    assert!(matches!(r, Some(DaemonResponse::SetSync { result: false })));
}

#[test]
fn keyboard_rgb_reply() {
    let mut d = laptop_manager();
    let mut k = EffectManager::new();
    k.push_effect(EffectKind::Static, vec![0, 255, 0], full_key_mask());
    k.set_frame(0, vec![0, 255, 0, 0, 255, 0]);
    match process_client_request(&mut d, &mut k, DaemonCommand::GetKeyboardRGB { layer: 0 }) {
        Some(DaemonResponse::GetKeyboardRGB { layer, rgbdata }) => {
            assert_eq!(layer, 0);
            assert_eq!(rgbdata, vec![0, 255, 0, 0, 255, 0]);
        }
        _ => panic!("no map"),
    }
    match process_client_request(&mut d, &mut k, DaemonCommand::GetKeyboardRGB { layer: 5 }) {
        Some(DaemonResponse::GetKeyboardRGB { layer, rgbdata }) => {
            assert_eq!(layer, 5);
            assert!(rgbdata.is_empty());
        }
        _ => panic!("no map"),
    }
}

#[test]
fn lock_plans_take_device_first() {
    let plan = locks_needed(&DaemonCommand::SetEffect { name: "static".to_string(), params: vec![] });
    assert!(matches!(plan.as_slice(), [SharedState::Device, SharedState::Effects]));
    let plan = locks_needed(&DaemonCommand::GetSync());
    assert!(matches!(plan.as_slice(), [SharedState::Device]));
}

#[test]
fn raw_report_readings() {
    let out = "coretemp-isa-0000\n  core_input: 48250\n";
    assert_eq!(cpu_temperature_raw(out.as_bytes()), Some(48250));
    let out = "acpitz\n  cpu_input:  15.000\n  tctl_input: 61.1259\r\n";
    assert_eq!(cpu_temperature_raw(out.as_bytes()), Some(61125));
    let out = "  temp1_input: 45.000\n";
    assert_eq!(cpu_temperature_raw(out.as_bytes()), None);
    let out = "  package_input: hot\n  cpu_input: 119.999\n";
    assert_eq!(cpu_temperature_raw(out.as_bytes()), Some(119999));
    assert_eq!(cpu_temperature_raw(b""), None);
}

#[test]
fn plain_report_readings() {
    let out = "coretemp-isa-0000\nAdapter: ISA adapter\nPackage id 0:  +52.5°C  (high = +80.0°C, crit = +100.0°C)\nCore 0:        +45.0°C  (high = +80.0°C)\n";
    assert_eq!(cpu_temperature_plain(out.as_bytes()), Some(52500));
    let out = "fan1:        2000 RPM\nCPU:          +130.0°C\nTctl:         +61.8°C\n";
    assert_eq!(cpu_temperature_plain(out.as_bytes()), Some(61800));
    let out = "temp1:        +45.0°C\n";
    assert_eq!(cpu_temperature_plain(out.as_bytes()), None);
}

#[test]
fn update_renders_rest_frames() {
    let mut k = EffectManager::new();
    let mut mask = vec![false; KEY_COUNT];
    mask[0] = true;
    mask[2] = true;
    k.push_effect(EffectKind::Static, vec![0, 255, 0], mask);
    k.push_effect(EffectKind::WaveGradient, vec![7], full_key_mask());
    k.update();
    let f0 = k.get_map(0);
    assert_eq!(f0.len(), 3 * KEY_COUNT);
    assert_eq!(&f0[0..9], &[0, 255, 0, 0, 0, 0, 0, 255, 0]);
    let f1 = k.get_map(1);
    assert_eq!(&f1[0..6], &[7, 0, 0, 7, 0, 0]);
    assert!(k.get_map(-1).is_empty());
}

#[test]
fn startup_effects_restore_or_default() {
    let k = EffectManager::from_save_or_default(None);
    assert_eq!(k.len(), 1);
    assert_eq!(top(&k), (EffectKind::Static, vec![0, 255, 0], vec![true; KEY_COUNT]));
    let k = EffectManager::from_save_or_default(Some(&[9, 9]));
    assert_eq!(k.len(), 1);
    assert_eq!(top(&k), (EffectKind::Static, vec![0, 255, 0], vec![true; KEY_COUNT]));
    let mut saved = EffectManager::new();
    saved.push_effect(EffectKind::WaveGradient, vec![3, 4], full_key_mask());
    saved.push_effect(EffectKind::StaticGradient, vec![5], full_key_mask());
    let bytes = saved.save();
    let k = EffectManager::from_save_or_default(Some(&bytes));
    assert_eq!(k.len(), 2);
    assert_eq!(top(&k), (EffectKind::StaticGradient, vec![5], vec![true; KEY_COUNT]));
}
