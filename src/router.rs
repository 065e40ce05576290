use vstd::prelude::*;
use crate::device::DeviceManager;

verus! {

/// The display power-save value that means the screen is off.
pub const POWER_SAVE_OFF: i32 = 3;
/// The display power-save value that means the screen is on.
pub const POWER_SAVE_ON: i32 = 0;

/// The state after a display power-save change to `mode`.
pub open spec fn spec_power_save_mode(d: DeviceManager, mode: i32) -> DeviceManager {
    if mode == POWER_SAVE_OFF {
        d.spec_set_light(false)
    } else if mode == POWER_SAVE_ON {
        d.spec_set_light(true)
    } else {
        d
    }
}

/// The state after the idle monitor fires the watch `id`.
pub open spec fn spec_watch_fired(d: DeviceManager, id: u32) -> DeviceManager {
    if id == d.idle_id {
        d.spec_set_light(false)
    } else if id == d.active_id {
        d.spec_set_light(true)
    } else {
        d
    }
}

/// The state after a sleep-prepare signal, with the AC state read afresh.
pub open spec fn spec_prepare_for_sleep(d: DeviceManager, start: bool, ac_online: bool) -> DeviceManager {
    d.spec_set_ac_state(ac_online).spec_set_light(!start)
}

/// Display power-save property changed: 3 turns the light off, 0 brings it back,
/// any other value is ignored.
pub fn on_power_save_mode(d: &mut DeviceManager, mode: i32)
    ensures
        *final(d) == spec_power_save_mode(*old(d), mode),
{
    if mode == POWER_SAVE_OFF {
        d.light_off();
    } else if mode == POWER_SAVE_ON {
        d.restore_light();
    }
}

/// The idle monitor fired a watch: the idle watch turns the light off, the
/// active watch brings it back, any other identifier is ignored.
pub fn on_watch_fired(d: &mut DeviceManager, id: u32)
    ensures
        *final(d) == spec_watch_fired(*old(d), id),
{
    if id == d.idle_id {
        d.light_off();
    } else if id == d.active_id {
        d.restore_light();
    }
}

/// The screensaver turned on (light off) or off (light back).
pub fn on_screensaver_active(d: &mut DeviceManager, active: bool)
    ensures
        *final(d) == old(d).spec_set_light(!active),
{
    if active {
        d.light_off();
    } else {
        d.restore_light();
    }
}

/// The system is about to sleep (`start`) or has resumed: record the AC state
/// read from the hardware, then turn the light off or bring it back.
pub fn on_prepare_for_sleep(d: &mut DeviceManager, start: bool, ac_online: bool)
    ensures
        *final(d) == spec_prepare_for_sleep(*old(d), start, ac_online),
{
    d.set_ac_state(ac_online);
    if start {
        d.light_off();
    } else {
        d.restore_light();
    }
}

/// The AC adapter came online or went offline: record it, and return the
/// argument for the user's power-state handler script.
pub fn on_ac_online(d: &mut DeviceManager, online: bool) -> (arg: &'static str)
    ensures
        *final(d) == old(d).spec_set_ac_state(online),
        arg@ == (if online {
            "plugged"@
        } else {
            "unplugged"@
        }),
{
    d.set_ac_state(online);
    proof {
        reveal_strlit("plugged");
        reveal_strlit("unplugged");
    }
    if online {
        "plugged"
    } else {
        "unplugged"
    }
}

/// Which idle-monitor watches to register again after one poll of the session
/// bus. Notifications are one-shot: the idle watch is re-armed after every
/// successful poll, the active watch only after a poll that handled a message.
pub struct Rearm {
    pub active: bool,
    pub idle: bool,
}

/// `poll` is `None` where the poll failed, else whether it handled a message.
pub fn watches_to_rearm(poll: Option<bool>) -> (r: Rearm)
    ensures
        r.active == (poll == Some(true)),
        r.idle == (poll is Some),
{
    match poll {
        Some(handled) => Rearm { active: handled, idle: true },
        None => Rearm { active: false, idle: false },
    }
}

/// Turning the light off twice leaves the same state as once, and the device
/// then reports it off; the same holds for bringing it back.
pub proof fn lemma_light_switch_idempotent(d: DeviceManager)
    ensures
        d.spec_set_light(false).spec_set_light(false) == d.spec_set_light(false),
        d.spec_set_light(true).spec_set_light(true) == d.spec_set_light(true),
        !d.spec_set_light(false).is_light_on(),
        d.device is Some ==> d.spec_set_light(true).is_light_on(),
{
}

/// After the idle watch fires and the poll that handled it re-arms the active
/// watch as `active` and the idle watch as `idle`, the firing of `active`
/// brings the light back.
pub proof fn lemma_active_watch_after_idle_fire(d: DeviceManager, active: u32, idle: u32)
    requires
        d.device is Some,
        active != idle,
    ensures
        !spec_watch_fired(d, d.idle_id).is_light_on(),
        spec_watch_fired(
            DeviceManager {
                active_id: active,
                idle_id: idle,
                ..spec_watch_fired(d, d.idle_id)
            },
            active,
        ).is_light_on(),
{
}

} // verus!
