//! Battery, power profiles and the time-remaining text.
//!
//! power-profiles-daemon names its profiles on the bus; the switch always
//! shows them saver → balanced → performance, whatever order the daemon
//! enumerates them in, and only those it supports.
//!
//! The battery and the profiles come from two services and are independent:
//! a desktop has profiles and no battery, a laptop without the daemon has a
//! battery and no profiles, and either alone keeps the tile drawn. The charge
//! level itself arrives as a fraction and is kept beside [`State`] by the
//! caller.
use vstd::prelude::*;

use crate::modules::Availability;
use crate::text::{decimal, joined, push_decimal, same_text};
use crate::tile_layout::kept_by;
use crate::ui::icons::PowerProfile;

verus! {

/// The three profiles, in the order they are shown.
#[derive(Debug, Clone, Copy, PartialEq, Eq, Structural)]
pub enum Profile {
    PowerSaver,
    Balanced,
    Performance,
}

/// The name a profile has on the bus.
pub open spec fn dbus_name(p: Profile) -> &'static str {
    match p {
        Profile::PowerSaver => "power-saver",
        Profile::Balanced => "balanced",
        Profile::Performance => "performance",
    }
}

impl Profile {
    pub const ORDER: [Profile; 3] = [Profile::PowerSaver, Profile::Balanced, Profile::Performance];

    pub fn as_dbus(self) -> (r: &'static str)
        ensures
            r == dbus_name(self),
    {
        match self {
            Profile::PowerSaver => "power-saver",
            Profile::Balanced => "balanced",
            Profile::Performance => "performance",
        }
    }

    /// The profile a bus name stands for; a name this applet does not know
    /// is none of ours.
    pub fn from_dbus(value: &str) -> (r: Option<Self>)
        ensures
            r == (if value@ == dbus_name(Profile::PowerSaver)@ {
                Some(Profile::PowerSaver)
            } else if value@ == dbus_name(Profile::Balanced)@ {
                Some(Profile::Balanced)
            } else if value@ == dbus_name(Profile::Performance)@ {
                Some(Profile::Performance)
            } else {
                None
            }),
    {
        if same_text(value, "power-saver") {
            Some(Profile::PowerSaver)
        } else if same_text(value, "balanced") {
            Some(Profile::Balanced)
        } else if same_text(value, "performance") {
            Some(Profile::Performance)
        } else {
            None
        }
    }

    pub open spec fn spec_l10n_key(self) -> &'static str {
        match self {
            Profile::PowerSaver => "profile-power-saver",
            Profile::Balanced => "profile-balanced",
            Profile::Performance => "profile-performance",
        }
    }

    /// Fluent key for the profile's display name.
    pub fn l10n_key(self) -> (r: &'static str)
        ensures
            r == self.spec_l10n_key(),
    {
        match self {
            Profile::PowerSaver => "profile-power-saver",
            Profile::Balanced => "profile-balanced",
            Profile::Performance => "profile-performance",
        }
    }

    /// The icon family a profile is drawn with.
    pub fn icon_profile(self) -> (r: PowerProfile)
        ensures
            r == (match self {
                Profile::PowerSaver => PowerProfile::PowerSaver,
                Profile::Balanced => PowerProfile::Balanced,
                Profile::Performance => PowerProfile::Performance,
            }),
    {
        match self {
            Profile::PowerSaver => PowerProfile::PowerSaver,
            Profile::Balanced => PowerProfile::Balanced,
            Profile::Performance => PowerProfile::Performance,
        }
    }
}

/// Reading a profile's own bus name back gives the profile, and no two
/// profiles share a name.
pub proof fn law_profile_names_round_trip(p: Profile, q: Profile)
    ensures
        (if dbus_name(p)@ == dbus_name(Profile::PowerSaver)@ {
            Some(Profile::PowerSaver)
        } else if dbus_name(p)@ == dbus_name(Profile::Balanced)@ {
            Some(Profile::Balanced)
        } else if dbus_name(p)@ == dbus_name(Profile::Performance)@ {
            Some(Profile::Performance)
        } else {
            None
        }) == Some(p),
        dbus_name(p)@ == dbus_name(q)@ ==> p == q,
{
    reveal_strlit("power-saver");
    reveal_strlit("balanced");
    reveal_strlit("performance");
    assert(dbus_name(Profile::PowerSaver)@.len() != dbus_name(Profile::Balanced)@.len());
    assert(dbus_name(Profile::PowerSaver)@[2] != dbus_name(Profile::Performance)@[2]);
    assert(dbus_name(Profile::Balanced)@.len() != dbus_name(Profile::Performance)@.len());
}

/// The supported profiles in display order: saver, balanced, performance,
/// keeping only those `supported` lists.
pub fn in_display_order(supported: &[Profile]) -> (r: Vec<Profile>)
    ensures
        r@ == kept_by(Profile::ORDER@, Profile::ORDER@.map_values(|p: Profile| supported@.contains(p))),
{
    let ghost mask = Profile::ORDER@.map_values(|p: Profile| supported@.contains(p));
    let order = Profile::ORDER;
    let mut out: Vec<Profile> = Vec::new();
    let mut i: usize = 0;
    while i < 3
        invariant
            i <= 3,
            order@ == Profile::ORDER@,
            mask == Profile::ORDER@.map_values(|p: Profile| supported@.contains(p)),
            out@ == kept_by(Profile::ORDER@.take(i as int), mask),
        decreases 3 - i,
    {
        let p = order[i];
        proof {
            assert(Profile::ORDER@.take(i + 1).drop_last() == Profile::ORDER@.take(i as int));
        }
        if contains_profile(supported, p) {
            out.push(p);
        }
        i = i + 1;
    }
    proof {
        assert(Profile::ORDER@.take(3) == Profile::ORDER@);
    }
    out
}

fn contains_profile(v: &[Profile], p: Profile) -> (r: bool)
    ensures
        r == v@.contains(p),
{
    let mut i: usize = 0;
    while i < v.len()
        invariant
            i <= v@.len(),
            forall|j: int| 0 <= j < i ==> v@[j] != p,
        decreases v@.len() - i,
    {
        if v[i] == p {
            assert(v@[i as int] == p);
            return true;
        }
        i = i + 1;
    }
    false
}

/// Whole minutes a time estimate shows: under a minute reads as one.
pub open spec fn shown_minutes(seconds: int) -> int {
    if seconds < 60 {
        1
    } else {
        seconds / 60
    }
}

/// Minutes as two digits, with a leading zero below ten.
pub open spec fn two_digits(m: nat) -> Seq<char> {
    if m < 10 {
        seq!['0'] + decimal(m)
    } else {
        decimal(m)
    }
}

/// "2h 15m", or just "45m" under an hour.
pub open spec fn duration_text(seconds: int) -> Seq<char> {
    let total = shown_minutes(seconds);
    let hours = total / 60;
    let minutes = total % 60;
    if hours > 0 {
        decimal(hours as nat) + seq!['h', ' '] + two_digits(minutes as nat) + seq!['m']
    } else {
        decimal(minutes as nat) + seq!['m']
    }
}

/// Render a duration as "2h 15m", or just "45m" under an hour.
///
/// Rounds down to the minute, and anything under a minute — an estimate of
/// zero included — reads as "1m" rather than as about to die.
pub fn format_duration(seconds: i64) -> (r: String)
    ensures
        r@ == duration_text(seconds as int),
{
    let total: i64 = if seconds < 60 {
        1
    } else {
        seconds / 60
    };
    let hours = total / 60;
    let minutes = total % 60;
    let mut out = String::new();
    proof {
        reveal_strlit("h ");
        reveal_strlit("m");
        reveal_strlit("0");
    }
    if hours > 0 {
        push_decimal(&mut out, hours as u64);
        out.append("h ");
        if minutes < 10 {
            out.append("0");
        }
        push_decimal(&mut out, minutes as u64);
        out.append("m");
    } else {
        push_decimal(&mut out, minutes as u64);
        out.append("m");
    }
    proof {
        assert(out@ =~= duration_text(seconds as int));
    }
    out
}

/// What the battery and power-profile rows show, apart from the charge level.
#[derive(Debug, Clone)]
pub struct State {
    /// Whether there is a battery.
    pub battery: Availability,
    /// Whether power-profiles-daemon answers with at least one profile.
    pub profiles: Availability,
    pub charging: bool,
    pub active_profile: Option<Profile>,
    /// In display order.
    pub supported_profiles: Vec<Profile>,
    /// Why the performance profile is held back, when it is.
    pub performance_degraded: Option<String>,
    /// Whether the hardware can stop charging short of full.
    pub charge_threshold_supported: bool,
    pub charge_threshold_enabled: bool,
    /// Seconds to empty, or to full while charging; absent while there is
    /// no estimate yet.
    pub time_remaining: Option<i64>,
}

/// A fresh reading from one of the two services.
#[derive(Debug, Clone)]
pub enum Event {
    Battery {
        present: bool,
        charging: bool,
        charge_threshold_supported: bool,
        charge_threshold_enabled: bool,
        time_remaining: Option<i64>,
    },
    Profiles { active: Option<Profile>, supported: Vec<Profile>, degraded: Option<String> },
}

impl Default for State {
    /// Nothing heard from either service yet.
    fn default() -> (r: Self)
        ensures
            r.battery == Availability::Unknown,
            r.profiles == Availability::Unknown,
            !r.charging,
            r.active_profile is None,
            r.supported_profiles@.len() == 0,
            r.performance_degraded is None,
            !r.charge_threshold_supported,
            !r.charge_threshold_enabled,
            r.time_remaining is None,
    {
        State {
            battery: Availability::Unknown,
            profiles: Availability::Unknown,
            charging: false,
            active_profile: None,
            supported_profiles: Vec::new(),
            performance_degraded: None,
            charge_threshold_supported: false,
            charge_threshold_enabled: false,
            time_remaining: None,
        }
    }
}

/// A degradation reason as shown: the daemon reports "" rather than leaving
/// the property out, and that means not degraded.
pub open spec fn shown_reason(degraded: Option<String>) -> Option<String> {
    match degraded {
        Some(reason) => if reason@.len() > 0 {
            Some(reason)
        } else {
            None
        },
        None => None,
    }
}

impl State {
    /// The tile is drawn while either service has something to show.
    pub fn is_shown(&self) -> (r: bool)
        ensures
            r == (self.battery == Availability::Available || self.profiles == Availability::Available),
    {
        self.battery.is_shown() || self.profiles.is_shown()
    }

    /// Take in a reading. A battery reading leaves the profiles alone and the
    /// other way round, so neither service's absence hides the other's row.
    pub fn update(&mut self, event: Event)
        ensures
            match event {
                Event::Battery {
                    present,
                    charging,
                    charge_threshold_supported,
                    charge_threshold_enabled,
                    time_remaining,
                } => {
                    &&& final(self).battery == (if present {
                        Availability::Available
                    } else {
                        Availability::Unavailable
                    })
                    &&& final(self).charging == charging
                    &&& final(self).charge_threshold_supported == charge_threshold_supported
                    &&& final(self).charge_threshold_enabled == charge_threshold_enabled
                    &&& final(self).time_remaining == time_remaining
                    &&& final(self).profiles == old(self).profiles
                    &&& final(self).active_profile == old(self).active_profile
                    &&& final(self).supported_profiles@ == old(self).supported_profiles@
                    &&& final(self).performance_degraded == old(self).performance_degraded
                },
                Event::Profiles { active, supported, degraded } => {
                    &&& final(self).profiles == (if supported@.len() == 0 {
                        Availability::Unavailable
                    } else {
                        Availability::Available
                    })
                    &&& final(self).active_profile == active
                    &&& final(self).supported_profiles@ == supported@
                    &&& final(self).performance_degraded == shown_reason(degraded)
                    &&& final(self).battery == old(self).battery
                    &&& final(self).charging == old(self).charging
                    &&& final(self).charge_threshold_supported == old(self).charge_threshold_supported
                    &&& final(self).charge_threshold_enabled == old(self).charge_threshold_enabled
                    &&& final(self).time_remaining == old(self).time_remaining
                },
            },
    {
        match event {
            Event::Battery {
                present,
                charging,
                charge_threshold_supported,
                charge_threshold_enabled,
                time_remaining,
            } => {
                self.charge_threshold_supported = charge_threshold_supported;
                self.charge_threshold_enabled = charge_threshold_enabled;
                self.time_remaining = time_remaining;
                self.battery = if present {
                    Availability::Available
                } else {
                    Availability::Unavailable
                };
                self.charging = charging;
            },
            Event::Profiles { active, supported, degraded } => {
                self.profiles = if supported.len() == 0 {
                    Availability::Unavailable
                } else {
                    Availability::Available
                };
                self.active_profile = active;
                self.supported_profiles = supported;
                self.performance_degraded = match degraded {
                    Some(reason) => if reason.as_str().is_empty() {
                        None
                    } else {
                        Some(reason)
                    },
                    None => None,
                };
            },
        }
    }

    /// Switch profile: shown at once, and handed back to be written to the
    /// daemon.
    pub fn set_profile(&mut self, profile: Profile) -> (r: Profile)
        ensures
            r == profile,
            final(self).active_profile == Some(profile),
            final(self).battery == old(self).battery,
            final(self).profiles == old(self).profiles,
            final(self).supported_profiles@ == old(self).supported_profiles@,
            final(self).charge_threshold_enabled == old(self).charge_threshold_enabled,
    {
        self.active_profile = Some(profile);
        profile
    }

    /// Flip the charge limit, returning the new setting to write; hardware
    /// that cannot do it is offered nothing and nothing changes.
    pub fn toggle_charge_threshold(&mut self) -> (r: Option<bool>)
        ensures
            old(self).charge_threshold_supported ==> {
                &&& r == Some(!old(self).charge_threshold_enabled)
                &&& final(self).charge_threshold_enabled == !old(self).charge_threshold_enabled
            },
            !old(self).charge_threshold_supported ==> {
                &&& r is None
                &&& final(self).charge_threshold_enabled == old(self).charge_threshold_enabled
            },
            final(self).charge_threshold_supported == old(self).charge_threshold_supported,
            final(self).battery == old(self).battery,
            final(self).profiles == old(self).profiles,
            final(self).active_profile == old(self).active_profile,
            final(self).charging == old(self).charging,
    {
        if !self.charge_threshold_supported {
            return None;
        }
        self.charge_threshold_enabled = !self.charge_threshold_enabled;
        Some(self.charge_threshold_enabled)
    }
}

/// Fluent key of the battery tile's second line, given whether a charge
/// level is known, whether it is charging and the active profile.
///
/// The charge alone when there is a battery (with the profile beside it the
/// line no longer fits a tile); the profile on a machine without one, where
/// it is the reason the tile exists; else that there is no battery. The two
/// charge messages take the rounded level as `percent`.
pub fn summary_key(has_charge: bool, charging: bool, active: Option<Profile>) -> (r: &'static str)
    ensures
        r == (if has_charge && charging {
            "battery-charging"
        } else if has_charge {
            "battery-charge"
        } else {
            match active {
                Some(Profile::PowerSaver) => "profile-power-saver",
                Some(Profile::Balanced) => "profile-balanced",
                Some(Profile::Performance) => "profile-performance",
                None => "battery-no-battery",
            }
        }),
{
    if has_charge && charging {
        "battery-charging"
    } else if has_charge {
        "battery-charge"
    } else {
        match active {
            Some(p) => p.l10n_key(),
            None => "battery-no-battery",
        }
    }
}

/// UPower's device states that mean power is going in: charging (1) and
/// pending charge (4).
pub open spec fn charging_state(state: u32) -> bool {
    state == 1 || state == 4
}

/// Whether UPower's device state means the battery is charging; the time
/// estimate to read is then time-to-full, else time-to-empty.
pub fn is_charging(state: u32) -> (r: bool)
    ensures
        r == charging_state(state),
{
    state == 1 || state == 4
}

/// A battery reading as UPower's properties give it: whether a battery is
/// present, its device state, the estimate in seconds that goes with that
/// state, the charge-threshold support flags and setting.
///
/// UPower reports an estimate of 0 until it has discharge history; that, and
/// any estimate without a battery, is no estimate rather than zero.
pub fn battery_event(
    present: bool,
    state: u32,
    seconds: i64,
    threshold_settings_supported: u32,
    threshold_enabled: bool,
) -> (r: Event)
    ensures
        r == (Event::Battery {
            present,
            charging: charging_state(state),
            charge_threshold_supported: threshold_settings_supported != 0,
            charge_threshold_enabled: threshold_enabled,
            time_remaining: if present && seconds > 0 {
                Some(seconds)
            } else {
                None
            },
        }),
{
    Event::Battery {
        present,
        charging: is_charging(state),
        charge_threshold_supported: threshold_settings_supported != 0,
        charge_threshold_enabled: threshold_enabled,
        time_remaining: if present && seconds > 0 {
            Some(seconds)
        } else {
            None
        },
    }
}

/// The profiles among `names` that this applet knows, as `Profile`s.
pub open spec fn known_profiles(names: Seq<Seq<char>>) -> Seq<Profile>
    decreases names.len(),
{
    if names.len() == 0 {
        Seq::empty()
    } else {
        let rest = known_profiles(names.drop_last());
        match profile_named(names.last()) {
            Some(p) => rest.push(p),
            None => rest,
        }
    }
}

/// The profile a bus name stands for.
pub open spec fn profile_named(name: Seq<char>) -> Option<Profile> {
    if name == dbus_name(Profile::PowerSaver)@ {
        Some(Profile::PowerSaver)
    } else if name == dbus_name(Profile::Balanced)@ {
        Some(Profile::Balanced)
    } else if name == dbus_name(Profile::Performance)@ {
        Some(Profile::Performance)
    } else {
        None
    }
}

/// A profiles reading as the daemon gives it: the names it lists (a name
/// this applet does not know is skipped), the active one, and the
/// degradation reason. The supported profiles come out in display order.
pub fn profiles_event(names: &[String], active: Option<&str>, degraded: Option<String>) -> (r: Event)
    ensures
        r matches Event::Profiles { active: a, supported, degraded: d } && {
            &&& a == match active {
                Some(n) => profile_named(n@),
                None => None,
            }
            &&& supported@ == kept_by(
                Profile::ORDER@,
                Profile::ORDER@.map_values(
                    |p: Profile| known_profiles(names@.map_values(|n: String| n@)).contains(p),
                ),
            )
            &&& d == degraded
        },
{
    let ghost views = names@.map_values(|n: String| n@);
    let mut found: Vec<Profile> = Vec::new();
    let mut i: usize = 0;
    while i < names.len()
        invariant
            i <= names@.len(),
            views == names@.map_values(|n: String| n@),
            found@ == known_profiles(views.take(i as int)),
        decreases names@.len() - i,
    {
        proof {
            assert(views.take(i + 1).drop_last() =~= views.take(i as int));
        }
        match Profile::from_dbus(names[i].as_str()) {
            Some(p) => found.push(p),
            None => {},
        }
        i = i + 1;
    }
    proof {
        assert(views.take(i as int) =~= views);
    }
    let supported = in_display_order(found.as_slice());
    let active = match active {
        Some(n) => Profile::from_dbus(n),
        None => None,
    };
    Event::Profiles { active, supported, degraded }
}

/// The bus names of `profiles`.
pub open spec fn names_of(profiles: Seq<Profile>) -> Seq<Seq<char>> {
    profiles.map_values(|p: Profile| dbus_name(p)@)
}

/// The profiles part of a `--check` line: the active profile, or "none",
/// "of" the supported ones in brackets, as "balanced of [power-saver,
/// balanced]".
pub fn profiles_line(active: Option<Profile>, supported: &[Profile]) -> (r: String)
    ensures
        r@ == (match active {
            Some(p) => dbus_name(p)@,
            None => "none"@,
        }) + " of ["@ + joined(names_of(supported@), ", "@) + "]"@,
{
    let mut out = String::new();
    match active {
        Some(p) => out.append(p.as_dbus()),
        None => out.append("none"),
    }
    out.append(" of [");
    let ghost head = out@;
    let ghost texts = names_of(supported@);
    let mut i: usize = 0;
    while i < supported.len()
        invariant
            i <= supported@.len(),
            texts == names_of(supported@),
            out@ == head + joined(texts.take(i as int), ", "@),
        decreases supported@.len() - i,
    {
        proof {
            assert(texts.take(i + 1).drop_last() =~= texts.take(i as int));
            if i == 0 {
                assert(texts.take(0) =~= Seq::<Seq<char>>::empty());
                assert(joined(texts.take(1), ", "@) == texts[0]);
            }
        }
        if i > 0 {
            out.append(", ");
        }
        out.append(supported[i].as_dbus());
        proof {
            if i == 0 {
                assert(out@ =~= head + joined(texts.take(1), ", "@));
            } else {
                assert(out@ =~= head + joined(texts.take(i + 1), ", "@));
            }
        }
        i = i + 1;
    }
    proof {
        assert(texts.take(i as int) =~= texts);
    }
    out.append("]");
    out
}


/// The battery part of a `--check` line when a battery is present: the
/// charge (`percent`, already written out in whole percent), whether it is
/// charging, the time estimate if UPower has one, and whether the charge
/// limit can be set.
pub fn charge_line(percent: &str, charging: bool, time_remaining: Option<i64>, threshold_supported: bool) -> (r: String)
    ensures
        r@ == percent@ + "%"@ + (if charging {
            " charging"@
        } else {
            ""@
        }) + match time_remaining {
            Some(seconds) => ", "@ + duration_text(seconds as int) + " "@ + (if charging {
                "until full"@
            } else {
                "remaining"@
            }),
            None => ", no time estimate yet"@,
        } + (if threshold_supported {
            ", charge limit supported"@
        } else {
            ""@
        }),
{
    let mut line = String::from_str(percent);
    line.append("%");
    line.append(if charging { " charging" } else { "" });
    match time_remaining {
        Some(seconds) => {
            line.append(", ");
            let d = format_duration(seconds);
            line.append(d.as_str());
            line.append(" ");
            line.append(if charging { "until full" } else { "remaining" });
        },
        None => line.append(", no time estimate yet"),
    }
    line.append(if threshold_supported { ", charge limit supported" } else { "" });
    line
}

} // verus!
