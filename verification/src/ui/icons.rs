//! Icon names, chosen for the current state.
//!
//! Two rules. Never name a single icon: a name the user's theme does not ship
//! draws nothing at all, so every choice here is a list of candidates, most
//! specific first, ending in a name broad enough that any theme has it;
//! [`resolve`] picks the first the active theme has. And the icon follows
//! the state: a tile that looks the same on and off says nothing.
use vstd::prelude::*;

use crate::text::{ascii_lower, ascii_lowercase};

verus! {

/// Last resort, part of the freedesktop spec so every theme has it, and
/// visibly wrong, which is what a failed lookup should look like.
pub const FALLBACK: &'static str = "image-missing-symbolic";

/// The icon `resolve` settles on, given which candidates the theme has.
pub open spec fn resolved(candidates: Seq<&'static str>, found: Seq<bool>) -> &'static str
    decreases candidates.len(),
{
    if candidates.len() == 0 {
        FALLBACK
    } else {
        first_found(candidates, found, 0)
    }
}

/// The first candidate from `i` on that the theme has, else the first of all.
pub open spec fn first_found(candidates: Seq<&'static str>, found: Seq<bool>, i: int) -> &'static str
    decreases candidates.len() - i,
{
    if i >= candidates.len() {
        candidates[0]
    } else if found[i] {
        candidates[i]
    } else {
        first_found(candidates, found, i + 1)
    }
}

/// The first candidate the active icon theme actually has, where `found[i]`
/// says whether it has `candidates[i]`.
///
/// When none resolves the most specific name is kept rather than the
/// fallback: themes get updated, and the name documents the intent. An empty
/// list yields [`FALLBACK`].
pub fn resolve(candidates: &[&'static str], found: &[bool]) -> (r: &'static str)
    requires
        found@.len() == candidates@.len(),
    ensures
        r == resolved(candidates@, found@),
{
    if candidates.len() == 0 {
        return FALLBACK;
    }
    let mut i: usize = 0;
    while i < candidates.len()
        invariant
            i <= candidates@.len(),
            found@.len() == candidates@.len(),
            candidates@.len() > 0,
            first_found(candidates@, found@, i as int) == first_found(candidates@, found@, 0),
        decreases candidates@.len() - i,
    {
        if found[i] {
            return candidates[i];
        }
        i = i + 1;
    }
    candidates[0]
}

/// The four bars NetworkManager's own tooling draws.
#[derive(Debug, Clone, Copy, PartialEq, Eq, Structural)]
pub enum Band {
    Weak,
    Fair,
    Good,
    Excellent,
}

pub open spec fn band_spec(strength: u8) -> Band {
    if strength >= 80 {
        Band::Excellent
    } else if strength >= 55 {
        Band::Good
    } else if strength >= 30 {
        Band::Fair
    } else {
        Band::Weak
    }
}

/// The bar a signal strength falls in, by NetworkManager's thresholds.
#[verifier::when_used_as_spec(band_spec)]
pub fn band(strength: u8) -> (r: Band)
    ensures
        r == band_spec(strength),
{
    if strength >= 80 {
        Band::Excellent
    } else if strength >= 55 {
        Band::Good
    } else if strength >= 30 {
        Band::Fair
    } else {
        Band::Weak
    }
}

pub open spec fn signal_spec(strength: u8, secure: bool) -> Seq<&'static str> {
    match (band_spec(strength), secure) {
        (Band::Excellent, true) => seq![
            "network-wireless-signal-excellent-secure-symbolic",
            "network-wireless-signal-excellent-symbolic",
            "network-wireless-symbolic",
        ],
        (Band::Good, true) => seq![
            "network-wireless-signal-good-secure-symbolic",
            "network-wireless-signal-good-symbolic",
            "network-wireless-symbolic",
        ],
        (Band::Fair, true) => seq![
            "network-wireless-signal-ok-secure-symbolic",
            "network-wireless-signal-ok-symbolic",
            "network-wireless-symbolic",
        ],
        (Band::Weak, true) => seq![
            "network-wireless-signal-weak-secure-symbolic",
            "network-wireless-signal-weak-symbolic",
            "network-wireless-symbolic",
        ],
        (Band::Excellent, false) => seq!["network-wireless-signal-excellent-symbolic", "network-wireless-symbolic"],
        (Band::Good, false) => seq!["network-wireless-signal-good-symbolic", "network-wireless-symbolic"],
        (Band::Fair, false) => seq!["network-wireless-signal-ok-symbolic", "network-wireless-symbolic"],
        (Band::Weak, false) => seq![
            "network-wireless-signal-weak-symbolic",
            "network-wireless-signal-none-symbolic",
            "network-wireless-symbolic",
        ],
    }
}

/// Signal-strength icon for a network in a list; `secure` picks the
/// padlocked variant where the theme has one, the only visual cue that
/// joining will need a password.
pub fn signal(strength: u8, secure: bool) -> (r: Vec<&'static str>)
    ensures
        r@ == signal_spec(strength, secure),
{
    match (band(strength), secure) {
        (Band::Excellent, true) => vec![
            "network-wireless-signal-excellent-secure-symbolic",
            "network-wireless-signal-excellent-symbolic",
            "network-wireless-symbolic",
        ],
        (Band::Good, true) => vec![
            "network-wireless-signal-good-secure-symbolic",
            "network-wireless-signal-good-symbolic",
            "network-wireless-symbolic",
        ],
        (Band::Fair, true) => vec![
            "network-wireless-signal-ok-secure-symbolic",
            "network-wireless-signal-ok-symbolic",
            "network-wireless-symbolic",
        ],
        (Band::Weak, true) => vec![
            "network-wireless-signal-weak-secure-symbolic",
            "network-wireless-signal-weak-symbolic",
            "network-wireless-symbolic",
        ],
        (Band::Excellent, false) => vec!["network-wireless-signal-excellent-symbolic", "network-wireless-symbolic"],
        (Band::Good, false) => vec!["network-wireless-signal-good-symbolic", "network-wireless-symbolic"],
        (Band::Fair, false) => vec!["network-wireless-signal-ok-symbolic", "network-wireless-symbolic"],
        (Band::Weak, false) => vec![
            "network-wireless-signal-weak-symbolic",
            "network-wireless-signal-none-symbolic",
            "network-wireless-symbolic",
        ],
    }
}

/// The icon names tried, in order, for [`bluetooth`].
pub open spec fn bluetooth_icons(powered: bool, connected: usize) -> Seq<&'static str> {
    (if !powered {
        seq![
            "bluetooth-disabled-symbolic",
            "bluetooth-inactive-symbolic",
            "bluetooth-symbolic",
        ]
    } else if connected > 0 {
        seq!["bluetooth-active-symbolic", "bluetooth-paired-symbolic", "bluetooth-symbolic"]
    } else {
        seq!["bluetooth-symbolic", "bluetooth-active-symbolic"]
    })
}

/// Bluetooth, by adapter power and whether anything is connected.
pub fn bluetooth(powered: bool, connected: usize) -> (r: Vec<&'static str>)
    ensures
        r@ == bluetooth_icons(powered, connected),
{
    if !powered {
        vec!["bluetooth-disabled-symbolic", "bluetooth-inactive-symbolic", "bluetooth-symbolic"]
    } else if connected > 0 {
        vec!["bluetooth-active-symbolic", "bluetooth-paired-symbolic", "bluetooth-symbolic"]
    } else {
        vec!["bluetooth-symbolic", "bluetooth-active-symbolic"]
    }
}

/// The icon names tried, in order, for [`wifi`].
pub open spec fn wifi_icons(airplane: bool, hardware_killed: bool, enabled: bool, connected: bool, strength: u8) -> Seq<&'static str> {
    (if airplane {
        seq![
            "airplane-mode-symbolic",
            "network-wireless-disabled-symbolic",
            "network-wireless-offline-symbolic",
        ]
    } else if hardware_killed {
        seq![
            "network-wireless-hardware-disabled-symbolic",
            "network-wireless-disabled-symbolic",
            "network-wireless-offline-symbolic",
        ]
    } else if !enabled {
        seq![
            "network-wireless-disabled-symbolic",
            "network-wireless-offline-symbolic",
            "network-wireless-symbolic",
        ]
    } else if !connected {
        seq![
            "network-wireless-offline-symbolic",
            "network-wireless-no-route-symbolic",
            "network-wireless-signal-none-symbolic",
            "network-wireless-symbolic",
        ]
    } else {
        signal_spec(strength, false)
    })
}

/// The Wi-Fi tile icon: airplane, hardware-blocked, off, disconnected, or
/// the signal strength of what is connected.
pub fn wifi(airplane: bool, hardware_killed: bool, enabled: bool, connected: bool, strength: u8) -> (r: Vec<&'static str>)
    ensures
        r@ == wifi_icons(airplane, hardware_killed, enabled, connected, strength),
{
    if airplane {
        vec![
            "airplane-mode-symbolic",
            "network-wireless-disabled-symbolic",
            "network-wireless-offline-symbolic",
        ]
    } else if hardware_killed {
        vec![
            "network-wireless-hardware-disabled-symbolic",
            "network-wireless-disabled-symbolic",
            "network-wireless-offline-symbolic",
        ]
    } else if !enabled {
        vec![
            "network-wireless-disabled-symbolic",
            "network-wireless-offline-symbolic",
            "network-wireless-symbolic",
        ]
    } else if !connected {
        vec![
            "network-wireless-offline-symbolic",
            "network-wireless-no-route-symbolic",
            "network-wireless-signal-none-symbolic",
            "network-wireless-symbolic",
        ]
    } else {
        signal(strength, false)
    }
}

/// The icon names tried, in order, for [`tiling`].
pub open spec fn tiling_icons(tiled: bool) -> Seq<&'static str> {
    (if tiled {
        seq![
            "com.system76.CosmicAppletTiling.On",
            "com.system76.CosmicAppletTiling-symbolic",
            "view-grid-symbolic",
            "view-app-grid-symbolic",
            "view-dual-symbolic",
        ]
    } else {
        seq![
            "com.system76.CosmicAppletTiling.Off",
            "view-restore-symbolic",
            "focus-windows-symbolic",
            "window-restore-symbolic",
            "view-grid-symbolic",
        ]
    })
}

/// Window tiling, by whether the current workspace is tiled or floating.
///
/// COSMIC's own tiling applet ships a matched pair of plain app icons, so
/// the tile reads the same as the tiling button already on the panel.
pub fn tiling(tiled: bool) -> (r: Vec<&'static str>)
    ensures
        r@ == tiling_icons(tiled),
{
    if tiled {
        vec![
            "com.system76.CosmicAppletTiling.On",
            "com.system76.CosmicAppletTiling-symbolic",
            "view-grid-symbolic",
            "view-app-grid-symbolic",
            "view-dual-symbolic",
        ]
    } else {
        vec![
            "com.system76.CosmicAppletTiling.Off",
            "view-restore-symbolic",
            "focus-windows-symbolic",
            "window-restore-symbolic",
            "view-grid-symbolic",
        ]
    }
}

/// The charge levels COSMIC's battery icons are drawn at. Not a decade
/// scale: COSMIC ships 35 and 65 but no 30, 40, 60 or 70.
pub const COSMIC_LEVELS: [u32; 10] = [0, 5, 10, 20, 35, 50, 65, 80, 90, 100];

/// The battery icon candidates: none without a battery (a desktop showing
/// power profiles only), else for a charge drawn at `level` of
/// [`COSMIC_LEVELS`], charging or not.
pub open spec fn battery_candidates(level: Option<u32>, charging: bool, critical: bool) -> Seq<&'static str> {
    match level {
        None => seq![
            "battery-missing-symbolic",
            "battery-symbolic",
        ],
        Some(level) => if charging {
            match level {
                100 => seq![
                    "cosmic-applet-battery-level-100-charging-symbolic",
                    "cosmic-applet-battery-level-100-symbolic",
                    "battery-level-100-charging-symbolic",
                    "battery-level-100-charged-symbolic",
                    "battery-full-charged-symbolic",
                    "battery-symbolic",
                ],
                90 => seq![
                    "cosmic-applet-battery-level-90-charging-symbolic",
                    "battery-level-90-charging-symbolic",
                    "battery-symbolic",
                ],
                80 => seq![
                    "cosmic-applet-battery-level-80-charging-symbolic",
                    "battery-level-80-charging-symbolic",
                    "battery-symbolic",
                ],
                65 => seq![
                    "cosmic-applet-battery-level-65-charging-symbolic",
                    "battery-level-60-charging-symbolic",
                    "battery-symbolic",
                ],
                50 => seq![
                    "cosmic-applet-battery-level-50-charging-symbolic",
                    "battery-level-50-charging-symbolic",
                    "battery-symbolic",
                ],
                35 => seq![
                    "cosmic-applet-battery-level-35-charging-symbolic",
                    "battery-level-30-charging-symbolic",
                    "battery-symbolic",
                ],
                20 => seq![
                    "cosmic-applet-battery-level-20-charging-symbolic",
                    "battery-level-20-charging-symbolic",
                    "battery-symbolic",
                ],
                10 => seq![
                    "cosmic-applet-battery-level-10-charging-symbolic",
                    "battery-level-10-charging-symbolic",
                    "battery-symbolic",
                ],
                5 => seq![
                    "cosmic-applet-battery-level-5-charging-symbolic",
                    "battery-level-10-charging-symbolic",
                    "battery-symbolic",
                ],
                _ => seq![
                    "cosmic-applet-battery-level-0-charging-symbolic",
                    "battery-level-0-charging-symbolic",
                    "battery-symbolic",
                ],
            }
        } else if critical {
            seq![
                "cosmic-applet-battery-level-0-symbolic",
                "battery-level-0-symbolic",
                "battery-caution-symbolic",
                "battery-empty-symbolic",
                "battery-symbolic",
            ]
        } else {
            match level {
                100 => seq![
                    "cosmic-applet-battery-level-100-symbolic",
                    "battery-level-100-symbolic",
                    "battery-full-symbolic",
                    "battery-symbolic",
                ],
                90 => seq![
                    "cosmic-applet-battery-level-90-symbolic",
                    "battery-level-90-symbolic",
                    "battery-good-symbolic",
                    "battery-symbolic",
                ],
                80 => seq![
                    "cosmic-applet-battery-level-80-symbolic",
                    "battery-level-80-symbolic",
                    "battery-good-symbolic",
                    "battery-symbolic",
                ],
                65 => seq![
                    "cosmic-applet-battery-level-65-symbolic",
                    "battery-level-60-symbolic",
                    "battery-good-symbolic",
                    "battery-symbolic",
                ],
                50 => seq![
                    "cosmic-applet-battery-level-50-symbolic",
                    "battery-level-50-symbolic",
                    "battery-good-symbolic",
                    "battery-symbolic",
                ],
                35 => seq![
                    "cosmic-applet-battery-level-35-symbolic",
                    "battery-level-30-symbolic",
                    "battery-low-symbolic",
                    "battery-symbolic",
                ],
                20 => seq![
                    "cosmic-applet-battery-level-20-symbolic",
                    "battery-level-20-symbolic",
                    "battery-low-symbolic",
                    "battery-symbolic",
                ],
                10 => seq![
                    "cosmic-applet-battery-level-10-symbolic",
                    "battery-level-10-symbolic",
                    "battery-caution-symbolic",
                    "battery-symbolic",
                ],
                5 => seq![
                    "cosmic-applet-battery-level-5-symbolic",
                    "battery-level-10-symbolic",
                    "battery-caution-symbolic",
                    "battery-symbolic",
                ],
                _ => seq![
                    "cosmic-applet-battery-level-0-symbolic",
                    "battery-level-0-symbolic",
                    "battery-caution-symbolic",
                    "battery-symbolic",
                ],
            }
        },
    }
}

/// Battery, by the level of [`COSMIC_LEVELS`] the charge is drawn at (the
/// largest at or below it, so a nearly flat battery is never overstated),
/// whether it is charging, and whether it is critically low. Critically low
/// and not charging is the one case that breaks the level progression: it
/// should not look like just another step down.
pub fn battery(level: Option<u32>, charging: bool, critical: bool) -> (r: Vec<&'static str>)
    ensures
        r@ == battery_candidates(level, charging, critical),
{
    match level {
        None => vec![
            "battery-missing-symbolic",
            "battery-symbolic",
        ],
        Some(level) => if charging {
            match level {
                100 => vec![
                    "cosmic-applet-battery-level-100-charging-symbolic",
                    "cosmic-applet-battery-level-100-symbolic",
                    "battery-level-100-charging-symbolic",
                    "battery-level-100-charged-symbolic",
                    "battery-full-charged-symbolic",
                    "battery-symbolic",
                ],
                90 => vec![
                    "cosmic-applet-battery-level-90-charging-symbolic",
                    "battery-level-90-charging-symbolic",
                    "battery-symbolic",
                ],
                80 => vec![
                    "cosmic-applet-battery-level-80-charging-symbolic",
                    "battery-level-80-charging-symbolic",
                    "battery-symbolic",
                ],
                65 => vec![
                    "cosmic-applet-battery-level-65-charging-symbolic",
                    "battery-level-60-charging-symbolic",
                    "battery-symbolic",
                ],
                50 => vec![
                    "cosmic-applet-battery-level-50-charging-symbolic",
                    "battery-level-50-charging-symbolic",
                    "battery-symbolic",
                ],
                35 => vec![
                    "cosmic-applet-battery-level-35-charging-symbolic",
                    "battery-level-30-charging-symbolic",
                    "battery-symbolic",
                ],
                20 => vec![
                    "cosmic-applet-battery-level-20-charging-symbolic",
                    "battery-level-20-charging-symbolic",
                    "battery-symbolic",
                ],
                10 => vec![
                    "cosmic-applet-battery-level-10-charging-symbolic",
                    "battery-level-10-charging-symbolic",
                    "battery-symbolic",
                ],
                5 => vec![
                    "cosmic-applet-battery-level-5-charging-symbolic",
                    "battery-level-10-charging-symbolic",
                    "battery-symbolic",
                ],
                _ => vec![
                    "cosmic-applet-battery-level-0-charging-symbolic",
                    "battery-level-0-charging-symbolic",
                    "battery-symbolic",
                ],
            }
        } else if critical {
            vec![
                "cosmic-applet-battery-level-0-symbolic",
                "battery-level-0-symbolic",
                "battery-caution-symbolic",
                "battery-empty-symbolic",
                "battery-symbolic",
            ]
        } else {
            match level {
                100 => vec![
                    "cosmic-applet-battery-level-100-symbolic",
                    "battery-level-100-symbolic",
                    "battery-full-symbolic",
                    "battery-symbolic",
                ],
                90 => vec![
                    "cosmic-applet-battery-level-90-symbolic",
                    "battery-level-90-symbolic",
                    "battery-good-symbolic",
                    "battery-symbolic",
                ],
                80 => vec![
                    "cosmic-applet-battery-level-80-symbolic",
                    "battery-level-80-symbolic",
                    "battery-good-symbolic",
                    "battery-symbolic",
                ],
                65 => vec![
                    "cosmic-applet-battery-level-65-symbolic",
                    "battery-level-60-symbolic",
                    "battery-good-symbolic",
                    "battery-symbolic",
                ],
                50 => vec![
                    "cosmic-applet-battery-level-50-symbolic",
                    "battery-level-50-symbolic",
                    "battery-good-symbolic",
                    "battery-symbolic",
                ],
                35 => vec![
                    "cosmic-applet-battery-level-35-symbolic",
                    "battery-level-30-symbolic",
                    "battery-low-symbolic",
                    "battery-symbolic",
                ],
                20 => vec![
                    "cosmic-applet-battery-level-20-symbolic",
                    "battery-level-20-symbolic",
                    "battery-low-symbolic",
                    "battery-symbolic",
                ],
                10 => vec![
                    "cosmic-applet-battery-level-10-symbolic",
                    "battery-level-10-symbolic",
                    "battery-caution-symbolic",
                    "battery-symbolic",
                ],
                5 => vec![
                    "cosmic-applet-battery-level-5-symbolic",
                    "battery-level-10-symbolic",
                    "battery-caution-symbolic",
                    "battery-symbolic",
                ],
                _ => vec![
                    "cosmic-applet-battery-level-0-symbolic",
                    "battery-level-0-symbolic",
                    "battery-caution-symbolic",
                    "battery-symbolic",
                ],
            }
        },
    }
}

/// Whatever the charge, the battery icon's candidates end in the generic
/// battery, so a theme without COSMIC's level icons still draws a battery
/// rather than nothing or something else.
pub proof fn law_battery_icons_stay_in_the_family(level: Option<u32>, charging: bool, critical: bool)
    ensures
        battery_candidates(level, charging, critical).len() > 0,
        battery_candidates(level, charging, critical).last() == "battery-symbolic",
{
}

/// How full a slider's icon shows it. Where the thresholds fall on the
/// fractional level is decided with the level itself.
#[derive(Debug, Clone, Copy, PartialEq, Eq, Structural)]
pub enum Level {
    /// Muted, dimmed, or at the bottom of the range.
    Off,
    Low,
    Medium,
    High,
}

/// The icon names tried, in order, for [`volume`].
pub open spec fn volume_icons(level: Level) -> Seq<&'static str> {
    match level {
        Level::Off => seq!["audio-volume-muted-symbolic", "audio-volume-low-symbolic", "audio-volume-high-symbolic"],
        Level::High => seq!["audio-volume-high-symbolic"],
        Level::Medium => seq!["audio-volume-medium-symbolic", "audio-volume-high-symbolic"],
        Level::Low => seq!["audio-volume-low-symbolic", "audio-volume-high-symbolic"],
    }
}

/// Volume, by how loud the level is.
pub fn volume(level: Level) -> (r: Vec<&'static str>)
    ensures
        r@ == volume_icons(level),
{
    match level {
        Level::Off => vec!["audio-volume-muted-symbolic", "audio-volume-low-symbolic", "audio-volume-high-symbolic"],
        Level::High => vec!["audio-volume-high-symbolic"],
        Level::Medium => vec!["audio-volume-medium-symbolic", "audio-volume-high-symbolic"],
        Level::Low => vec!["audio-volume-low-symbolic", "audio-volume-high-symbolic"],
    }
}

/// The icon names tried, in order, for [`microphone`].
pub open spec fn microphone_icons(level: Level) -> Seq<&'static str> {
    match level {
        Level::Off => seq![
            "microphone-sensitivity-muted-symbolic",
            "audio-input-microphone-muted-symbolic",
            "audio-input-microphone-symbolic",
        ],
        Level::High => seq!["microphone-sensitivity-high-symbolic", "audio-input-microphone-symbolic"],
        Level::Medium => seq!["microphone-sensitivity-medium-symbolic", "audio-input-microphone-symbolic"],
        Level::Low => seq!["microphone-sensitivity-low-symbolic", "audio-input-microphone-symbolic"],
    }
}

/// Microphone, by how sensitive the level is.
pub fn microphone(level: Level) -> (r: Vec<&'static str>)
    ensures
        r@ == microphone_icons(level),
{
    match level {
        Level::Off => vec![
            "microphone-sensitivity-muted-symbolic",
            "audio-input-microphone-muted-symbolic",
            "audio-input-microphone-symbolic",
        ],
        Level::High => vec!["microphone-sensitivity-high-symbolic", "audio-input-microphone-symbolic"],
        Level::Medium => vec!["microphone-sensitivity-medium-symbolic", "audio-input-microphone-symbolic"],
        Level::Low => vec!["microphone-sensitivity-low-symbolic", "audio-input-microphone-symbolic"],
    }
}

/// The icon names tried, in order, for [`brightness`].
pub open spec fn brightness_icons(level: Level) -> Seq<&'static str> {
    match level {
        Level::Off => seq![
            "display-brightness-low-symbolic",
            "display-brightness-off-symbolic",
            "display-brightness-symbolic",
        ],
        Level::High => seq!["display-brightness-high-symbolic", "display-brightness-symbolic"],
        _ => seq!["display-brightness-medium-symbolic", "display-brightness-symbolic"],
    }
}

/// Brightness, by how bright the level is; there is no separate low icon,
/// so anything between dimmed and high shows medium.
pub fn brightness(level: Level) -> (r: Vec<&'static str>)
    ensures
        r@ == brightness_icons(level),
{
    match level {
        Level::Off => vec![
            "display-brightness-low-symbolic",
            "display-brightness-off-symbolic",
            "display-brightness-symbolic",
        ],
        Level::High => vec!["display-brightness-high-symbolic", "display-brightness-symbolic"],
        _ => vec!["display-brightness-medium-symbolic", "display-brightness-symbolic"],
    }
}

/// The icon names tried, in order, for [`dark_mode`].
pub open spec fn dark_mode_icons(dark: bool) -> Seq<&'static str> {
    (if dark {
        seq!["weather-clear-night-symbolic", "display-brightness-low-symbolic"]
    } else {
        seq!["weather-clear-symbolic", "display-brightness-high-symbolic"]
    })
}

/// Dark mode, showing what is currently active.
pub fn dark_mode(dark: bool) -> (r: Vec<&'static str>)
    ensures
        r@ == dark_mode_icons(dark),
{
    if dark {
        vec!["weather-clear-night-symbolic", "display-brightness-low-symbolic"]
    } else {
        vec!["weather-clear-symbolic", "display-brightness-high-symbolic"]
    }
}

/// The icon names tried, in order, for [`vpn`].
pub open spec fn vpn_icons(connected: bool) -> Seq<&'static str> {
    (if connected {
        seq![
            "network-vpn-symbolic",
            "network-vpn-acquiring-symbolic",
            "channel-secure-symbolic",
            "network-wired-symbolic",
        ]
    } else {
        seq![
            "network-vpn-disconnected-symbolic",
            "network-vpn-disabled-symbolic",
            "network-vpn-symbolic",
            "network-wired-symbolic",
        ]
    })
}

/// VPN, by whether a tunnel is up.
pub fn vpn(connected: bool) -> (r: Vec<&'static str>)
    ensures
        r@ == vpn_icons(connected),
{
    if connected {
        vec![
            "network-vpn-symbolic",
            "network-vpn-acquiring-symbolic",
            "channel-secure-symbolic",
            "network-wired-symbolic",
        ]
    } else {
        vec![
            "network-vpn-disconnected-symbolic",
            "network-vpn-disabled-symbolic",
            "network-vpn-symbolic",
            "network-wired-symbolic",
        ]
    }
}

/// The icon names tried, in order, for [`keyboard`].
pub open spec fn keyboard_icons(lit: bool) -> Seq<&'static str> {
    (if lit {
        seq![
            "keyboard-brightness-symbolic",
            "input-keyboard-symbolic",
            "display-brightness-high-symbolic",
        ]
    } else {
        seq![
            "keyboard-brightness-off-symbolic",
            "keyboard-brightness-symbolic",
            "input-keyboard-symbolic",
            "display-brightness-low-symbolic",
        ]
    })
}

/// Keyboard backlight, by whether it is lit.
pub fn keyboard(lit: bool) -> (r: Vec<&'static str>)
    ensures
        r@ == keyboard_icons(lit),
{
    if lit {
        vec![
            "keyboard-brightness-symbolic",
            "input-keyboard-symbolic",
            "display-brightness-high-symbolic",
        ]
    } else {
        vec![
            "keyboard-brightness-off-symbolic",
            "keyboard-brightness-symbolic",
            "input-keyboard-symbolic",
            "display-brightness-low-symbolic",
        ]
    }
}

/// The icon names tried, in order, for [`do_not_disturb`].
pub open spec fn do_not_disturb_icons(on: bool) -> Seq<&'static str> {
    (if on {
        seq![
            "notification-disabled-symbolic",
            "preferences-system-notifications-symbolic",
            "dialog-information-symbolic",
        ]
    } else {
        seq![
            "notification-symbolic",
            "preferences-system-notifications-symbolic",
            "dialog-information-symbolic",
        ]
    })
}

/// Do Not Disturb.
pub fn do_not_disturb(on: bool) -> (r: Vec<&'static str>)
    ensures
        r@ == do_not_disturb_icons(on),
{
    if on {
        vec![
            "notification-disabled-symbolic",
            "preferences-system-notifications-symbolic",
            "dialog-information-symbolic",
        ]
    } else {
        vec![
            "notification-symbolic",
            "preferences-system-notifications-symbolic",
            "dialog-information-symbolic",
        ]
    }
}

/// The icon names tried, in order, for [`keep_awake`].
pub open spec fn keep_awake_icons(on: bool) -> Seq<&'static str> {
    (if on {
        seq![
            "my-caffeine-on-symbolic",
            "preferences-desktop-screensaver-symbolic",
            "weather-clear-symbolic",
        ]
    } else {
        seq![
            "my-caffeine-off-symbolic",
            "preferences-desktop-screensaver-symbolic",
            "weather-clear-night-symbolic",
        ]
    })
}

/// Keep awake.
pub fn keep_awake(on: bool) -> (r: Vec<&'static str>)
    ensures
        r@ == keep_awake_icons(on),
{
    if on {
        vec![
            "my-caffeine-on-symbolic",
            "preferences-desktop-screensaver-symbolic",
            "weather-clear-symbolic",
        ]
    } else {
        vec![
            "my-caffeine-off-symbolic",
            "preferences-desktop-screensaver-symbolic",
            "weather-clear-night-symbolic",
        ]
    }
}

/// Play or pause, by what pressing it would do.
pub fn media_play_pause(playing: bool) -> (r: Vec<&'static str>)
    ensures
        r@ == (if playing {
            seq!["media-playback-pause-symbolic"]
        } else {
            seq!["media-playback-start-symbolic"]
        }),
{
    if playing {
        vec!["media-playback-pause-symbolic"]
    } else {
        vec!["media-playback-start-symbolic"]
    }
}

/// Skip forward.
pub fn media_next() -> (r: Vec<&'static str>)
    ensures
        r@ == seq!["media-skip-forward-symbolic", "go-next-symbolic"],
{
    vec!["media-skip-forward-symbolic", "go-next-symbolic"]
}

/// Skip back.
pub fn media_previous() -> (r: Vec<&'static str>)
    ensures
        r@ == seq!["media-skip-backward-symbolic", "go-previous-symbolic"],
{
    vec!["media-skip-backward-symbolic", "go-previous-symbolic"]
}

/// A user-defined tile whose own icon does not resolve: a generic
/// executable glyph, so a typo in a config file still draws a pressable tile.
pub fn custom_fallback() -> (r: Vec<&'static str>)
    ensures
        r@ == seq![
            "application-x-executable-symbolic",
            "system-run-symbolic",
            "preferences-system-symbolic",
        ],
{
    vec![
        "application-x-executable-symbolic",
        "system-run-symbolic",
        "preferences-system-symbolic",
    ]
}

/// A media player nothing else identifies: a generic media glyph.
pub fn media_fallback() -> (r: Vec<&'static str>)
    ensures
        r@ == seq![
            "multimedia-player-symbolic",
            "audio-x-generic-symbolic",
            "media-playback-start-symbolic",
        ],
{
    vec![
        "multimedia-player-symbolic",
        "audio-x-generic-symbolic",
        "media-playback-start-symbolic",
    ]
}

/// The default panel button.
pub fn applet() -> (r: Vec<&'static str>)
    ensures
        r@ == seq![
            "preferences-system-symbolic",
            "emblem-system-symbolic",
            "applications-system-symbolic",
        ],
{
    vec![
        "preferences-system-symbolic",
        "emblem-system-symbolic",
        "applications-system-symbolic",
    ]
}

/// Back, on a drill-down header. Mirrored for right-to-left by the theme.
pub fn back() -> (r: Vec<&'static str>)
    ensures
        r@ == seq!["go-previous-symbolic", "pan-start-symbolic"],
{
    vec!["go-previous-symbolic", "pan-start-symbolic"]
}

/// The icon names tried, in order, for [`dns`].
pub open spec fn dns_icons() -> Seq<&'static str> {
    seq!["network-server-symbolic", "network-workgroup-symbolic", "network-wired-symbolic"]
}

/// DNS.
pub fn dns() -> (r: Vec<&'static str>)
    ensures
        r@ == dns_icons(),
{
    vec!["network-server-symbolic", "network-workgroup-symbolic", "network-wired-symbolic"]
}

/// Airplane mode.
pub fn airplane() -> (r: Vec<&'static str>)
    ensures
        r@ == seq![
            "airplane-mode-symbolic",
            "airplane-mode-disabled-symbolic",
            "network-wireless-disabled-symbolic",
        ],
{
    vec![
        "airplane-mode-symbolic",
        "airplane-mode-disabled-symbolic",
        "network-wireless-disabled-symbolic",
    ]
}

/// Feral GameMode.
pub fn game_mode() -> (r: Vec<&'static str>)
    ensures
        r@ == seq![
            "applications-games-symbolic",
            "input-gaming-symbolic",
            "preferences-system-symbolic",
        ],
{
    vec!["applications-games-symbolic", "input-gaming-symbolic", "preferences-system-symbolic"]
}

/// Prefix for the glyphs this project ships, installed into hicolor so they
/// resolve under any icon theme.
pub const PRESET_PREFIX: &'static str = "cosmic-control-center-";

/// The presets offered in the Settings window, in display order: the preset
/// and the fluent key of its label.
pub const PRESETS: [(&'static str, &'static str); 4] = [
    ("sliders", "preset-sliders"),
    ("toggles", "preset-toggles"),
    ("dials", "preset-dials"),
    ("grid", "preset-grid"),
];

/// Icon-theme name for a preset.
pub fn preset_name(preset: &str) -> (r: String)
    ensures
        r@ == PRESET_PREFIX@ + preset@ + "-symbolic"@,
{
    let mut out = String::from_str(PRESET_PREFIX);
    out.append(preset);
    out.append("-symbolic");
    out
}

/// A power-profiles-daemon profile, named here so icons need no backend.
#[derive(Debug, Clone, Copy, PartialEq, Eq, Structural)]
pub enum PowerProfile {
    PowerSaver,
    Balanced,
    Performance,
}

/// A power profile. The `power-profile-*` names are missing from the COSMIC
/// theme, so the fallbacks climb a low, medium, high battery progression that
/// keeps the profiles' order.
pub fn power_profile(profile: PowerProfile) -> (r: Vec<&'static str>)
    ensures
        r@ == match profile {
            PowerProfile::PowerSaver => seq![
                "power-profile-power-saver-symbolic",
                "battery-level-30-symbolic",
                "battery-symbolic",
            ],
            PowerProfile::Balanced => seq![
                "power-profile-balanced-symbolic",
                "battery-level-70-symbolic",
                "battery-symbolic",
            ],
            PowerProfile::Performance => seq![
                "power-profile-performance-symbolic",
                "battery-level-100-symbolic",
                "battery-symbolic",
            ],
        },
{
    match profile {
        PowerProfile::PowerSaver => vec![
            "power-profile-power-saver-symbolic",
            "battery-level-30-symbolic",
            "battery-symbolic",
        ],
        PowerProfile::Balanced => vec![
            "power-profile-balanced-symbolic",
            "battery-level-70-symbolic",
            "battery-symbolic",
        ],
        PowerProfile::Performance => vec![
            "power-profile-performance-symbolic",
            "battery-level-100-symbolic",
            "battery-symbolic",
        ],
    }
}

/// `s` with every space made a dash, as icon names have no spaces.
pub fn dashed(s: &str) -> (r: String)
    ensures
        r@ == s@.map_values(|c: char| if c == ' ' { '-' } else { c }),
{
    proof {
        reveal_strlit("-");
    }
    let n = s.unicode_len();
    let mut out = String::new();
    let mut i: usize = 0;
    while i < n
        invariant
            n == s@.len(),
            i <= n,
            out@ == s@.take(i as int).map_values(|c: char| if c == ' ' { '-' } else { c }),
        decreases n - i,
    {
        proof {
            reveal_strlit("-");
        }
        if s.get_char(i) == ' ' {
            out.append("-");
        } else {
            out.append(s.substring_char(i, i + 1));
        }
        proof {
            assert(out@ =~= s@.take(i + 1).map_values(|c: char| if c == ' ' { '-' } else { c }));
        }
        i = i + 1;
    }
    proof {
        assert(s@.take(i as int) =~= s@);
    }
    out
}

/// Names that may be a media player's icon, from what it says about itself,
/// best first: its desktop entry, its bus name, its own name, and that name
/// with spaces as dashes. Empty ones are never looked up.
pub fn media_player_candidates(desktop_entry: Option<&str>, bus_suffix: &str, identity: &str) -> (r: Vec<String>)
    ensures
        r@.len() == 4,
        r@[0]@ == match desktop_entry {
            Some(d) => d@,
            None => Seq::<char>::empty(),
        },
        r@[1]@ == bus_suffix@.map_values(|c: char| ascii_lower(c)),
        r@[2]@ == identity@.map_values(|c: char| ascii_lower(c)),
        r@[3]@ == identity@.map_values(|c: char| ascii_lower(c)).map_values(
            |c: char| if c == ' ' { '-' } else { c },
        ),
{
    let first = match desktop_entry {
        Some(d) => d.to_owned(),
        None => String::new(),
    };
    let lowered = ascii_lowercase(identity);
    let spaced = dashed(lowered.as_str());
    vec![first, ascii_lowercase(bus_suffix), lowered, spaced]
}

/// The first non-empty name the theme has, where `found[i]` says whether it
/// has `names[i]`.
pub fn first_resolving(names: &[String], found: &[bool]) -> (r: Option<usize>)
    requires
        found@.len() == names@.len(),
    ensures
        r matches Some(i) ==> i < names@.len() && names@[i as int]@.len() > 0 && found@[i as int],
        forall|j: int|
            0 <= j < names@.len() && (r matches Some(i) ==> j < i) ==> !(names@[j]@.len() > 0 && #[trigger] found@[j]),
{
    let mut i: usize = 0;
    while i < names.len()
        invariant
            i <= names@.len(),
            found@.len() == names@.len(),
            forall|j: int| 0 <= j < i ==> !(names@[j]@.len() > 0 && #[trigger] found@[j]),
        decreases names@.len() - i,
    {
        if !names[i].as_str().is_empty() && found[i] {
            return Some(i);
        }
        i = i + 1;
    }
    None
}

/// Whatever the theme has, a non-empty list resolves to one of its own
/// candidates: never to a name that was not asked for.
pub proof fn law_resolve_picks_a_candidate(candidates: Seq<&'static str>, found: Seq<bool>)
    requires
        candidates.len() > 0,
        found.len() == candidates.len(),
    ensures
        candidates.contains(resolved(candidates, found)),
{
    lemma_first_found_is_a_candidate(candidates, found, 0);
}

proof fn lemma_first_found_is_a_candidate(candidates: Seq<&'static str>, found: Seq<bool>, i: int)
    requires
        candidates.len() > 0,
        0 <= i,
    ensures
        candidates.contains(first_found(candidates, found, i)),
    decreases candidates.len() - i,
{
    if i >= candidates.len() {
        assert(candidates[0] == first_found(candidates, found, i));
    } else if found[i] {
        assert(candidates[i] == first_found(candidates, found, i));
    } else {
        lemma_first_found_is_a_candidate(candidates, found, i + 1);
    }
}

/// How many bars a band draws.
pub open spec fn bars(b: Band) -> int {
    match b {
        Band::Weak => 1,
        Band::Fair => 2,
        Band::Good => 3,
        Band::Excellent => 4,
    }
}

/// A stronger signal never draws fewer bars.
pub proof fn law_bands_never_drop_as_the_signal_rises(weaker: u8, stronger: u8)
    requires
        weaker <= stronger,
    ensures
        bars(band_spec(weaker)) <= bars(band_spec(stronger)),
{
}

} // verus!
