//! Dark mode and Do Not Disturb, both COSMIC settings.
use vstd::prelude::*;

use crate::check::Found;
use crate::modules::Availability;

verus! {

/// The dark-mode and Do Not Disturb tiles.
#[derive(Debug, Clone)]
pub struct State {
    pub availability: Availability,
    pub dark: bool,
    pub do_not_disturb: bool,
    /// The notifications daemon's setting could be read at all.
    pub dnd_available: bool,
}

impl Default for State {
    fn default() -> (r: Self)
        ensures
            r.availability == Availability::Unknown,
            !r.dark && !r.do_not_disturb && !r.dnd_available,
    {
        State { availability: Availability::Unknown, dark: false, do_not_disturb: false, dnd_available: false }
    }
}

/// What a read of the settings found; `do_not_disturb` is `None` when that
/// setting could not be read.
#[derive(Debug, Clone)]
pub enum Event {
    Changed { dark: bool, do_not_disturb: Option<bool> },
}

impl State {
    /// Fluent key of the dark-mode tile's state line: the mode in effect.
    pub fn dark_key(&self) -> (r: &'static str)
        ensures
            r == (if self.dark {
                "mode-dark"
            } else {
                "mode-light"
            }),
    {
        if self.dark {
            "mode-dark"
        } else {
            "mode-light"
        }
    }

    /// Fluent key of the Do Not Disturb tile's state line.
    pub fn do_not_disturb_key(&self) -> (r: &'static str)
        ensures
            r == (if self.do_not_disturb {
                "on"
            } else {
                "off"
            }),
    {
        if self.do_not_disturb {
            "on"
        } else {
            "off"
        }
    }

    pub fn update(&mut self, event: Event)
        ensures
            match event {
                Event::Changed { dark, do_not_disturb } => {
                    &&& final(self).availability == Availability::Available
                    &&& final(self).dark == dark
                    &&& final(self).dnd_available == do_not_disturb is Some
                    &&& final(self).do_not_disturb == (do_not_disturb == Some(true))
                },
            },
    {
        match event {
            Event::Changed { dark, do_not_disturb } => {
                self.availability = Availability::Available;
                self.dark = dark;
                self.dnd_available = do_not_disturb.is_some();
                self.do_not_disturb = match do_not_disturb {
                    Some(on) => on,
                    None => false,
                };
            },
        }
    }

    /// Flip dark mode, showing it at once.
    pub fn toggle_dark(&mut self)
        ensures
            final(self).dark == !old(self).dark,
            final(self).do_not_disturb == old(self).do_not_disturb,
            final(self).dnd_available == old(self).dnd_available,
            final(self).availability == old(self).availability,
    {
        self.dark = !self.dark;
    }

    /// Flip Do Not Disturb, showing it at once.
    pub fn toggle_do_not_disturb(&mut self)
        ensures
            final(self).do_not_disturb == !old(self).do_not_disturb,
            final(self).dark == old(self).dark,
            final(self).dnd_available == old(self).dnd_available,
            final(self).availability == old(self).availability,
    {
        self.do_not_disturb = !self.do_not_disturb;
    }
}

/// The writes that flip dark mode from what the settings hold now: turning
/// off automatic switching first when it is on, so the choice sticks, then
/// the mode itself. Unreadable values count as off.
pub fn dark_flip_writes(is_dark: Option<bool>, auto_switch: Option<bool>) -> (r: (Option<bool>, bool))
    ensures
        r.0 == (if auto_switch == Some(true) { Some(false) } else { None::<bool> }),
        r.1 == !(is_dark == Some(true)),
{
    let current = match is_dark {
        Some(d) => d,
        None => false,
    };
    let auto = match auto_switch {
        Some(a) => a,
        None => false,
    };
    (if auto { Some(false) } else { None }, !current)
}


/// The `--check` line for the desktop settings: the theme mode, which must
/// be readable, and Do Not Disturb, which may not be.
pub fn probe_report(dark: Option<bool>, do_not_disturb: Option<bool>) -> (r: Found)
    ensures
        match dark {
            Some(d) => r matches Found::Read(line) && line@ == "theme is "@ + (if d {
                "dark"@
            } else {
                "light"@
            }) + ", do not disturb "@ + match do_not_disturb {
                Some(true) => "on"@,
                Some(false) => "off"@,
                None => "unavailable"@,
            },
            None => r matches Found::Unreadable(e) && e@ == "theme mode config unreadable"@,
        },
{
    let d = match dark {
        Some(d) => d,
        None => return Found::Unreadable(String::from_str("theme mode config unreadable")),
    };
    let mut line = String::from_str("theme is ");
    line.append(if d { "dark" } else { "light" });
    line.append(", do not disturb ");
    line.append(
        match do_not_disturb {
            Some(true) => "on",
            Some(false) => "off",
            None => "unavailable",
        },
    );
    Found::Read(line)
}

} // verus!
