//! Keep awake: holding off screen blanking and idle suspend with a logind
//! inhibitor, and seeing which other program, if any, holds the machine awake.
//!
//! The inhibition lasts exactly as long as the descriptor logind hands back
//! stays open, so a crashed applet cannot leave the machine unable to sleep.
//! The descriptor itself is kept beside this state, outside the library;
//! [`State::holding`] says whether one should be open.
//!
//! logind lists every lock currently held; one counts as holding the machine
//! awake when it blocks (rather than merely delays) the `idle` action.
use vstd::prelude::*;

use crate::check::Found;
use crate::modules::Availability;
use crate::text::{has_at, same_text};

verus! {

/// What to inhibit: screen blanking and idle-triggered suspend, and not
/// `sleep` or the lid switch, which would override a deliberate suspend.
pub const WHAT: &'static str = "idle";
pub const WHO: &'static str = "Control Center";
pub const WHY: &'static str = "Keep awake was switched on";
/// `block` refuses the idle action outright; `delay` would only postpone it.
pub const MODE: &'static str = "block";

/// One entry from logind's inhibitor list: what, who, why, mode, uid, pid.
pub type Inhibitor = (String, String, String, String, u32, u32);

/// Whether `item` is one of the `:`-separated items of `s`.
pub open spec fn has_item(s: Seq<char>, item: Seq<char>) -> bool {
    exists|a: int|
        0 <= a && a + item.len() <= s.len() && #[trigger] s.subrange(a, a + item.len()) == item && (a
            == 0 || s[a - 1] == ':') && (a + item.len() == s.len() || s[a + item.len()] == ':')
}

/// Whether a lock blocks the idle action and is held by someone else than `ours`.
pub open spec fn foreign_idle_block(lock: Inhibitor, ours: u32) -> bool {
    &&& lock.5 != ours
    &&& lock.3@ == "block"@
    &&& has_item(lock.0@, "idle"@)
}

fn holds_idle(what: &str) -> (r: bool)
    ensures
        r == has_item(what@, "idle"@),
{
    proof {
        reveal_strlit("idle");
    }
    let n = what.unicode_len();
    if n < 4 {
        proof {
            assert forall|a: int| 0 <= a && a + 4 <= what@.len() implies !(#[trigger] what@.subrange(a, a + 4) == "idle"@) by {}
        }
        return false;
    }
    let mut a: usize = 0;
    while a <= n - 4
        invariant
            n == what@.len(),
            n >= 4,
            "idle"@.len() == 4,
            a <= n - 3,
            forall|b: int|
                0 <= b < a && b + 4 <= n ==> !(#[trigger] what@.subrange(b, b + 4) == "idle"@ && (b == 0
                    || what@[b - 1] == ':') && (b + 4 == n || what@[b + 4] == ':')),
        decreases n - a,
    {
        let starts = a == 0 || what.get_char(a - 1) == ':';
        let ends = a + 4 == n || what.get_char(a + 4) == ':';
        if starts && ends && has_at(what, a, "idle") {
            return true;
        }
        a = a + 1;
    }
    false
}

/// The first idle-blocking lock held by someone other than `ours`: the name
/// of whoever holds it.
///
/// `what` is a colon-separated set (`"idle:sleep"`), so `idle` is matched as a
/// whole item; a `delay` lock only postpones the idle action, so it does not
/// count; our own lock is not someone else's.
pub fn first_foreign_idle_lock(inhibitors: &[Inhibitor], ours: u32) -> (r: Option<String>)
    ensures
        r is None ==> forall|i: int| 0 <= i < inhibitors@.len() ==> !foreign_idle_block(#[trigger] inhibitors@[i], ours),
        r matches Some(who) ==> exists|i: int|
            0 <= i < inhibitors@.len() && foreign_idle_block(#[trigger] inhibitors@[i], ours) && who@ == inhibitors@[i].1@
                && forall|j: int| 0 <= j < i ==> !foreign_idle_block(#[trigger] inhibitors@[j], ours),
{
    let mut i: usize = 0;
    while i < inhibitors.len()
        invariant
            i <= inhibitors@.len(),
            forall|j: int| 0 <= j < i ==> !foreign_idle_block(#[trigger] inhibitors@[j], ours),
        decreases inhibitors@.len() - i,
    {
        let lock = &inhibitors[i];
        if lock.5 != ours && same_text(lock.3.as_str(), "block") && holds_idle(lock.0.as_str()) {
            let who = lock.1.clone();
            proof {
                assert(foreign_idle_block(inhibitors@[i as int], ours));
            }
            return Some(who);
        }
        i = i + 1;
    }
    None
}

/// The keep-awake tile.
#[derive(Debug, Clone)]
pub struct State {
    pub availability: Availability,
    /// We hold an inhibitor. Its presence is the on state: logind offers no
    /// per-inhibitor query to read back.
    pub holding: bool,
    /// Name of another program holding the machine awake, if one is.
    pub held_by: Option<String>,
}

impl Default for State {
    fn default() -> (r: Self)
        ensures
            r.availability == Availability::Unknown,
            !r.holding,
            r.held_by is None,
    {
        State { availability: Availability::Unknown, holding: false, held_by: None }
    }
}

/// What logind reported, or what became of a request for an inhibitor.
#[derive(Debug, Clone)]
pub enum Event {
    /// logind answered; carries the name of another program holding an idle
    /// lock, if there is one.
    Available(Option<String>),
    Unavailable,
    /// An inhibitor was taken.
    Held,
    /// Taking one failed.
    Failed(String),
}

/// A request to take an inhibitor from logind.
#[derive(Debug, Clone, Copy, PartialEq, Eq, Structural)]
pub struct Acquire;

impl State {
    /// Fluent key of the tile's state line: whoever else holds the machine
    /// awake is named (as the message's `who`) rather than a bare "on" that
    /// leaves the user wondering why the screen will not sleep.
    pub fn summary_key(&self) -> (r: &'static str)
        ensures
            r == (if self.held_by is Some {
                "keep-awake-held"
            } else if self.holding {
                "on"
            } else {
                "off"
            }),
    {
        if self.held_by.is_some() {
            "keep-awake-held"
        } else if self.holding {
            "on"
        } else {
            "off"
        }
    }

    /// Is the machine being held awake, by us or by anything else?
    pub fn is_on(&self) -> (r: bool)
        ensures
            r == (self.holding || self.held_by is Some),
    {
        self.holding || self.held_by.is_some()
    }

    /// Whether the toggle responds: not while another program holds the
    /// lock, since its inhibitor cannot be released from here and a second
    /// one beside it would leave a switch that says off while the screen
    /// refuses to sleep.
    pub fn can_toggle(&self) -> (r: bool)
        ensures
            r == (self.held_by is None),
    {
        self.held_by.is_none()
    }

    pub fn update(&mut self, event: Event)
        ensures
            match event {
                Event::Available(held_by) => {
                    &&& final(self).availability == Availability::Available
                    &&& final(self).held_by == held_by
                    &&& final(self).holding == old(self).holding
                },
                // Losing logind releases the inhibitor, which has gone with
                // it anyway.
                Event::Unavailable => {
                    &&& final(self).availability == Availability::Unavailable
                    &&& !final(self).holding
                    &&& final(self).held_by is None
                },
                Event::Held => {
                    &&& final(self).availability == Availability::Available
                    &&& final(self).holding
                    &&& final(self).held_by == old(self).held_by
                },
                Event::Failed(_) => {
                    &&& !final(self).holding
                    &&& final(self).availability == old(self).availability
                    &&& final(self).held_by == old(self).held_by
                },
            },
    {
        match event {
            Event::Available(held_by) => {
                self.availability = Availability::Available;
                self.held_by = held_by;
            },
            Event::Unavailable => {
                self.availability = Availability::Unavailable;
                self.holding = false;
                self.held_by = None;
            },
            Event::Held => {
                self.availability = Availability::Available;
                self.holding = true;
            },
            Event::Failed(_) => {
                self.holding = false;
            },
        }
    }

    /// Take an inhibitor, or release the one we hold.
    ///
    /// Releasing is closing the descriptor, so it needs no round trip and
    /// returns nothing to do; taking one returns the request to make.
    pub fn toggle(&mut self) -> (r: Option<Acquire>)
        ensures
            old(self).held_by is Some ==> r is None && *final(self) == *old(self),
            old(self).held_by is None && old(self).holding ==> r is None && !final(self).holding,
            old(self).held_by is None && !old(self).holding ==> r is Some && !final(self).holding,
            final(self).availability == old(self).availability,
            final(self).held_by == old(self).held_by,
    {
        if !self.can_toggle() {
            return None;
        }
        if self.holding {
            self.holding = false;
            return None;
        }
        Some(Acquire)
    }
}


/// The `--check` line for keep awake, from which program, if any, holds the
/// machine awake, or why logind could not be asked.
pub fn probe_report(holder: Result<Option<String>, String>) -> (r: Found)
    ensures
        match holder {
            Ok(Some(who)) => r matches Found::Read(line) && line@ == "logind reachable; held awake by "@ + who@,
            Ok(None) => r matches Found::Read(line) && line@ == "logind reachable; nothing holding the machine awake"@,
            Err(why) => r matches Found::Unreadable(e) && e@ == "logind not reachable: "@ + why@,
        },
{
    match holder {
        Ok(Some(who)) => {
            let mut line = String::from_str("logind reachable; held awake by ");
            line.append(who.as_str());
            Found::Read(line)
        },
        Ok(None) => Found::Read(String::from_str("logind reachable; nothing holding the machine awake")),
        Err(why) => {
            let mut e = String::from_str("logind not reachable: ");
            e.append(why.as_str());
            Found::Unreadable(e)
        },
    }
}

} // verus!
