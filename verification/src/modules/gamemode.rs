//! Feral GameMode: whether it is on, and holding it on from here.
//!
//! GameMode is reference-counted by registered processes, so this applet
//! holds it by registering itself, and it can only release its own hold: a
//! game that registered keeps it on until the game lets go.
use vstd::prelude::*;

use crate::check::Found;
use crate::modules::Availability;
use crate::text::{decimal, push_decimal};

verus! {

/// The daemon's bus name.
pub const BUS_NAME: &'static str = "com.feralinteractive.GameMode";

/// The GameMode row.
#[derive(Debug, Clone)]
pub struct State {
    pub availability: Availability,
    /// Some process has GameMode held.
    pub active: bool,
    /// That process is this applet.
    pub held_by_us: bool,
}

impl Default for State {
    fn default() -> (r: Self)
        ensures
            r.availability == Availability::Unknown,
            !r.active && !r.held_by_us,
    {
        State { availability: Availability::Unknown, active: false, held_by_us: false }
    }
}

/// What a poll of the daemon reported.
#[derive(Debug, Clone)]
pub enum Event {
    Changed { clients: i32 },
    Unavailable,
}

/// Register this process with GameMode, or unregister it.
#[derive(Debug, Clone, Copy, PartialEq, Eq, Structural)]
pub struct Hold {
    pub register: bool,
}

impl State {
    pub fn update(&mut self, event: Event)
        ensures
            match event {
                Event::Changed { clients } => {
                    &&& final(self).availability == Availability::Available
                    &&& final(self).active == (clients > 0)
                    // Nobody registered means our hold has gone too.
                    &&& final(self).held_by_us == (clients > 0 && old(self).held_by_us)
                },
                Event::Unavailable => {
                    &&& final(self).availability == Availability::Unavailable
                    &&& !final(self).active
                    &&& !final(self).held_by_us
                },
            },
    {
        match event {
            Event::Changed { clients } => {
                self.availability = Availability::Available;
                self.active = clients > 0;
                if !self.active {
                    self.held_by_us = false;
                }
            },
            Event::Unavailable => {
                self.availability = Availability::Unavailable;
                self.active = false;
                self.held_by_us = false;
            },
        }
    }

    /// Whether the switch responds: not while something else holds GameMode,
    /// since only a hold of our own can be released from here.
    pub fn can_toggle(&self) -> (r: bool)
        ensures
            r == (!self.active || self.held_by_us),
    {
        !self.active || self.held_by_us
    }

    /// Take our hold, or release it, showing the change at once.
    pub fn toggle(&mut self) -> (r: Option<Hold>)
        ensures
            !(!old(self).active || old(self).held_by_us) ==> r is None && *final(self) == *old(self),
            (!old(self).active || old(self).held_by_us) ==> {
                &&& r == Some(Hold { register: !old(self).held_by_us })
                &&& final(self).held_by_us == !old(self).held_by_us
                &&& final(self).active == !old(self).held_by_us
                &&& final(self).availability == old(self).availability
            },
    {
        if !self.can_toggle() {
            return None;
        }
        let register = !self.held_by_us;
        self.held_by_us = register;
        self.active = register;
        Some(Hold { register })
    }
}

/// This process's id as GameMode takes it, clamped into `i32`.
pub fn our_pid(pid: u32) -> (r: i32)
    ensures
        r == (if pid <= i32::MAX as u32 { pid as int } else { i32::MAX as int }),
{
    if pid <= 2147483647u32 {
        pid as i32
    } else {
        2147483647i32
    }
}

/// GameMode answers a registration with a negative code when it refuses.
pub fn check_reply(code: i32) -> (r: Result<(), String>)
    ensures
        code >= 0 <==> r is Ok,
        r matches Err(e) ==> e@ == "GameMode refused the request (code -"@ + decimal((-code) as nat)
            + ")"@,
{
    if code >= 0 {
        return Ok(());
    }
    let magnitude: u64 = (-(code as i64)) as u64;
    let mut e = String::from_str("GameMode refused the request (code -");
    push_decimal(&mut e, magnitude);
    e.append(")");
    Err(e)
}


/// A whole number as written, with a minus sign when negative.
pub open spec fn signed_text(n: int) -> Seq<char> {
    if n < 0 {
        "-"@ + decimal((-n) as nat)
    } else {
        decimal(n as nat)
    }
}

/// The `--check` line for GameMode, from the client count the daemon gave
/// (`None` when it is not installed, which is absence) or why the bus could
/// not be asked.
pub fn probe_report(clients: Result<Option<i32>, String>) -> (r: Found)
    ensures
        match clients {
            Ok(Some(c)) => r matches Found::Read(line) && line@ == signed_text(c as int) + " client(s) registered, "@
                + (if c > 0 {
                "active"@
            } else {
                "idle"@
            }),
            Ok(None) => r matches Found::Absent(e) && e@ == "gamemode is not installed"@,
            Err(why) => r matches Found::Unreadable(e) && e@ == "could not ask the session bus: "@ + why@,
        },
{
    match clients {
        Ok(Some(c)) => {
            let mut line = String::new();
            if c < 0 {
                line.append("-");
                push_decimal(&mut line, (-(c as i64)) as u64);
            } else {
                push_decimal(&mut line, c as u64);
            }
            line.append(" client(s) registered, ");
            line.append(if c > 0 { "active" } else { "idle" });
            Found::Read(line)
        },
        Ok(None) => Found::Absent(String::from_str("gamemode is not installed")),
        Err(why) => {
            let mut e = String::from_str("could not ask the session bus: ");
            e.append(why.as_str());
            Found::Unreadable(e)
        },
    }
}

} // verus!
