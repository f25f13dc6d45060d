//! Window tiling on the active workspace.
use vstd::prelude::*;

use crate::check::Found;
use crate::modules::Availability;

verus! {

/// The tiling tile.
#[derive(Debug, Clone)]
pub struct State {
    pub availability: Availability,
    pub tiled: bool,
}

impl Default for State {
    fn default() -> (r: Self)
        ensures
            r.availability == Availability::Unknown,
            !r.tiled,
    {
        State { availability: Availability::Unknown, tiled: false }
    }
}

/// What a read of the compositor reported.
#[derive(Debug, Clone)]
pub enum Event {
    Changed { tiled: bool },
    Unavailable,
}

impl State {
    /// Fluent key of the tile's state line.
    pub fn summary_key(&self) -> (r: &'static str)
        ensures
            r == (if self.tiled {
                "tiling-on"
            } else {
                "tiling-off"
            }),
    {
        if self.tiled {
            "tiling-on"
        } else {
            "tiling-off"
        }
    }

    pub fn update(&mut self, event: Event)
        ensures
            match event {
                Event::Changed { tiled } => {
                    &&& final(self).availability == Availability::Available
                    &&& final(self).tiled == tiled
                },
                Event::Unavailable => {
                    &&& final(self).availability == Availability::Unavailable
                    &&& !final(self).tiled
                },
            },
    {
        match event {
            Event::Changed { tiled } => {
                self.availability = Availability::Available;
                self.tiled = tiled;
            },
            Event::Unavailable => {
                self.availability = Availability::Unavailable;
                self.tiled = false;
            },
        }
    }

    /// Flip tiling, showing it at once; returns the state to ask for.
    pub fn toggle(&mut self) -> (r: bool)
        ensures
            final(self).tiled == !old(self).tiled,
            r == final(self).tiled,
            final(self).availability == old(self).availability,
    {
        self.tiled = !self.tiled;
        self.tiled
    }
}

/// The tiling state a workspace reports, where it reports one.
#[derive(Debug, Clone, Copy, PartialEq, Eq, Structural)]
pub enum Reported {
    TilingEnabled,
    FloatingOnly,
    /// A value this applet does not know, or none at all.
    Other,
}

/// Whether the active workspace is tiled, from what it reports.
pub fn tiled_from(reported: Reported) -> (r: Result<bool, String>)
    ensures
        reported == Reported::TilingEnabled ==> r == Ok::<bool, String>(true),
        reported == Reported::FloatingOnly ==> r == Ok::<bool, String>(false),
        reported == Reported::Other ==> (r matches Err(e) && e@ == "compositor does not report tiling state"@),
{
    match reported {
        Reported::TilingEnabled => Ok(true),
        Reported::FloatingOnly => Ok(false),
        Reported::Other => Err(String::from_str("compositor does not report tiling state")),
    }
}


/// The `--check` line for tiling, from what reading the active workspace
/// gave; a workspace the compositor does not describe is unreadable.
pub fn probe_report(tiled: Result<bool, String>) -> (r: Found)
    ensures
        match tiled {
            Ok(t) => r matches Found::Read(line) && line@ == "active workspace is "@ + (if t {
                "tiled"@
            } else {
                "floating"@
            }),
            Err(e) => r == Found::Unreadable(e),
        },
{
    match tiled {
        Ok(t) => {
            let mut line = String::from_str("active workspace is ");
            line.append(if t { "tiled" } else { "floating" });
            Found::Read(line)
        },
        Err(e) => Found::Unreadable(e),
    }
}

} // verus!
