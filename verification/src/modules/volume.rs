//! Volume and microphone: which node and which commands each direction of the
//! audio stack is driven through, and which command-line backend is used.
use vstd::prelude::*;

use crate::check::Found;

verus! {

/// Which end of the audio stack a volume control drives.
#[derive(Debug, Clone, Copy, PartialEq, Eq, Structural)]
pub enum Direction {
    Output,
    Input,
}

impl Default for Direction {
    fn default() -> (r: Self)
        ensures
            r == Direction::Output,
    {
        Direction::Output
    }
}

impl Direction {
    /// The default node WirePlumber's `wpctl` is pointed at.
    pub fn wpctl_node(self) -> (r: &'static str)
        ensures
            r == (match self {
                Direction::Output => "@DEFAULT_AUDIO_SINK@",
                Direction::Input => "@DEFAULT_AUDIO_SOURCE@",
            }),
    {
        match self {
            Direction::Output => "@DEFAULT_AUDIO_SINK@",
            Direction::Input => "@DEFAULT_AUDIO_SOURCE@",
        }
    }

    /// The default node `pactl` is pointed at.
    pub fn pactl_node(self) -> (r: &'static str)
        ensures
            r == (match self {
                Direction::Output => "@DEFAULT_SINK@",
                Direction::Input => "@DEFAULT_SOURCE@",
            }),
    {
        match self {
            Direction::Output => "@DEFAULT_SINK@",
            Direction::Input => "@DEFAULT_SOURCE@",
        }
    }

    /// pactl's subcommands for this direction: get volume, get mute, set
    /// volume, set mute.
    pub fn pactl_verbs(self) -> (r: (&'static str, &'static str, &'static str, &'static str))
        ensures
            r == (match self {
                Direction::Output => ("get-sink-volume", "get-sink-mute", "set-sink-volume", "set-sink-mute"),
                Direction::Input => (
                    "get-source-volume",
                    "get-source-mute",
                    "set-source-volume",
                    "set-source-mute",
                ),
            }),
    {
        match self {
            Direction::Output => ("get-sink-volume", "get-sink-mute", "set-sink-volume", "set-sink-mute"),
            Direction::Input => (
                "get-source-volume",
                "get-source-mute",
                "set-source-volume",
                "set-source-mute",
            ),
        }
    }

    /// Subscription id; it differs per direction so the two pollers stay two.
    pub fn poll_id(self) -> (r: &'static str)
        ensures
            r == (match self {
                Direction::Output => "volume-output",
                Direction::Input => "volume-input",
            }),
    {
        match self {
            Direction::Output => "volume-output",
            Direction::Input => "volume-input",
        }
    }
}

/// The two directions never share a node, a command or a subscription id, so
/// the microphone cannot silently mirror the speakers.
pub proof fn law_directions_never_share_a_target()
    ensures
        "@DEFAULT_AUDIO_SINK@"@ != "@DEFAULT_AUDIO_SOURCE@"@,
        "@DEFAULT_SINK@"@ != "@DEFAULT_SOURCE@"@,
        "volume-output"@ != "volume-input"@,
        "get-sink-volume"@ != "get-source-volume"@,
{
    reveal_strlit("@DEFAULT_AUDIO_SINK@");
    reveal_strlit("@DEFAULT_AUDIO_SOURCE@");
    reveal_strlit("@DEFAULT_SINK@");
    reveal_strlit("@DEFAULT_SOURCE@");
    reveal_strlit("volume-output");
    reveal_strlit("volume-input");
    reveal_strlit("get-sink-volume");
    reveal_strlit("get-source-volume");
    assert("@DEFAULT_AUDIO_SINK@"@.len() != "@DEFAULT_AUDIO_SOURCE@"@.len());
    assert("@DEFAULT_SINK@"@.len() != "@DEFAULT_SOURCE@"@.len());
    assert("volume-output"@.len() != "volume-input"@.len());
    assert("get-sink-volume"@.len() != "get-source-volume"@.len());
}

/// The command-line tool volume is read and set through.
#[derive(Debug, Clone, Copy, PartialEq, Eq, Structural)]
pub enum Backend {
    /// WirePlumber's CLI. Preferred: one line, one format.
    Wpctl,
    /// The PulseAudio-compatible fallback.
    Pactl,
}

impl Backend {
    /// Pick a backend, given whether each tool was found on `PATH`: `wpctl`
    /// first, then `pactl`, and `None` when neither exists, which is how the
    /// module reports itself unavailable.
    pub fn detect(wpctl_found: bool, pactl_found: bool) -> (r: Option<Self>)
        ensures
            r == (if wpctl_found {
                Some(Backend::Wpctl)
            } else if pactl_found {
                Some(Backend::Pactl)
            } else {
                None
            }),
    {
        if wpctl_found {
            Some(Backend::Wpctl)
        } else if pactl_found {
            Some(Backend::Pactl)
        } else {
            None
        }
    }
}


/// A backend's name as the report writes it.
pub open spec fn backend_name(b: Backend) -> &'static str {
    match b {
        Backend::Wpctl => "Wpctl",
        Backend::Pactl => "Pactl",
    }
}

impl Backend {
    /// The tool's name as the report writes it.
    pub fn name(self) -> (r: &'static str)
        ensures
            r == backend_name(self),
    {
        match self {
            Backend::Wpctl => "Wpctl",
            Backend::Pactl => "Pactl",
        }
    }
}

/// The `--check` line for the speakers or the microphone, from the backend
/// found (none is absence) and what it read: the level, written out in whole
/// percent, and whether it is muted, or `None` when its output did not parse.
pub fn probe_report(backend: Option<Backend>, sample: Option<(&str, bool)>) -> (r: Found)
    ensures
        match backend {
            None => r matches Found::Absent(e) && e@ == "neither wpctl nor pactl found on PATH"@,
            Some(b) => match sample {
                None => r matches Found::Unreadable(e) && e@ == backend_name(b)@ + " found but its output did not parse"@,
                Some((p, muted)) => r matches Found::Read(line) && line@ == backend_name(b)@ + ", "@ + p@ + "%"@ + (if muted {
                    ", muted"@
                } else {
                    ""@
                }),
            },
        },
{
    let b = match backend {
        Some(b) => b,
        None => return Found::Absent(String::from_str("neither wpctl nor pactl found on PATH")),
    };
    let mut line = String::from_str(b.name());
    match sample {
        None => {
            line.append(" found but its output did not parse");
            Found::Unreadable(line)
        },
        Some((p, muted)) => {
            line.append(", ");
            line.append(p);
            line.append("%");
            line.append(if muted { ", muted" } else { "" });
            Found::Read(line)
        },
    }
}

} // verus!
