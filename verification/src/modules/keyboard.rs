//! Keyboard backlight: a tile that cycles through the device's steps.
//!
//! Keyboard backlights are stepped, not continuous, so the tile steps through
//! levels sampled evenly from whatever range the device reports, starting at
//! off and ending exactly at the maximum, and never more than [`MAX_LEVELS`]
//! of them. Reading and writing the device happens outside the library.
use vstd::prelude::*;

use super::{lowest_marked, lowest_marked_exec, Availability};
use crate::check::Found;
use super::brightness::{names_found, usable_max};
use crate::text::{ascii_lower, ascii_lowercase, contains, decimal, find, push_decimal};

verus! {

/// Most steps the cycle will offer, however fine-grained the device is.
pub const MAX_LEVELS: usize = 4;

/// How many steps a device with maximum `max` offers.
pub open spec fn step_count(max: u32) -> int {
    if max as int + 1 < MAX_LEVELS as int {
        max as int + 1
    } else {
        MAX_LEVELS as int
    }
}

/// The raw value of step `i`: spread evenly across the range, with the last
/// step exactly `max`.
pub open spec fn step_value(max: u32, steps: int, i: int) -> u32 {
    if i == steps - 1 {
        max
    } else {
        ((max as int * i) / (steps - 1)) as u32
    }
}

/// The raw values the cycle steps through, always starting at off.
pub open spec fn levels_spec(max: u32) -> Seq<u32> {
    let steps = step_count(max);
    if steps <= 1 {
        seq![0u32, max]
    } else {
        Seq::new(steps as nat, |i: int| step_value(max, steps, i))
    }
}

/// The raw values the cycle steps through, always starting at off.
pub fn levels_for(max: u32) -> (r: Vec<u32>)
    ensures
        r@ == levels_spec(max),
{
    let steps: usize = if (max as usize) < MAX_LEVELS - 1 {
        max as usize + 1
    } else {
        MAX_LEVELS
    };
    if steps <= 1 {
        return vec![0, max];
    }
    let mut out: Vec<u32> = Vec::new();
    let mut i: usize = 0;
    while i < steps
        invariant
            2 <= steps <= MAX_LEVELS,
            steps == step_count(max),
            i <= steps,
            out@ == Seq::new(i as nat, |k: int| step_value(max, steps as int, k)),
        decreases steps - i,
    {
        proof {
            if i < steps - 1 {
                let m = max as int;
                let k = i as int;
                let d = (steps - 1) as int;
                assert(m * k <= m * 3) by (nonlinear_arith)
                    requires
                        0 <= k <= 3,
                        m >= 0;
                assert((m * k) / d <= m) by (nonlinear_arith)
                    requires
                        1 <= d,
                        0 <= k <= d,
                        m >= 0;
            }
        }
        let v: u32 = if i == steps - 1 {
            max
        } else {
            ((max as u64) * (i as u64) / ((steps - 1) as u64)) as u32
        };
        out.push(v);
        proof {
            assert(out@ =~= Seq::new((i + 1) as nat, |k: int| step_value(max, steps as int, k)));
        }
        i = i + 1;
    }
    out
}

/// For a device that can be turned up at all, the steps start at off, end at
/// the device's maximum, climb strictly, and are never more than
/// [`MAX_LEVELS`].
pub proof fn law_levels_ascend_from_off_to_max(max: u32)
    requires
        max >= 1,
    ensures
        levels_spec(max).len() >= 2,
        levels_spec(max).len() <= MAX_LEVELS,
        levels_spec(max)[0] == 0,
        levels_spec(max).last() == max,
        forall|i: int, j: int| 0 <= i < j < levels_spec(max).len() ==> levels_spec(max)[i] < levels_spec(max)[j],
{
    let steps = step_count(max);
    let l = levels_spec(max);
    let m = max as int;
    assert forall|i: int| 0 <= i < l.len() - 1 implies #[trigger] l[i] < l[i + 1] by {
        let d = steps - 1;
        if d == 1 {
        } else if d == 2 {
            assert(m >= 2);
            if i == 0 {
                assert(m / 2 >= 1);
            } else {
                assert(m / 2 < m);
            }
        } else {
            assert(d == 3);
            assert(m >= 3);
            if i == 0 {
                assert(m / 3 >= 1);
            } else if i == 1 {
                assert((m * 1) / 3 < (m * 2) / 3);
            } else {
                assert((m * 2) / 3 < m);
            }
        }
    }
    assert forall|i: int, j: int| 0 <= i < j < l.len() implies l[i] < l[j] by {
        lemma_ascending(l, i, j);
    }
}

proof fn lemma_ascending(l: Seq<u32>, i: int, j: int)
    requires
        0 <= i < j < l.len(),
        forall|k: int| 0 <= k < l.len() - 1 ==> #[trigger] l[k] < l[k + 1],
    ensures
        l[i] < l[j],
    decreases j - i,
{
    if j > i + 1 {
        lemma_ascending(l, i, j - 1);
        assert(l[j - 1] < l[j]);
    }
}

/// How far a raw value is from a step.
pub open spec fn distance(a: u32, b: u32) -> int {
    if a >= b {
        a - b
    } else {
        b - a
    }
}

/// Which level a raw device value corresponds to: the closest step, the
/// lowest one on a tie, and 0 when there are no steps.
///
/// The value may not be one of ours: the keyboard's own backlight key sets it
/// directly.
pub fn nearest_level(levels: &[u32], value: u32) -> (r: usize)
    ensures
        levels@.len() == 0 ==> r == 0,
        levels@.len() > 0 ==> {
            &&& r < levels@.len()
            &&& forall|j: int| 0 <= j < levels@.len() ==> distance(levels@[r as int], value) <= distance(#[trigger] levels@[j], value)
            &&& forall|j: int| 0 <= j < r ==> distance(levels@[r as int], value) < distance(#[trigger] levels@[j], value)
        },
{
    if levels.len() == 0 {
        return 0;
    }
    let mut best: usize = 0;
    let mut best_diff: u32 = abs_diff(levels[0], value);
    let mut i: usize = 1;
    while i < levels.len()
        invariant
            1 <= i <= levels@.len(),
            best < i,
            best_diff == distance(levels@[best as int], value),
            forall|j: int| 0 <= j < i ==> distance(levels@[best as int], value) <= distance(#[trigger] levels@[j], value),
            forall|j: int| 0 <= j < best ==> distance(levels@[best as int], value) < distance(#[trigger] levels@[j], value),
        decreases levels@.len() - i,
    {
        let d = abs_diff(levels[i], value);
        if d < best_diff {
            best = i;
            best_diff = d;
        }
        i = i + 1;
    }
    best
}

fn abs_diff(a: u32, b: u32) -> (r: u32)
    ensures
        r == distance(a, b),
{
    if a >= b {
        a - b
    } else {
        b - a
    }
}

/// The keyboard backlight as the tile sees it.
#[derive(Debug, Clone)]
pub struct State {
    pub availability: Availability,
    /// Index into [`State::levels`].
    pub level: usize,
    /// Raw device values this tile cycles through, lowest first.
    pub levels: Vec<u32>,
    /// The `leds` device being driven, once one is found.
    pub device: Option<String>,
}

/// What a sample of the device reported.
#[derive(Debug, Clone)]
pub enum Event {
    Changed { device: String, levels: Vec<u32>, level: usize },
    Unavailable,
}

impl Default for State {
    fn default() -> (r: Self)
        ensures
            r.availability == Availability::Unknown,
            r.level == 0,
            r.levels@.len() == 0,
            r.device() is None,
    {
        State { availability: Availability::Unknown, level: 0, levels: Vec::new(), device: None }
    }
}

/// The key naming a level out of `count` steps.
pub open spec fn level_key_spec(level: int, count: int) -> &'static str {
    if count <= 1 {
        "keyboard-off"
    } else if level == 0 {
        "keyboard-off"
    } else if level == count - 1 {
        "keyboard-high"
    } else if level * 2 <= count - 1 {
        "keyboard-low"
    } else {
        "keyboard-medium"
    }
}

impl State {
    /// The device being driven, if one was found.
    pub open spec fn device(self) -> Option<Seq<char>> {
        match self.device {
            Some(d) => Some(d@),
            None => None,
        }
    }

    /// Fluent key describing the current level: off, low, medium or high.
    pub fn level_key(&self) -> (r: &'static str)
        ensures
            r == level_key_spec(self.level as int, self.levels@.len() as int),
    {
        if self.levels.len() <= 1 {
            return "keyboard-off";
        }
        let top = self.levels.len() - 1;
        if self.level == 0 {
            "keyboard-off"
        } else if self.level == top {
            "keyboard-high"
        } else if self.level <= top / 2 {
            "keyboard-low"
        } else {
            "keyboard-medium"
        }
    }

    pub fn is_on(&self) -> (r: bool)
        ensures
            r == (self.level > 0),
    {
        self.level > 0
    }

    /// Take in a sample: a reported level beyond the steps is clamped to the
    /// top one, and losing the device forgets everything.
    pub fn update(&mut self, event: Event)
        ensures
            match event {
                Event::Changed { device, levels, level } => {
                    &&& final(self).availability == Availability::Available
                    &&& final(self).device() == Some(device@)
                    &&& final(self).levels@ == levels@
                    &&& final(self).level == (if levels@.len() == 0 {
                        0
                    } else if level < levels@.len() {
                        level as int
                    } else {
                        levels@.len() - 1
                    })
                },
                Event::Unavailable => {
                    &&& final(self).availability == Availability::Unavailable
                    &&& final(self).device() is None
                    &&& final(self).levels@.len() == 0
                    &&& final(self).level == 0
                },
            },
    {
        match event {
            Event::Changed { device, levels, level } => {
                self.availability = Availability::Available;
                self.device = Some(device);
                let top = if levels.len() == 0 {
                    0
                } else {
                    levels.len() - 1
                };
                self.level = if level < top {
                    level
                } else {
                    top
                };
                self.levels = levels;
            },
            Event::Unavailable => {
                self.availability = Availability::Unavailable;
                self.device = None;
                self.levels.clear();
                self.level = 0;
            },
        }
    }

    /// Step to the next level, wrapping back to off at the top.
    ///
    /// Returns the write to perform, the device and the raw value, or `None`
    /// with nothing changed when there is no device or no step to go to.
    pub fn cycle(&mut self) -> (r: Option<(String, u32)>)
        ensures
            (old(self).device() is None || old(self).levels@.len() == 0) ==> r is None && *final(self) == *old(self),
            (old(self).device() is Some && old(self).levels@.len() > 0) ==> {
                &&& final(self).level == (old(self).level + 1) % (old(self).levels@.len() as int)
                &&& r matches Some(w) && w.0@ == old(self).device()->0 && w.1 == old(self).levels@[final(self).level as int]
                &&& final(self).levels == old(self).levels
                &&& final(self).device() == old(self).device()
                &&& final(self).availability == old(self).availability
            },
    {
        let device = match &self.device {
            Some(d) => d.clone(),
            None => return None,
        };
        if self.levels.len() == 0 {
            return None;
        }
        let n = self.levels.len();
        self.level = (self.level % n + 1) % n;
        proof {
            let a = old(self).level as int;
            let m = n as int;
            assert((a % m + 1) % m == (a + 1) % m) by (nonlinear_arith)
                requires
                    m > 0,
                    a >= 0;
        }
        let raw = self.levels[self.level];
        Some((device, raw))
    }
}

/// Where the kernel lists LEDs.
pub const LEDS_DIR: &'static str = "/sys/class/leds";
/// The logind subsystem brightness writes go through.
pub const SUBSYSTEM: &'static str = "leds";

/// Whether an LED's name marks it as a keyboard backlight, in any case.
pub fn is_keyboard_backlight(name: &str) -> (r: bool)
    ensures
        r == (contains(name@.map_values(|c: char| ascii_lower(c)), "kbd_backlight"@) || contains(
            name@.map_values(|c: char| ascii_lower(c)),
            "keyboard_backlight"@,
        )),
{
    let lower = ascii_lowercase(name);
    find(lower.as_str(), "kbd_backlight") || find(lower.as_str(), "keyboard_backlight")
}

/// Whether an LED's name marks it as a keyboard backlight.
pub open spec fn backlight_name(name: Seq<char>) -> bool {
    contains(name.map_values(|c: char| ascii_lower(c)), "kbd_backlight"@) || contains(
        name.map_values(|c: char| ascii_lower(c)),
        "keyboard_backlight"@,
    )
}

/// Which of the LEDs found are keyboard backlights that can be stepped.
pub open spec fn candidates(found: Seq<(String, Option<u32>)>) -> Seq<bool> {
    found.map_values(|p: (String, Option<u32>)| backlight_name(p.0@) && usable_max(p.1))
}

/// The keyboard backlight to drive, given each entry of the LED directory
/// with its `max_brightness` (`None` where it could not be read).
///
/// The directory is full of things that are not backlights (caps lock, mute
/// indicators, the trackpoint), so only names that say keyboard backlight
/// count; of those, one that cannot be turned up has nothing to cycle
/// through. The first remaining name in sorted order is the device.
pub fn pick_device(found: &[(String, Option<u32>)]) -> (r: Option<(String, u32)>)
    ensures
        r is None <==> forall|j: int| 0 <= j < found@.len() ==> !(#[trigger] candidates(found@)[j]),
        r matches Some((name, max)) ==> exists|b: int|
            lowest_marked(names_found(found@), candidates(found@), b) && name@ == found@[b].0@ && found@[b].1
                == Some(max),
{
    let mut names: Vec<String> = Vec::new();
    let mut marks: Vec<bool> = Vec::new();
    let mut i: usize = 0;
    while i < found.len()
        invariant
            i <= found@.len(),
            names@.len() == i,
            marks@.len() == i,
            forall|j: int| 0 <= j < i ==> #[trigger] names@[j]@ == found@[j].0@,
            forall|j: int| 0 <= j < i ==> #[trigger] marks@[j] == candidates(found@)[j],
        decreases found@.len() - i,
    {
        names.push(found[i].0.clone());
        let usable = match found[i].1 {
            Some(m) => m > 0,
            None => false,
        };
        marks.push(usable && is_keyboard_backlight(found[i].0.as_str()));
        i = i + 1;
    }
    proof {
        assert(names@.map_values(|s: String| s@) =~= names_found(found@));
        assert(marks@ =~= candidates(found@));
    }
    match lowest_marked_exec(names.as_slice(), marks.as_slice()) {
        None => None,
        Some(b) => {
            let max = match found[b].1 {
                Some(m) => m,
                None => 0,
            };
            Some((found[b].0.clone(), max))
        },
    }
}


/// The `--check` line for the keyboard backlight, from the device chosen
/// (none is absent hardware) and the raw level it reads at.
pub fn probe_report(device: Option<(String, u32)>, current: u32) -> (r: Found)
    ensures
        match device {
            Some((name, max)) => r matches Found::Read(line) && line@ == name@ + " (max "@ + decimal(max as nat)
                + "), "@ + decimal(levels_spec(max).len()) + " level(s), currently "@ + decimal(current as nat),
            None => r matches Found::Absent(e) && e@ == "no keyboard backlight in /sys/class/leds"@,
        },
{
    let (name, max) = match device {
        Some(d) => d,
        None => return Found::Absent(String::from_str("no keyboard backlight in /sys/class/leds")),
    };
    let levels = levels_for(max);
    let mut line = name;
    line.append(" (max ");
    push_decimal(&mut line, max as u64);
    line.append("), ");
    push_decimal(&mut line, levels.len() as u64);
    line.append(" level(s), currently ");
    push_decimal(&mut line, current as u64);
    Found::Read(line)
}

} // verus!
