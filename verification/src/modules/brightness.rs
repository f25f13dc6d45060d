//! Display brightness: which backlight device is driven.
//!
//! Reads come from sysfs and writes go through logind, both outside the
//! library; the level itself is a fraction and is kept by the caller. What is
//! decided here is the device: the first entry of `/sys/class/backlight` in
//! sorted order whose `max_brightness` is usable. Machines with more than one
//! backlight are rare and almost always want the panel; sorting makes the
//! choice stable across boots, which directory order is not.
use vstd::prelude::*;

use crate::check::Found;
use crate::modules::{lowest_marked, lowest_marked_exec};
use crate::text::{decimal, push_decimal};

verus! {

/// Where backlight devices are listed.
pub const BACKLIGHT_DIR: &'static str = "/sys/class/backlight";

/// The subsystem logind is told a write is for.
pub const SUBSYSTEM: &'static str = "backlight";

/// A backlight device and the raw value that means full brightness.
#[derive(Debug, Clone, PartialEq, Eq)]
pub struct Device {
    pub name: String,
    pub max: u32,
}

/// A `max_brightness` the device can be driven with: readable, and above
/// zero, since every percentage is a fraction of it.
pub open spec fn usable_max(max: Option<u32>) -> bool {
    max matches Some(m) && m > 0
}

/// The names of the devices found.
pub open spec fn names_found(found: Seq<(String, Option<u32>)>) -> Seq<Seq<char>> {
    found.map_values(|p: (String, Option<u32>)| p.0@)
}

/// Which of the devices found can be driven.
pub open spec fn usable_found(found: Seq<(String, Option<u32>)>) -> Seq<bool> {
    found.map_values(|p: (String, Option<u32>)| usable_max(p.1))
}

/// The backlight to drive, given each entry of the backlight directory with
/// its `max_brightness` (`None` where it could not be read): the first in
/// sorted order with a usable maximum, or none when no entry has one.
pub fn pick_device(found: &[(String, Option<u32>)]) -> (r: Option<Device>)
    ensures
        r is None <==> forall|j: int| 0 <= j < found@.len() ==> !usable_max(#[trigger] found@[j].1),
        r matches Some(d) ==> exists|b: int|
            lowest_marked(names_found(found@), usable_found(found@), b) && d.name@ == found@[b].0@ && found@[b].1
                == Some(d.max),
{
    let mut names: Vec<String> = Vec::new();
    let mut marks: Vec<bool> = Vec::new();
    let mut i: usize = 0;
    while i < found.len()
        invariant
            i <= found@.len(),
            names@.len() == i,
            marks@.len() == i,
            forall|j: int| 0 <= j < i ==> #[trigger] names@[j]@ == found@[j].0@,
            forall|j: int| 0 <= j < i ==> #[trigger] marks@[j] == usable_max(found@[j].1),
        decreases found@.len() - i,
    {
        names.push(found[i].0.clone());
        let usable = match found[i].1 {
            Some(m) => m > 0,
            None => false,
        };
        marks.push(usable);
        i = i + 1;
    }
    proof {
        assert(names@.map_values(|s: String| s@) =~= names_found(found@));
        assert(marks@ =~= usable_found(found@));
    }
    match lowest_marked_exec(names.as_slice(), marks.as_slice()) {
        None => {
            proof {
                assert forall|j: int| 0 <= j < found@.len() implies !usable_max(#[trigger] found@[j].1) by {
                    assert(!marks@[j]);
                }
            }
            None
        },
        Some(b) => {
            let max = match found[b].1 {
                Some(m) => m,
                None => 0,
            };
            Some(Device { name: found[b].0.clone(), max })
        },
    }
}


/// The `--check` line for the display backlight, from the device chosen (none
/// is absent hardware) and its level, written out in whole percent, or `None`
/// when the device's brightness could not be read.
pub fn probe_report(device: Option<Device>, percent: Option<&str>) -> (r: Found)
    ensures
        match device {
            None => r matches Found::Absent(e) && e@ == "no backlight device in /sys/class/backlight"@,
            Some(d) => match percent {
                None => r matches Found::Unreadable(e) && e@ == "device present but its brightness is unreadable"@,
                Some(p) => r matches Found::Read(line) && line@ == d.name@ + " (max "@ + decimal(d.max as nat)
                    + "), currently "@ + p@ + "%"@,
            },
        },
{
    let d = match device {
        Some(d) => d,
        None => return Found::Absent(String::from_str("no backlight device in /sys/class/backlight")),
    };
    let p = match percent {
        Some(p) => p,
        None => return Found::Unreadable(String::from_str("device present but its brightness is unreadable")),
    };
    let mut line = d.name;
    line.append(" (max ");
    push_decimal(&mut line, d.max as u64);
    line.append("), currently ");
    line.append(p);
    line.append("%");
    Found::Read(line)
}

} // verus!
