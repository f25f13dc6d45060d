//! `--check`: what the probe of each backend is reported as, and whether
//! the run as a whole counts as degraded.
use vstd::prelude::*;

use crate::tile_layout::{is_placed, placed, Control, Instance, TileKey};

verus! {

/// Exit code when at least one wanted module could not be read, so the
/// check is usable from scripts and not just by eye.
pub const EXIT_DEGRADED: i32 = 1;

/// Whether this control has a consumer: an instance on the grid, or, for the
/// three the connectivity group draws rows for, that group.
pub open spec fn wanted_spec(layout: Seq<Instance>, key: TileKey) -> bool {
    placed(layout, Control::Builtin(key)) || ((key == TileKey::Wifi || key == TileKey::Bluetooth
        || key == TileKey::Vpn) && placed(layout, Control::Builtin(TileKey::Connectivity)))
}

/// Whether the check should probe `key` as something the user asked for.
pub fn wanted(layout: &[Instance], key: TileKey) -> (r: bool)
    ensures
        r == wanted_spec(layout@, key),
{
    let grouped = match key {
        TileKey::Wifi | TileKey::Bluetooth | TileKey::Vpn => true,
        _ => false,
    };
    is_placed(layout, Control::Builtin(key)) || (grouped && is_placed(layout, Control::Builtin(TileKey::Connectivity)))
}

/// What probing a module found: a reading, hardware or a service the
/// module correctly reports as not there, or a backend that could not be
/// read. Each carries the text of its line.
#[derive(Debug, PartialEq, Eq)]
pub enum Found {
    Read(String),
    Absent(String),
    Unreadable(String),
}

/// One module's line in the report.
#[derive(Debug, PartialEq, Eq)]
pub struct Report {
    pub name: String,
    pub enabled: bool,
    pub result: Found,
}

/// `s` followed by spaces up to `width` characters.
pub open spec fn padded(s: Seq<char>, width: nat) -> Seq<char> {
    if s.len() >= width {
        s
    } else {
        s + Seq::new((width - s.len()) as nat, |i: int| ' ')
    }
}

/// The column the module names are padded to.
pub const NAME_WIDTH: usize = 11;

/// The line for a module: switched off, read, or missing and why, whether
/// the hardware is not there or the backend could not be read.
pub open spec fn line_spec(name: Seq<char>, enabled: bool, result: Found) -> Seq<char> {
    if !enabled {
        "  "@ + padded(name, NAME_WIDTH as nat) + " not on the grid"@
    } else {
        match result {
            Found::Read(detail) => "  "@ + padded(name, NAME_WIDTH as nat) + " ok       "@ + detail@,
            Found::Absent(reason) => "  "@ + padded(name, NAME_WIDTH as nat) + " MISSING  "@ + reason@,
            Found::Unreadable(reason) => "  "@ + padded(name, NAME_WIDTH as nat) + " MISSING  "@ + reason@,
        }
    }
}

fn pad_to(out: &mut String, name: &str, width: usize)
    ensures
        final(out)@ == old(out)@ + padded(name@, width as nat),
{
    out.append(name);
    let n = name.unicode_len();
    let ghost start = out@;
    let mut k = n;
    while k < width
        invariant
            n == name@.len(),
            n <= k <= width || (n > width && k == n),
            out@ == start + Seq::new((k - n) as nat, |i: int| ' '),
        decreases width - k,
    {
        proof {
            reveal_strlit(" ");
        }
        out.append(" ");
        proof {
            assert(out@ =~= start + Seq::new((k + 1 - n) as nat, |i: int| ' '));
        }
        k = k + 1;
    }
    proof {
        if n >= width {
            assert(out@ =~= start);
        } else {
            assert(k == width);
        }
    }
}

impl Report {
    /// The line printed for this module.
    pub fn line(&self) -> (r: String)
        ensures
            r@ == line_spec(self.name@, self.enabled, self.result),
    {
        let mut out = String::from_str("  ");
        pad_to(&mut out, self.name.as_str(), NAME_WIDTH);
        if !self.enabled {
            out.append(" not on the grid");
            return out;
        }
        match &self.result {
            Found::Read(detail) => {
                out.append(" ok       ");
                out.append(detail.as_str());
            },
            Found::Absent(reason) => {
                out.append(" MISSING  ");
                out.append(reason.as_str());
            },
            Found::Unreadable(reason) => {
                out.append(" MISSING  ");
                out.append(reason.as_str());
            },
        }
        out
    }

    /// A module nobody asked for is not a failure, and neither is absent
    /// hardware that the module correctly reports; only a wanted module that
    /// cannot be read counts.
    pub fn is_failure(&self) -> (r: bool)
        ensures
            r == (self.enabled && self.result is Unreadable),
    {
        self.enabled && matches!(self.result, Found::Unreadable(_))
    }
}

/// How many reports count against the check.
pub open spec fn failures_in(reports: Seq<Report>) -> nat
    decreases reports.len(),
{
    if reports.len() == 0 {
        0
    } else {
        failures_in(reports.drop_last()) + if reports.last().enabled && reports.last().result is Unreadable {
            1nat
        } else {
            0nat
        }
    }
}

/// The number of failures, and the exit code they make: zero when every
/// wanted module could be read.
pub fn outcome(reports: &[Report]) -> (r: (usize, i32))
    ensures
        r.0 == failures_in(reports@),
        r.1 == (if r.0 == 0 { 0i32 } else { EXIT_DEGRADED }),
{
    let mut failures: usize = 0;
    let mut i: usize = 0;
    while i < reports.len()
        invariant
            i <= reports@.len(),
            failures == failures_in(reports@.take(i as int)),
            failures <= i,
        decreases reports@.len() - i,
    {
        proof {
            assert(reports@.take(i + 1).drop_last() =~= reports@.take(i as int));
        }
        if reports[i].is_failure() {
            failures = failures + 1;
        }
        i = i + 1;
    }
    proof {
        assert(reports@.take(i as int) =~= reports@);
    }
    (failures, if failures == 0 { 0 } else { EXIT_DEGRADED })
}


/// The check fails exactly when some module that was asked for could not be
/// read: a switched-off module, or hardware the module correctly reports as
/// absent, never makes it fail.
pub proof fn law_only_an_unreadable_wanted_module_fails(reports: Seq<Report>)
    ensures
        failures_in(reports) == 0 <==> forall|i: int|
            0 <= i < reports.len() ==> !((#[trigger] reports[i]).enabled && reports[i].result is Unreadable),
    decreases reports.len(),
{
    if reports.len() > 0 {
        law_only_an_unreadable_wanted_module_fails(reports.drop_last());
        let rest = reports.drop_last();
        let last = reports.len() - 1;
        assert forall|i: int| 0 <= i < rest.len() implies #[trigger] rest[i] == reports[i] by {}
        if failures_in(reports) == 0 {
            assert forall|i: int| 0 <= i < reports.len() implies !((#[trigger] reports[i]).enabled
                && reports[i].result is Unreadable) by {
                if i < last {
                    assert(rest[i] == reports[i]);
                }
            }
        } else if failures_in(rest) == 0 {
            assert(reports[last].enabled && reports[last].result is Unreadable);
        } else {
            let j = choose|j: int| 0 <= j < rest.len() && ((#[trigger] rest[j]).enabled && rest[j].result is Unreadable);
            assert(rest[j] == reports[j]);
        }
    }
}


/// Every placed control is probed, and the connectivity group, which draws
/// rows for Wi-Fi, Bluetooth and VPN, has those three probed whether or not
/// they have tiles of their own. A control neither placed nor drawn by the
/// group is not probed.
pub proof fn law_the_group_wants_its_rows(layout: Seq<Instance>, key: TileKey)
    ensures
        placed(layout, Control::Builtin(key)) ==> wanted_spec(layout, key),
        placed(layout, Control::Builtin(TileKey::Connectivity)) ==> {
            &&& wanted_spec(layout, TileKey::Wifi)
            &&& wanted_spec(layout, TileKey::Bluetooth)
            &&& wanted_spec(layout, TileKey::Vpn)
        },
        !placed(layout, Control::Builtin(key)) && key != TileKey::Wifi && key != TileKey::Bluetooth && key
            != TileKey::Vpn ==> !wanted_spec(layout, key),
        !placed(layout, Control::Builtin(key)) && !placed(layout, Control::Builtin(TileKey::Connectivity))
            ==> !wanted_spec(layout, key),
{
}

} // verus!
