//! User-defined tiles that run a command.
//!
//! `command` is an argv array, not a shell string: the first element is the
//! program and the rest are its arguments, each passed exactly as written.
//! Whether a program exists on this machine is found out by the caller; the
//! functions here decide what follows from the answer.
use vstd::prelude::*;

use crate::check::Found;
use crate::text::{copy_strings, ends_with, joined, push_decimal, same_text, decimal};
use crate::tile_layout::{kept_by, TileShape};

verus! {

/// One user-defined tile.
#[derive(Debug, Clone, PartialEq, Eq)]
pub struct Tile {
    /// Shown on the tile, and in its tooltip.
    pub name: String,
    /// Icon-theme name.
    pub icon: String,
    /// Program and its arguments. The first element is the program.
    pub command: Vec<String>,
    /// Optional second line.
    pub detail: Option<String>,
    /// The footprint this tile draws at.
    pub shape: TileShape,
    /// Ask before running it.
    pub confirm: bool,
    /// Whether the tile is drawn.
    pub enabled: bool,
}

/// A tile is switched on unless its entry says otherwise.
pub fn enabled_by_default() -> (r: bool)
    ensures
        r,
{
    true
}

/// A tile without a `shape` is the plain square.
pub fn default_shape() -> (r: TileShape)
    ensures
        r == TileShape::Small,
{
    TileShape::Small
}

/// The icon of a tile that names none: a generic executable glyph.
pub fn default_icon() -> (r: String)
    ensures
        r@ == "application-x-executable-symbolic"@,
{
    String::from_str("application-x-executable-symbolic")
}

/// A [`Tile`] with its text as character sequences.
pub ghost struct TileView {
    pub name: Seq<char>,
    pub icon: Seq<char>,
    pub command: Seq<Seq<char>>,
    pub detail: Option<Seq<char>>,
    pub shape: TileShape,
    pub confirm: bool,
    pub enabled: bool,
}

impl View for Tile {
    type V = TileView;

    open spec fn view(&self) -> TileView {
        TileView {
            name: self.name@,
            icon: self.icon@,
            command: self.command@.map_values(|s: String| s@),
            detail: match self.detail {
                Some(d) => Some(d@),
                None => None,
            },
            shape: self.shape,
            confirm: self.confirm,
            enabled: self.enabled,
        }
    }
}

impl TileView {
    /// Whether `command` names a program at all.
    pub open spec fn runnable(self) -> bool {
        self.command.len() > 0 && self.command[0].len() > 0
    }

    pub open spec fn usable(self) -> bool {
        self.enabled && self.runnable()
    }
}

/// The views of a list of tiles.
pub open spec fn views(tiles: Seq<Tile>) -> Seq<TileView> {
    tiles.map_values(|t: Tile| t@)
}

impl Tile {
    pub open spec fn spec_runnable(self) -> bool {
        self@.runnable()
    }

    pub open spec fn spec_usable(self) -> bool {
        self@.usable()
    }

    /// Whether this entry can actually be run: its command names a program.
    pub fn is_runnable(&self) -> (r: bool)
        ensures
            r == self.spec_runnable(),
    {
        self.command.len() > 0 && !self.command[0].as_str().is_empty()
    }

    /// Whether this entry should be drawn at all: switched on, and able to run.
    pub fn is_usable(&self) -> (r: bool)
        ensures
            r == self.spec_usable(),
    {
        self.enabled && self.is_runnable()
    }

    /// A copy of this entry.
    pub fn duplicate(&self) -> (r: Tile)
        ensures
            r@ == self@,
    {
        let detail = match &self.detail {
            Some(d) => Some(d.clone()),
            None => None,
        };
        let r = Tile {
            name: self.name.clone(),
            icon: self.icon.clone(),
            command: copy_strings(&self.command),
            detail,
            shape: self.shape,
            confirm: self.confirm,
            enabled: self.enabled,
        };
        proof {
            assert(r@.command =~= self@.command);
        }
        r
    }
}

/// A launcher as shipped: icon-only, switched on, asking first or not.
pub open spec fn shipped(
    name: Seq<char>,
    icon: Seq<char>,
    command: Seq<Seq<char>>,
    detail: Option<Seq<char>>,
    confirm: bool,
) -> TileView {
    TileView { name, icon, command, detail, shape: TileShape::Half, confirm, enabled: true }
}

/// The launchers a fresh install is offered, `user` being the account to
/// log out, if it is known.
pub open spec fn launchers_spec(user: Option<Seq<char>>) -> Seq<TileView> {
    seq![
        shipped("Settings"@, "preferences-system-symbolic"@, seq!["cosmic-settings"@], None, false),
        shipped("Tweaks"@, "preferences-other-symbolic"@, seq!["flatpak"@, "run"@, "dev.edfloreshz.CosmicTweaks"@], None, false),
        shipped("Terminal"@, "utilities-terminal-symbolic"@, seq!["cosmic-term"@], None, false),
        shipped("System Monitor"@, "utilities-system-monitor-symbolic"@, seq!["cosmic-monitor"@], None, false),
        shipped("Restart"@, "system-reboot-symbolic"@, seq!["systemctl"@, "reboot"@], Some("Reboots now"@), true),
        shipped("Power off"@, "system-shutdown-symbolic"@, seq!["systemctl"@, "poweroff"@], Some("Shuts down now"@), true),
    ] + match user {
        Some(u) => seq![
            shipped(
                "Log out"@,
                "system-log-out-symbolic"@,
                seq!["loginctl"@, "terminate-user"@, u],
                Some("Ends the session"@),
                true,
            ),
        ],
        None => Seq::empty(),
    }
}

fn shipped_tile(name: &str, icon: &str, command: &Vec<&str>, detail: Option<&str>, confirm: bool) -> (r: Tile)
    ensures
        r@ == shipped(
            name@,
            icon@,
            command@.map_values(|s: &str| s@),
            match detail {
                Some(d) => Some(d@),
                None => None,
            },
            confirm,
        ),
{
    let mut argv: Vec<String> = Vec::new();
    let mut i: usize = 0;
    while i < command.len()
        invariant
            i <= command@.len(),
            argv@.len() == i,
            forall|j: int| 0 <= j < i ==> #[trigger] argv@[j]@ == command@[j]@,
        decreases command@.len() - i,
    {
        argv.push(command[i].to_owned());
        i = i + 1;
    }
    proof {
        assert(argv@.map_values(|s: String| s@) =~= command@.map_values(|s: &str| s@));
    }
    Tile {
        name: name.to_owned(),
        icon: icon.to_owned(),
        command: argv,
        detail: match detail {
            Some(d) => Some(d.to_owned()),
            None => None,
        },
        shape: TileShape::Half,
        confirm,
        enabled: true,
    }
}

/// The launchers a fresh install is offered, before those whose program is
/// missing are dropped.
///
/// Icon-only, so they read as a strip of buttons under the controls, and
/// monochrome throughout. The ones that end the session ask first. Logging
/// out names the user, as a command here is argv with no shell to expand
/// `$USER`, so without a known user it is not offered at all.
pub fn default_launchers(user: Option<&str>) -> (r: Vec<Tile>)
    ensures
        views(r@) == launchers_spec(
            match user {
                Some(u) => Some(u@),
                None => None,
            },
        ),
{
    let ghost wanted = launchers_spec(
        match user {
            Some(u) => Some(u@),
            None => None,
        },
    );
    let mut tiles: Vec<Tile> = Vec::new();
    let argv = vec!["cosmic-settings"];
    assert(argv@.map_values(|s: &str| s@) =~= wanted[0].command);
    tiles.push(shipped_tile("Settings", "preferences-system-symbolic", &argv, None, false));
    let argv = vec!["flatpak", "run", "dev.edfloreshz.CosmicTweaks"];
    assert(argv@.map_values(|s: &str| s@) =~= wanted[1].command);
    tiles.push(shipped_tile("Tweaks", "preferences-other-symbolic", &argv, None, false));
    let argv = vec!["cosmic-term"];
    assert(argv@.map_values(|s: &str| s@) =~= wanted[2].command);
    tiles.push(shipped_tile("Terminal", "utilities-terminal-symbolic", &argv, None, false));
    let argv = vec!["cosmic-monitor"];
    assert(argv@.map_values(|s: &str| s@) =~= wanted[3].command);
    tiles.push(shipped_tile("System Monitor", "utilities-system-monitor-symbolic", &argv, None, false));
    let argv = vec!["systemctl", "reboot"];
    assert(argv@.map_values(|s: &str| s@) =~= wanted[4].command);
    tiles.push(shipped_tile("Restart", "system-reboot-symbolic", &argv, Some("Reboots now"), true));
    let argv = vec!["systemctl", "poweroff"];
    assert(argv@.map_values(|s: &str| s@) =~= wanted[5].command);
    tiles.push(shipped_tile("Power off", "system-shutdown-symbolic", &argv, Some("Shuts down now"), true));
    match user {
        Some(u) => {
            let argv = vec!["loginctl", "terminate-user", u];
            assert(argv@.map_values(|s: &str| s@) =~= wanted[6].command);
            tiles.push(shipped_tile("Log out", "system-log-out-symbolic", &argv, Some("Ends the session"), true));
        },
        None => {},
    }
    assert(views(tiles@) =~= wanted);
    tiles
}

/// Whether `s` ends in `suffix`.
pub open spec fn has_suffix(s: Seq<char>, suffix: Seq<char>) -> bool {
    suffix.len() <= s.len() && s.subrange(s.len() - suffix.len(), s.len() as int) == suffix
}

/// The launchers that end the session: logging out, restarting, powering off.
pub open spec fn ends_the_session(name: Seq<char>) -> bool {
    name == "Log out"@ || name == "Restart"@ || name == "Power off"@
}

/// Every shipped launcher is icon-only, monochrome (a `-symbolic` icon),
/// switched on and runnable; exactly those that end the session ask first;
/// and logging out is offered exactly when the user is known, naming that
/// user as a literal argument of `loginctl`.
pub proof fn law_shipped_launchers_are_icon_only_and_ask_before_ending_the_session(
    user: Option<Seq<char>>,
)
    ensures
        launchers_spec(user).len() > 0,
        forall|i: int|
            0 <= i < launchers_spec(user).len() ==> {
                let t = #[trigger] launchers_spec(user)[i];
                &&& t.shape == TileShape::Half
                &&& has_suffix(t.icon, "-symbolic"@)
                &&& t.usable()
                &&& (t.confirm <==> ends_the_session(t.name))
            },
        (exists|i: int| 0 <= i < launchers_spec(user).len() && #[trigger] launchers_spec(user)[i].name == "Log out"@)
            <==> user is Some,
        forall|i: int|
            0 <= i < launchers_spec(user).len() && #[trigger] launchers_spec(user)[i].name == "Log out"@
                ==> launchers_spec(user)[i].command == seq!["loginctl"@, "terminate-user"@, user->0],
{
    reveal_strlit("Settings");
    reveal_strlit("Tweaks");
    reveal_strlit("Terminal");
    reveal_strlit("System Monitor");
    reveal_strlit("Restart");
    reveal_strlit("Power off");
    reveal_strlit("Log out");
    reveal_strlit("-symbolic");
    reveal_strlit("preferences-system-symbolic");
    reveal_strlit("preferences-other-symbolic");
    reveal_strlit("utilities-terminal-symbolic");
    reveal_strlit("utilities-system-monitor-symbolic");
    reveal_strlit("system-reboot-symbolic");
    reveal_strlit("system-shutdown-symbolic");
    reveal_strlit("system-log-out-symbolic");
    reveal_strlit("cosmic-settings");
    reveal_strlit("flatpak");
    reveal_strlit("cosmic-term");
    reveal_strlit("cosmic-monitor");
    reveal_strlit("systemctl");
    reveal_strlit("loginctl");
    let s = launchers_spec(user);
    assert forall|i: int| 0 <= i < s.len() implies {
        let t = #[trigger] s[i];
        &&& t.shape == TileShape::Half
        &&& has_suffix(t.icon, "-symbolic"@)
        &&& t.usable()
        &&& (t.confirm <==> ends_the_session(t.name))
    } by {
        let t = s[i];
        assert(t.icon.subrange(t.icon.len() - 9, t.icon.len() as int) =~= "-symbolic"@);
        // Only "Log out" has its length and first letter among the names.
        assert(t.name.len() == "Log out"@.len() && t.name[0] == "Log out"@[0] ==> t.name =~= "Log out"@);
    }
    if user is Some {
        assert(s[6].name == "Log out"@);
    } else {
        assert forall|i: int| 0 <= i < s.len() implies #[trigger] s[i].name != "Log out"@ by {
            assert(s[i].name.len() != "Log out"@.len() || s[i].name[0] != "Log out"@[0]);
        }
    }
    assert forall|i: int| 0 <= i < s.len() && #[trigger] s[i].name == "Log out"@ implies s[i].command
        == seq!["loginctl"@, "terminate-user"@, user->0] by {
        assert(i == 6 || s[i].name.len() != "Log out"@.len() || s[i].name[0] != "Log out"@[0]);
    }
}

/// Whether `command` is `flatpak run …`: a program whose name ends in
/// `flatpak`, with `run` as its first argument.
pub open spec fn is_flatpak_run(command: Seq<Seq<char>>) -> bool {
    &&& command.len() > 1
    &&& "flatpak"@.len() <= command[0].len()
    &&& command[0].subrange(command[0].len() - "flatpak"@.len(), command[0].len() as int) == "flatpak"@
    &&& command[1] == "run"@
}

/// Whether the thing a launcher launches is here, given whether its program
/// is on this machine and, for `flatpak run <app>`, whether that app is
/// installed: every machine with Flatpak has `flatpak`, so for those the app
/// id is what counts.
pub open spec fn present_spec(tile: TileView, program_found: bool, app_installed: bool) -> bool {
    &&& tile.command.len() > 0
    &&& program_found
    &&& (is_flatpak_run(tile.command) ==> tile.command.len() > 2 && app_installed)
}

/// The app id a `flatpak run <app>` launcher needs installed, if this is one.
pub fn flatpak_app_id(tile: &Tile) -> (r: Option<String>)
    ensures
        r matches Some(id) ==> is_flatpak_run(tile@.command) && tile@.command.len() > 2 && id@ == tile@.command[2],
        r is None ==> !(is_flatpak_run(tile@.command) && tile@.command.len() > 2),
{
    if is_flatpak(tile) && tile.command.len() > 2 {
        Some(tile.command[2].clone())
    } else {
        None
    }
}

fn is_flatpak(tile: &Tile) -> (r: bool)
    ensures
        r == is_flatpak_run(tile@.command),
{
    if tile.command.len() <= 1 {
        return false;
    }
    ends_with(tile.command[0].as_str(), "flatpak") && same_text(tile.command[1].as_str(), "run")
}

/// Whether a shipped launcher should be offered, given what was found on
/// this machine for it.
pub fn is_present(tile: &Tile, program_found: bool, app_installed: bool) -> (r: bool)
    ensures
        r == present_spec(tile@, program_found, app_installed),
{
    if tile.command.len() == 0 || !program_found {
        return false;
    }
    if is_flatpak(tile) {
        return tile.command.len() > 2 && app_installed;
    }
    true
}

/// The subset of `tiles` whose program is actually on this machine, where
/// `program_found[i]` and `app_installed[i]` are what was found for `tiles[i]`.
///
/// Used for the shipped defaults only: a user's own tile is never dropped for
/// this.
pub fn installed(tiles: Vec<Tile>, program_found: &[bool], app_installed: &[bool]) -> (r: Vec<Tile>)
    requires
        program_found@.len() == tiles@.len(),
        app_installed@.len() == tiles@.len(),
    ensures
        views(r@) == kept_by(
            views(tiles@),
            Seq::new(tiles@.len(), |i: int| present_spec(tiles@[i]@, program_found@[i], app_installed@[i])),
        ),
{
    let ghost keep = Seq::new(tiles@.len(), |i: int| present_spec(tiles@[i]@, program_found@[i], app_installed@[i]));
    let ghost all = views(tiles@);
    let mut out: Vec<Tile> = Vec::new();
    let mut i: usize = 0;
    while i < tiles.len()
        invariant
            i <= tiles@.len(),
            program_found@.len() == tiles@.len(),
            app_installed@.len() == tiles@.len(),
            all == views(tiles@),
            keep == Seq::new(tiles@.len(), |i: int| present_spec(tiles@[i]@, program_found@[i], app_installed@[i])),
            views(out@) == kept_by(all.take(i as int), keep),
        decreases tiles@.len() - i,
    {
        proof {
            assert(all.take(i + 1).drop_last() == all.take(i as int));
            assert(all.take(i + 1).last() == tiles@[i as int]@);
        }
        if is_present(&tiles[i], program_found[i], app_installed[i]) {
            let ghost before = out@;
            out.push(tiles[i].duplicate());
            proof {
                assert(views(out@) =~= views(before).push(tiles@[i as int]@));
            }
        }
        i = i + 1;
    }
    proof {
        assert(all.take(i as int) == all);
    }
    out
}

/// The names of the entries that cannot run, to be reported once at load.
pub fn warn_unusable(tiles: &[Tile]) -> (r: Vec<String>)
    ensures
        r@.map_values(|s: String| s@) == kept_by(
            views(tiles@),
            Seq::new(tiles@.len(), |i: int| !tiles@[i]@.runnable()),
        ).map_values(|t: TileView| t.name),
{
    let ghost keep = Seq::new(tiles@.len(), |i: int| !tiles@[i]@.runnable());
    let ghost all = views(tiles@);
    let mut out: Vec<String> = Vec::new();
    let mut i: usize = 0;
    while i < tiles.len()
        invariant
            i <= tiles@.len(),
            all == views(tiles@),
            keep == Seq::new(tiles@.len(), |i: int| !tiles@[i]@.runnable()),
            out@.map_values(|s: String| s@) == kept_by(all.take(i as int), keep).map_values(|t: TileView| t.name),
        decreases tiles@.len() - i,
    {
        proof {
            assert(all.take(i + 1).drop_last() == all.take(i as int));
            assert(all.take(i + 1).last() == tiles@[i as int]@);
        }
        if !tiles[i].is_runnable() {
            let ghost before = out@;
            out.push(tiles[i].name.clone());
            proof {
                let k = kept_by(all.take(i + 1), keep);
                let kprev = kept_by(all.take(i as int), keep);
                assert(k == kprev.push(tiles@[i as int]@));
                assert(out@.map_values(|s: String| s@) =~= before.map_values(|s: String| s@).push(tiles@[i as int].name@));
                assert(k.map_values(|t: TileView| t.name) =~= kprev.map_values(|t: TileView| t.name).push(tiles@[i as int]@.name));
                assert(out@.map_values(|s: String| s@) =~= k.map_values(|t: TileView| t.name));
            }
        }
        i = i + 1;
    }
    proof {
        assert(all.take(i as int) == all);
    }
    out
}

/// The tiles that should be drawn: switched on, and able to run.
pub fn usable(tiles: &[Tile]) -> (r: Vec<Tile>)
    ensures
        views(r@) == kept_by(views(tiles@), Seq::new(tiles@.len(), |i: int| tiles@[i]@.usable())),
{
    let ghost keep = Seq::new(tiles@.len(), |i: int| tiles@[i]@.usable());
    let ghost all = views(tiles@);
    let mut out: Vec<Tile> = Vec::new();
    let mut i: usize = 0;
    while i < tiles.len()
        invariant
            i <= tiles@.len(),
            all == views(tiles@),
            keep == Seq::new(tiles@.len(), |i: int| tiles@[i]@.usable()),
            views(out@) == kept_by(all.take(i as int), keep),
        decreases tiles@.len() - i,
    {
        proof {
            assert(all.take(i + 1).drop_last() == all.take(i as int));
            assert(all.take(i + 1).last() == tiles@[i as int]@);
        }
        if tiles[i].is_usable() {
            let ghost before = out@;
            out.push(tiles[i].duplicate());
            proof {
                assert(views(out@) =~= views(before).push(tiles@[i as int]@));
            }
        }
        i = i + 1;
    }
    proof {
        assert(all.take(i as int) == all);
    }
    out
}

/// How many of `tiles` satisfy `p`.
pub open spec fn count_where(tiles: Seq<TileView>, p: spec_fn(TileView) -> bool) -> nat
    decreases tiles.len(),
{
    if tiles.len() == 0 {
        0
    } else {
        count_where(tiles.drop_last(), p) + if p(tiles.last()) { 1nat } else { 0nat }
    }
}

/// The names of the usable tiles whose program was not found.
pub open spec fn missing_names(tiles: Seq<TileView>, found: Seq<bool>) -> Seq<Seq<char>>
    decreases tiles.len(),
{
    if tiles.len() == 0 {
        Seq::empty()
    } else {
        let prev = missing_names(tiles.drop_last(), found);
        let t = tiles.last();
        if t.usable() && !found[tiles.len() - 1] {
            prev.push(t.name)
        } else {
            prev
        }
    }
}

/// The one-line `--check` report for `tiles`, where `found[i]` says whether
/// the program of `tiles[i]` was found on this machine.
pub open spec fn probe_report(tiles: Seq<TileView>, found: Seq<bool>) -> Seq<char> {
    let usable = count_where(tiles, |t: TileView| t.usable());
    let off = count_where(tiles, |t: TileView| !t.enabled);
    let broken = tiles.len() - usable - off;
    let missing = missing_names(tiles, found);
    decimal(usable) + " tile(s)"@ + (if off > 0 {
        ", "@ + decimal(off) + " switched off"@
    } else {
        Seq::empty()
    }) + (if broken > 0 {
        ", "@ + decimal(broken as nat) + " ignored"@
    } else {
        Seq::empty()
    }) + (if missing.len() > 0 {
        ", program not found for: "@ + joined(missing, ", "@)
    } else {
        Seq::empty()
    })
}

proof fn lemma_counts(tiles: Seq<TileView>)
    ensures
        count_where(tiles, |t: TileView| t.usable()) + count_where(tiles, |t: TileView| !t.enabled) <= tiles.len(),
    decreases tiles.len(),
{
    if tiles.len() > 0 {
        lemma_counts(tiles.drop_last());
    }
}

#[verifier::spinoff_prover]
#[verifier::rlimit(60)]
/// One-shot report for `--check`: how many tiles are usable, how many are
/// switched off, how many are ignored for an empty command, and which usable
/// ones name a program that was not found.
pub fn probe(tiles: &[Tile], found: &[bool]) -> (r: Result<String, String>)
    requires
        found@.len() == tiles@.len(),
    ensures
        tiles@.len() == 0 ==> r is Err && r->Err_0@ == "none defined"@,
        tiles@.len() > 0 ==> r is Ok && r->Ok_0@ == probe_report(views(tiles@), found@),
{
    if tiles.len() == 0 {
        return Err(String::from_str("none defined"));
    }
    let ghost all = views(tiles@);
    let mut usable_count: usize = 0;
    let mut off: usize = 0;
    let mut missing: Vec<&String> = Vec::new();
    let mut i: usize = 0;
    while i < tiles.len()
        invariant
            i <= tiles@.len(),
            found@.len() == tiles@.len(),
            all == views(tiles@),
            usable_count == count_where(all.take(i as int), |t: TileView| t.usable()),
            off == count_where(all.take(i as int), |t: TileView| !t.enabled),
            missing@.map_values(|s: &String| s@) == missing_names(all.take(i as int), found@),
            usable_count <= i,
            off <= i,
        decreases tiles@.len() - i,
    {
        proof {
            assert(all.take(i + 1).drop_last() == all.take(i as int));
            assert(all.take(i + 1).last() == tiles@[i as int]@);
        }
        let t = &tiles[i];
        if t.is_usable() {
            usable_count = usable_count + 1;
            if !found[i] {
                let ghost before = missing@;
                missing.push(&t.name);
                proof {
                    assert(missing@.map_values(|s: &String| s@) =~= before.map_values(|s: &String| s@).push(t.name@));
                }
            }
        }
        if !t.enabled {
            off = off + 1;
        }
        i = i + 1;
    }
    proof {
        assert(all.take(i as int) == all);
        lemma_counts(all);
    }
    let broken = tiles.len() - usable_count - off;
    let mut summary = String::new();
    push_decimal(&mut summary, usable_count as u64);
    summary.append(" tile(s)");
    if off > 0 {
        summary.append(", ");
        push_decimal(&mut summary, off as u64);
        summary.append(" switched off");
    }
    if broken > 0 {
        summary.append(", ");
        push_decimal(&mut summary, broken as u64);
        summary.append(" ignored");
    }
    if missing.len() > 0 {
        summary.append(", program not found for: ");
        let mut k: usize = 0;
        let ghost names = missing@.map_values(|s: &String| s@);
        let ghost head = summary@;
        while k < missing.len()
            invariant
                k <= missing@.len(),
                names == missing@.map_values(|s: &String| s@),
                summary@ == head + joined(names.take(k as int), ", "@),
            decreases missing@.len() - k,
        {
            if k > 0 {
                summary.append(", ");
            }
            summary.append(missing[k].as_str());
            proof {
                let t = names.take(k + 1);
                assert(t.drop_last() == names.take(k as int));
                assert(t.last() == missing@[k as int]@);
                if k == 0 {
                    assert(joined(names.take(0), ", "@) == Seq::<char>::empty());
                    assert(joined(t, ", "@) == t[0]);
                }
            }
            k = k + 1;
        }
        proof {
            assert(names.take(k as int) == names);
        }
    }
    proof {
        let report = probe_report(all, found@);
        assert(summary@ =~= report);
    }
    Ok(summary)
}

/// The custom tiles' `--check` finding: none defined is nothing to read,
/// which is no failure; otherwise the report of [`probe`].
pub fn probe_found(tiles: &[Tile], found: &[bool]) -> (r: Found)
    requires
        found@.len() == tiles@.len(),
    ensures
        tiles@.len() == 0 ==> (r matches Found::Absent(e) && e@ == "none defined"@),
        tiles@.len() > 0 ==> (r matches Found::Read(t) && t@ == probe_report(views(tiles@), found@)),
{
    match probe(tiles, found) {
        Ok(line) => Found::Read(line),
        Err(reason) => Found::Absent(reason),
    }
}

} // verus!
