//! Media playback over MPRIS: which running player the row shows, the row's
//! state, and its title scrolled to fit.
use vstd::prelude::*;
use vstd::seq_lib::to_multiset_build;
use vstd::seq_lib::to_multiset_insert;

use crate::check::Found;
use crate::modules::Availability;
use crate::text::{has_at, joined, lemma_text_before_order, opt_text, text_before, text_before_exec};

verus! {

/// The prefix every MPRIS player's bus name starts with.
pub const PREFIX: &'static str = "org.mpris.MediaPlayer2.";

/// `s` with every leading repetition of `p` removed.
pub open spec fn strip_leading(s: Seq<char>, p: Seq<char>) -> Seq<char>
    decreases s.len(),
{
    if p.len() > 0 && p.len() <= s.len() && s.take(p.len() as int) == p {
        strip_leading(s.skip(p.len() as int), p)
    } else {
        s
    }
}

/// `r` is the part of `t` before its first `.`, or all of `t` when it has none.
pub open spec fn first_item(t: Seq<char>, r: Seq<char>) -> bool {
    &&& r.len() <= t.len()
    &&& r == t.take(r.len() as int)
    &&& forall|i: int| 0 <= i < r.len() ==> r[i] != '.'
    &&& (r.len() == t.len() || t[r.len() as int] == '.')
}

/// Last-resort name from a bus name: `…MediaPlayer2.chromium.instance16790`
/// becomes `chromium`. The prefix goes, and with it anything after the next
/// `.`, which is where a player puts its instance suffix.
pub fn readable_bus_name(player: &str) -> (r: String)
    ensures
        first_item(strip_leading(player@, PREFIX@), r@),
{
    let ghost p = PREFIX@;
    let n = player.unicode_len();
    let m = PREFIX.unicode_len();
    let mut pos: usize = 0;
    proof {
        assert(player@.skip(0) =~= player@);
    }
    while pos < n && m > 0 && has_at(player, pos, PREFIX)
        invariant
            n == player@.len(),
            m == p.len(),
            p == PREFIX@,
            pos <= n,
            strip_leading(player@.skip(pos as int), p) == strip_leading(player@, p),
        decreases n - pos,
    {
        proof {
            let rest = player@.skip(pos as int);
            assert(rest.take(m as int) == player@.subrange(pos as int, pos + m));
            assert(rest.skip(m as int) == player@.skip(pos + m));
        }
        pos = pos + m;
    }
    proof {
        let rest = player@.skip(pos as int);
        if m > 0 && m <= rest.len() && rest.take(m as int) == p {
            assert(player@.subrange(pos as int, pos + m) == rest.take(m as int));
            assert(pos < n);
        }
        assert(strip_leading(rest, p) == rest);
    }
    let mut end = pos;
    while end < n && player.get_char(end) != '.'
        invariant
            n == player@.len(),
            pos <= end <= n,
            forall|i: int| pos <= i < end ==> player@[i] != '.',
        decreases n - end,
    {
        end = end + 1;
    }
    let piece = player.substring_char(pos, end);
    let r = String::from_str(piece);
    proof {
        let rest = player@.skip(pos as int);
        assert(r@ == player@.subrange(pos as int, end as int));
        assert(r@ =~= rest.take(r@.len() as int));
        if end < n {
            assert(rest[r@.len() as int] == player@[end as int]);
        }
    }
    r
}


/// Separator between the end of a scrolling title and its repeat.
pub const GAP: &'static str = "   \u{2022}   ";

/// Whether a bus name belongs to an MPRIS player.
pub open spec fn is_player(name: Seq<char>) -> bool {
    PREFIX@.len() <= name.len() && name.take(PREFIX@.len() as int) == PREFIX@
}

/// The player names among `names`, in order.
pub open spec fn players_in(names: Seq<Seq<char>>) -> Seq<Seq<char>>
    decreases names.len(),
{
    if names.len() == 0 {
        Seq::empty()
    } else if is_player(names.last()) {
        players_in(names.drop_last()).push(names.last())
    } else {
        players_in(names.drop_last())
    }
}

/// The characters of each string, in order.
pub open spec fn texts(s: Seq<String>) -> Seq<Seq<char>> {
    s.map_values(|t: String| t@)
}

/// The running MPRIS players among the owned bus names, sorted, so the choice
/// when several run is stable rather than bus-order roulette.
pub fn running_players(names: Vec<String>) -> (r: Vec<String>)
    ensures
        texts(r@).to_multiset() == players_in(texts(names@)).to_multiset(),
        forall|i: int, j: int| 0 <= i < j < r@.len() ==> !text_before(#[trigger] r@[j]@, #[trigger] r@[i]@),
{
    let ghost all = texts(names@);
    let mut out: Vec<String> = Vec::new();
    let mut i: usize = 0;
    proof {
        assert(all.take(0) =~= Seq::<Seq<char>>::empty());
        assert(texts(out@) =~= Seq::<Seq<char>>::empty());
    }
    while i < names.len()
        invariant
            i <= names@.len(),
            all == texts(names@),
            texts(out@).to_multiset() == players_in(all.take(i as int)).to_multiset(),
            forall|a: int, b: int| 0 <= a < b < out@.len() ==> !text_before(#[trigger] out@[b]@, #[trigger] out@[a]@),
        decreases names@.len() - i,
    {
        proof {
            let t = all.take(i + 1);
            assert(t.drop_last() =~= all.take(i as int));
            assert(t.last() == names@[i as int]@);
        }
        let name = &names[i];
        let m = PREFIX.unicode_len();
        if m <= name.as_str().unicode_len() && has_at(name.as_str(), 0, PREFIX) {
            proof {
                assert(name@.subrange(0, m as int) == name@.take(m as int));
            }
            let mut pos: usize = 0;
            while pos < out.len() && !text_before_exec(name.as_str(), out[pos].as_str())
                invariant
                    pos <= out@.len(),
                    forall|a: int| 0 <= a < pos ==> !text_before(name@, (#[trigger] out@[a])@),
                decreases out@.len() - pos,
            {
                pos = pos + 1;
            }
            let ghost before = out@;
            out.insert(pos, name.clone());
            proof {
                assert(texts(out@) =~= texts(before).insert(pos as int, name@));
                to_multiset_insert(texts(before), pos as int, name@);
                to_multiset_build(players_in(all.take(i as int)), name@);
                assert(out@[pos as int]@ == name@);
                assert forall|a: int, b: int| 0 <= a < b < out@.len() implies !text_before(
                    #[trigger] out@[b]@,
                    #[trigger] out@[a]@,
                ) by {
                    if b < pos {
                        assert(out@[a] == before[a] && out@[b] == before[b]);
                    } else if b == pos {
                        assert(out@[a] == before[a]);
                    } else if a < pos {
                        assert(out@[a] == before[a] && out@[b] == before[b - 1]);
                    } else if a == pos {
                        assert(out@[b] == before[b - 1]);
                        assert(text_before(name@, before[pos as int]@));
                        lemma_text_before_order(before[b - 1]@, name@, before[pos as int]@);
                        lemma_text_before_order(name@, before[pos as int]@, name@);
                    } else {
                        assert(out@[a] == before[a - 1] && out@[b] == before[b - 1]);
                    }
                }
            }
        } else {
            proof {
                if is_player(name@) {
                    assert(name@.subrange(0, m as int) == name@.take(m as int));
                }
            }
        }
        i = i + 1;
    }
    proof {
        assert(all.take(i as int) =~= all);
    }
    out
}

/// What describing one player reported.
#[derive(Debug, Clone)]
pub struct Now {
    /// Bus name.
    pub player: String,
    pub playing: bool,
    pub title: String,
    pub artist: Option<String>,
    pub can_next: bool,
    pub can_previous: bool,
    /// What the player calls itself.
    pub player_name: String,
    /// Icon name, already resolved against the active theme.
    pub icon: String,
}

impl Default for Now {
    fn default() -> (r: Self)
        ensures
            r.player@.len() == 0 && !r.playing && r.title@.len() == 0 && r.artist is None,
            !r.can_next && !r.can_previous,
            r.player_name@.len() == 0 && r.icon@.len() == 0,
    {
        Now {
            player: String::new(),
            playing: false,
            title: String::new(),
            artist: None,
            can_next: false,
            can_previous: false,
            player_name: String::new(),
            icon: String::new(),
        }
    }
}

/// Which of the described players the row shows: the first one playing, so a
/// paused browser tab does not hide the music, else the first one.
pub fn pick_player(described: &[Now]) -> (r: Option<usize>)
    ensures
        described@.len() == 0 <==> r is None,
        r matches Some(i) ==> {
            &&& i < described@.len()
            &&& (described@[i as int].playing || forall|j: int| 0 <= j < described@.len() ==> !(#[trigger] described@[j]).playing)
            &&& (!described@[i as int].playing ==> i == 0)
            &&& forall|j: int| 0 <= j < i ==> !(#[trigger] described@[j]).playing
        },
{
    let mut i: usize = 0;
    while i < described.len()
        invariant
            i <= described@.len(),
            forall|j: int| 0 <= j < i ==> !(#[trigger] described@[j]).playing,
        decreases described@.len() - i,
    {
        if described[i].playing {
            return Some(i);
        }
        i = i + 1;
    }
    if described.len() == 0 {
        None
    } else {
        Some(0)
    }
}

/// The player's own name, with the short bus name as a last resort.
pub fn display_name(identity: &str, suffix: &str) -> (r: String)
    ensures
        r@ == (if identity@.len() == 0 { suffix@ } else { identity@ }),
{
    if identity.is_empty() {
        suffix.to_owned()
    } else {
        identity.to_owned()
    }
}

/// A metadata value as the player sent it.
#[derive(Debug, Clone)]
pub enum MetaValue {
    Text(String),
    List(Vec<String>),
    /// Anything else, which is not read.
    Other,
}

/// The text of a metadata field that may be a string or a list of them,
/// joined with commas; an empty result reads as absent.
pub fn text_of(value: Option<&MetaValue>) -> (r: Option<String>)
    ensures
        match value {
            Some(MetaValue::Text(t)) => if t@.len() > 0 {
                r matches Some(x) && x@ == t@
            } else {
                r is None
            },
            Some(MetaValue::List(l)) => if joined(texts(l@), ", "@).len() > 0 {
                r matches Some(x) && x@ == joined(texts(l@), ", "@)
            } else {
                r is None
            },
            _ => r is None,
        },
{
    match value {
        Some(MetaValue::Text(t)) => {
            if t.as_str().is_empty() {
                None
            } else {
                Some(t.clone())
            }
        },
        Some(MetaValue::List(l)) => {
            let mut out = String::new();
            let mut i: usize = 0;
            while i < l.len()
                invariant
                    i <= l@.len(),
                    out@ == joined(texts(l@).take(i as int), ", "@),
                decreases l@.len() - i,
            {
                proof {
                    let t = texts(l@).take(i + 1);
                    assert(t.drop_last() =~= texts(l@).take(i as int));
                    assert(t.last() == l@[i as int]@);
                    if i == 0 {
                        assert(texts(l@).take(0) =~= Seq::<Seq<char>>::empty());
                    }
                }
                if i > 0 {
                    out.append(", ");
                }
                out.append(l[i].as_str());
                proof {
                    if i == 0 {
                        assert(out@ =~= l@[0]@);
                    }
                }
                i = i + 1;
            }
            proof {
                assert(texts(l@).take(i as int) =~= texts(l@));
            }
            if out.as_str().is_empty() {
                None
            } else {
                Some(out)
            }
        },
        _ => None,
    }
}

/// A transport command for the player.
#[derive(Debug, Clone, Copy, PartialEq, Eq, Structural)]
pub enum Command {
    PlayPause,
    Next,
    Previous,
}

/// A command to send, and the bus name of the player to send it to.
#[derive(Debug, Clone)]
pub struct Request {
    pub player: String,
    pub command: Command,
}

/// What the backend reports.
#[derive(Debug, Clone)]
pub enum Event {
    Playing(Box<Now>),
    Unavailable,
    /// One step of the title's scroll.
    Scroll,
}

/// The media row.
#[derive(Debug, Clone)]
pub struct State {
    pub availability: Availability,
    pub playing: bool,
    pub title: String,
    pub artist: Option<String>,
    pub can_next: bool,
    pub can_previous: bool,
    pub player_name: String,
    pub icon: String,
    /// How far the title has scrolled, in characters.
    pub offset: usize,
    /// Bus name of the player being controlled.
    pub player: Option<String>,
}

impl Default for State {
    fn default() -> (r: Self)
        ensures
            r.availability == Availability::Unknown,
            !r.playing && r.title@.len() == 0 && r.artist is None,
            !r.can_next && !r.can_previous,
            r.player_name@.len() == 0 && r.icon@.len() == 0,
            r.offset == 0 && r.player is None,
    {
        State {
            availability: Availability::Unknown,
            playing: false,
            title: String::new(),
            artist: None,
            can_next: false,
            can_previous: false,
            player_name: String::new(),
            icon: String::new(),
            offset: 0,
            player: None,
        }
    }
}

/// The line under the player's name: the track and who it is by, or
/// `nothing` when the player reports no title.
pub open spec fn summary_spec(title: Seq<char>, artist: Option<Seq<char>>, nothing: Seq<char>) -> Seq<char> {
    if title.len() == 0 {
        nothing
    } else if artist is Some && artist->0.len() > 0 {
        title + " \u{2014} "@ + artist->0
    } else {
        title
    }
}

/// `width` characters of `text` looping with the gap after it, starting
/// `offset` characters in; `text` itself when it fits or `width` is zero.
pub open spec fn window(text: Seq<char>, width: nat, offset: nat) -> Seq<char> {
    let looped = text + GAP@;
    if width == 0 || text.len() <= width {
        text
    } else {
        Seq::new(width, |i: int| looped[(offset as int % looped.len() as int + i) % looped.len() as int])
    }
}

impl State {
    pub fn update(&mut self, event: Event)
        ensures
            match event {
                Event::Playing(now) => {
                    &&& final(self).availability == Availability::Available
                    // A different track is read from its beginning.
                    &&& final(self).offset == (if old(self).title@ != now.title@ { 0 } else { old(self).offset as int })
                    &&& final(self).player == Some(now.player)
                    &&& final(self).playing == now.playing
                    &&& final(self).title == now.title
                    &&& final(self).artist == now.artist
                    &&& final(self).can_next == now.can_next
                    &&& final(self).can_previous == now.can_previous
                    &&& final(self).player_name == now.player_name
                    &&& final(self).icon == now.icon
                },
                Event::Unavailable => {
                    &&& final(self).availability == Availability::Unavailable
                    &&& final(self).player is None
                    &&& !final(self).playing
                    &&& final(self).title@.len() == 0
                    &&& final(self).artist is None
                    &&& final(self).player_name@.len() == 0
                    &&& final(self).offset == 0
                    &&& final(self).can_next == old(self).can_next
                    &&& final(self).can_previous == old(self).can_previous
                    &&& final(self).icon == old(self).icon
                },
                Event::Scroll => {
                    &&& final(self).offset == (if old(self).offset < usize::MAX { old(self).offset + 1 } else { usize::MAX as int })
                    &&& final(self).availability == old(self).availability
                    &&& final(self).player == old(self).player
                    &&& final(self).playing == old(self).playing
                    &&& final(self).title == old(self).title
                    &&& final(self).artist == old(self).artist
                    &&& final(self).can_next == old(self).can_next
                    &&& final(self).can_previous == old(self).can_previous
                    &&& final(self).player_name == old(self).player_name
                    &&& final(self).icon == old(self).icon
                },
            },
    {
        match event {
            Event::Playing(now) => {
                let now = *now;
                self.availability = Availability::Available;
                if !crate::text::same_text(self.title.as_str(), now.title.as_str()) {
                    self.offset = 0;
                }
                self.player = Some(now.player);
                self.playing = now.playing;
                self.title = now.title;
                self.artist = now.artist;
                self.can_next = now.can_next;
                self.can_previous = now.can_previous;
                self.player_name = now.player_name;
                self.icon = now.icon;
            },
            Event::Unavailable => {
                self.availability = Availability::Unavailable;
                self.player = None;
                self.playing = false;
                self.title = String::new();
                self.artist = None;
                self.player_name = String::new();
                self.offset = 0;
            },
            Event::Scroll => {
                self.offset = self.offset.saturating_add(1);
            },
        }
    }

    /// The track and who it is by, for the line under the player's name;
    /// `nothing` is the text shown when the player reports no title.
    pub fn summary(&self, nothing: &str) -> (r: String)
        ensures
            r@ == summary_spec(self.title@, opt_text(self.artist), nothing@),
    {
        if self.title.as_str().is_empty() {
            return nothing.to_owned();
        }
        match &self.artist {
            Some(artist) => {
                if artist.as_str().is_empty() {
                    self.title.clone()
                } else {
                    let mut out = self.title.clone();
                    out.append(" \u{2014} ");
                    out.append(artist.as_str());
                    out
                }
            },
            None => self.title.clone(),
        }
    }

    /// The summary, scrolled, cut to `width` characters.
    ///
    /// Character counts rather than pixels, which keeps the row's geometry
    /// stable while the window onto the text advances a character at a time.
    pub fn marquee(&self, width: usize, nothing: &str) -> (r: String)
        ensures
            r@ == window(summary_spec(self.title@, opt_text(self.artist), nothing@), width as nat, self.offset as nat),
    {
        let summary = self.summary(nothing);
        let length = summary.as_str().unicode_len();
        if width == 0 || length <= width {
            return summary;
        }
        let ghost text = summary@;
        let looped = summary.concat(GAP);
        let total = looped.as_str().unicode_len();
        let start = self.offset % total;
        let room = total - start;
        let ghost want = Seq::new(width as nat, |i: int| looped@[(self.offset as int % looped@.len() as int + i) % looped@.len() as int]);
        if width <= room {
            let r = String::from_str(looped.as_str().substring_char(start, start + width));
            proof {
                assert forall|i: int| 0 <= i < width implies r@[i] == want[i] by {
                    assert((start + i) % (total as int) == start + i) by (nonlinear_arith)
                        requires
                            0 <= start + i < total;
                }
                assert(r@ =~= want);
            }
            r
        } else {
            let mut r = String::from_str(looped.as_str().substring_char(start, total));
            r.append(looped.as_str().substring_char(0, width - room));
            proof {
                assert forall|i: int| 0 <= i < width implies r@[i] == want[i] by {
                    if i < room {
                        assert((start + i) % (total as int) == start + i) by (nonlinear_arith)
                            requires
                                0 <= start + i < total;
                    } else {
                        assert((start + i) % (total as int) == start + i - total) by (nonlinear_arith)
                            requires
                                total <= start + i < 2 * total;
                    }
                }
                assert(r@ =~= want);
            }
            r
        }
    }

    /// Whether the title needs scrolling at this width, which is when the
    /// row needs scroll ticks at all.
    pub fn scrolls(&self, width: usize, nothing: &str) -> (r: bool)
        ensures
            r == (width > 0 && summary_spec(self.title@, opt_text(self.artist), nothing@).len() > width),
    {
        let summary = self.summary(nothing);
        width > 0 && summary.as_str().unicode_len() > width
    }

    fn command(&self, command: Command) -> (r: Option<Request>)
        ensures
            opt_text(self.player) == match r {
                Some(q) => Some(q.player@),
                None => None,
            },
            r matches Some(q) ==> q.command == command,
    {
        match &self.player {
            Some(p) => Some(Request { player: p.clone(), command }),
            None => None,
        }
    }

    /// Flip play/pause at once, so the icon changes under the cursor rather
    /// than after the next poll, and ask the player to follow.
    pub fn play_pause(&mut self) -> (r: Option<Request>)
        ensures
            final(self).playing == !old(self).playing,
            *final(self) == (State { playing: !old(self).playing, ..*old(self) }),
            opt_text(old(self).player) == match r {
                Some(q) => Some(q.player@),
                None => None,
            },
            r matches Some(q) ==> q.command == Command::PlayPause,
    {
        self.playing = !self.playing;
        self.command(Command::PlayPause)
    }

    /// Skip forward, unless the player says it cannot.
    pub fn next(&self) -> (r: Option<Request>)
        ensures
            r is Some <==> self.can_next && self.player is Some,
            r matches Some(q) ==> q.command == Command::Next && Some(q.player@) == opt_text(self.player),
    {
        if self.can_next {
            self.command(Command::Next)
        } else {
            None
        }
    }

    /// Skip back, unless the player says it cannot.
    pub fn previous(&self) -> (r: Option<Request>)
        ensures
            r is Some <==> self.can_previous && self.player is Some,
            r matches Some(q) ==> q.command == Command::Previous && Some(q.player@) == opt_text(self.player),
    {
        if self.can_previous {
            self.command(Command::Previous)
        } else {
            None
        }
    }
}

/// Scrolling a full lap, the text and the gap after it, brings the window
/// back to where it started.
pub proof fn law_a_full_lap_returns_to_the_start(text: Seq<char>, width: nat, offset: nat)
    ensures
        window(text, width, offset + text.len() + GAP@.len()) == window(text, width, offset),
{
    let looped = text + GAP@;
    if !(width == 0 || text.len() <= width) {
        let l = looped.len() as int;
        vstd::arithmetic::div_mod::lemma_mod_add_multiples_vanish(offset as int, l);
        assert((offset + text.len() + GAP@.len()) as int == l + offset);
        assert(window(text, width, offset + text.len() + GAP@.len()) =~= window(text, width, offset));
    }
}

/// A title that scrolls is always cut to exactly the width, at every
/// offset, so the transport buttons beside it never move.
pub proof fn law_a_scrolling_title_keeps_its_width(text: Seq<char>, width: nat, offset: nat)
    requires
        width > 0,
        text.len() > width,
    ensures
        window(text, width, offset).len() == width,
{
}


/// The `--check` line for media, from what is playing (`None` when no
/// player is running, which is absence) or why the bus could not be asked.
pub fn probe_report(now: Result<Option<Now>, String>) -> (r: Found)
    ensures
        match now {
            Ok(Some(n)) => r matches Found::Read(line) && line@ == (if n.title@.len() == 0 {
                "nothing"@
            } else {
                n.title@
            }) + " on "@ + n.player_name@ + " ("@ + (if n.playing {
                "playing"@
            } else {
                "paused"@
            }) + ")"@,
            Ok(None) => r matches Found::Absent(e) && e@ == "no media player is running"@,
            Err(why) => r matches Found::Unreadable(e) && e@ == "could not ask the session bus: "@ + why@,
        },
{
    match now {
        Ok(Some(n)) => {
            let mut line = if n.title.as_str().is_empty() {
                String::from_str("nothing")
            } else {
                n.title.clone()
            };
            line.append(" on ");
            line.append(n.player_name.as_str());
            line.append(" (");
            line.append(if n.playing { "playing" } else { "paused" });
            line.append(")");
            Found::Read(line)
        },
        Ok(None) => Found::Absent(String::from_str("no media player is running")),
        Err(why) => {
            let mut e = String::from_str("could not ask the session bus: ");
            e.append(why.as_str());
            Found::Unreadable(e)
        },
    }
}

} // verus!
