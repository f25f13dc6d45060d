//! VPN: the saved profiles and which are up, and bringing one up or down.
use vstd::prelude::*;
use vstd::seq_lib::to_multiset_build;
use vstd::seq_lib::to_multiset_insert;

use crate::check::Found;
use crate::modules::Availability;
use crate::text::{
    decimal, push_decimal, lemma_text_before_order, lowercase, lowercase_of, opt_text, same_text, text_before, text_before_exec,
};

verus! {

/// A saved VPN connection.
#[derive(Debug, Clone, PartialEq, Eq)]
pub struct Profile {
    pub name: String,
    pub uuid: String,
    pub active: bool,
}

pub ghost struct ProfileView {
    pub name: Seq<char>,
    pub uuid: Seq<char>,
    pub active: bool,
}

impl View for Profile {
    type V = ProfileView;

    open spec fn view(&self) -> ProfileView {
        ProfileView { name: self.name@, uuid: self.uuid@, active: self.active }
    }
}

pub open spec fn views(s: Seq<Profile>) -> Seq<ProfileView> {
    s.map_values(|p: Profile| p@)
}

/// The VPN tile.
#[derive(Debug, Clone)]
pub struct State {
    pub availability: Availability,
    pub profiles: Vec<Profile>,
    /// UUID of the profile a change is under way for.
    pub busy: Option<String>,
}

impl Default for State {
    fn default() -> (r: Self)
        ensures
            r.availability == Availability::Unknown,
            r.profiles@.len() == 0,
            r.busy is None,
    {
        State { availability: Availability::Unknown, profiles: Vec::new(), busy: None }
    }
}

/// What a poll reported.
#[derive(Debug, Clone)]
pub enum Event {
    Changed(Vec<Profile>),
    Unavailable,
}

/// Bring the profile `uuid` up or down.
#[derive(Debug, Clone, PartialEq, Eq)]
pub struct Request {
    pub uuid: String,
    pub connect: bool,
}

/// The first index in `s` holding a profile that satisfies `p`.
pub open spec fn first_where(s: Seq<ProfileView>, p: spec_fn(ProfileView) -> bool) -> Option<int>
    decreases s.len(),
{
    if s.len() == 0 {
        None
    } else if p(s[0]) {
        Some(0)
    } else {
        match first_where(s.drop_first(), p) {
            Some(k) => Some(k + 1),
            None => None,
        }
    }
}

proof fn lemma_first_where_found(s: Seq<ProfileView>, p: spec_fn(ProfileView) -> bool, j: int)
    requires
        0 <= j < s.len(),
        p(s[j]),
    ensures
        first_where(s, p) is Some,
    decreases j,
{
    if j > 0 && !p(s[0]) {
        lemma_first_where_found(s.drop_first(), p, j - 1);
    }
}

pub open spec fn is_active() -> spec_fn(ProfileView) -> bool {
    |p: ProfileView| p.active
}

pub open spec fn has_uuid(uuid: Seq<char>) -> spec_fn(ProfileView) -> bool {
    |p: ProfileView| p.uuid == uuid
}

impl State {
    /// The name of the first active profile, which names the tile.
    pub fn active_name(&self) -> (r: Option<&str>)
        ensures
            match first_where(views(self.profiles@), is_active()) {
                Some(i) => r matches Some(n) && n@ == self.profiles@[i].name@,
                None => r is None,
            },
    {
        let ghost all = views(self.profiles@);
        let mut i: usize = 0;
        proof {
            assert(all.skip(0) =~= all);
        }
        while i < self.profiles.len() && !self.profiles[i].active
            invariant
                i <= self.profiles@.len(),
                all == views(self.profiles@),
                first_where(all, is_active()) == match first_where(all.skip(i as int), is_active()) {
                    Some(k) => Some(k + i),
                    None => None,
                },
            decreases self.profiles@.len() - i,
        {
            proof {
                assert(all.skip(i as int).drop_first() =~= all.skip(i + 1));
            }
            i = i + 1;
        }
        proof {
            if i < all.len() {
                assert(all.skip(i as int)[0] == all[i as int]);
            } else {
                assert(all.skip(i as int).len() == 0);
            }
        }
        if i == self.profiles.len() {
            None
        } else {
            Some(self.profiles[i].name.as_str())
        }
    }

    pub fn update(&mut self, event: Event)
        ensures
            match event {
                Event::Changed(profiles) => {
                    &&& final(self).availability == Availability::Available
                    &&& final(self).profiles == profiles
                    &&& final(self).busy is None
                },
                Event::Unavailable => {
                    &&& final(self).availability == Availability::Unavailable
                    &&& final(self).profiles@.len() == 0
                    &&& final(self).busy is None
                },
            },
    {
        match event {
            Event::Changed(profiles) => {
                self.availability = Availability::Available;
                self.profiles = profiles;
                self.busy = None;
            },
            Event::Unavailable => {
                self.availability = Availability::Unavailable;
                self.profiles = Vec::new();
                self.busy = None;
            },
        }
    }

    /// The tile's own button: take down the active profile, or bring up the
    /// first one when none is active.
    pub fn toggle_quick(&mut self) -> (r: Option<Request>)
        ensures
            old(self).quick_target() matches Some(u) ==> {
                &&& r is Some
                &&& old(self).toggled(*final(self), u, r->0)
            },
            old(self).quick_target() is None ==> r is None && *final(self) == *old(self),
    {
        let ghost all = views(self.profiles@);
        let mut i: usize = 0;
        proof {
            assert(all.skip(0) =~= all);
        }
        while i < self.profiles.len() && !self.profiles[i].active
            invariant
                i <= self.profiles@.len(),
                all == views(self.profiles@),
                first_where(all, is_active()) == match first_where(all.skip(i as int), is_active()) {
                    Some(k) => Some(k + i),
                    None => None,
                },
            decreases self.profiles@.len() - i,
        {
            proof {
                assert(all.skip(i as int).drop_first() =~= all.skip(i + 1));
            }
            i = i + 1;
        }
        proof {
            if i < all.len() {
                assert(all.skip(i as int)[0] == all[i as int]);
            } else {
                assert(all.skip(i as int).len() == 0);
            }
        }
        let at = if i < self.profiles.len() {
            i
        } else if self.profiles.len() > 0 {
            0
        } else {
            return None;
        };
        let uuid = self.profiles[at].uuid.clone();
        proof {
            assert(has_uuid(uuid@)(all[at as int]));
            lemma_first_where_found(all, has_uuid(uuid@), at as int);
        }
        self.toggle(uuid.as_str())
    }

    /// The profile the tile's own button acts on: the first active one, else
    /// the first of all.
    pub open spec fn quick_target(self) -> Option<Seq<char>> {
        match first_where(views(self.profiles@), is_active()) {
            Some(i) => Some(self.profiles@[i].uuid@),
            None => if self.profiles@.len() > 0 {
                Some(self.profiles@[0].uuid@)
            } else {
                None
            },
        }
    }

    /// `after` is this state with the first profile with `uuid` flipped and
    /// marked busy, and `r` the matching request.
    pub open spec fn toggled(self, after: State, uuid: Seq<char>, r: Request) -> bool {
        match first_where(views(self.profiles@), has_uuid(uuid)) {
            Some(i) => {
                let was = self.profiles@[i];
                &&& r.uuid@ == uuid
                &&& r.connect == !was.active
                &&& views(after.profiles@) == views(self.profiles@).update(i, ProfileView { active: !was.active, ..was@ })
                &&& opt_text(after.busy) == Some(uuid)
                &&& after.availability == self.availability
            },
            None => false,
        }
    }

    /// Bring the profile with this UUID up if it is down, or down if it is
    /// up, showing the change at once. Nothing happens for an unknown UUID.
    pub fn toggle(&mut self, uuid: &str) -> (r: Option<Request>)
        ensures
            first_where(views(old(self).profiles@), has_uuid(uuid@)) is None ==> r is None && *final(self)
                == *old(self),
            first_where(views(old(self).profiles@), has_uuid(uuid@)) is Some ==> r is Some && old(self).toggled(
                *final(self),
                uuid@,
                r->0,
            ),
    {
        let ghost all = views(self.profiles@);
        let mut i: usize = 0;
        proof {
            assert(all.skip(0) =~= all);
        }
        while i < self.profiles.len() && !same_text(self.profiles[i].uuid.as_str(), uuid)
            invariant
                i <= self.profiles@.len(),
                all == views(self.profiles@),
                first_where(all, has_uuid(uuid@)) == match first_where(all.skip(i as int), has_uuid(uuid@)) {
                    Some(k) => Some(k + i),
                    None => None,
                },
            decreases self.profiles@.len() - i,
        {
            proof {
                assert(all.skip(i as int).drop_first() =~= all.skip(i + 1));
            }
            i = i + 1;
        }
        proof {
            if i < all.len() {
                assert(all.skip(i as int)[0] == all[i as int]);
            } else {
                assert(all.skip(i as int).len() == 0);
            }
        }
        if i == self.profiles.len() {
            return None;
        }
        let connect = !self.profiles[i].active;
        let changed = Profile {
            name: self.profiles[i].name.clone(),
            uuid: self.profiles[i].uuid.clone(),
            active: connect,
        };
        self.profiles.set(i, changed);
        proof {
            assert(views(self.profiles@) =~= all.update(i as int, ProfileView { active: connect, ..all[i as int] }));
        }
        self.busy = Some(uuid.to_owned());
        Some(Request { uuid: uuid.to_owned(), connect })
    }
}

/// A saved VPN connection as NetworkManager lists it.
#[derive(Debug, Clone)]
pub struct Saved {
    pub name: String,
    pub id: String,
    pub uuid: String,
    pub active: bool,
}

/// The row a saved connection becomes: named by its name, or its id when
/// the name is empty, and up if NetworkManager says so either way.
pub open spec fn row_of(s: Saved, active: Seq<Seq<char>>) -> ProfileView {
    ProfileView {
        name: if s.name@.len() == 0 { s.id@ } else { s.name@ },
        uuid: s.uuid@,
        active: s.active || active.contains(s.uuid@),
    }
}

/// Whether `a` is listed before `b`: up first, then by name regardless of
/// case.
pub open spec fn profile_before(a: ProfileView, b: ProfileView) -> bool {
    if a.active != b.active {
        a.active
    } else {
        text_before(lowercase_of(a.name), lowercase_of(b.name))
    }
}

proof fn lemma_profile_before_order(a: ProfileView, b: ProfileView, c: ProfileView)
    ensures
        profile_before(a, b) ==> !profile_before(b, a),
        profile_before(a, b) && profile_before(b, c) ==> profile_before(a, c),
{
    lemma_text_before_order(lowercase_of(a.name), lowercase_of(b.name), lowercase_of(c.name));
}

fn profile_before_exec(a: &Profile, b: &Profile) -> (r: bool)
    ensures
        r == profile_before(a@, b@),
{
    if a.active != b.active {
        return a.active;
    }
    let x = lowercase(a.name.as_str());
    let y = lowercase(b.name.as_str());
    text_before_exec(x.as_str(), y.as_str())
}

pub open spec fn texts(s: Seq<String>) -> Seq<Seq<char>> {
    s.map_values(|t: String| t@)
}

fn listed_as_active(active: &[String], uuid: &str) -> (r: bool)
    ensures
        r == texts(active@).contains(uuid@),
{
    let mut i: usize = 0;
    while i < active.len()
        invariant
            i <= active@.len(),
            forall|j: int| 0 <= j < i ==> active@[j]@ != uuid@,
        decreases active@.len() - i,
    {
        if same_text(active[i].as_str(), uuid) {
            proof {
                assert(texts(active@)[i as int] == uuid@);
            }
            return true;
        }
        i = i + 1;
    }
    proof {
        if texts(active@).contains(uuid@) {
            let j = choose|j: int| 0 <= j < texts(active@).len() && texts(active@)[j] == uuid@;
            assert(active@[j]@ == uuid@);
        }
    }
    false
}

/// The rows for the saved connections, given the UUIDs NetworkManager
/// reports as active: up first, then by name regardless of case.
pub fn profiles_of(saved: &[Saved], active: &[String]) -> (r: Vec<Profile>)
    ensures
        views(r@).to_multiset() == saved@.map_values(|s: Saved| row_of(s, texts(active@))).to_multiset(),
        forall|i: int, j: int|
            0 <= i < j < r@.len() ==> !profile_before((#[trigger] r@[j])@, (#[trigger] r@[i])@),
{
    let ghost rows = saved@.map_values(|s: Saved| row_of(s, texts(active@)));
    let mut out: Vec<Profile> = Vec::new();
    let mut k: usize = 0;
    proof {
        assert(rows.take(0) =~= Seq::<ProfileView>::empty());
        assert(views(out@) =~= Seq::<ProfileView>::empty());
    }
    while k < saved.len()
        invariant
            k <= saved@.len(),
            rows == saved@.map_values(|s: Saved| row_of(s, texts(active@))),
            views(out@).to_multiset() == rows.take(k as int).to_multiset(),
            forall|x: int, y: int|
                0 <= x < y < out@.len() ==> !profile_before((#[trigger] out@[y])@, (#[trigger] out@[x])@),
        decreases saved@.len() - k,
    {
        let s = &saved[k];
        let name = if s.name.as_str().is_empty() {
            s.id.clone()
        } else {
            s.name.clone()
        };
        let up = s.active || listed_as_active(active, s.uuid.as_str());
        let row = Profile { name, uuid: s.uuid.clone(), active: up };
        let mut pos: usize = 0;
        while pos < out.len() && !profile_before_exec(&row, &out[pos])
            invariant
                pos <= out@.len(),
                forall|a: int| 0 <= a < pos ==> !profile_before(row@, (#[trigger] out@[a])@),
            decreases out@.len() - pos,
        {
            pos = pos + 1;
        }
        let ghost before = out@;
        let ghost x = row@;
        out.insert(pos, row);
        proof {
            assert(x == rows[k as int]);
            assert(rows.take(k + 1) =~= rows.take(k as int).push(x));
            assert(views(out@) =~= views(before).insert(pos as int, x));
            to_multiset_insert(views(before), pos as int, x);
            to_multiset_build(rows.take(k as int), x);
            assert(out@[pos as int]@ == x);
            assert forall|a: int, c: int| 0 <= a < c < out@.len() implies !profile_before(
                #[trigger] out@[c]@,
                #[trigger] out@[a]@,
            ) by {
                if c < pos {
                    assert(out@[a] == before[a] && out@[c] == before[c]);
                } else if c == pos {
                    assert(out@[a] == before[a]);
                } else if a < pos {
                    assert(out@[a] == before[a] && out@[c] == before[c - 1]);
                } else if a == pos {
                    assert(out@[c] == before[c - 1]);
                    assert(profile_before(x, before[pos as int]@));
                    lemma_profile_before_order(before[c - 1]@, x, before[pos as int]@);
                    lemma_profile_before_order(x, before[pos as int]@, x);
                } else {
                    assert(out@[a] == before[a - 1] && out@[c] == before[c - 1]);
                }
            }
        }
        k = k + 1;
    }
    proof {
        assert(rows.take(k as int) =~= rows);
    }
    out
}

/// What a poll turns into: no saved profiles hides the tile just as an
/// unreachable NetworkManager does.
pub fn event_of(polled: Result<Vec<Profile>, String>) -> (r: Event)
    ensures
        match polled {
            Ok(profiles) => if profiles@.len() == 0 {
                r is Unavailable
            } else {
                r == Event::Changed(profiles)
            },
            Err(_) => r is Unavailable,
        },
{
    match polled {
        Ok(profiles) => {
            if profiles.len() == 0 {
                Event::Unavailable
            } else {
                Event::Changed(profiles)
            }
        },
        Err(_) => Event::Unavailable,
    }
}


/// The `--check` line for VPN, from the saved profiles or why they could not
/// be listed: how many there are and which is up, the first active one. No
/// saved profile at all is absence.
pub fn probe_report(profiles: Result<Vec<Profile>, String>) -> (r: Found)
    ensures
        match profiles {
            Ok(ps) => if ps@.len() == 0 {
                r matches Found::Absent(e) && e@ == "no VPN profiles are saved"@
            } else {
                r matches Found::Read(line) && line@ == decimal(ps@.len()) + " profile(s), active: "@ + match first_where(
                    views(ps@),
                    is_active(),
                ) {
                    Some(i) => ps@[i].name@,
                    None => "none"@,
                }
            },
            Err(why) => r == Found::Unreadable(why),
        },
{
    let ps = match profiles {
        Ok(ps) => ps,
        Err(why) => return Found::Unreadable(why),
    };
    if ps.len() == 0 {
        return Found::Absent(String::from_str("no VPN profiles are saved"));
    }
    let count = ps.len();
    let state = State { availability: Availability::Available, profiles: ps, busy: None };
    let mut line = String::new();
    push_decimal(&mut line, count as u64);
    line.append(" profile(s), active: ");
    match state.active_name() {
        Some(n) => line.append(n),
        None => line.append("none"),
    }
    Found::Read(line)
}

} // verus!
