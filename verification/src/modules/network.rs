//! Wi-Fi: what joining a network takes, and the list of networks as the
//! page shows it.
use vstd::prelude::*;

pub mod poll;
pub mod state;

pub use poll::{retry_delay_secs, snapshot_of, to_row, Device, Radio, Sighting};
pub use state::{Event, Join, Snapshot, State};

use crate::check::Found;
use crate::modules::dns::says_unauthorised;
use crate::text::{decimal, find, lemma_text_before_order, push_decimal, text_before, text_before_exec};

verus! {

/// A visible network, reduced to what the UI draws.
#[derive(Debug, Clone, PartialEq, Eq)]
pub struct Network {
    pub ssid: String,
    /// 0-100.
    pub strength: u8,
    /// Needs a credential of some kind.
    pub secured: bool,
    /// 802.1X: joinable from here only with a saved profile.
    pub enterprise: bool,
    /// A saved profile exists, so joining needs no password from us.
    pub known: bool,
    pub connected: bool,
}

/// A [`Network`] with its name as characters.
pub ghost struct NetworkView {
    pub ssid: Seq<char>,
    pub strength: u8,
    pub secured: bool,
    pub enterprise: bool,
    pub known: bool,
    pub connected: bool,
}

impl View for Network {
    type V = NetworkView;

    open spec fn view(&self) -> NetworkView {
        NetworkView {
            ssid: self.ssid@,
            strength: self.strength,
            secured: self.secured,
            enterprise: self.enterprise,
            known: self.known,
            connected: self.connected,
        }
    }
}

/// What joining a network takes.
#[derive(Debug, Clone, Copy, PartialEq, Eq, Structural)]
pub enum JoinKind {
    AlreadyConnected,
    Direct,
    NeedsPassword,
    /// Enterprise network with no saved profile: a password box would be a lie.
    UnsupportedEnterprise,
}

pub open spec fn join_kind_spec(n: NetworkView) -> JoinKind {
    if n.connected {
        JoinKind::AlreadyConnected
    } else if n.known || !n.secured {
        JoinKind::Direct
    } else if n.enterprise {
        JoinKind::UnsupportedEnterprise
    } else {
        JoinKind::NeedsPassword
    }
}

impl Network {
    /// Can this be joined from the applet, and does doing so need a password?
    ///
    /// A saved profile carries its own secrets and an open network needs
    /// none; an unknown enterprise network cannot be joined from here at all.
    pub fn join_kind(&self) -> (r: JoinKind)
        ensures
            r == join_kind_spec(self@),
    {
        if self.connected {
            JoinKind::AlreadyConnected
        } else if self.known || !self.secured {
            JoinKind::Direct
        } else if self.enterprise {
            JoinKind::UnsupportedEnterprise
        } else {
            JoinKind::NeedsPassword
        }
    }

    fn duplicate(&self) -> (r: Network)
        ensures
            r@ == self@,
    {
        Network {
            ssid: self.ssid.clone(),
            strength: self.strength,
            secured: self.secured,
            enterprise: self.enterprise,
            known: self.known,
            connected: self.connected,
        }
    }
}

/// Connection details for the active network.
#[derive(Debug, Clone, PartialEq, Eq)]
pub struct Details {
    pub ipv4: Option<String>,
    pub ipv6: Option<String>,
    /// The Wi-Fi adapter's hardware address.
    pub mac: Option<String>,
}

impl Default for Details {
    fn default() -> (r: Self)
        ensures
            r == Details::empty_spec(),
    {
        Details { ipv4: None, ipv6: None, mac: None }
    }
}

impl Details {
    /// Nothing known.
    pub open spec fn empty_spec() -> Details {
        Details { ipv4: None, ipv6: None, mac: None }
    }

    pub fn is_empty(&self) -> (r: bool)
        ensures
            r == (self.ipv4 is None && self.ipv6 is None && self.mac is None),
    {
        self.ipv4.is_none() && self.ipv6.is_none() && self.mac.is_none()
    }
}

/// Why a join failed.
#[derive(Debug, Clone, PartialEq, Eq)]
pub enum Error {
    /// Wrong password, or the network rejected us.
    AuthFailed,
    /// NetworkManager wants an admin password to write the profile.
    NeedsAuthorisation,
    Timeout,
    Other(String),
}

/// Whether `a` is listed before `b`: connected first, then known, then the
/// stronger, then by name.
pub open spec fn listed_before(a: NetworkView, b: NetworkView) -> bool {
    if a.connected != b.connected {
        a.connected
    } else if a.known != b.known {
        a.known
    } else if a.strength != b.strength {
        a.strength > b.strength
    } else {
        text_before(a.ssid, b.ssid)
    }
}

pub proof fn lemma_listed_before_order(a: NetworkView, b: NetworkView, c: NetworkView)
    ensures
        !listed_before(a, a),
        listed_before(a, b) ==> !listed_before(b, a),
        listed_before(a, b) && listed_before(b, c) ==> listed_before(a, c),
        a.ssid != b.ssid ==> listed_before(a, b) || listed_before(b, a),
{
    lemma_text_before_order(a.ssid, b.ssid, c.ssid);
}

/// `a` with the flags and strength of a second radio for the same name
/// folded in: the stronger signal, and known or connected if either is.
pub open spec fn fold_in(a: NetworkView, b: NetworkView) -> NetworkView {
    NetworkView {
        strength: if a.strength >= b.strength { a.strength } else { b.strength },
        known: a.known || b.known,
        connected: a.connected || b.connected,
        ..a
    }
}

/// One row per name, in the order names first appear, each the fold of every
/// entry with that name.
pub open spec fn one_per_name(s: Seq<NetworkView>) -> Seq<NetworkView>
    decreases s.len(),
{
    if s.len() == 0 {
        s
    } else {
        let rows = one_per_name(s.drop_last());
        let row = s.last();
        if exists|i: int| 0 <= i < rows.len() && rows[i].ssid == row.ssid {
            let i = choose|i: int| 0 <= i < rows.len() && rows[i].ssid == row.ssid;
            rows.update(i, fold_in(rows[i], row))
        } else {
            rows.push(row)
        }
    }
}

/// No two rows share a name.
pub open spec fn distinct_names(s: Seq<NetworkView>) -> bool {
    forall|i: int, j: int| 0 <= i < j < s.len() ==> (#[trigger] s[i]).ssid != (#[trigger] s[j]).ssid
}

proof fn lemma_one_per_name_distinct(s: Seq<NetworkView>)
    ensures
        distinct_names(one_per_name(s)),
    decreases s.len(),
{
    if s.len() > 0 {
        lemma_one_per_name_distinct(s.drop_last());
        let rows = one_per_name(s.drop_last());
        let row = s.last();
        if exists|i: int| 0 <= i < rows.len() && rows[i].ssid == row.ssid {
            let i = choose|i: int| 0 <= i < rows.len() && rows[i].ssid == row.ssid;
            let out = rows.update(i, fold_in(rows[i], row));
            assert forall|a: int, b: int| 0 <= a < b < out.len() implies (#[trigger] out[a]).ssid != (#[trigger] out[b]).ssid by {
                assert(out[a].ssid == rows[a].ssid);
                assert(out[b].ssid == rows[b].ssid);
            }
        } else {
            let out = rows.push(row);
            assert forall|a: int, b: int| 0 <= a < b < out.len() implies (#[trigger] out[a]).ssid != (#[trigger] out[b]).ssid by {
                if b == out.len() - 1 {
                    assert(out[a] == rows[a]);
                } else {
                    assert(out[a] == rows[a] && out[b] == rows[b]);
                }
            }
        }
    }
}

fn same_name(a: &String, b: &String) -> (r: bool)
    ensures
        r == (a@ == b@),
{
    *a == *b
}

fn listed_before_exec(a: &Network, b: &Network) -> (r: bool)
    ensures
        r == listed_before(a@, b@),
{
    if a.connected != b.connected {
        return a.connected;
    }
    if a.known != b.known {
        return a.known;
    }
    if a.strength != b.strength {
        return a.strength > b.strength;
    }
    text_before_exec(a.ssid.as_str(), b.ssid.as_str())
}

/// Reduce per-name entries to one row each, listed connected first, then
/// known, then strongest, then by name.
///
/// A mesh or repeater publishes the same name from several radios; each name
/// keeps its strongest signal, and is known or connected if any of its
/// entries is.
pub fn collapse(networks: Vec<Network>) -> (r: Vec<Network>)
    ensures
        r@.len() == one_per_name(views(networks@)).len(),
        forall|x: NetworkView|
            #[trigger] views(r@).contains(x) <==> one_per_name(views(networks@)).contains(x),
        forall|i: int, j: int|
            0 <= i < j < r@.len() ==> listed_before((#[trigger] r@[i])@, (#[trigger] r@[j])@),
{
    let ghost input = views(networks@);
    let mut rows: Vec<Network> = Vec::new();
    let mut i: usize = 0;
    while i < networks.len()
        invariant
            i <= networks@.len(),
            input == views(networks@),
            views(rows@) == one_per_name(input.take(i as int)),
        decreases networks@.len() - i,
    {
        let ghost before = views(rows@);
        proof {
            assert(input.take(i + 1).drop_last() == input.take(i as int));
            assert(input.take(i + 1).last() == networks@[i as int]@);
            lemma_one_per_name_distinct(input.take(i as int));
        }
        let row = &networks[i];
        let mut j: usize = 0;
        while j < rows.len() && !same_name(&rows[j].ssid, &row.ssid)
            invariant
                j <= rows@.len(),
                forall|k: int| 0 <= k < j ==> (#[trigger] rows@[k])@.ssid != row@.ssid,
            decreases rows@.len() - j,
        {
            j = j + 1;
        }
        if j < rows.len() {
            let existing = &rows[j];
            let merged = Network {
                ssid: existing.ssid.clone(),
                strength: if existing.strength >= row.strength {
                    existing.strength
                } else {
                    row.strength
                },
                secured: existing.secured,
                enterprise: existing.enterprise,
                known: existing.known || row.known,
                connected: existing.connected || row.connected,
            };
            proof {
                assert(before[j as int] == rows@[j as int]@);
                assert(exists|k: int| 0 <= k < before.len() && before[k].ssid == row@.ssid);
                let k = choose|k: int| 0 <= k < before.len() && before[k].ssid == row@.ssid;
                assert(k == j as int);
            }
            rows.set(j, merged);
            proof {
                assert(views(rows@) =~= before.update(j as int, fold_in(before[j as int], row@)));
            }
        } else {
            let fresh = row.duplicate();
            rows.push(fresh);
            proof {
                assert(!(exists|k: int| 0 <= k < before.len() && before[k].ssid == row@.ssid)) by {
                    if exists|k: int| 0 <= k < before.len() && before[k].ssid == row@.ssid {
                        let k = choose|k: int| 0 <= k < before.len() && before[k].ssid == row@.ssid;
                        assert(rows@[k]@.ssid != row@.ssid);
                    }
                }
                assert(views(rows@) =~= before.push(row@));
            }
        }
        i = i + 1;
    }
    proof {
        assert(input.take(i as int) == input);
        lemma_one_per_name_distinct(input);
    }
    let ghost merged = views(rows@);
    let mut out: Vec<Network> = Vec::new();
    let mut k: usize = 0;
    while k < rows.len()
        invariant
            k <= rows@.len(),
            merged == views(rows@),
            distinct_names(merged),
            out@.len() == k,
            forall|x: NetworkView|
                #[trigger] views(out@).contains(x) <==> merged.take(k as int).contains(x),
            forall|a: int, b: int| 0 <= a < b < out@.len() ==> listed_before((#[trigger] out@[a])@, (#[trigger] out@[b])@),
        decreases rows@.len() - k,
    {
        let x = &rows[k];
        let mut pos: usize = 0;
        while pos < out.len() && !listed_before_exec(x, &out[pos])
            invariant
                pos <= out@.len(),
                forall|a: int| 0 <= a < pos ==> !listed_before(x@, (#[trigger] out@[a])@),
            decreases out@.len() - pos,
        {
            pos = pos + 1;
        }
        let ghost before = out@;
        proof {
            assert forall|a: int| 0 <= a < before.len() implies (#[trigger] before[a])@.ssid != x@.ssid by {
                let bv = views(before);
                assert(bv[a] == before[a]@);
                assert(bv.contains(before[a]@));
                assert(merged.take(k as int).contains(before[a]@));
                let c = choose|c: int| 0 <= c < k && merged.take(k as int)[c] == before[a]@;
                assert(merged[c] == before[a]@);
                assert(merged[k as int] == x@);
            }
        }
        out.insert(pos, x.duplicate());
        proof {
            assert forall|a: int, b: int| 0 <= a < b < out@.len() implies listed_before((#[trigger] out@[a])@, (#[trigger] out@[b])@) by {
                if a < pos && b < pos {
                    assert(out@[a] == before[a] && out@[b] == before[b]);
                } else if a < pos && b == pos {
                    assert(out@[a] == before[a]);
                    lemma_listed_before_order(before[a]@, x@, x@);
                } else if a < pos && b > pos {
                    assert(out@[a] == before[a] && out@[b] == before[b - 1]);
                } else if a == pos {
                    assert(out@[b] == before[b - 1]);
                    assert(listed_before(x@, before[pos as int]@));
                    if b - 1 > pos {
                        lemma_listed_before_order(x@, before[pos as int]@, before[b - 1]@);
                    }
                } else {
                    assert(out@[a] == before[a - 1] && out@[b] == before[b - 1]);
                }
            }
            assert(views(out@) =~= views(before).insert(pos as int, x@));
            assert(merged.take(k + 1) =~= merged.take(k as int).push(x@));
            assert forall|y: NetworkView|
                views(out@).contains(y) <==> merged.take(k + 1).contains(y) by {
                let ov = views(out@);
                let bv = views(before);
                if ov.contains(y) {
                    let c = choose|c: int| 0 <= c < ov.len() && ov[c] == y;
                    if c < pos {
                        assert(bv[c] == y);
                        assert(views(before).contains(y));
                    } else if c > pos {
                        assert(bv[c - 1] == y);
                        assert(views(before).contains(y));
                    } else {
                        assert(merged.take(k + 1)[k as int] == y);
                    }
                }
                if merged.take(k + 1).contains(y) {
                    if y == x@ {
                        assert(ov[pos as int] == y);
                    } else {
                        let t = merged.take(k + 1);
                        let d = choose|d: int| 0 <= d < t.len() && t[d] == y;
                        assert(d < k);
                        assert(merged.take(k as int)[d] == y);
                        assert(merged.take(k as int).contains(y));
                        assert(views(before).contains(y));
                        let c = choose|c: int| 0 <= c < bv.len() && bv[c] == y;
                        if c < pos {
                            assert(ov[c] == y);
                        } else {
                            assert(ov[c + 1] == y);
                        }
                    }
                }
            }
        }
        k = k + 1;
    }
    proof {
        assert(merged.take(k as int) == merged);
    }
    out
}

/// The views of a list of networks, in order.
pub open spec fn views(rows: Seq<Network>) -> Seq<NetworkView> {
    rows.map_values(|n: Network| n@)
}


/// How NetworkManager reported a failed join: the two failures it names,
/// and anything else by its message.
#[derive(Debug, Clone, PartialEq, Eq)]
pub enum Failure {
    AuthFailed,
    /// The connection or the supplicant timed out.
    Timeout,
    Other(String),
}

/// Sort a failed join into what the page tells the user. A message that
/// says authorisation was refused means NetworkManager wants an admin
/// password to write the profile, which is not the network refusing us.
pub fn classify(failure: Failure) -> (r: Error)
    ensures
        match failure {
            Failure::AuthFailed => r == Error::AuthFailed,
            Failure::Timeout => r == Error::Timeout,
            Failure::Other(text) => if says_unauthorised(text@) {
                r == Error::NeedsAuthorisation
            } else {
                r == Error::Other(text)
            },
        },
{
    match failure {
        Failure::AuthFailed => Error::AuthFailed,
        Failure::Timeout => Error::Timeout,
        Failure::Other(text) => {
            if find(text.as_str(), "not authorized") || find(text.as_str(), "NotAuthorized") || find(
                text.as_str(),
                "AuthFailed",
            ) {
                Error::NeedsAuthorisation
            } else {
                Error::Other(text)
            }
        },
    }
}

/// The `--check` line for Wi-Fi, from what reading NetworkManager gave: a
/// snapshot, or the error [`snapshot_of`] gives for a machine without a
/// wireless device (absent hardware), or why NetworkManager could not be
/// read at all.
pub fn probe_report(reading: Result<Result<Snapshot, String>, String>) -> (r: Found)
    ensures
        match reading {
            Ok(Ok(s)) => r matches Found::Read(line) && line@ == "radio "@ + (if s.enabled {
                "on"@
            } else {
                "off"@
            }) + (if s.hardware_killed {
                " (hardware killed)"@
            } else {
                ""@
            }) + (if s.airplane_mode {
                ", airplane mode"@
            } else {
                ""@
            }) + ", "@ + decimal(s.networks@.len()) + " network(s) visible, connected to "@ + match s.connected_ssid {
                Some(ssid) => ssid@,
                None => "nothing"@,
            },
            Ok(Err(why)) => r == Found::Absent(why),
            Err(why) => r == Found::Unreadable(why),
        },
{
    let s = match reading {
        Ok(Ok(s)) => s,
        Ok(Err(why)) => return Found::Absent(why),
        Err(why) => return Found::Unreadable(why),
    };
    let mut line = String::from_str("radio ");
    line.append(if s.enabled { "on" } else { "off" });
    line.append(if s.hardware_killed { " (hardware killed)" } else { "" });
    line.append(if s.airplane_mode { ", airplane mode" } else { "" });
    line.append(", ");
    push_decimal(&mut line, s.networks.len() as u64);
    line.append(" network(s) visible, connected to ");
    match &s.connected_ssid {
        Some(ssid) => line.append(ssid.as_str()),
        None => line.append("nothing"),
    }
    Found::Read(line)
}

} // verus!
