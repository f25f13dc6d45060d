//! Turning one poll of NetworkManager into a [`Snapshot`].
//!
//! The bus is read elsewhere; what it returned arrives here as plain values.
use vstd::prelude::*;

use super::state::Snapshot;
use super::{collapse, one_per_name, views, Details, Network, NetworkView};
use crate::text::{copy_opt, lemma_text_before_order, opt_text, same_text, text_before, text_before_exec};

verus! {

/// One entry of NetworkManager's network list.
#[derive(Debug, Clone)]
pub struct Sighting {
    pub ssid: String,
    pub strength: Option<u8>,
    pub secured: bool,
    pub is_eap: bool,
    pub known: bool,
    pub is_active: bool,
    pub ip4_address: Option<String>,
    pub ip6_address: Option<String>,
}

/// The Wi-Fi radio as NetworkManager reports it.
#[derive(Debug, Clone, Copy, PartialEq, Eq, Structural)]
pub struct Radio {
    /// Wireless hardware exists at all.
    pub present: bool,
    pub enabled: bool,
    /// Not blocked by rfkill.
    pub hardware_enabled: bool,
    pub airplane_mode: bool,
}

/// A Wi-Fi adapter.
#[derive(Debug, Clone)]
pub struct Device {
    pub interface: String,
    pub hw_address: String,
}

/// Whether an SSID is worth a row: hidden access points come through under
/// an empty name or a placeholder, and nothing can be joined without typing
/// the real one.
pub open spec fn listed(ssid: Seq<char>) -> bool {
    ssid.len() > 0 && ssid != "<hidden>"@
}

/// The row a listed sighting becomes.
pub open spec fn row_of(s: Sighting) -> NetworkView {
    NetworkView {
        ssid: s.ssid@,
        strength: match s.strength {
            Some(v) => v,
            None => 0,
        },
        secured: s.secured,
        enterprise: s.is_eap,
        known: s.known,
        connected: s.is_active,
    }
}

/// The rows of the listed sightings, in order.
pub open spec fn rows_of(s: Seq<Sighting>) -> Seq<NetworkView>
    decreases s.len(),
{
    if s.len() == 0 {
        Seq::empty()
    } else if listed(s.last().ssid@) {
        rows_of(s.drop_last()).push(row_of(s.last()))
    } else {
        rows_of(s.drop_last())
    }
}

/// The last active sighting, which the connection details come from.
pub open spec fn last_active(s: Seq<Sighting>) -> Option<Sighting>
    decreases s.len(),
{
    if s.len() == 0 {
        None
    } else if s.last().is_active {
        Some(s.last())
    } else {
        last_active(s.drop_last())
    }
}

/// The adapter at index `b` is the one reported: the lowest interface name,
/// the first of equals.
pub open spec fn reported_device(d: Seq<Device>, b: int) -> bool {
    &&& 0 <= b < d.len()
    &&& forall|j: int| 0 <= j < b ==> text_before(d[b].interface@, #[trigger] d[j].interface@)
    &&& forall|j: int| b < j < d.len() ==> !text_before(#[trigger] d[j].interface@, d[b].interface@)
}

/// Map one sighting to a row, or drop it.
pub fn to_row(s: &Sighting) -> (r: Option<Network>)
    ensures
        r is Some <==> listed(s.ssid@),
        r matches Some(n) ==> n@ == row_of(*s),
{
    if s.ssid.as_str().is_empty() || same_text(s.ssid.as_str(), "<hidden>") {
        return None;
    }
    Some(
        Network {
            ssid: s.ssid.clone(),
            strength: match s.strength {
                Some(v) => v,
                None => 0,
            },
            secured: s.secured,
            enterprise: s.is_eap,
            known: s.known,
            connected: s.is_active,
        },
    )
}

/// The hardware address of the adapter to report, if there is one.
fn reported_mac(devices: &[Device]) -> (r: Option<String>)
    ensures
        devices@.len() == 0 <==> r is None,
        r matches Some(mac) ==> exists|b: int| reported_device(devices@, b) && mac@ == devices@[b].hw_address@,
{
    if devices.len() == 0 {
        return None;
    }
    let mut best: usize = 0;
    let mut i: usize = 1;
    while i < devices.len()
        invariant
            1 <= i <= devices@.len(),
            best < i,
            forall|j: int| 0 <= j < best ==> text_before(devices@[best as int].interface@, #[trigger] devices@[j].interface@),
            forall|j: int| best < j < i ==> !text_before(#[trigger] devices@[j].interface@, devices@[best as int].interface@),
        decreases devices@.len() - i,
    {
        if text_before_exec(devices[i].interface.as_str(), devices[best].interface.as_str()) {
            proof {
                let d = devices@;
                assert forall|j: int| 0 <= j < i implies text_before(d[i as int].interface@, #[trigger] d[j].interface@) by {
                    lemma_text_before_order(d[i as int].interface@, d[best as int].interface@, d[j].interface@);
                    if j < best {
                    } else if j > best {
                        lemma_text_before_order(d[j].interface@, d[best as int].interface@, d[i as int].interface@);
                        lemma_text_before_order(d[i as int].interface@, d[j].interface@, d[best as int].interface@);
                        if d[j].interface@ == d[best as int].interface@ {
                        } else {
                            lemma_text_before_order(d[best as int].interface@, d[j].interface@, d[j].interface@);
                        }
                    }
                }
            }
            best = i;
        }
        i = i + 1;
    }
    proof {
        assert(reported_device(devices@, best as int));
    }
    Some(devices[best].hw_address.clone())
}

/// Whether `snap` is what a poll with this radio, these adapters and these
/// sightings reads as: with the radio off or blocked nothing but the radio is
/// reported, since NetworkManager would list stale entries.
pub open spec fn reads_as(radio: Radio, devices: Seq<Device>, sightings: Seq<Sighting>, snap: Snapshot) -> bool {
    &&& snap.enabled == radio.enabled
    &&& snap.hardware_killed == !radio.hardware_enabled
    &&& snap.airplane_mode == radio.airplane_mode
    &&& if !radio.enabled || !radio.hardware_enabled {
        &&& snap.connected_ssid is None
        &&& snap.networks@.len() == 0
        &&& snap.details == Details::empty_spec()
    } else {
        &&& (devices.len() == 0 <==> snap.details.mac is None)
        &&& (snap.details.mac matches Some(mac) ==> exists|b: int|
            reported_device(devices, b) && mac@ == devices[b].hw_address@)
        &&& match last_active(sightings) {
            Some(a) => {
                &&& opt_text(snap.connected_ssid) == Some(a.ssid@)
                &&& opt_text(snap.details.ipv4) == opt_text(a.ip4_address)
                &&& opt_text(snap.details.ipv6) == opt_text(a.ip6_address)
            },
            None => {
                &&& snap.connected_ssid is None
                &&& snap.details.ipv4 is None
                &&& snap.details.ipv6 is None
            },
        }
        &&& views(snap.networks@).len() == one_per_name(rows_of(sightings)).len()
        &&& forall|x: NetworkView| #[trigger] views(snap.networks@).contains(x) <==> one_per_name(rows_of(sightings)).contains(x)
        &&& forall|i: int, j: int| 0 <= i < j < snap.networks@.len() ==> super::listed_before(
            (#[trigger] snap.networks@[i])@,
            (#[trigger] snap.networks@[j])@,
        )
    }
}

/// Read everything the Wi-Fi module displays out of one poll.
///
/// No wireless hardware at all is an error: the module is unavailable rather
/// than a permanently-off toggle on a desktop.
pub fn snapshot_of(radio: Radio, devices: &[Device], sightings: &[Sighting]) -> (r: Result<Snapshot, String>)
    ensures
        !radio.present <==> r is Err,
        r matches Err(e) ==> e@ == "no wireless device on this machine"@,
        r matches Ok(snap) ==> reads_as(radio, devices@, sightings@, snap),
{
    if !radio.present {
        return Err("no wireless device on this machine".to_owned());
    }
    let mut snapshot = Snapshot {
        enabled: radio.enabled,
        hardware_killed: !radio.hardware_enabled,
        airplane_mode: radio.airplane_mode,
        connected_ssid: None,
        networks: Vec::new(),
        details: Details::default(),
    };
    if !radio.enabled || snapshot.hardware_killed {
        return Ok(snapshot);
    }
    snapshot.details.mac = reported_mac(devices);
    let mut rows: Vec<Network> = Vec::new();
    let mut i: usize = 0;
    while i < sightings.len()
        invariant
            i <= sightings@.len(),
            views(rows@) == rows_of(sightings@.take(i as int)),
            match last_active(sightings@.take(i as int)) {
                Some(a) => {
                    &&& opt_text(snapshot.connected_ssid) == Some(a.ssid@)
                    &&& opt_text(snapshot.details.ipv4) == opt_text(a.ip4_address)
                    &&& opt_text(snapshot.details.ipv6) == opt_text(a.ip6_address)
                },
                None => {
                    &&& snapshot.connected_ssid is None
                    &&& snapshot.details.ipv4 is None
                    &&& snapshot.details.ipv6 is None
                },
            },
            snapshot.enabled == radio.enabled,
            snapshot.hardware_killed == !radio.hardware_enabled,
            snapshot.airplane_mode == radio.airplane_mode,
            snapshot.networks@.len() == 0,
            devices@.len() == 0 <==> snapshot.details.mac is None,
            snapshot.details.mac matches Some(mac) ==> exists|b: int|
                reported_device(devices@, b) && mac@ == devices@[b].hw_address@,
        decreases sightings@.len() - i,
    {
        proof {
            let t = sightings@.take(i + 1);
            assert(t.drop_last() =~= sightings@.take(i as int));
            assert(t.last() == sightings@[i as int]);
        }
        let s = &sightings[i];
        if s.is_active {
            snapshot.connected_ssid = Some(s.ssid.clone());
            snapshot.details.ipv4 = copy_opt(&s.ip4_address);
            snapshot.details.ipv6 = copy_opt(&s.ip6_address);
        }
        let ghost before = views(rows@);
        match to_row(s) {
            Some(row) => {
                rows.push(row);
                proof {
                    assert(views(rows@) =~= before.push(row_of(*s)));
                }
            },
            None => {},
        }
        i = i + 1;
    }
    proof {
        assert(sightings@.take(i as int) =~= sightings@);
    }
    snapshot.networks = collapse(rows);
    Ok(snapshot)
}

/// How long to wait before trying NetworkManager again after `attempts`
/// failures in a row: nothing before the first retry, then doubling from
/// two seconds up to sixteen.
pub fn retry_delay_secs(attempts: u32) -> (r: Option<u64>)
    ensures
        attempts == 0 ==> r is None,
        attempts == 1 ==> r == Some(2u64),
        attempts == 2 ==> r == Some(4u64),
        attempts == 3 ==> r == Some(8u64),
        attempts >= 4 ==> r == Some(16u64),
{
    match attempts {
        0 => None,
        1 => Some(2),
        2 => Some(4),
        3 => Some(8),
        _ => Some(16),
    }
}

} // verus!
