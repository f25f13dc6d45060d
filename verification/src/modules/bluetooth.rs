//! Bluetooth: the adapter's power, the known devices, and connecting one.
//!
//! BlueZ publishes everything through its object manager; what one read of
//! it returned arrives here as plain values, one [`Object`] per path.
use vstd::prelude::*;
use vstd::seq_lib::to_multiset_build;
use vstd::seq_lib::to_multiset_insert;

use crate::check::Found;
use crate::modules::Availability;
use crate::text::{
    decimal, push_decimal, lemma_text_before_order, lowercase, lowercase_of, opt_text, same_text, text_before, text_before_exec,
};

verus! {

/// A known device.
#[derive(Debug, Clone, PartialEq, Eq)]
pub struct Device {
    pub name: String,
    pub connected: bool,
    pub paired: bool,
    /// BlueZ object path, which commands are sent to.
    pub path: String,
}

pub ghost struct DeviceView {
    pub name: Seq<char>,
    pub connected: bool,
    pub paired: bool,
    pub path: Seq<char>,
}

impl View for Device {
    type V = DeviceView;

    open spec fn view(&self) -> DeviceView {
        DeviceView { name: self.name@, connected: self.connected, paired: self.paired, path: self.path@ }
    }
}

/// The views of a list of devices, in order.
pub open spec fn views(s: Seq<Device>) -> Seq<DeviceView> {
    s.map_values(|d: Device| d@)
}

/// How many of `s` are connected.
pub open spec fn count_connected(s: Seq<DeviceView>) -> nat
    decreases s.len(),
{
    if s.len() == 0 {
        0
    } else {
        count_connected(s.drop_last()) + if s.last().connected {
            1nat
        } else {
            0nat
        }
    }
}

/// Whether `a` is listed before `b`: connected first, then paired, then by
/// name regardless of case.
pub open spec fn device_before(a: DeviceView, b: DeviceView) -> bool {
    if a.connected != b.connected {
        a.connected
    } else if a.paired != b.paired {
        a.paired
    } else {
        text_before(lowercase_of(a.name), lowercase_of(b.name))
    }
}

pub proof fn lemma_device_before_order(a: DeviceView, b: DeviceView, c: DeviceView)
    ensures
        device_before(a, b) ==> !device_before(b, a),
        device_before(a, b) && device_before(b, c) ==> device_before(a, c),
{
    lemma_text_before_order(lowercase_of(a.name), lowercase_of(b.name), lowercase_of(c.name));
}

/// The Bluetooth tile.
#[derive(Debug, Clone)]
pub struct State {
    pub availability: Availability,
    pub powered: bool,
    pub connected_devices: usize,
    pub devices: Vec<Device>,
    /// The device a connect or disconnect is under way for.
    pub busy: Option<String>,
    /// Object path of the adapter being driven.
    pub adapter_path: Option<String>,
}

impl Default for State {
    fn default() -> (r: Self)
        ensures
            r.availability == Availability::Unknown,
            !r.powered && r.connected_devices == 0 && r.devices@.len() == 0,
            r.busy is None && r.adapter_path is None,
    {
        State {
            availability: Availability::Unknown,
            powered: false,
            connected_devices: 0,
            devices: Vec::new(),
            busy: None,
            adapter_path: None,
        }
    }
}

/// What one read of BlueZ reported.
#[derive(Debug, Clone)]
pub enum Event {
    Changed { powered: bool, connected_devices: usize, devices: Vec<Device>, adapter_path: String },
    Unavailable,
}

/// Switch the adapter at `path` on or off.
#[derive(Debug, Clone, PartialEq, Eq)]
pub struct PowerRequest {
    pub path: String,
    pub powered: bool,
}

/// Connect or disconnect the device at `path`.
#[derive(Debug, Clone, PartialEq, Eq)]
pub struct ConnectRequest {
    pub path: String,
    pub connect: bool,
}

/// The first device in `s` called `name`.
pub open spec fn index_named(s: Seq<DeviceView>, name: Seq<char>) -> Option<int>
    decreases s.len(),
{
    if s.len() == 0 {
        None
    } else if s[0].name == name {
        Some(0)
    } else {
        match index_named(s.drop_first(), name) {
            Some(k) => Some(k + 1),
            None => None,
        }
    }
}

proof fn lemma_count_connected_bound(s: Seq<DeviceView>)
    ensures
        count_connected(s) <= s.len(),
    decreases s.len(),
{
    if s.len() > 0 {
        lemma_count_connected_bound(s.drop_last());
    }
}

fn connected_count(devices: &Vec<Device>) -> (r: usize)
    ensures
        r == count_connected(views(devices@)),
{
    let mut n: usize = 0;
    let mut i: usize = 0;
    while i < devices.len()
        invariant
            i <= devices@.len(),
            n == count_connected(views(devices@).take(i as int)),
            n <= i,
        decreases devices@.len() - i,
    {
        proof {
            assert(views(devices@).take(i + 1).drop_last() =~= views(devices@).take(i as int));
        }
        if devices[i].connected {
            n = n + 1;
        }
        i = i + 1;
    }
    proof {
        assert(views(devices@).take(i as int) =~= views(devices@));
    }
    n
}

impl State {
    /// Fluent key of the tile's second line: off, no devices, or a count of
    /// connected devices, which goes in as the message's `count`.
    pub fn summary_key(&self) -> (r: &'static str)
        ensures
            r == (if !self.powered {
                "bluetooth-off"
            } else if self.connected_devices == 0 {
                "bluetooth-no-devices"
            } else {
                "bluetooth-devices"
            }),
    {
        if !self.powered {
            "bluetooth-off"
        } else if self.connected_devices == 0 {
            "bluetooth-no-devices"
        } else {
            "bluetooth-devices"
        }
    }

    pub fn update(&mut self, event: Event)
        ensures
            match event {
                Event::Changed { powered, connected_devices, devices, adapter_path } => {
                    &&& final(self).availability == Availability::Available
                    &&& final(self).powered == powered
                    &&& final(self).connected_devices == connected_devices
                    &&& final(self).devices == devices
                    &&& final(self).adapter_path == Some(adapter_path)
                    // A fresh read ends whatever connect was under way.
                    &&& final(self).busy is None
                },
                Event::Unavailable => {
                    &&& final(self).availability == Availability::Unavailable
                    &&& !final(self).powered
                    &&& final(self).connected_devices == 0
                    &&& final(self).devices@.len() == 0
                    &&& final(self).busy is None
                    &&& final(self).adapter_path is None
                },
            },
    {
        match event {
            Event::Changed { powered, connected_devices, devices, adapter_path } => {
                self.availability = Availability::Available;
                self.powered = powered;
                self.connected_devices = connected_devices;
                self.devices = devices;
                self.adapter_path = Some(adapter_path);
                self.busy = None;
            },
            Event::Unavailable => {
                self.availability = Availability::Unavailable;
                self.powered = false;
                self.connected_devices = 0;
                self.devices = Vec::new();
                self.busy = None;
                self.adapter_path = None;
            },
        }
    }

    /// Flip the adapter's power. Switching it off forgets the devices at
    /// once. Nothing happens without an adapter.
    pub fn toggle(&mut self) -> (r: Option<PowerRequest>)
        ensures
            old(self).adapter_path is None ==> r is None && *final(self) == *old(self),
            old(self).adapter_path is Some ==> {
                &&& r is Some
                &&& Some(r->0.path@) == opt_text(old(self).adapter_path)
                &&& final(self).powered == !old(self).powered
                &&& r->0.powered == final(self).powered
                &&& !final(self).powered ==> final(self).connected_devices == 0 && final(self).devices@.len() == 0
                &&& final(self).powered ==> final(self).connected_devices == old(self).connected_devices
                    && final(self).devices == old(self).devices
                &&& final(self).availability == old(self).availability
                &&& final(self).busy == old(self).busy
                &&& final(self).adapter_path == old(self).adapter_path
            },
    {
        let path = match &self.adapter_path {
            Some(p) => p.clone(),
            None => return None,
        };
        self.powered = !self.powered;
        if !self.powered {
            self.connected_devices = 0;
            self.devices = Vec::new();
        }
        Some(PowerRequest { path, powered: self.powered })
    }

    /// Connect or disconnect the first device called `name`, showing the
    /// change at once. An unpaired device offers no action: connecting needs
    /// pairing, which needs an agent this applet is not.
    pub fn toggle_device(&mut self, name: &str) -> (r: Option<ConnectRequest>)
        ensures
            match index_named(views(old(self).devices@), name@) {
                None => r is None && *final(self) == *old(self),
                Some(i) => if !old(self).devices@[i].paired {
                    r is None && *final(self) == *old(self)
                } else {
                    let was = old(self).devices@[i];
                    &&& r is Some
                    &&& r->0.path@ == was.path@
                    &&& r->0.connect == !was.connected
                    &&& views(final(self).devices@) == views(old(self).devices@).update(
                        i,
                        DeviceView { connected: !was.connected, ..was@ },
                    )
                    &&& opt_text(final(self).busy) == Some(name@)
                    &&& final(self).connected_devices == count_connected(views(final(self).devices@))
                    &&& final(self).availability == old(self).availability
                    &&& final(self).powered == old(self).powered
                    &&& final(self).adapter_path == old(self).adapter_path
                },
            },
    {
        let ghost all = views(self.devices@);
        let mut i: usize = 0;
        proof {
            assert(all.skip(0) =~= all);
        }
        while i < self.devices.len() && !same_text(self.devices[i].name.as_str(), name)
            invariant
                i <= self.devices@.len(),
                all == views(self.devices@),
                index_named(all, name@) == match index_named(all.skip(i as int), name@) {
                    Some(k) => Some(k + i),
                    None => None,
                },
            decreases self.devices@.len() - i,
        {
            proof {
                assert(all.skip(i as int).drop_first() =~= all.skip(i + 1));
            }
            i = i + 1;
        }
        proof {
            if i < all.len() {
                assert(all.skip(i as int)[0] == all[i as int]);
            } else {
                assert(all.skip(i as int).len() == 0);
            }
        }
        if i == self.devices.len() {
            return None;
        }
        if !self.devices[i].paired {
            return None;
        }
        let was = self.devices[i].clone_device();
        let connect = !was.connected;
        let changed = Device { name: was.name, connected: connect, paired: was.paired, path: was.path.clone() };
        self.devices.set(i, changed);
        proof {
            assert(views(self.devices@) =~= all.update(
                i as int,
                DeviceView { connected: connect, ..all[i as int] },
            ));
        }
        self.busy = Some(name.to_owned());
        self.connected_devices = connected_count(&self.devices);
        Some(ConnectRequest { path: was.path, connect })
    }
}

impl Device {
    /// A copy of this device.
    pub fn clone_device(&self) -> (r: Device)
        ensures
            r@ == self@,
    {
        Device { name: self.name.clone(), connected: self.connected, paired: self.paired, path: self.path.clone() }
    }
}

/// A property as BlueZ sent it, as far as it is read here.
#[derive(Debug, Clone)]
pub enum Prop {
    /// Not in the property map.
    Absent,
    /// Present, but of a type that is not read.
    Unreadable,
    Flag(bool),
    Text(String),
}

/// A boolean property, off unless it is there and a boolean.
pub open spec fn flag(p: Prop) -> bool {
    match p {
        Prop::Flag(b) => b,
        _ => false,
    }
}

fn read_flag(p: &Prop) -> (r: bool)
    ensures
        r == flag(*p),
{
    match p {
        Prop::Flag(b) => *b,
        _ => false,
    }
}

/// The adapter interface's properties.
#[derive(Debug, Clone)]
pub struct AdapterProps {
    pub powered: Prop,
}

/// The device interface's properties.
#[derive(Debug, Clone)]
pub struct DeviceProps {
    pub alias: Prop,
    pub name: Prop,
    pub address: Prop,
    pub connected: Prop,
    pub paired: Prop,
}

/// One object BlueZ manages, with the interfaces read here.
#[derive(Debug, Clone)]
pub struct Object {
    pub path: String,
    pub adapter: Option<AdapterProps>,
    pub device: Option<DeviceProps>,
}

/// What a device is called: its alias, or failing an alias property its
/// name, when that is non-empty text; else its address. No text at all means
/// the device is not listed.
pub open spec fn display_name(p: DeviceProps) -> Option<Seq<char>> {
    let chosen = match p.alias {
        Prop::Absent => p.name,
        other => other,
    };
    match chosen {
        Prop::Text(t) if t@.len() > 0 => Some(t@),
        _ => match p.address {
            Prop::Text(a) => Some(a@),
            _ => None,
        },
    }
}

fn name_of(p: &DeviceProps) -> (r: Option<String>)
    ensures
        opt_text(r) == display_name(*p),
{
    let chosen = match &p.alias {
        Prop::Absent => &p.name,
        other => other,
    };
    match chosen {
        Prop::Text(t) => {
            if !t.as_str().is_empty() {
                return Some(t.clone());
            }
        },
        _ => {},
    }
    match &p.address {
        Prop::Text(a) => Some(a.clone()),
        _ => None,
    }
}

/// The devices among `objects`, in order, as rows.
pub open spec fn devices_of(objects: Seq<Object>) -> Seq<DeviceView>
    decreases objects.len(),
{
    if objects.len() == 0 {
        Seq::empty()
    } else {
        let rest = devices_of(objects.drop_last());
        let o = objects.last();
        match o.device {
            Some(p) => match display_name(p) {
                Some(n) => rest.push(
                    DeviceView { name: n, connected: flag(p.connected), paired: flag(p.paired), path: o.path@ },
                ),
                None => rest,
            },
            None => rest,
        }
    }
}

/// The object at index `b` is the adapter reported: the lowest path among
/// the adapters, the first of equals.
pub open spec fn chosen_adapter(objects: Seq<Object>, b: int) -> bool {
    &&& 0 <= b < objects.len()
    &&& objects[b].adapter is Some
    &&& forall|j: int|
        0 <= j < b && (#[trigger] objects[j]).adapter is Some ==> text_before(objects[b].path@, objects[j].path@)
    &&& forall|j: int|
        b < j < objects.len() && (#[trigger] objects[j]).adapter is Some ==> !text_before(objects[j].path@, objects[b].path@)
}

fn device_before_exec(a: &Device, b: &Device) -> (r: bool)
    ensures
        r == device_before(a@, b@),
{
    if a.connected != b.connected {
        return a.connected;
    }
    if a.paired != b.paired {
        return a.paired;
    }
    let x = lowercase(a.name.as_str());
    let y = lowercase(b.name.as_str());
    text_before_exec(x.as_str(), y.as_str())
}

/// Read the adapter and its devices out of what BlueZ manages.
///
/// `None` when there is no adapter: bluetoothd is running on a machine with
/// no radio. The adapter with the lowest path is the one reported, so a
/// machine with two does not flip between them. Devices are listed connected
/// first, then paired, then by name regardless of case.
pub fn summarise(objects: &[Object]) -> (r: Option<Event>)
    ensures
        r is None <==> forall|j: int| 0 <= j < objects@.len() ==> (#[trigger] objects@[j]).adapter is None,
        r matches Some(e) ==> match e {
            Event::Changed { powered, connected_devices, devices, adapter_path } => {
                &&& exists|b: int|
                    chosen_adapter(objects@, b) && adapter_path@ == objects@[b].path@ && powered == flag(
                        objects@[b].adapter->0.powered,
                    )
                &&& views(devices@).to_multiset() == devices_of(objects@).to_multiset()
                &&& forall|i: int, j: int|
                    0 <= i < j < devices@.len() ==> !device_before(
                        (#[trigger] devices@[j])@,
                        (#[trigger] devices@[i])@,
                    )
                &&& connected_devices == count_connected(views(devices@))
            },
            Event::Unavailable => false,
        },
{
    let mut best: Option<usize> = None;
    let mut i: usize = 0;
    while i < objects.len()
        invariant
            i <= objects@.len(),
            best is None ==> forall|j: int| 0 <= j < i ==> (#[trigger] objects@[j]).adapter is None,
            best matches Some(b) ==> {
                &&& b < i
                &&& objects@[b as int].adapter is Some
                &&& forall|j: int|
                    0 <= j < b && (#[trigger] objects@[j]).adapter is Some ==> text_before(
                        objects@[b as int].path@,
                        objects@[j].path@,
                    )
                &&& forall|j: int|
                    b < j < i && (#[trigger] objects@[j]).adapter is Some ==> !text_before(
                        objects@[j].path@,
                        objects@[b as int].path@,
                    )
            },
        decreases objects@.len() - i,
    {
        if objects[i].adapter.is_some() {
            match best {
                None => {
                    best = Some(i);
                },
                Some(b) => {
                    if text_before_exec(objects[i].path.as_str(), objects[b].path.as_str()) {
                        proof {
                            let o = objects@;
                            assert forall|j: int|
                                0 <= j < i && (#[trigger] o[j]).adapter is Some implies text_before(
                                    o[i as int].path@,
                                    o[j].path@,
                                ) by {
                                lemma_text_before_order(o[i as int].path@, o[b as int].path@, o[j].path@);
                                if j > b {
                                    lemma_text_before_order(o[j].path@, o[i as int].path@, o[b as int].path@);
                                    lemma_text_before_order(o[i as int].path@, o[j].path@, o[b as int].path@);
                                    if o[j].path@ != o[b as int].path@ {
                                        lemma_text_before_order(o[b as int].path@, o[j].path@, o[j].path@);
                                    }
                                }
                            }
                        }
                        best = Some(i);
                    }
                },
            }
        }
        i = i + 1;
    }
    let b = match best {
        Some(b) => b,
        None => return None,
    };
    let powered = match &objects[b].adapter {
        Some(a) => read_flag(&a.powered),
        None => false,
    };
    let ghost listed = devices_of(objects@);
    let mut devices: Vec<Device> = Vec::new();
    let mut k: usize = 0;
    proof {
        assert(objects@.take(0) =~= Seq::<Object>::empty());
        assert(views(devices@) =~= Seq::<DeviceView>::empty());
    }
    while k < objects.len()
        invariant
            k <= objects@.len(),
            listed == devices_of(objects@),
            views(devices@).to_multiset() == devices_of(objects@.take(k as int)).to_multiset(),
            forall|x: int, y: int|
                0 <= x < y < devices@.len() ==> !device_before(
                    (#[trigger] devices@[y])@,
                    (#[trigger] devices@[x])@,
                ),
        decreases objects@.len() - k,
    {
        proof {
            let t = objects@.take(k + 1);
            assert(t.drop_last() =~= objects@.take(k as int));
            assert(t.last() == objects@[k as int]);
        }
        let o = &objects[k];
        match &o.device {
            Some(p) => {
                match name_of(p) {
                    Some(name) => {
                        let row = Device {
                            name,
                            connected: read_flag(&p.connected),
                            paired: read_flag(&p.paired),
                            path: o.path.clone(),
                        };
                        let mut pos: usize = 0;
                        while pos < devices.len() && !device_before_exec(&row, &devices[pos])
                            invariant
                                pos <= devices@.len(),
                                forall|a: int| 0 <= a < pos ==> !device_before(row@, (#[trigger] devices@[a])@),
                            decreases devices@.len() - pos,
                        {
                            pos = pos + 1;
                        }
                        let ghost before = devices@;
                        let ghost x = row@;
                        devices.insert(pos, row);
                        proof {
                            assert(views(devices@) =~= views(before).insert(pos as int, x));
                            to_multiset_insert(views(before), pos as int, x);
                            to_multiset_build(devices_of(objects@.take(k as int)), x);
                            assert(devices@[pos as int]@ == x);
                            assert forall|a: int, c: int| 0 <= a < c < devices@.len() implies !device_before(
                                #[trigger] devices@[c]@,
                                #[trigger] devices@[a]@,
                            ) by {
                                if c < pos {
                                    assert(devices@[a] == before[a] && devices@[c] == before[c]);
                                } else if c == pos {
                                    assert(devices@[a] == before[a]);
                                } else if a < pos {
                                    assert(devices@[a] == before[a] && devices@[c] == before[c - 1]);
                                } else if a == pos {
                                    assert(devices@[c] == before[c - 1]);
                                    assert(device_before(x, before[pos as int]@));
                                    lemma_device_before_order(before[c - 1]@, x, before[pos as int]@);
                                    lemma_device_before_order(x, before[pos as int]@, x);
                                } else {
                                    assert(devices@[a] == before[a - 1] && devices@[c] == before[c - 1]);
                                }
                            }
                        }
                    },
                    None => {},
                }
            },
            None => {},
        }
        k = k + 1;
    }
    proof {
        assert(objects@.take(k as int) =~= objects@);
        assert(chosen_adapter(objects@, b as int));
    }
    let connected_devices = connected_count(&devices);
    Some(Event::Changed { powered, connected_devices, devices, adapter_path: objects[b].path.clone() })
}


/// The `--check` line for Bluetooth, from what [`summarise`] made of the
/// objects BlueZ manages; bluetoothd without an adapter is absent hardware.
pub fn probe_report(summary: Option<Event>) -> (r: Found)
    ensures
        match summary {
            Some(Event::Changed { powered, connected_devices, devices, adapter_path }) => r matches Found::Read(line)
                && line@ == adapter_path@ + " is "@ + (if powered {
                "on"@
            } else {
                "off"@
            }) + ", "@ + decimal(devices@.len()) + " device(s) known, "@ + decimal(connected_devices as nat)
                + " connected"@,
            _ => r matches Found::Absent(e) && e@ == "bluetoothd is running but has no adapter"@,
        },
{
    match summary {
        Some(Event::Changed { powered, connected_devices, devices, adapter_path }) => {
            let mut line = adapter_path;
            line.append(" is ");
            line.append(if powered { "on" } else { "off" });
            line.append(", ");
            push_decimal(&mut line, devices.len() as u64);
            line.append(" device(s) known, ");
            push_decimal(&mut line, connected_devices as u64);
            line.append(" connected");
            Found::Read(line)
        },
        _ => Found::Absent(String::from_str("bluetoothd is running but has no adapter")),
    }
}

} // verus!
