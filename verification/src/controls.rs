//! What each control on the grid draws: whether it shows at all on this
//! machine, its icon, the line of state under it, whether it reads as on, and
//! what pressing it asks for.
//!
//! A tile shows when the user placed it and its backend answered; a control
//! the machine has no hardware for leaves its cells as a gap. The connectivity
//! group is the exception: it shows whenever it is placed, since its VPN row
//! always has something to say. Do Not Disturb goes by whether the desktop
//! offers the switch, and the media row, which is not a grid cell, by its own
//! switch in `[modules]`.
//!
//! Text is handed out as message ids with their arguments, and icons as the
//! names to try in order: translating and asking the icon theme happen where
//! the tile is drawn.
use vstd::prelude::*;

use crate::modules::network::state::named;
use crate::modules::dns::{first_matching, servers_text, write_servers, ProviderName};
use crate::modules::{battery, bluetooth, caffeine, dns, keyboard, network, system, tiling, vpn, Availability};
use crate::panel::Page;
use crate::tile_layout::{is_placed, placed, Control, Instance, TileKey, TileShape};
use crate::ui::icons::{self, Level};
use crate::text::same_text;
use crate::ui::SliderMode;

verus! {

/// A slider's module as the grid needs it: whether it answered, whether it is
/// muted (or dimmed), and the step its level is drawn at.
#[derive(Debug, Clone, Copy, PartialEq, Eq, Structural)]
pub struct Slider {
    pub availability: Availability,
    pub held: bool,
    pub level: Level,
}

/// Everything the grid is drawn from: the layout and each module's state.
pub struct PanelView {
    pub layout: Vec<Instance>,
    pub wifi: network::State,
    pub bluetooth: bluetooth::State,
    pub battery: battery::State,
    /// The charge to a whole percent, when there is a battery.
    pub battery_percent: Option<u32>,
    /// The step of the icon theme's charge levels the charge is drawn at.
    pub battery_level: Option<u32>,
    pub battery_critical: bool,
    pub dns: dns::State,
    pub system: system::State,
    pub tiling: tiling::State,
    pub vpn: vpn::State,
    pub keyboard: keyboard::State,
    pub caffeine: caffeine::State,
    pub volume: Slider,
    pub brightness: Slider,
    pub microphone: Slider,
    /// `[modules] media`: the media row is not a grid cell, so it keeps a
    /// switch of its own.
    pub media_switch: bool,
    pub media: Availability,
}

/// What pressing a tile asks for.
#[derive(Debug, Clone, Copy, PartialEq, Eq, Structural)]
pub enum Press {
    Navigate(Page),
    ToggleDark,
    ToggleTiling,
    CycleKeyboard,
    ToggleDoNotDisturb,
    ToggleKeepAwake,
    ToggleMute,
    ToggleDim,
    ToggleMicrophoneMute,
}

/// A line of text, before translation.
#[derive(Debug, Clone, PartialEq, Eq)]
pub enum Text {
    /// A message id, translated as it stands.
    Message(&'static str),
    /// A message id given a number: a count, or a percentage.
    Counted(&'static str, u64),
    /// A message id given a name.
    Naming(&'static str, String),
    /// Shown as it is: a network's, a profile's or a provider's own name.
    Verbatim(String),
}

pub ghost enum TextView {
    Message(&'static str),
    Counted(&'static str, u64),
    Naming(&'static str, Seq<char>),
    Verbatim(Seq<char>),
}

impl View for Text {
    type V = TextView;

    open spec fn view(&self) -> TextView {
        match self {
            Text::Message(id) => TextView::Message(*id),
            Text::Counted(id, n) => TextView::Counted(*id, *n),
            Text::Naming(id, name) => TextView::Naming(*id, name@),
            Text::Verbatim(s) => TextView::Verbatim(s@),
        }
    }
}

/// An ordinary tile: icon, name and state, an accent when on, a press.
#[derive(Debug, Clone)]
pub struct Card {
    /// Icon names to try, in order.
    pub icons: Vec<&'static str>,
    /// Message id of the name, for the tooltip.
    pub name: &'static str,
    pub state: Text,
    /// A second line, drawn at the Wide shape only.
    pub detail: Option<Text>,
    pub active: bool,
    /// Icon only, for the Half shape.
    pub compact: bool,
    pub wide: bool,
    pub on_press: Option<Press>,
}

/// A level slider across the tile; pressing its icon mutes or dims.
#[derive(Debug, Clone)]
pub struct SliderTile {
    pub icons: Vec<&'static str>,
    pub name: &'static str,
    pub mode: SliderMode,
    pub icon_press: Press,
}

/// One row of the connectivity group.
#[derive(Debug, Clone)]
pub struct GroupRow {
    pub icons: Vec<&'static str>,
    pub label: &'static str,
    pub state: Text,
    pub on: bool,
    pub press: Press,
}

/// What one placed control draws.
#[derive(Debug, Clone)]
pub enum GridTile {
    Card(Card),
    Slider(SliderTile),
    Group(Vec<GroupRow>),
}

pub ghost struct CardView {
    pub icons: Seq<&'static str>,
    pub name: &'static str,
    pub state: TextView,
    pub detail: Option<TextView>,
    pub active: bool,
    pub compact: bool,
    pub wide: bool,
    pub on_press: Option<Press>,
}

pub ghost struct RowView {
    pub icons: Seq<&'static str>,
    pub label: &'static str,
    pub state: TextView,
    pub on: bool,
    pub press: Press,
}

pub ghost enum GridTileView {
    Card(CardView),
    Slider { icons: Seq<&'static str>, name: &'static str, mode: SliderMode, icon_press: Press },
    Group(Seq<RowView>),
}

impl View for GroupRow {
    type V = RowView;

    open spec fn view(&self) -> RowView {
        RowView { icons: self.icons@, label: self.label, state: self.state@, on: self.on, press: self.press }
    }
}

impl View for GridTile {
    type V = GridTileView;

    open spec fn view(&self) -> GridTileView {
        match self {
            GridTile::Card(c) => GridTileView::Card(
                CardView {
                    icons: c.icons@,
                    name: c.name,
                    state: c.state@,
                    detail: match c.detail {
                        Some(d) => Some(d@),
                        None => None,
                    },
                    active: c.active,
                    compact: c.compact,
                    wide: c.wide,
                    on_press: c.on_press,
                },
            ),
            GridTile::Slider(s) => GridTileView::Slider {
                icons: s.icons@,
                name: s.name,
                mode: s.mode,
                icon_press: s.icon_press,
            },
            GridTile::Group(rows) => GridTileView::Group(rows@.map_values(|r: GroupRow| r@)),
        }
    }
}

/// Whether a module answered.
pub open spec fn answered(a: Availability) -> bool {
    a == Availability::Available
}

/// Whether the control's backend is there to draw it: the module answered,
/// or, for Do Not Disturb, the desktop offers the switch. The connectivity
/// group needs nothing, and the controls that are not grid cells never show.
pub open spec fn backend_ready(control: TileKey, v: PanelView) -> bool {
    match control {
        TileKey::Connectivity => true,
        TileKey::Wifi => answered(v.wifi.availability),
        TileKey::Bluetooth => answered(v.bluetooth.availability),
        TileKey::Vpn => answered(v.vpn.availability),
        TileKey::Battery => answered(v.battery.battery) || answered(v.battery.profiles),
        TileKey::Dns => answered(v.dns.availability),
        TileKey::DarkMode => answered(v.system.availability),
        TileKey::Tiling => answered(v.tiling.availability),
        TileKey::DoNotDisturb => v.system.dnd_available,
        TileKey::KeepAwake => answered(v.caffeine.availability),
        TileKey::KeyboardBacklight => answered(v.keyboard.availability),
        TileKey::Volume => answered(v.volume.availability),
        TileKey::Brightness => answered(v.brightness.availability),
        TileKey::Microphone => answered(v.microphone.availability),
        TileKey::GameMode | TileKey::Media | TileKey::ChargeThreshold => false,
    }
}

/// Whether a placed instance of `control` draws anything.
pub open spec fn shown(control: TileKey, v: PanelView) -> bool {
    placed(v.layout@, Control::Builtin(control)) && backend_ready(control, v)
}

/// The Wi-Fi icon: by radio state, and for a connection by the strength the
/// network list has for it.
pub open spec fn wifi_icons_of(w: network::State) -> Seq<&'static str> {
    let strength: u8 = match w.connected_ssid {
        Some(s) => match named(network::views(w.networks@), s@) {
            Some(n) => n.strength,
            None => 0,
        },
        None => 0,
    };
    icons::wifi_icons(w.airplane_mode, w.hardware_killed, w.enabled, w.connected_ssid is Some, strength)
}

/// The Wi-Fi state line: the network's name while connected, else what the
/// radio is doing.
pub open spec fn wifi_text(w: network::State) -> TextView {
    if !w.airplane_mode && !w.hardware_killed && w.enabled && w.connected_ssid is Some {
        TextView::Verbatim(w.connected_ssid->0@)
    } else {
        TextView::Message(
            network::state::summary_key_spec(w.airplane_mode, w.hardware_killed, w.enabled, w.connected_ssid is Some),
        )
    }
}

pub open spec fn bluetooth_text(b: bluetooth::State) -> TextView {
    if !b.powered {
        TextView::Message("bluetooth-off")
    } else if b.connected_devices == 0 {
        TextView::Message("bluetooth-no-devices")
    } else {
        TextView::Counted("bluetooth-devices", b.connected_devices as u64)
    }
}

/// The battery line: the charge alone when there is a battery (a profile
/// beside it no longer fits a tile), else the power profile, which is what
/// the tile is for on a desktop.
pub open spec fn battery_text(percent: Option<u32>, charging: bool, profile: Option<battery::Profile>) -> TextView {
    match percent {
        Some(p) => if charging {
            TextView::Counted("battery-charging", p as u64)
        } else {
            TextView::Counted("battery-charge", p as u64)
        },
        None => match profile {
            Some(pr) => TextView::Message(pr.spec_l10n_key()),
            None => TextView::Message("battery-no-battery"),
        },
    }
}

/// The provider in effect, named as the user sees it; resolvers that match
/// none are "custom".
pub open spec fn dns_text(d: dns::State) -> TextView {
    match first_matching(d.providers@, d.current@) {
        Some(i) => match d.providers@[i].name {
            ProviderName::Builtin(key) => TextView::Message(key),
            ProviderName::Custom(name) => TextView::Verbatim(name@),
        },
        None => TextView::Message("dns-custom"),
    }
}

pub open spec fn vpn_text(p: vpn::State) -> TextView {
    match vpn::first_where(vpn::views(p.profiles@), vpn::is_active()) {
        Some(i) => TextView::Verbatim(p.profiles@[i].name@),
        None => TextView::Message("vpn-off"),
    }
}

pub open spec fn vpn_on(p: vpn::State) -> bool {
    vpn::first_where(vpn::views(p.profiles@), vpn::is_active()) is Some
}

/// Who holds the screen awake, if it is not us; else on or off.
pub open spec fn keep_awake_text(c: caffeine::State) -> TextView {
    match c.held_by {
        Some(who) => TextView::Naming("keep-awake-held", who@),
        None => TextView::Message(if c.holding { "on" } else { "off" }),
    }
}

pub open spec fn slider_mode(s: Slider) -> SliderMode {
    if s.held { SliderMode::Held } else { SliderMode::Live }
}

/// The rows of the connectivity group: Wi-Fi and Bluetooth where the
/// hardware answered, and always VPN.
pub open spec fn group_rows(v: PanelView) -> Seq<RowView> {
    let wifi = RowView {
        icons: wifi_icons_of(v.wifi),
        label: "wifi",
        state: wifi_text(v.wifi),
        on: v.wifi.enabled && !(v.wifi.hardware_killed || v.wifi.airplane_mode),
        press: Press::Navigate(Page::Wifi),
    };
    let bt = RowView {
        icons: icons::bluetooth_icons(v.bluetooth.powered, v.bluetooth.connected_devices),
        label: "bluetooth",
        state: bluetooth_text(v.bluetooth),
        on: v.bluetooth.powered,
        press: Press::Navigate(Page::Bluetooth),
    };
    let vpn_row = RowView {
        icons: icons::vpn_icons(vpn_on(v.vpn)),
        label: "vpn",
        state: vpn_text(v.vpn),
        on: vpn_on(v.vpn),
        press: Press::Navigate(Page::Vpn),
    };
    (if answered(v.wifi.availability) { seq![wifi] } else { Seq::empty() })
        + (if answered(v.bluetooth.availability) { seq![bt] } else { Seq::empty() })
        + seq![vpn_row]
}

/// A card at `shape`: compact at Half, no second line, not wide.
pub open spec fn card(
    icons: Seq<&'static str>,
    name: &'static str,
    state: TextView,
    active: bool,
    on_press: Option<Press>,
    shape: TileShape,
) -> GridTileView {
    GridTileView::Card(
        CardView { icons, name, state, detail: None, active, compact: shape == TileShape::Half, wide: false, on_press },
    )
}

/// What a shown control draws at `shape`.
pub open spec fn tile_spec(control: TileKey, shape: TileShape, v: PanelView) -> GridTileView {
    match control {
        TileKey::Connectivity => GridTileView::Group(group_rows(v)),
        TileKey::Wifi => card(
            wifi_icons_of(v.wifi),
            "wifi",
            wifi_text(v.wifi),
            v.wifi.enabled && !v.wifi.airplane_mode,
            Some(Press::Navigate(Page::Wifi)),
            shape,
        ),
        TileKey::Bluetooth => card(
            icons::bluetooth_icons(v.bluetooth.powered, v.bluetooth.connected_devices),
            "bluetooth",
            bluetooth_text(v.bluetooth),
            v.bluetooth.powered,
            Some(Press::Navigate(Page::Bluetooth)),
            shape,
        ),
        TileKey::Battery => GridTileView::Card(
            CardView {
                icons: icons::battery_candidates(v.battery_level, v.battery.charging, v.battery_critical),
                name: "battery",
                state: battery_text(v.battery_percent, v.battery.charging, v.battery.active_profile),
                detail: if shape == TileShape::Wide {
                    match v.battery.active_profile {
                        Some(p) => Some(TextView::Message(p.spec_l10n_key())),
                        None => None,
                    }
                } else {
                    None
                },
                active: false,
                compact: shape == TileShape::Half,
                wide: shape == TileShape::Wide,
                on_press: if answered(v.battery.profiles) { Some(Press::Navigate(Page::Battery)) } else { None },
            },
        ),
        TileKey::Dns => {
            let servers = shape == TileShape::Wide && v.dns.current@.len() > 0;
            GridTileView::Card(
                CardView {
                    icons: icons::dns_icons(),
                    name: "dns",
                    state: dns_text(v.dns),
                    detail: if servers { Some(TextView::Verbatim(servers_text(v.dns.current@))) } else { None },
                    active: false,
                    compact: shape == TileShape::Half,
                    wide: servers,
                    on_press: Some(Press::Navigate(Page::Dns)),
                },
            )
        },
        TileKey::DarkMode => card(
            icons::dark_mode_icons(v.system.dark),
            "dark-mode",
            TextView::Message(if v.system.dark { "mode-dark" } else { "mode-light" }),
            v.system.dark,
            Some(Press::ToggleDark),
            shape,
        ),
        TileKey::Tiling => card(
            icons::tiling_icons(v.tiling.tiled),
            "tiling",
            TextView::Message(if v.tiling.tiled { "tiling-on" } else { "tiling-off" }),
            v.tiling.tiled,
            Some(Press::ToggleTiling),
            shape,
        ),
        TileKey::Vpn => card(
            icons::vpn_icons(vpn_on(v.vpn)),
            "vpn",
            vpn_text(v.vpn),
            vpn_on(v.vpn),
            Some(Press::Navigate(Page::Vpn)),
            shape,
        ),
        TileKey::KeyboardBacklight => GridTileView::Card(
            CardView {
                icons: icons::keyboard_icons(v.keyboard.level > 0),
                name: "keyboard-backlight",
                state: TextView::Message(
                    keyboard::level_key_spec(v.keyboard.level as int, v.keyboard.levels@.len() as int),
                ),
                detail: None,
                active: v.keyboard.level > 0,
                compact: shape == TileShape::Half,
                wide: shape == TileShape::Wide,
                on_press: Some(Press::CycleKeyboard),
            },
        ),
        TileKey::DoNotDisturb => card(
            icons::do_not_disturb_icons(v.system.do_not_disturb),
            "do-not-disturb",
            TextView::Message(if v.system.do_not_disturb { "on" } else { "off" }),
            v.system.do_not_disturb,
            Some(Press::ToggleDoNotDisturb),
            shape,
        ),
        TileKey::KeepAwake => {
            let on = v.caffeine.holding || v.caffeine.held_by is Some;
            GridTileView::Card(
                CardView {
                    icons: icons::keep_awake_icons(on),
                    name: "keep-awake",
                    state: keep_awake_text(v.caffeine),
                    detail: None,
                    active: on,
                    compact: shape == TileShape::Half,
                    wide: shape == TileShape::Wide,
                    on_press: if v.caffeine.held_by is None { Some(Press::ToggleKeepAwake) } else { None },
                },
            )
        },
        TileKey::Volume => GridTileView::Slider {
            icons: icons::volume_icons(v.volume.level),
            name: "volume",
            mode: slider_mode(v.volume),
            icon_press: Press::ToggleMute,
        },
        TileKey::Brightness => GridTileView::Slider {
            icons: icons::brightness_icons(v.brightness.level),
            name: "brightness",
            mode: slider_mode(v.brightness),
            icon_press: Press::ToggleDim,
        },
        TileKey::Microphone => GridTileView::Slider {
            icons: icons::microphone_icons(v.microphone.level),
            name: "microphone",
            mode: slider_mode(v.microphone),
            icon_press: Press::ToggleMicrophoneMute,
        },
        TileKey::GameMode | TileKey::Media | TileKey::ChargeThreshold => GridTileView::Group(Seq::empty()),
    }
}


fn wifi_icons_now(w: &network::State) -> (r: Vec<&'static str>)
    ensures
        r@ == wifi_icons_of(*w),
{
    let strength = w.connected_strength();
    icons::wifi(w.airplane_mode, w.hardware_killed, w.enabled, w.connected_ssid.is_some(), strength)
}

fn wifi_state(w: &network::State) -> (r: Text)
    ensures
        r@ == wifi_text(*w),
{
    if !w.airplane_mode && !w.hardware_killed && w.enabled {
        if let Some(ssid) = &w.connected_ssid {
            return Text::Verbatim(ssid.clone());
        }
    }
    Text::Message(w.summary_key())
}

fn bluetooth_state(b: &bluetooth::State) -> (r: Text)
    ensures
        r@ == bluetooth_text(*b),
{
    if !b.powered {
        Text::Message("bluetooth-off")
    } else if b.connected_devices == 0 {
        Text::Message("bluetooth-no-devices")
    } else {
        Text::Counted("bluetooth-devices", b.connected_devices as u64)
    }
}

fn battery_state(percent: Option<u32>, charging: bool, profile: Option<battery::Profile>) -> (r: Text)
    ensures
        r@ == battery_text(percent, charging, profile),
{
    match percent {
        Some(p) => if charging {
            Text::Counted("battery-charging", p as u64)
        } else {
            Text::Counted("battery-charge", p as u64)
        },
        None => match profile {
            Some(pr) => Text::Message(pr.l10n_key()),
            None => Text::Message("battery-no-battery"),
        },
    }
}

fn dns_state(d: &dns::State) -> (r: Text)
    ensures
        r@ == dns_text(*d),
{
    match d.active() {
        Some(provider) => match &provider.name {
            ProviderName::Builtin(key) => Text::Message(key),
            ProviderName::Custom(name) => Text::Verbatim(name.clone()),
        },
        None => Text::Message("dns-custom"),
    }
}

fn vpn_state(p: &vpn::State) -> (r: (Text, bool))
    ensures
        r.0@ == vpn_text(*p),
        r.1 == vpn_on(*p),
{
    match p.active_name() {
        Some(name) => (Text::Verbatim(name.to_owned()), true),
        None => (Text::Message("vpn-off"), false),
    }
}

fn keep_awake_state(c: &caffeine::State) -> (r: Text)
    ensures
        r@ == keep_awake_text(*c),
{
    match &c.held_by {
        Some(who) => Text::Naming("keep-awake-held", who.clone()),
        None => Text::Message(if c.holding { "on" } else { "off" }),
    }
}

fn mode_of(s: Slider) -> (r: SliderMode)
    ensures
        r == slider_mode(s),
{
    if s.held { SliderMode::Held } else { SliderMode::Live }
}

fn plain_card(
    icons: Vec<&'static str>,
    name: &'static str,
    state: Text,
    active: bool,
    on_press: Option<Press>,
    shape: TileShape,
) -> (r: GridTile)
    ensures
        r@ == card(icons@, name, state@, active, on_press, shape),
{
    GridTile::Card(
        Card { icons, name, state, detail: None, active, compact: shape == TileShape::Half, wide: false, on_press },
    )
}

fn connectivity_rows(v: &PanelView) -> (r: Vec<GroupRow>)
    ensures
        r@.map_values(|row: GroupRow| row@) == group_rows(*v),
{
    let mut rows: Vec<GroupRow> = Vec::new();
    if v.wifi.availability.is_shown() {
        rows.push(GroupRow {
            icons: wifi_icons_now(&v.wifi),
            label: "wifi",
            state: wifi_state(&v.wifi),
            on: v.wifi.enabled && !(v.wifi.hardware_killed || v.wifi.airplane_mode),
            press: Press::Navigate(Page::Wifi),
        });
    }
    let ghost after_wifi = rows@;
    if v.bluetooth.availability.is_shown() {
        rows.push(GroupRow {
            icons: icons::bluetooth(v.bluetooth.powered, v.bluetooth.connected_devices),
            label: "bluetooth",
            state: bluetooth_state(&v.bluetooth),
            on: v.bluetooth.powered,
            press: Press::Navigate(Page::Bluetooth),
        });
    }
    let ghost after_bt = rows@;
    let (state, on) = vpn_state(&v.vpn);
    rows.push(GroupRow {
        icons: icons::vpn(on),
        label: "vpn",
        state,
        on,
        press: Press::Navigate(Page::Vpn),
    });
    proof {
        assert(rows@.map_values(|row: GroupRow| row@) =~= group_rows(*v));
    }
    rows
}

/// What a placed `control` draws at `shape`, or nothing when this machine
/// cannot show it: its cells then stay a gap.
pub fn control_tile(control: TileKey, shape: TileShape, view: &PanelView) -> (r: Option<GridTile>)
    ensures
        r is Some <==> shown(control, *view),
        r matches Some(t) ==> t@ == tile_spec(control, shape, *view),
{
    if !is_placed(view.layout.as_slice(), Control::Builtin(control)) {
        return None;
    }
    match control {
        TileKey::Connectivity => Some(GridTile::Group(connectivity_rows(view))),
        TileKey::Wifi => {
            if !view.wifi.availability.is_shown() {
                return None;
            }
            Some(plain_card(
                wifi_icons_now(&view.wifi),
                "wifi",
                wifi_state(&view.wifi),
                view.wifi.enabled && !view.wifi.airplane_mode,
                Some(Press::Navigate(Page::Wifi)),
                shape,
            ))
        },
        TileKey::Bluetooth => {
            if !view.bluetooth.availability.is_shown() {
                return None;
            }
            Some(plain_card(
                icons::bluetooth(view.bluetooth.powered, view.bluetooth.connected_devices),
                "bluetooth",
                bluetooth_state(&view.bluetooth),
                view.bluetooth.powered,
                Some(Press::Navigate(Page::Bluetooth)),
                shape,
            ))
        },
        TileKey::Battery => {
            if !view.battery.is_shown() {
                return None;
            }
            let detail = if shape == TileShape::Wide {
                match view.battery.active_profile {
                    Some(p) => Some(Text::Message(p.l10n_key())),
                    None => None,
                }
            } else {
                None
            };
            let on_press = if view.battery.profiles.is_shown() {
                Some(Press::Navigate(Page::Battery))
            } else {
                None
            };
            Some(GridTile::Card(Card {
                icons: icons::battery(view.battery_level, view.battery.charging, view.battery_critical),
                name: "battery",
                state: battery_state(view.battery_percent, view.battery.charging, view.battery.active_profile),
                detail,
                active: false,
                compact: shape == TileShape::Half,
                wide: shape == TileShape::Wide,
                on_press,
            }))
        },
        TileKey::Dns => {
            if !view.dns.availability.is_shown() {
                return None;
            }
            let servers = shape == TileShape::Wide && view.dns.current.len() > 0;
            let detail = if servers {
                Some(Text::Verbatim(write_servers(view.dns.current.as_slice())))
            } else {
                None
            };
            Some(GridTile::Card(Card {
                icons: icons::dns(),
                name: "dns",
                state: dns_state(&view.dns),
                detail,
                active: false,
                compact: shape == TileShape::Half,
                wide: servers,
                on_press: Some(Press::Navigate(Page::Dns)),
            }))
        },
        TileKey::DarkMode => {
            if !view.system.availability.is_shown() {
                return None;
            }
            let dark = view.system.dark;
            Some(plain_card(
                icons::dark_mode(dark),
                "dark-mode",
                Text::Message(if dark { "mode-dark" } else { "mode-light" }),
                dark,
                Some(Press::ToggleDark),
                shape,
            ))
        },
        TileKey::Tiling => {
            if !view.tiling.availability.is_shown() {
                return None;
            }
            let tiled = view.tiling.tiled;
            Some(plain_card(
                icons::tiling(tiled),
                "tiling",
                Text::Message(if tiled { "tiling-on" } else { "tiling-off" }),
                tiled,
                Some(Press::ToggleTiling),
                shape,
            ))
        },
        TileKey::Vpn => {
            if !view.vpn.availability.is_shown() {
                return None;
            }
            let (state, on) = vpn_state(&view.vpn);
            Some(plain_card(icons::vpn(on), "vpn", state, on, Some(Press::Navigate(Page::Vpn)), shape))
        },
        TileKey::KeyboardBacklight => {
            if !view.keyboard.availability.is_shown() {
                return None;
            }
            let lit = view.keyboard.is_on();
            Some(GridTile::Card(Card {
                icons: icons::keyboard(lit),
                name: "keyboard-backlight",
                state: Text::Message(view.keyboard.level_key()),
                detail: None,
                active: lit,
                compact: shape == TileShape::Half,
                wide: shape == TileShape::Wide,
                on_press: Some(Press::CycleKeyboard),
            }))
        },
        TileKey::DoNotDisturb => {
            if !view.system.dnd_available {
                return None;
            }
            let on = view.system.do_not_disturb;
            Some(plain_card(
                icons::do_not_disturb(on),
                "do-not-disturb",
                Text::Message(if on { "on" } else { "off" }),
                on,
                Some(Press::ToggleDoNotDisturb),
                shape,
            ))
        },
        TileKey::KeepAwake => {
            if !view.caffeine.availability.is_shown() {
                return None;
            }
            let on = view.caffeine.is_on();
            let on_press = if view.caffeine.can_toggle() {
                Some(Press::ToggleKeepAwake)
            } else {
                None
            };
            Some(GridTile::Card(Card {
                icons: icons::keep_awake(on),
                name: "keep-awake",
                state: keep_awake_state(&view.caffeine),
                detail: None,
                active: on,
                compact: shape == TileShape::Half,
                wide: shape == TileShape::Wide,
                on_press,
            }))
        },
        TileKey::Volume => {
            if !view.volume.availability.is_shown() {
                return None;
            }
            Some(GridTile::Slider(SliderTile {
                icons: icons::volume(view.volume.level),
                name: "volume",
                mode: mode_of(view.volume),
                icon_press: Press::ToggleMute,
            }))
        },
        TileKey::Brightness => {
            if !view.brightness.availability.is_shown() {
                return None;
            }
            Some(GridTile::Slider(SliderTile {
                icons: icons::brightness(view.brightness.level),
                name: "brightness",
                mode: mode_of(view.brightness),
                icon_press: Press::ToggleDim,
            }))
        },
        TileKey::Microphone => {
            if !view.microphone.availability.is_shown() {
                return None;
            }
            Some(GridTile::Slider(SliderTile {
                icons: icons::microphone(view.microphone.level),
                name: "microphone",
                mode: mode_of(view.microphone),
                icon_press: Press::ToggleMicrophoneMute,
            }))
        },
        TileKey::GameMode | TileKey::Media | TileKey::ChargeThreshold => None,
    }
}

/// Whether the media row under the grid is drawn: its switch is on and a
/// player answered.
pub fn show_media(view: &PanelView) -> (r: bool)
    ensures
        r == (view.media_switch && answered(view.media)),
{
    view.media_switch && view.media.is_shown()
}

/// A tile on the grid is one the user placed, and for every control but the
/// connectivity group one whose backend answered: nothing is drawn for
/// hardware this machine does not have.
pub proof fn law_a_tile_shows_only_where_placed_and_readable(control: TileKey, v: PanelView)
    ensures
        shown(control, v) ==> placed(v.layout@, Control::Builtin(control)),
        shown(control, v) ==> backend_ready(control, v),
        !placed(v.layout@, Control::Builtin(control)) ==> !shown(control, v),
        placed(v.layout@, Control::Builtin(TileKey::Connectivity)) ==> shown(TileKey::Connectivity, v),
{
}

/// The battery tile stays while only the power profiles answer, as on a
/// desktop: it then names the active profile instead of a charge.
pub proof fn law_the_battery_tile_stays_for_its_profiles(v: PanelView, shape: TileShape)
    requires
        placed(v.layout@, Control::Builtin(TileKey::Battery)),
        answered(v.battery.profiles),
        v.battery_percent is None,
        v.battery.active_profile is Some,
    ensures
        shown(TileKey::Battery, v),
        tile_spec(TileKey::Battery, shape, v) matches GridTileView::Card(c) && c.state == TextView::Message(
            v.battery.active_profile->0.spec_l10n_key(),
        ) && c.on_press == Some(Press::Navigate(Page::Battery)),
{
}


/// One network in the Wi-Fi list.
#[derive(Debug, Clone)]
pub struct NetworkRow {
    pub icons: Vec<&'static str>,
    pub ssid: String,
    /// The line under the name: connected, connecting, why it cannot be
    /// joined from here, or the signal.
    pub detail: Text,
    /// Whether the row reads as on: the network in use.
    pub on: bool,
    /// Whether pressing the row starts a join. An enterprise network with no
    /// saved profile gets no action rather than a password box that cannot
    /// work.
    pub selectable: bool,
}

/// The line under a listed network.
pub open spec fn network_detail(n: network::NetworkView, connecting: Option<Seq<char>>) -> TextView {
    match network::join_kind_spec(n) {
        network::JoinKind::AlreadyConnected => TextView::Message("connected"),
        network::JoinKind::UnsupportedEnterprise => TextView::Message("enterprise-in-settings"),
        _ => if connecting == Some(n.ssid) {
            TextView::Message("connecting")
        } else {
            TextView::Counted("signal-strength", n.strength as u64)
        },
    }
}

/// Whether the Wi-Fi page lists networks at all: the radio is on and free.
pub open spec fn lists_networks(w: network::State) -> bool {
    w.enabled && !w.airplane_mode && !w.hardware_killed
}

/// One row of the Wi-Fi list, for `net` while `connecting` is being joined.
pub fn network_row(net: &network::Network, connecting: Option<&str>) -> (r: NetworkRow)
    ensures
        r.icons@ == icons::signal_spec(net.strength, net.secured),
        r.ssid@ == net.ssid@,
        r.detail@ == network_detail(
            net@,
            match connecting {
                Some(c) => Some(c@),
                None => None,
            },
        ),
        r.on == net.connected,
        r.selectable == (network::join_kind_spec(net@) != network::JoinKind::UnsupportedEnterprise),
{
    let kind = net.join_kind();
    let detail = match kind {
        network::JoinKind::AlreadyConnected => Text::Message("connected"),
        network::JoinKind::UnsupportedEnterprise => Text::Message("enterprise-in-settings"),
        _ => {
            let joining = match connecting {
                Some(c) => same_text(c, net.ssid.as_str()),
                None => false,
            };
            if joining {
                Text::Message("connecting")
            } else {
                Text::Counted("signal-strength", net.strength as u64)
            }
        },
    };
    NetworkRow {
        icons: icons::signal(net.strength, net.secured),
        ssid: net.ssid.clone(),
        detail,
        on: net.connected,
        selectable: !matches!(kind, network::JoinKind::UnsupportedEnterprise),
    }
}

/// The rows of the Wi-Fi list: the first `shown` networks, in the order the
/// list holds them, while the radio is on and free; none otherwise.
pub fn network_rows(w: &network::State, shown: usize) -> (r: Vec<NetworkRow>)
    ensures
        r@.len() == (if lists_networks(*w) {
            if shown < w.networks@.len() { shown as int } else { w.networks@.len() as int }
        } else {
            0
        }),
        forall|i: int|
            0 <= i < r@.len() ==> {
                &&& (#[trigger] r@[i]).ssid@ == w.networks@[i].ssid@
                &&& r@[i].icons@ == icons::signal_spec(w.networks@[i].strength, w.networks@[i].secured)
                &&& r@[i].detail@ == network_detail(
                    w.networks@[i]@,
                    match w.connecting {
                        Some(c) => Some(c@),
                        None => None,
                    },
                )
                &&& r@[i].on == w.networks@[i].connected
                &&& r@[i].selectable == (network::join_kind_spec(w.networks@[i]@)
                    != network::JoinKind::UnsupportedEnterprise)
            },
{
    let mut rows: Vec<NetworkRow> = Vec::new();
    if !(w.enabled && !w.airplane_mode && !w.hardware_killed) {
        return rows;
    }
    let count = if shown < w.networks.len() { shown } else { w.networks.len() };
    let connecting: Option<&str> = match &w.connecting {
        Some(c) => Some(c.as_str()),
        None => None,
    };
    let mut i: usize = 0;
    while i < count
        invariant
            count <= w.networks@.len(),
            i <= count,
            rows@.len() == i,
            match connecting {
                Some(c) => w.connecting matches Some(s) && c@ == s@,
                None => w.connecting is None,
            },
            forall|k: int|
                0 <= k < i ==> {
                    &&& (#[trigger] rows@[k]).ssid@ == w.networks@[k].ssid@
                    &&& rows@[k].icons@ == icons::signal_spec(w.networks@[k].strength, w.networks@[k].secured)
                    &&& rows@[k].detail@ == network_detail(
                        w.networks@[k]@,
                        match w.connecting {
                            Some(c) => Some(c@),
                            None => None,
                        },
                    )
                    &&& rows@[k].on == w.networks@[k].connected
                    &&& rows@[k].selectable == (network::join_kind_spec(w.networks@[k]@)
                        != network::JoinKind::UnsupportedEnterprise)
                },
        decreases count - i,
    {
        let row = network_row(&w.networks[i], connecting);
        rows.push(row);
        i = i + 1;
    }
    rows
}

/// The Wi-Fi radio switch on the Wi-Fi page: absent while airplane mode
/// holds the radio down, with a note and no press while the hardware switch
/// does.
#[derive(Debug, Clone, Copy, PartialEq, Eq)]
pub struct RadioSwitch {
    pub on: bool,
    pub note: Option<&'static str>,
    pub pressable: bool,
}

pub fn radio_switch(w: &network::State) -> (r: Option<RadioSwitch>)
    ensures
        w.airplane_mode <==> r is None,
        r matches Some(s) ==> s == (RadioSwitch {
            on: w.enabled && !w.hardware_killed,
            note: if w.hardware_killed { Some("wifi-hardware-off") } else { None },
            pressable: !w.hardware_killed,
        }),
{
    if w.airplane_mode {
        return None;
    }
    Some(RadioSwitch {
        on: w.enabled && !w.hardware_killed,
        note: if w.hardware_killed { Some("wifi-hardware-off") } else { None },
        pressable: !w.hardware_killed,
    })
}

} // verus!
