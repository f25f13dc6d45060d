use control_center::controls::{
    control_tile, network_rows, radio_switch, show_media, GridTile, PanelView, Press, RadioSwitch, Slider,
    Text,
};
use control_center::modules::battery::Profile;
use control_center::modules::dns::Address;
use control_center::modules::{
    battery, bluetooth, caffeine, dns, keyboard, network, system, tiling, vpn, Availability,
};
use control_center::panel::Page;
use control_center::tile_layout::{Instance, TileKey, TileShape};
use control_center::ui::icons::Level;
use control_center::ui::SliderMode;

fn unknown_slider() -> Slider {
    Slider { availability: Availability::Unknown, held: false, level: Level::Medium }
}

fn view(placed: &[TileKey]) -> PanelView {
    let layout = placed
        .iter()
        .enumerate()
        .map(|(row, key)| Instance::new(*key, TileShape::Small, 0, row as u16))
        .collect();
    PanelView {
        layout,
        wifi: network::State::default(),
        bluetooth: bluetooth::State::default(),
        battery: battery::State::default(),
        battery_percent: None,
        battery_level: None,
        battery_critical: false,
        dns: dns::State::new(&[]),
        system: system::State::default(),
        tiling: tiling::State::default(),
        vpn: vpn::State::default(),
        keyboard: keyboard::State::default(),
        caffeine: caffeine::State::default(),
        volume: unknown_slider(),
        brightness: unknown_slider(),
        microphone: unknown_slider(),
        media_switch: true,
        media: Availability::Unknown,
    }
}

fn card(tile: Option<GridTile>) -> control_center::controls::Card {
    match tile {
        Some(GridTile::Card(card)) => card,
        other => panic!("expected a card, got {other:?}"),
    }
}

#[test]
fn a_control_that_is_not_placed_draws_nothing() {
    let mut v = view(&[TileKey::Battery]);
    v.wifi.availability = Availability::Available;
    assert!(control_tile(TileKey::Wifi, TileShape::Small, &v).is_none());
}

#[test]
fn a_placed_control_without_its_backend_leaves_a_gap() {
    let v = view(&[TileKey::Wifi, TileKey::Bluetooth, TileKey::Dns, TileKey::Volume]);
    for key in [TileKey::Wifi, TileKey::Bluetooth, TileKey::Dns, TileKey::Volume] {
        assert!(control_tile(key, TileShape::Small, &v).is_none(), "{key:?}");
    }
}

#[test]
fn a_connected_wifi_tile_names_the_network_and_opens_its_page() {
    let mut v = view(&[TileKey::Wifi]);
    v.wifi.availability = Availability::Available;
    v.wifi.enabled = true;
    v.wifi.connected_ssid = Some("HomeNet".into());
    let tile = card(control_tile(TileKey::Wifi, TileShape::Small, &v));
    assert_eq!(tile.state, Text::Verbatim("HomeNet".into()));
    assert!(tile.active);
    assert!(!tile.compact);
    assert_eq!(tile.name, "wifi");
    assert_eq!(tile.on_press, Some(Press::Navigate(Page::Wifi)));

    let half = card(control_tile(TileKey::Wifi, TileShape::Half, &v));
    assert!(half.compact);

    v.wifi.airplane_mode = true;
    let off = card(control_tile(TileKey::Wifi, TileShape::Small, &v));
    assert_eq!(off.state, Text::Message("wifi-airplane"));
    assert!(!off.active);
    assert_eq!(off.icons[0], "airplane-mode-symbolic");
}

#[test]
fn the_connectivity_group_shows_when_placed_and_always_has_its_vpn_row() {
    let mut v = view(&[TileKey::Connectivity]);
    let Some(GridTile::Group(rows)) = control_tile(TileKey::Connectivity, TileShape::Tall, &v) else {
        panic!("the group is drawn whenever it is placed");
    };
    assert_eq!(rows.len(), 1);
    assert_eq!(rows[0].label, "vpn");
    assert_eq!(rows[0].state, Text::Message("vpn-off"));
    assert_eq!(rows[0].press, Press::Navigate(Page::Vpn));

    v.bluetooth.availability = Availability::Available;
    v.bluetooth.powered = true;
    v.bluetooth.connected_devices = 2;
    let Some(GridTile::Group(rows)) = control_tile(TileKey::Connectivity, TileShape::Tall, &v) else {
        panic!("the group is drawn whenever it is placed");
    };
    assert_eq!(rows.len(), 2);
    assert_eq!(rows[0].label, "bluetooth");
    assert_eq!(rows[0].state, Text::Counted("bluetooth-devices", 2));
    assert!(rows[0].on);
}

#[test]
fn a_desktop_battery_tile_shows_the_profile_and_opens_the_page() {
    let mut v = view(&[TileKey::Battery]);
    v.battery.profiles = Availability::Available;
    v.battery.active_profile = Some(Profile::Balanced);
    let small = card(control_tile(TileKey::Battery, TileShape::Small, &v));
    assert_eq!(small.state, Text::Message("profile-balanced"));
    assert_eq!(small.on_press, Some(Press::Navigate(Page::Battery)));
    assert_eq!(small.detail, None);

    let wide = card(control_tile(TileKey::Battery, TileShape::Wide, &v));
    assert!(wide.wide);
    assert_eq!(wide.detail, Some(Text::Message("profile-balanced")));
}

#[test]
fn a_laptop_battery_tile_shows_the_charge_alone() {
    let mut v = view(&[TileKey::Battery]);
    v.battery.battery = Availability::Available;
    v.battery_percent = Some(17);
    v.battery.active_profile = Some(Profile::Balanced);
    let tile = card(control_tile(TileKey::Battery, TileShape::Small, &v));
    assert_eq!(tile.state, Text::Counted("battery-charge", 17));
    assert_eq!(tile.on_press, None, "no page without the profiles service");

    v.battery.charging = true;
    let charging = card(control_tile(TileKey::Battery, TileShape::Small, &v));
    assert_eq!(charging.state, Text::Counted("battery-charging", 17));
}

#[test]
fn do_not_disturb_goes_by_whether_the_desktop_offers_it() {
    let mut v = view(&[TileKey::DoNotDisturb]);
    v.system.availability = Availability::Available;
    assert!(control_tile(TileKey::DoNotDisturb, TileShape::Small, &v).is_none());
    v.system.availability = Availability::Unavailable;
    v.system.dnd_available = true;
    v.system.do_not_disturb = true;
    let tile = card(control_tile(TileKey::DoNotDisturb, TileShape::Small, &v));
    assert_eq!(tile.state, Text::Message("on"));
    assert!(tile.active);
    assert_eq!(tile.on_press, Some(Press::ToggleDoNotDisturb));
}

#[test]
fn keep_awake_held_by_someone_else_names_them_and_cannot_be_pressed() {
    let mut v = view(&[TileKey::KeepAwake]);
    v.caffeine.availability = Availability::Available;
    v.caffeine.held_by = Some("Firefox".into());
    let tile = card(control_tile(TileKey::KeepAwake, TileShape::Wide, &v));
    assert_eq!(tile.state, Text::Naming("keep-awake-held", "Firefox".into()));
    assert!(tile.active);
    assert!(tile.wide);
    assert_eq!(tile.on_press, None);

    v.caffeine.held_by = None;
    let free = card(control_tile(TileKey::KeepAwake, TileShape::Small, &v));
    assert_eq!(free.state, Text::Message("off"));
    assert_eq!(free.on_press, Some(Press::ToggleKeepAwake));
}

#[test]
fn a_muted_volume_slider_is_held_and_its_icon_unmutes() {
    let mut v = view(&[TileKey::Volume]);
    v.volume = Slider { availability: Availability::Available, held: true, level: Level::Off };
    let Some(GridTile::Slider(slider)) = control_tile(TileKey::Volume, TileShape::Wide, &v) else {
        panic!("volume draws a slider");
    };
    assert_eq!(slider.mode, SliderMode::Held);
    assert_eq!(slider.icon_press, Press::ToggleMute);
    assert_eq!(slider.icons[0], "audio-volume-muted-symbolic");
}

#[test]
fn a_wide_dns_tile_lists_the_resolvers() {
    let mut v = view(&[TileKey::Dns]);
    v.dns.availability = Availability::Available;
    let automatic = card(control_tile(TileKey::Dns, TileShape::Wide, &v));
    assert_eq!(automatic.state, Text::Message("dns-automatic"));
    assert_eq!(automatic.detail, None);
    assert!(!automatic.wide);

    v.dns.current = vec![Address::new(9, 9, 9, 9), Address::new(149, 112, 112, 112)];
    let wide = card(control_tile(TileKey::Dns, TileShape::Wide, &v));
    assert_eq!(wide.state, Text::Message("dns-quad9"));
    assert_eq!(wide.detail, Some(Text::Verbatim("9.9.9.9, 149.112.112.112".into())));
    assert!(wide.wide);
    let small = card(control_tile(TileKey::Dns, TileShape::Small, &v));
    assert_eq!(small.detail, None);
}

#[test]
fn controls_that_are_not_grid_cells_draw_nothing() {
    let mut v = view(&[TileKey::GameMode, TileKey::Media, TileKey::ChargeThreshold]);
    v.media = Availability::Available;
    for key in [TileKey::GameMode, TileKey::Media, TileKey::ChargeThreshold] {
        assert!(control_tile(key, TileShape::Small, &v).is_none(), "{key:?}");
    }
}

#[test]
fn the_media_row_follows_its_own_switch_and_a_player() {
    let mut v = view(&[]);
    assert!(!show_media(&v));
    v.media = Availability::Available;
    assert!(show_media(&v));
    v.media_switch = false;
    assert!(!show_media(&v));
}

fn listed(ssid: &str, strength: u8, secured: bool, enterprise: bool, known: bool, connected: bool) -> network::Network {
    network::Network { ssid: ssid.to_string(), strength, secured, enterprise, known, connected }
}

#[test]
fn the_wifi_list_says_what_each_network_is_doing() {
    let mut w = network::State::default();
    w.enabled = true;
    w.networks = vec![
        listed("Home", 80, true, false, true, true),
        listed("Office", 60, true, true, false, false),
        listed("Cafe", 40, false, false, false, false),
        listed("Neighbour", 20, true, false, false, false),
    ];
    w.connecting = Some("Cafe".to_string());
    let rows = network_rows(&w, 3);
    assert_eq!(rows.len(), 3);
    assert_eq!(rows[0].detail, Text::Message("connected"));
    assert!(rows[0].on);
    assert_eq!(rows[1].detail, Text::Message("enterprise-in-settings"));
    assert!(!rows[1].selectable);
    assert_eq!(rows[2].detail, Text::Message("connecting"));
    assert!(rows[2].selectable);

    w.connecting = None;
    let rows = network_rows(&w, 10);
    assert_eq!(rows.len(), 4);
    assert_eq!(rows[3].detail, Text::Counted("signal-strength", 20));
    assert_eq!(rows[3].ssid, "Neighbour");
}

#[test]
fn no_networks_are_listed_while_the_radio_is_held_down() {
    let mut w = network::State::default();
    w.enabled = true;
    w.networks = vec![listed("Home", 80, true, false, true, false)];
    w.hardware_killed = true;
    assert!(network_rows(&w, 5).is_empty());
    assert_eq!(
        radio_switch(&w),
        Some(RadioSwitch { on: false, note: Some("wifi-hardware-off"), pressable: false })
    );
    w.airplane_mode = true;
    assert_eq!(radio_switch(&w), None);
    w.airplane_mode = false;
    w.hardware_killed = false;
    assert_eq!(radio_switch(&w), Some(RadioSwitch { on: true, note: None, pressable: true }));
}
