use control_center::modules::network::{self, Network};
use control_center::config::Config;
use control_center::modules::{custom, dns};
use control_center::panel::{more_to_show, Loaded, Page, Popup, WIFI_INITIAL_ROWS, WIFI_ROW_STEP};

fn secured(ssid: &str) -> Network {
    Network {
        ssid: ssid.to_string(),
        strength: 70,
        secured: true,
        enterprise: false,
        known: false,
        connected: false,
    }
}

fn wifi_with(networks: Vec<Network>) -> network::State {
    let mut wifi = network::State::default();
    wifi.enabled = true;
    wifi.networks = networks;
    wifi
}

#[test]
fn the_popup_opens_on_the_grid_and_closing_stops_the_scan() {
    let mut popup = Popup::new();
    let mut wifi = wifi_with(vec![secured("cafe")]);
    assert!(popup.toggle(&mut wifi));
    popup.navigate(Page::Wifi, &mut wifi);
    assert!(wifi.scanning);
    assert!(!popup.toggle(&mut wifi));
    assert!(!wifi.scanning);
    // Reopening does not land on last time's page.
    assert!(popup.toggle(&mut wifi));
    assert_eq!(popup.page, Page::Root);
    assert!(!wifi.scanning);
}

#[test]
fn picking_a_secured_network_opens_its_password_page() {
    let mut popup = Popup::new();
    let mut wifi = wifi_with(vec![secured("cafe")]);
    popup.toggle(&mut wifi);
    popup.navigate(Page::Wifi, &mut wifi);
    assert_eq!(popup.select("cafe", &mut wifi), None);
    assert_eq!(popup.page, Page::WifiConnect);
    assert_eq!(wifi.password_for.as_deref(), Some("cafe"));
    // Still scanning, so the list is fresh on the way back.
    assert!(wifi.scanning);
    popup.cancel_password(&mut wifi);
    assert_eq!(popup.page, Page::Wifi);
    assert_eq!(wifi.password_for, None);
}

#[test]
fn a_join_that_lands_returns_to_the_list() {
    let mut popup = Popup::new();
    let mut wifi = wifi_with(vec![secured("cafe")]);
    popup.toggle(&mut wifi);
    popup.navigate(Page::Wifi, &mut wifi);
    popup.select("cafe", &mut wifi);
    wifi.password_input = "hunter22".to_string();
    assert!(wifi.submit_password().is_some());
    popup.wifi_event(network::Event::Connected("cafe".to_string()), &mut wifi);
    assert_eq!(popup.page, Page::Wifi);
}

#[test]
fn a_wrong_password_keeps_the_password_page() {
    let mut popup = Popup::new();
    let mut wifi = wifi_with(vec![secured("cafe")]);
    popup.toggle(&mut wifi);
    popup.navigate(Page::Wifi, &mut wifi);
    popup.select("cafe", &mut wifi);
    popup.wifi_event(
        network::Event::Failed("cafe".to_string(), network::Error::AuthFailed),
        &mut wifi,
    );
    assert_eq!(popup.page, Page::WifiConnect);
}

#[test]
fn leaving_the_wifi_pages_stops_the_scan_and_drops_the_password() {
    let mut popup = Popup::new();
    let mut wifi = wifi_with(vec![secured("cafe")]);
    popup.toggle(&mut wifi);
    popup.navigate(Page::Wifi, &mut wifi);
    popup.select("cafe", &mut wifi);
    popup.navigate(Page::Bluetooth, &mut wifi);
    assert!(!wifi.scanning);
    assert_eq!(wifi.password_for, None);
}

#[test]
fn the_list_grows_a_step_at_a_time() {
    let mut popup = Popup::new();
    let mut wifi = wifi_with(Vec::new());
    popup.toggle(&mut wifi);
    popup.navigate(Page::Wifi, &mut wifi);
    assert_eq!(popup.wifi_rows, WIFI_INITIAL_ROWS);
    popup.show_more();
    assert_eq!(popup.wifi_rows, WIFI_INITIAL_ROWS + WIFI_ROW_STEP);
    // A fresh visit starts from the first rows again.
    popup.navigate(Page::Root, &mut wifi);
    popup.navigate(Page::Wifi, &mut wifi);
    assert_eq!(popup.wifi_rows, WIFI_INITIAL_ROWS);
    assert_eq!(more_to_show(22, 5), 5);
    assert_eq!(more_to_show(7, 5), 2);
    assert_eq!(more_to_show(3, 5), 0);
}

fn loaded(providers: Vec<Vec<String>>) -> Loaded {
    let mut config = Config::default();
    config.dns.custom_providers = providers.clone();
    Loaded { dns: dns::State::new(&providers), config, custom: Vec::new() }
}

fn mine() -> Vec<Vec<String>> {
    vec![vec!["Mine".to_string(), "10.0.0.53".to_string()]]
}

#[test]
fn opening_keeps_the_dns_entry_being_typed_when_the_providers_are_unchanged() {
    let mut held = loaded(mine());
    held.dns.manual_input = "1.2.3.".to_string();
    let mut fresh = Config::default();
    fresh.dns.custom_providers = mine();
    fresh.modules.battery = false;
    held.pick_up(fresh.clone());
    assert_eq!(held.dns.manual_input, "1.2.3.");
    assert!(!held.config.modules.battery);
}

#[test]
fn opening_rebuilds_dns_when_the_providers_changed() {
    let mut held = loaded(Vec::new());
    held.dns.manual_input = "1.2.3.".to_string();
    let before = held.dns.providers.len();
    let mut fresh = Config::default();
    fresh.dns.custom_providers = mine();
    held.pick_up(fresh);
    assert_eq!(held.dns.manual_input, "");
    assert_eq!(held.dns.providers.len(), before + 1);
}

#[test]
fn opening_takes_the_usable_custom_tiles() {
    let mut held = loaded(Vec::new());
    let mut fresh = Config::default();
    let tile = |name: &str, enabled: bool| custom::Tile {
        name: name.to_string(),
        icon: custom::default_icon(),
        command: vec!["true".to_string()],
        detail: None,
        shape: custom::default_shape(),
        confirm: false,
        enabled,
    };
    fresh.custom = vec![tile("On", true), tile("Off", false)];
    held.pick_up(fresh);
    assert_eq!(held.custom.len(), 1);
    assert_eq!(held.custom[0].name, "On");
    assert_eq!(held.config.custom.len(), 2);
}
