use control_center::check::Found;
use control_center::modules::bluetooth::{self, AdapterProps, DeviceProps, Object, Prop};
use control_center::modules::dns::{self, parse_custom_provider, parse_servers, Address, Provider, ProviderName};
use control_center::modules::{gamemode, system, tiling, vpn};

fn adapter(path: &str, powered: bool) -> Object {
    Object {
        path: path.to_string(),
        adapter: Some(AdapterProps {
            powered: Prop::Flag(powered),
        }),
        device: None,
    }
}

fn device(path: &str, name: &str, connected: bool, paired: bool) -> Object {
    Object {
        path: path.to_string(),
        adapter: None,
        device: Some(DeviceProps {
            alias: Prop::Text(name.to_string()),
            name: Prop::Absent,
            address: Prop::Absent,
            connected: Prop::Flag(connected),
            paired: Prop::Flag(paired),
        }),
    }
}

fn changed(objects: &[Object]) -> (bool, usize, Vec<bluetooth::Device>, String) {
    match bluetooth::summarise(objects) {
        Some(bluetooth::Event::Changed {
            powered,
            connected_devices,
            devices,
            adapter_path,
        }) => (powered, connected_devices, devices, adapter_path),
        _ => panic!("expected an adapter"),
    }
}

#[test]
fn no_adapter_means_unavailable() {
    assert!(bluetooth::summarise(&[]).is_none());
}

#[test]
fn counts_only_connected_devices() {
    let objects = vec![
        adapter("/org/bluez/hci0", true),
        device("/org/bluez/hci0/dev_AA", "Headphones", true, true),
        device("/org/bluez/hci0/dev_BB", "Mouse", true, true),
        device("/org/bluez/hci0/dev_CC", "Keyboard", false, true),
    ];
    let (powered, connected, devices, _) = changed(&objects);
    assert!(powered);
    assert_eq!(connected, 2);
    assert_eq!(devices.len(), 3);
}

#[test]
fn devices_sort_connected_then_paired_then_by_name() {
    let objects = vec![
        adapter("/org/bluez/hci0", true),
        device("/org/bluez/hci0/dev_AA", "Zeta", false, false),
        device("/org/bluez/hci0/dev_BB", "alpha", false, true),
        device("/org/bluez/hci0/dev_CC", "Omega", true, true),
    ];
    let (_, _, devices, _) = changed(&objects);
    let order: Vec<&str> = devices.iter().map(|d| d.name.as_str()).collect();
    assert_eq!(order, vec!["Omega", "alpha", "Zeta"]);
}

#[test]
fn names_sort_regardless_of_case() {
    let objects = vec![
        adapter("/org/bluez/hci0", true),
        device("/org/bluez/hci0/dev_AA", "Beta", false, true),
        device("/org/bluez/hci0/dev_BB", "alpha", false, true),
    ];
    let (_, _, devices, _) = changed(&objects);
    let order: Vec<&str> = devices.iter().map(|d| d.name.as_str()).collect();
    assert_eq!(order, vec!["alpha", "Beta"]);
}

#[test]
fn adapter_choice_is_stable_across_runs() {
    let objects = vec![adapter("/org/bluez/hci1", true), adapter("/org/bluez/hci0", false)];
    for _ in 0..8 {
        let (powered, _, _, adapter_path) = changed(&objects);
        assert_eq!(adapter_path.as_str(), "/org/bluez/hci0");
        assert!(!powered);
    }
}

#[test]
fn powering_off_clears_the_device_list() {
    let mut state = bluetooth::State::default();
    state.update(bluetooth::Event::Changed {
        powered: true,
        connected_devices: 2,
        devices: vec![bluetooth::Device {
            name: "Headphones".into(),
            connected: true,
            paired: true,
            path: "/org/bluez/hci0/dev_AA".into(),
        }],
        adapter_path: "/org/bluez/hci0".into(),
    });
    let write = state.toggle();
    assert_eq!(
        write,
        Some(bluetooth::PowerRequest {
            path: "/org/bluez/hci0".into(),
            powered: false
        })
    );
    assert!(!state.powered);
    assert_eq!(state.connected_devices, 0);
    assert!(state.devices.is_empty());
}

#[test]
fn toggling_without_an_adapter_does_nothing() {
    let mut state = bluetooth::State::default();
    assert!(state.toggle().is_none());
}

#[test]
fn an_unpaired_device_offers_no_connect_action() {
    let mut state = bluetooth::State {
        devices: vec![bluetooth::Device {
            name: "Stranger".into(),
            connected: false,
            paired: false,
            path: "/org/bluez/hci0/dev_ZZ".into(),
        }],
        ..bluetooth::State::default()
    };
    assert!(state.toggle_device("Stranger").is_none());
}

#[test]
fn connecting_a_device_updates_the_count_immediately() {
    let mut state = bluetooth::State {
        devices: vec![bluetooth::Device {
            name: "Headphones".into(),
            connected: false,
            paired: true,
            path: "/org/bluez/hci0/dev_AA".into(),
        }],
        ..bluetooth::State::default()
    };

    let action = state.toggle_device("Headphones");
    assert!(action.is_some());
    assert!(state.devices[0].connected);
    assert_eq!(state.connected_devices, 1);
    assert_eq!(state.busy.as_deref(), Some("Headphones"));
}

#[test]
fn a_fresh_snapshot_clears_the_busy_marker() {
    let mut state = bluetooth::State {
        busy: Some("Headphones".into()),
        ..bluetooth::State::default()
    };
    state.update(bluetooth::Event::Changed {
        powered: true,
        connected_devices: 0,
        devices: Vec::new(),
        adapter_path: "/org/bluez/hci0".into(),
    });
    assert!(state.busy.is_none());
}

#[test]
fn a_device_with_no_name_falls_back_to_its_address() {
    let objects = vec![
        adapter("/org/bluez/hci0", true),
        Object {
            path: "/org/bluez/hci0/dev_AA".into(),
            adapter: None,
            device: Some(DeviceProps {
                alias: Prop::Absent,
                name: Prop::Absent,
                address: Prop::Text("AA:BB:CC:DD:EE:FF".into()),
                connected: Prop::Flag(false),
                paired: Prop::Flag(true),
            }),
        },
    ];
    let (_, _, devices, _) = changed(&objects);
    assert_eq!(devices.len(), 1);
    assert_eq!(devices[0].name, "AA:BB:CC:DD:EE:FF");
}

#[test]
fn an_unreadable_alias_does_not_fall_back_to_the_name() {
    let objects = vec![
        adapter("/org/bluez/hci0", true),
        Object {
            path: "/org/bluez/hci0/dev_AA".into(),
            adapter: None,
            device: Some(DeviceProps {
                alias: Prop::Unreadable,
                name: Prop::Text("Speaker".into()),
                address: Prop::Absent,
                connected: Prop::Flag(false),
                paired: Prop::Flag(true),
            }),
        },
    ];
    let (_, _, devices, _) = changed(&objects);
    assert!(devices.is_empty());
}

fn profile(name: &str, active: bool) -> vpn::Profile {
    vpn::Profile {
        name: name.to_string(),
        uuid: format!("uuid-{name}"),
        active,
    }
}

#[test]
fn no_saved_profiles_hides_the_tile() {
    let mut state = vpn::State::default();
    state.update(vpn::Event::Unavailable);
    assert!(!state.availability.is_shown());
}

#[test]
fn the_active_profile_names_the_tile() {
    let mut state = vpn::State::default();
    state.update(vpn::Event::Changed(vec![profile("Work", false), profile("Home", true)]));
    assert_eq!(state.active_name(), Some("Home"));
}

#[test]
fn nothing_active_reads_as_none() {
    let mut state = vpn::State::default();
    state.update(vpn::Event::Changed(vec![profile("Work", false)]));
    assert_eq!(state.active_name(), None);
}

#[test]
fn toggling_marks_the_row_busy_and_flips_it() {
    let mut state = vpn::State::default();
    state.update(vpn::Event::Changed(vec![profile("Work", false)]));

    let action = state.toggle("uuid-Work");
    assert!(action.is_some());
    assert!(state.profiles[0].active);
    assert_eq!(state.busy.as_deref(), Some("uuid-Work"));
}

#[test]
fn toggling_an_unknown_profile_does_nothing() {
    let mut state = vpn::State::default();
    state.update(vpn::Event::Changed(vec![profile("Work", false)]));
    assert!(state.toggle("uuid-Missing").is_none());
}

#[test]
fn a_fresh_list_clears_the_busy_marker() {
    let mut state = vpn::State::default();
    state.update(vpn::Event::Changed(vec![profile("Work", false)]));
    let _write = state.toggle("uuid-Work");
    state.update(vpn::Event::Changed(vec![profile("Work", true)]));
    assert!(state.busy.is_none());
}

#[test]
fn the_quick_toggle_takes_down_what_is_up_else_brings_up_the_first() {
    let mut state = vpn::State::default();
    state.update(vpn::Event::Changed(vec![profile("Work", false), profile("Home", true)]));
    let request = state.toggle_quick().expect("a profile is there");
    assert_eq!(request.uuid, "uuid-Home");
    assert!(!request.connect);
    let request = state.toggle_quick().expect("a profile is there");
    assert_eq!(request.uuid, "uuid-Work");
    assert!(request.connect);
}

#[test]
fn saved_profiles_list_the_active_first_and_then_by_name() {
    let saved = vec![
        vpn::Saved {
            name: "zeta".into(),
            id: "z".into(),
            uuid: "1".into(),
            active: false,
        },
        vpn::Saved {
            name: String::new(),
            id: "Office".into(),
            uuid: "2".into(),
            active: false,
        },
        vpn::Saved {
            name: "Alpha".into(),
            id: "a".into(),
            uuid: "3".into(),
            active: false,
        },
    ];
    let rows = vpn::profiles_of(&saved, &["2".to_string()]);
    let order: Vec<&str> = rows.iter().map(|p| p.name.as_str()).collect();
    assert_eq!(order, vec!["Office", "Alpha", "zeta"]);
    assert!(rows[0].active);
}

#[test]
fn an_empty_list_hides_the_tile_like_an_error() {
    assert!(matches!(vpn::event_of(Ok(Vec::new())), vpn::Event::Unavailable));
    assert!(matches!(vpn::event_of(Err("gone".into())), vpn::Event::Unavailable));
    assert!(matches!(
        vpn::event_of(Ok(vec![profile("Work", false)])),
        vpn::Event::Changed(_)
    ));
}

#[test]
fn a_game_holding_gamemode_cannot_be_switched_off_here() {
    let mut state = gamemode::State::default();
    state.update(gamemode::Event::Changed { clients: 1 });
    assert!(state.active);
    assert!(!state.held_by_us);
    assert!(!state.can_toggle());
    assert!(state.toggle().is_none());
}

#[test]
fn our_own_hold_can_be_released() {
    let mut state = gamemode::State::default();
    state.update(gamemode::Event::Changed { clients: 0 });

    let action = state.toggle();
    assert!(action.is_some());
    assert!(state.held_by_us);
    assert!(state.active);
    assert!(state.can_toggle());

    let action = state.toggle();
    assert!(action.is_some());
    assert!(!state.held_by_us);
    assert!(!state.active);
}

#[test]
fn the_count_falling_to_zero_clears_our_hold() {
    let mut state = gamemode::State::default();
    state.update(gamemode::Event::Changed { clients: 0 });
    let _write = state.toggle();
    assert!(state.held_by_us);

    state.update(gamemode::Event::Changed { clients: 0 });
    assert!(!state.held_by_us);
    assert!(!state.active);
}

#[test]
fn an_absent_daemon_hides_the_row() {
    let mut state = gamemode::State::default();
    state.update(gamemode::Event::Unavailable);
    assert!(!state.availability.is_shown());
}

#[test]
fn a_pid_is_representable() {
    assert!(gamemode::our_pid(4242) > 0);
    assert_eq!(gamemode::our_pid(4242), 4242);
    assert_eq!(gamemode::our_pid(u32::MAX), i32::MAX);
}

#[test]
fn a_refused_registration_is_reported_with_its_code() {
    assert!(gamemode::check_reply(0).is_ok());
    assert_eq!(
        gamemode::check_reply(-1),
        Err("GameMode refused the request (code -1)".to_string())
    );
    assert_eq!(
        gamemode::check_reply(i32::MIN),
        Err("GameMode refused the request (code -2147483648)".to_string())
    );
}

#[test]
fn tiling_toggling_flips_the_displayed_state_immediately() {
    let mut state = tiling::State::default();
    state.update(tiling::Event::Changed { tiled: false });

    let _write = state.toggle();
    assert!(state.tiled);

    let _write = state.toggle();
    assert!(!state.tiled);
}

#[test]
fn an_unreachable_compositor_hides_the_tile() {
    let mut state = tiling::State::default();
    state.update(tiling::Event::Changed { tiled: true });
    assert!(state.availability.is_shown());

    state.update(tiling::Event::Unavailable);
    assert!(!state.availability.is_shown());
    assert!(!state.tiled);
}

#[test]
fn tiling_an_unknown_state_is_not_shown_yet() {
    assert!(!tiling::State::default().availability.is_shown());
}

#[test]
fn the_compositors_word_decides_tiling() {
    assert_eq!(tiling::tiled_from(tiling::Reported::TilingEnabled), Ok(true));
    assert_eq!(tiling::tiled_from(tiling::Reported::FloatingOnly), Ok(false));
    assert!(tiling::tiled_from(tiling::Reported::Other).is_err());
}

#[test]
fn system_toggling_flips_the_displayed_state_immediately() {
    let mut state = system::State::default();
    state.update(system::Event::Changed {
        dark: true,
        do_not_disturb: Some(false),
    });

    state.toggle_dark();
    assert!(!state.dark);
}

#[test]
fn repeated_toggles_alternate() {
    let mut state = system::State::default();
    state.update(system::Event::Changed {
        dark: true,
        do_not_disturb: Some(false),
    });

    let mut seen = Vec::new();
    for _ in 0..4 {
        state.toggle_dark();
        seen.push(state.dark);
    }
    assert_eq!(seen, vec![false, true, false, true]);
}

#[test]
fn system_an_unknown_state_is_not_shown_yet() {
    assert!(!system::State::default().availability.is_shown());
}

#[test]
fn unreadable_do_not_disturb_is_off_and_unavailable() {
    let mut state = system::State::default();
    state.update(system::Event::Changed {
        dark: false,
        do_not_disturb: None,
    });
    assert!(!state.dnd_available);
    assert!(!state.do_not_disturb);
    assert_eq!(system::dark_flip_writes(Some(true), Some(true)), (Some(false), false));
    assert_eq!(system::dark_flip_writes(None, None), (None, true));
}

#[test]
fn manual_entry_accepts_commas_and_spaces() {
    assert_eq!(
        parse_servers("1.1.1.1, 1.0.0.1"),
        vec![Address::new(1, 1, 1, 1), Address::new(1, 0, 0, 1)]
    );
    assert_eq!(
        parse_servers("9.9.9.9 149.112.112.112"),
        vec![Address::new(9, 9, 9, 9), Address::new(149, 112, 112, 112)]
    );
}

#[test]
fn manual_entry_drops_nonsense() {
    assert!(parse_servers("not-an-address").is_empty());
    assert!(parse_servers("").is_empty());
    assert_eq!(parse_servers("1.1.1.1, nope"), vec![Address::new(1, 1, 1, 1)]);
}

#[test]
fn ipv6_only_manual_entry_is_rejected_rather_than_half_applied() {
    assert!(parse_servers("2606:4700:4700::1111").is_empty());
}

#[test]
fn addresses_are_read_as_the_standard_library_reads_them() {
    assert_eq!(dns::ipv4("0.0.0.0"), Some(Address::new(0, 0, 0, 0)));
    assert_eq!(dns::ipv4("255.255.255.255"), Some(Address::new(255, 255, 255, 255)));
    assert_eq!(dns::ipv4("256.1.1.1"), None);
    assert_eq!(dns::ipv4("01.1.1.1"), None);
    assert_eq!(dns::ipv4("1.1.1"), None);
    assert_eq!(dns::ipv4("1.1.1.1.1"), None);
    assert_eq!(dns::ipv4("1..1.1"), None);
    assert_eq!(parse_servers("\t8.8.4.4\n;;"), vec![Address::new(8, 8, 4, 4)]);
    assert_eq!(dns::trim("\u{3000} x \u{a0}"), "x");
}

#[test]
fn active_provider_ignores_server_order() {
    let mut state = dns::State::new(&[]);
    state.current = vec![Address::new(1, 0, 0, 1), Address::new(1, 1, 1, 1)];
    assert_eq!(
        state.active().map(|p| p.name.clone()),
        Some(ProviderName::Builtin("dns-cloudflare"))
    );
}

#[test]
fn no_override_reads_as_automatic() {
    let state = dns::State::new(&[]);
    assert!(state.active().is_some_and(Provider::is_automatic));
}

#[test]
fn custom_providers_need_a_usable_address() {
    let good = vec!["Home".to_string(), "192.168.1.1".to_string()];
    let bad = vec!["Broken".to_string(), "nonsense".to_string()];
    assert!(parse_custom_provider(&good).is_some());
    assert!(parse_custom_provider(&bad).is_none());
}

#[test]
fn custom_providers_follow_the_builtins() {
    let state = dns::State::new(&[
        vec!["Home".to_string(), "192.168.1.1".to_string()],
        vec!["Broken".to_string()],
    ]);
    assert_eq!(state.providers.len(), 5);
    assert_eq!(state.providers[4].name, ProviderName::Custom("Home".into()));
}

#[test]
fn a_typed_list_becomes_a_provider_named_by_it() {
    let state = dns::State {
        manual_input: " 9.9.9.9, 1.1.1.1 ".into(),
        ..dns::State::new(&[])
    };
    let provider = state.manual_provider().expect("the list reads");
    assert_eq!(provider.name, ProviderName::Custom("9.9.9.9, 1.1.1.1".into()));
    assert_eq!(provider.servers.len(), 2);
    let empty = dns::State::new(&[]);
    assert!(empty.manual_provider().is_none());
}

#[test]
fn an_authorisation_refusal_is_told_apart() {
    assert_eq!(
        dns::classify("org.freedesktop.NetworkManager.Settings: not authorized".into()),
        dns::Error::NeedsAuthorisation
    );
    assert_eq!(dns::classify("timeout".into()), dns::Error::Other("timeout".into()));
}

#[test]
fn applying_a_provider_shows_it_at_once() {
    let mut state = dns::State::new(&[]);
    let builtins = Provider::builtins();
    let written = state.apply(builtins[3].clone());
    assert_eq!(written, vec![Address::new(9, 9, 9, 9), Address::new(149, 112, 112, 112)]);
    assert_eq!(state.active().map(|p| p.name.clone()), Some(ProviderName::Builtin("dns-quad9")));
}

#[test]
fn switching_back_to_automatic_lets_dhcp_resolvers_through() {
    let edit = dns::ipv4_dns(Vec::new());
    assert!(edit.dns.is_empty());
    assert!(!edit.ignore_auto_dns);
}

#[test]
fn a_chosen_provider_replaces_dhcp_resolvers() {
    let edit = dns::ipv4_dns(vec![dns::Address::new(9, 9, 9, 9)]);
    assert_eq!(edit.dns, vec![dns::Address::new(9, 9, 9, 9)]);
    assert!(edit.ignore_auto_dns);
    assert_eq!(dns::READ_ONLY_KEYS, ["addresses", "routes"]);
}

#[test]
fn the_bluetooth_line_counts_connected_devices() {
    let mut state = bluetooth::State::default();
    assert_eq!(state.summary_key(), "bluetooth-off");
    state.powered = true;
    assert_eq!(state.summary_key(), "bluetooth-no-devices");
    state.connected_devices = 2;
    assert_eq!(state.summary_key(), "bluetooth-devices");
}

#[test]
fn the_check_names_the_bluetooth_adapter_and_its_devices() {
    let summary = bluetooth::summarise(&[
        adapter("/org/bluez/hci0", true),
        device("/org/bluez/hci0/dev_1", "Headphones", true, true),
        device("/org/bluez/hci0/dev_2", "Mouse", false, true),
    ]);
    assert_eq!(
        bluetooth::probe_report(summary),
        Found::Read("/org/bluez/hci0 is on, 2 device(s) known, 1 connected".to_string())
    );
    assert_eq!(
        bluetooth::probe_report(None),
        Found::Absent("bluetoothd is running but has no adapter".to_string())
    );
}

#[test]
fn the_check_reports_gamemode_clients() {
    assert_eq!(gamemode::probe_report(Ok(Some(2))), Found::Read("2 client(s) registered, active".to_string()));
    assert_eq!(gamemode::probe_report(Ok(Some(0))), Found::Read("0 client(s) registered, idle".to_string()));
    assert_eq!(gamemode::probe_report(Ok(Some(-1))), Found::Read("-1 client(s) registered, idle".to_string()));
    assert_eq!(gamemode::probe_report(Ok(None)), Found::Absent("gamemode is not installed".to_string()));
    assert_eq!(
        gamemode::probe_report(Err("no bus".to_string())),
        Found::Unreadable("could not ask the session bus: no bus".to_string())
    );
}

#[test]
fn the_check_reports_vpn_profiles() {
    assert_eq!(
        vpn::probe_report(Ok(vec![profile("Office", false), profile("Home", true)])),
        Found::Read("2 profile(s), active: Home".to_string())
    );
    assert_eq!(vpn::probe_report(Ok(vec![profile("Office", false)])), Found::Read("1 profile(s), active: none".to_string()));
    assert_eq!(vpn::probe_report(Ok(Vec::new())), Found::Absent("no VPN profiles are saved".to_string()));
    assert_eq!(vpn::probe_report(Err("nmcli failed".to_string())), Found::Unreadable("nmcli failed".to_string()));
}

#[test]
fn the_check_reports_the_desktop_settings() {
    assert_eq!(
        system::probe_report(Some(true), Some(false)),
        Found::Read("theme is dark, do not disturb off".to_string())
    );
    assert_eq!(
        system::probe_report(Some(false), None),
        Found::Read("theme is light, do not disturb unavailable".to_string())
    );
    assert_eq!(system::probe_report(None, Some(true)), Found::Unreadable("theme mode config unreadable".to_string()));
}

#[test]
fn the_check_reports_tiling() {
    assert_eq!(tiling::probe_report(Ok(true)), Found::Read("active workspace is tiled".to_string()));
    assert_eq!(tiling::probe_report(Ok(false)), Found::Read("active workspace is floating".to_string()));
    assert_eq!(tiling::probe_report(Err("no active workspace".to_string())), Found::Unreadable("no active workspace".to_string()));
}

#[test]
fn the_check_names_the_connection_and_its_resolvers() {
    let reading = dns::Event::Current {
        servers: vec![Address::new(1, 1, 1, 1), Address::new(1, 0, 0, 1)],
        connection_name: "Home".to_string(),
    };
    assert_eq!(dns::probe_report(reading), Found::Read("Home: 1.1.1.1, 1.0.0.1".to_string()));
    let dhcp = dns::Event::Current { servers: Vec::new(), connection_name: "Cafe".to_string() };
    assert_eq!(dns::probe_report(dhcp), Found::Read("Cafe: automatic".to_string()));
    assert_eq!(dns::probe_report(dns::Event::Unavailable), Found::Absent("no primary connection".to_string()));
}

#[test]
fn the_toggle_tiles_say_what_is_in_effect() {
    let mut desktop = system::State::default();
    assert_eq!(desktop.dark_key(), "mode-light");
    assert_eq!(desktop.do_not_disturb_key(), "off");
    desktop.update(system::Event::Changed { dark: true, do_not_disturb: Some(true) });
    assert_eq!(desktop.dark_key(), "mode-dark");
    assert_eq!(desktop.do_not_disturb_key(), "on");

    let mut tiles = tiling::State::default();
    tiles.update(tiling::Event::Changed { tiled: true });
    assert_eq!(tiles.summary_key(), "tiling-on");
}
