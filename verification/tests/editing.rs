use control_center::check::{self, Found, Report};
use control_center::config::Modules;
use control_center::i18n::requested_language;
use control_center::modules::battery::Profile;
use control_center::modules::dns::{Address, Provider};
use control_center::modules::network::{self, Network};
use control_center::tile_layout::editor::{Edit, Editor};
use control_center::tile_layout::{validate, Control, Instance, TileKey, TileShape};
use control_center::ui::icons::{self, PowerProfile};

fn at(control: TileKey, shape: TileShape, col: u16, row: u16) -> Instance {
    Instance::new(control, shape, col, row)
}

#[test]
fn dragging_a_tile_to_a_free_cell_moves_it() {
    let layout = vec![
        at(TileKey::Battery, TileShape::Small, 0, 0),
        at(TileKey::Dns, TileShape::Small, 2, 0),
    ];
    let mut editor = Editor::default();
    assert!(editor.apply(&layout, Edit::Pick(0)).is_none());
    assert!(editor.apply(&layout, Edit::DragTo(0, 1)).is_none());
    let stored = editor.apply(&layout, Edit::Drop).expect("the cell is free");
    assert_eq!(
        stored,
        vec![
            at(TileKey::Battery, TileShape::Small, 0, 1),
            at(TileKey::Dns, TileShape::Small, 2, 0)
        ]
    );
    assert!(editor.working.is_empty());
    assert!(editor.picked.is_none());
}

#[test]
fn a_tile_may_move_within_its_own_cells() {
    let layout = vec![at(TileKey::Battery, TileShape::Small, 0, 0)];
    let mut editor = Editor::default();
    editor.apply(&layout, Edit::Pick(0));
    editor.apply(&layout, Edit::DragTo(1, 0));
    let stored = editor.apply(&layout, Edit::Drop).expect("its own cells are free to it");
    assert_eq!(stored, vec![at(TileKey::Battery, TileShape::Small, 1, 0)]);
}

#[test]
fn dropping_onto_another_tile_is_refused_and_flashes() {
    let layout = vec![
        at(TileKey::Battery, TileShape::Small, 0, 0),
        at(TileKey::Dns, TileShape::Small, 2, 0),
    ];
    let mut editor = Editor::default();
    editor.apply(&layout, Edit::Pick(0));
    editor.apply(&layout, Edit::DragTo(2, 0));
    assert!(editor.apply(&layout, Edit::Drop).is_none());
    assert_eq!(editor.refused, Some((2, 0)));
    assert!(editor.working.is_empty());
}

#[test]
fn putting_a_tile_back_where_it_was_changes_nothing() {
    let layout = vec![at(TileKey::Battery, TileShape::Small, 0, 0)];
    let mut editor = Editor::default();
    editor.apply(&layout, Edit::Pick(0));
    editor.apply(&layout, Edit::DragTo(0, 0));
    assert!(editor.apply(&layout, Edit::Drop).is_none());
    assert_eq!(editor.refused, None);
}

#[test]
fn a_release_with_nothing_held_does_nothing() {
    let layout = vec![at(TileKey::Battery, TileShape::Small, 0, 0)];
    let mut editor = Editor::default();
    editor.apply(&layout, Edit::DragTo(1, 1));
    assert!(editor.target.is_none());
    assert!(editor.apply(&layout, Edit::Drop).is_none());
}

#[test]
fn removing_and_adding_store_a_valid_layout() {
    let layout = vec![
        at(TileKey::Battery, TileShape::Small, 0, 0),
        at(TileKey::Dns, TileShape::Small, 2, 0),
    ];
    let mut editor = Editor::default();
    let after_remove = editor.apply(&layout, Edit::Remove(0)).expect("index 0 exists");
    assert_eq!(after_remove, vec![at(TileKey::Dns, TileShape::Small, 2, 0)]);
    assert!(editor.apply(&layout, Edit::Remove(9)).is_none());

    let after_add = editor
        .apply(&layout, Edit::Add(Control::Builtin(TileKey::Volume), TileShape::Wide))
        .expect("there is always room below");
    assert_eq!(after_add.last(), Some(&at(TileKey::Volume, TileShape::Wide, 0, 1)));
    assert_eq!(validate(&after_add), after_add);
}

#[test]
fn a_tile_is_wanted_when_placed_or_grouped() {
    let layout = vec![at(TileKey::Connectivity, TileShape::Tall, 0, 0)];
    assert!(check::wanted(&layout, TileKey::Connectivity));
    assert!(check::wanted(&layout, TileKey::Wifi));
    assert!(check::wanted(&layout, TileKey::Vpn));
    assert!(!check::wanted(&layout, TileKey::Battery));
    assert!(!check::wanted(&[], TileKey::Wifi));
}

#[test]
fn report_lines_line_up_and_only_wanted_failures_count() {
    let reports = vec![
        Report {
            name: "wifi".into(),
            enabled: true,
            result: Found::Read("3 networks".into()),
        },
        Report {
            name: "bluetooth".into(),
            enabled: true,
            result: Found::Absent("no adapter".into()),
        },
        Report {
            name: "dns".into(),
            enabled: false,
            result: Found::Unreadable("unreachable".into()),
        },
        Report {
            name: "battery".into(),
            enabled: true,
            result: Found::Unreadable("no system bus".into()),
        },
    ];
    assert_eq!(reports[0].line(), "  wifi        ok       3 networks");
    assert_eq!(reports[1].line(), "  bluetooth   MISSING  no adapter");
    assert_eq!(reports[2].line(), "  dns         not on the grid");
    assert_eq!(reports[3].line(), "  battery     MISSING  no system bus");
    // Absent hardware the module reports is no failure; an unreadable one is.
    assert_eq!(check::outcome(&reports), (1, check::EXIT_DEGRADED));
    assert_eq!(check::outcome(&reports[..3]), (0, 0));
}

#[test]
fn settings_keys_name_the_switches() {
    let mut modules = Modules::default();
    assert_eq!(modules.named("wifi"), Some(false));
    assert_eq!(modules.named("keep_awake"), Some(true));
    assert_eq!(modules.named("nonsense"), None);
    modules.set_named("wifi", true);
    assert!(modules.wifi);
    let before = modules.clone();
    modules.set_named("nonsense", false);
    assert_eq!(modules, before);
}

#[test]
fn the_locale_picks_the_language() {
    assert_eq!(requested_language(&[None, Some("de_AT.UTF-8".into())]), "de");
    assert_eq!(requested_language(&[Some("C".into()), Some("FR".into())]), "fr");
    assert_eq!(requested_language(&[Some("POSIX".into()), Some("".into())]), "en");
    assert_eq!(requested_language(&[]), "en");
    assert_eq!(requested_language(&[Some("sr@latin".into())]), "sr");
}

fn nw(ssid: &str, strength: u8) -> Network {
    Network {
        ssid: ssid.to_string(),
        strength,
        secured: true,
        enterprise: false,
        known: false,
        connected: false,
    }
}

#[test]
fn an_error_shows_only_under_its_own_network() {
    let state = network::State {
        last_error: Some(("HomeNet".into(), network::Error::AuthFailed)),
        ..network::State::default()
    };
    let text = state.error_for("HomeNet").expect("the error is about this network");
    assert_eq!(text.key, "wifi-auth-failed");
    assert_eq!(text.argument.as_deref(), Some("HomeNet"));
    assert!(state.error_for("Neighbour").is_none());

    let silent = network::State {
        last_error: Some(("HomeNet".into(), network::Error::Other(String::new()))),
        ..network::State::default()
    };
    assert!(silent.error_text().is_none());
}

#[test]
fn the_tile_draws_the_connected_networks_strength() {
    let state = network::State {
        connected_ssid: Some("B".into()),
        networks: vec![nw("A", 90), nw("B", 40)],
        ..network::State::default()
    };
    assert_eq!(state.connected_strength(), 40);
    let unlisted = network::State {
        connected_ssid: Some("C".into()),
        ..state.clone()
    };
    assert_eq!(unlisted.connected_strength(), 0);
}

#[test]
fn a_providers_servers_are_listed_the_usual_way() {
    let quad9 = Provider::builtins()[3].clone();
    assert_eq!(quad9.servers_summary().as_deref(), Some("9.9.9.9, 149.112.112.112"));
    assert!(Provider::automatic().servers_summary().is_none());
    let _ = Address::new(0, 0, 0, 0);
}

#[test]
fn profiles_draw_their_own_icons() {
    assert_eq!(Profile::PowerSaver.icon_profile(), PowerProfile::PowerSaver);
    assert_eq!(Profile::Performance.icon_profile(), PowerProfile::Performance);
}

#[test]
fn a_module_is_enabled_as_its_switch_says() {
    let mut config = control_center::config::Config::default();
    assert!(config.module_enabled(TileKey::Battery));
    assert!(!config.module_enabled(TileKey::Wifi));
    config.modules.set_named("wifi", true);
    assert!(config.module_enabled(TileKey::Wifi));
}

#[test]
fn entries_that_cannot_run_are_named_for_a_warning() {
    let broken = control_center::modules::custom::Tile {
        name: "Broken".to_string(),
        icon: control_center::modules::custom::default_icon(),
        command: Vec::new(),
        detail: None,
        shape: TileShape::Small,
        confirm: false,
        enabled: true,
    };
    let mut fine = broken.duplicate();
    fine.name = "Fine".to_string();
    fine.command = vec!["true".to_string()];
    assert_eq!(control_center::modules::custom::warn_unusable(&[broken, fine]), vec!["Broken".to_string()]);
}

#[test]
fn do_not_disturb_flips_on_its_own() {
    let mut state = control_center::modules::system::State::default();
    state.update(control_center::modules::system::Event::Changed { dark: true, do_not_disturb: Some(false) });
    state.toggle_do_not_disturb();
    assert!(state.do_not_disturb);
    assert!(state.dark);
}

#[test]
fn switching_the_radio_off_forgets_the_networks() {
    let mut state = network::State::default();
    state.enabled = true;
    state.connected_ssid = Some("home".to_string());
    assert!(!state.toggle_radio());
    assert_eq!(state.connected_ssid, None);
    assert!(state.networks.is_empty());
    assert!(state.toggle_radio());
}

#[test]
fn transport_and_fallback_icons_are_fixed_lists() {
    assert_eq!(icons::media_play_pause(true), vec!["media-playback-pause-symbolic"]);
    assert_eq!(icons::media_play_pause(false), vec!["media-playback-start-symbolic"]);
    assert_eq!(icons::media_next()[0], "media-skip-forward-symbolic");
    assert_eq!(icons::media_previous()[0], "media-skip-backward-symbolic");
    assert_eq!(icons::custom_fallback()[0], "application-x-executable-symbolic");
    assert_eq!(icons::media_fallback()[0], "multimedia-player-symbolic");
}
