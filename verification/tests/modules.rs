use control_center::check::Found;
use control_center::modules::battery::{self, format_duration, Profile};
use control_center::modules::caffeine::{self, first_foreign_idle_lock, Inhibitor, WHO};
use control_center::modules::custom::{default_icon, default_launchers, default_shape, installed, is_present, probe, usable, Tile};
use control_center::tile_layout::TileShape;
use control_center::modules::keyboard::{self, levels_for, nearest_level, MAX_LEVELS};
use control_center::modules::media::{self, readable_bus_name, MetaValue, Now, GAP};
use control_center::modules::network::{self, collapse, JoinKind, Network, Snapshot};
use control_center::modules::volume::Direction;
use control_center::modules::brightness::{pick_device, Device};
use control_center::modules::Availability;

#[test]
fn durations_read_as_hours_and_minutes() {
    assert_eq!(format_duration(60 * 135), "2h 15m");
    assert_eq!(format_duration(60 * 45), "45m");
    assert_eq!(format_duration(60 * 60), "1h 00m");
}

#[test]
fn a_sub_minute_estimate_does_not_render_as_zero() {
    assert_eq!(format_duration(30), "1m");
    assert_eq!(format_duration(0), "1m");
}

#[test]
fn profile_names_round_trip() {
    for profile in Profile::ORDER {
        assert_eq!(Profile::from_dbus(profile.as_dbus()), Some(profile));
    }
}

#[test]
fn unknown_profile_names_are_ignored() {
    assert_eq!(Profile::from_dbus("turbo"), None);
}

fn inhibitor(what: &str, who: &str, mode: &str, pid: u32) -> Inhibitor {
    (
        what.to_string(),
        who.to_string(),
        "because".to_string(),
        mode.to_string(),
        1000,
        pid,
    )
}

#[test]
fn another_program_holding_the_machine_awake_is_seen() {
    let locks = vec![inhibitor("idle", "caffeine", "block", 4242)];
    assert_eq!(first_foreign_idle_lock(&locks, 99), Some("caffeine".to_string()));
}

#[test]
fn our_own_lock_is_not_mistaken_for_someone_elses() {
    let locks = vec![inhibitor("idle", WHO, "block", 99)];
    assert_eq!(first_foreign_idle_lock(&locks, 99), None);
}

#[test]
fn a_delay_lock_does_not_count_as_holding_it_awake() {
    let locks = vec![inhibitor("idle", "polite-app", "delay", 4242)];
    assert_eq!(first_foreign_idle_lock(&locks, 99), None);
}

#[test]
fn a_lock_on_something_other_than_idle_is_ignored() {
    let locks = vec![
        inhibitor("sleep", "updater", "block", 4242),
        inhibitor("handle-lid-switch", "dock", "block", 4243),
    ];
    assert_eq!(first_foreign_idle_lock(&locks, 99), None);
}

#[test]
fn idle_is_matched_inside_a_combined_lock() {
    let locks = vec![inhibitor("sleep:idle:handle-lid-switch", "mpv", "block", 7)];
    assert_eq!(first_foreign_idle_lock(&locks, 99), Some("mpv".to_string()));
}

#[test]
fn a_word_merely_containing_idle_is_not_idle() {
    let locks = vec![inhibitor("idle-something:sleep", "odd", "block", 7)];
    assert_eq!(first_foreign_idle_lock(&locks, 99), None);
    let later = vec![
        inhibitor("sleep", "first", "block", 7),
        inhibitor("idle", "second", "block", 8),
    ];
    assert_eq!(first_foreign_idle_lock(&later, 99), Some("second".to_string()));
}

#[test]
fn the_toggle_refuses_while_another_program_holds_it() {
    let mut state = caffeine::State::default();
    state.update(caffeine::Event::Available(Some("caffeine".into())));
    assert!(state.is_on(), "the machine is awake, so the tile says on");
    assert!(!state.can_toggle());
    assert!(state.toggle().is_none());
}

#[test]
fn the_toggle_returns_when_the_other_program_lets_go() {
    let mut state = caffeine::State::default();
    state.update(caffeine::Event::Available(Some("caffeine".into())));
    state.update(caffeine::Event::Available(None));
    assert!(!state.is_on());
    assert!(state.can_toggle());
}

#[test]
fn losing_logind_releases_the_inhibitor() {
    let mut state = caffeine::State::default();
    state.update(caffeine::Event::Available(None));
    assert!(!state.is_on());

    state.update(caffeine::Event::Unavailable);
    assert!(!state.is_on());
    assert!(!state.availability.is_shown());
}

#[test]
fn a_failure_leaves_the_control_off_rather_than_stuck_on() {
    let mut state = caffeine::State::default();
    state.update(caffeine::Event::Available(None));
    state.update(caffeine::Event::Failed("denied".into()));
    assert!(!state.is_on());
}

#[test]
fn switching_off_needs_no_round_trip() {
    let mut state = caffeine::State::default();
    state.update(caffeine::Event::Available(None));
    assert!(state.toggle().is_some(), "switching on must do work");
}

#[test]
fn switching_off_releases_without_asking_anyone() {
    let mut state = caffeine::State::default();
    state.update(caffeine::Event::Available(None));
    assert!(state.toggle().is_some());
    state.update(caffeine::Event::Held);
    assert!(state.is_on());
    assert!(state.toggle().is_none());
    assert!(!state.holding);
    assert!(!state.is_on());
}

fn tile(name: &str, command: Vec<&str>) -> Tile {
    Tile {
        name: name.to_string(),
        icon: default_icon(),
        command: command.into_iter().map(str::to_string).collect(),
        detail: None,
        shape: default_shape(),
        confirm: false,
        enabled: true,
    }
}

#[test]
fn a_launcher_is_only_offered_when_its_program_exists() {
    // `sh` is found on the path; the other program is not.
    let present = tile("Present", vec!["sh"]);
    let absent = tile("Absent", vec!["definitely-not-a-real-program-xyz"]);
    let kept = installed(vec![present.clone(), absent], &[true, false], &[false, false]);
    assert_eq!(kept, vec![present]);
}

#[test]
fn a_flatpak_launcher_needs_the_app_not_just_flatpak() {
    // `flatpak` itself is found, the app is not installed.
    let absent_app = tile("Tweaks", vec!["flatpak", "run", "org.example.NotInstalled"]);
    assert!(!is_present(&absent_app, true, false));
    assert!(is_present(&absent_app, true, true));
    assert!(is_present(&tile("Shell", vec!["sh"]), true, false));
    assert!(!is_present(&tile("Nope", vec!["definitely-not-real-xyz"]), false, false));
}

#[test]
fn an_empty_command_is_not_runnable() {
    assert!(!tile("Broken", vec![]).is_runnable());
    assert!(!tile("Blank", vec![""]).is_runnable());
    assert!(tile("Fine", vec!["true"]).is_runnable());
}

#[test]
fn unusable_entries_are_dropped_at_load() {
    let tiles = vec![
        tile("Good", vec!["true"]),
        tile("Broken", vec![]),
        tile("Also good", vec!["echo", "hello"]),
    ];
    let usable = usable(&tiles);
    assert_eq!(usable.len(), 2);
    assert!(usable.iter().all(|t| t.name != "Broken"));
}

#[test]
fn a_command_is_argv_not_a_shell_string() {
    let t = tile("Say", vec!["echo", "hello world", "*.txt"]);
    assert_eq!(t.command.len(), 3);
    assert_eq!(t.command[1], "hello world");
    assert_eq!(t.command[2], "*.txt");
}

#[test]
fn probe_reports_a_missing_program() {
    let tiles = vec![tile("Ghost", vec!["definitely-not-a-real-program-xyzzy"])];
    let report = probe(&tiles, &[false]).unwrap();
    assert!(report.contains("Ghost"), "{report}");
}

#[test]
fn probe_says_when_none_are_defined() {
    assert!(probe(&[], &[]).is_err());
}

#[test]
fn a_tile_is_shown_unless_it_is_switched_off() {
    let mut tiles = vec![tile("On", vec!["true"]), tile("Off", vec!["true"])];
    tiles[1].enabled = false;

    let shown = usable(&tiles);
    assert_eq!(shown.len(), 1);
    assert_eq!(shown[0].name, "On");
}

#[test]
fn a_three_step_device_offers_exactly_its_steps() {
    assert_eq!(levels_for(2), vec![0, 1, 2]);
}

#[test]
fn an_on_off_device_is_two_levels() {
    assert_eq!(levels_for(1), vec![0, 1]);
}

#[test]
fn a_fine_grained_device_is_capped() {
    let levels = levels_for(255);
    assert_eq!(levels.len(), MAX_LEVELS);
    assert_eq!(levels.first(), Some(&0));
    assert_eq!(levels.last(), Some(&255));
}

#[test]
fn levels_are_ascending_and_start_at_off() {
    for max in [1u32, 2, 3, 7, 16, 255] {
        let levels = levels_for(max);
        assert_eq!(levels[0], 0, "max {max} must start at off");
        assert!(levels.windows(2).all(|w| w[0] < w[1]), "max {max} produced {levels:?}");
    }
}

#[test]
fn a_value_set_by_the_hardware_key_snaps_to_the_nearest_level() {
    let levels = levels_for(255);
    assert_eq!(nearest_level(&levels, 0), 0);
    assert_eq!(nearest_level(&levels, 255), levels.len() - 1);
    assert_eq!(nearest_level(&levels, 90), 1);
}

#[test]
fn cycling_wraps_back_to_off() {
    let mut state = keyboard::State::default();
    state.update(keyboard::Event::Changed {
        device: "tpacpi::kbd_backlight".into(),
        levels: vec![0, 1, 2],
        level: 0,
    });

    let seen: Vec<usize> = (0..4)
        .map(|_| {
            let _write = state.cycle();
            state.level
        })
        .collect();
    assert_eq!(seen, vec![1, 2, 0, 1]);
}

#[test]
fn cycling_without_a_device_does_nothing() {
    let mut state = keyboard::State::default();
    assert!(state.cycle().is_none());
}

#[test]
fn level_names_cover_the_range() {
    let mut state = keyboard::State::default();
    state.update(keyboard::Event::Changed {
        device: "kbd".into(),
        levels: vec![0, 1, 2],
        level: 0,
    });
    assert_eq!(state.level_key(), "keyboard-off");
    assert!(!state.is_on());

    state.level = 2;
    assert_eq!(state.level_key(), "keyboard-high");
    assert!(state.is_on());
}

#[test]
fn a_reported_level_beyond_the_range_is_clamped() {
    let mut state = keyboard::State::default();
    state.update(keyboard::Event::Changed {
        device: "kbd".into(),
        levels: vec![0, 1],
        level: 9,
    });
    assert_eq!(state.level, 1);
}

#[test]
fn cycling_asks_for_the_raw_value_of_the_next_step() {
    let mut state = keyboard::State::default();
    state.update(keyboard::Event::Changed {
        device: "kbd".into(),
        levels: vec![0, 127, 255],
        level: 1,
    });
    assert_eq!(state.cycle(), Some(("kbd".to_string(), 255)));
    assert_eq!(state.cycle(), Some(("kbd".to_string(), 0)));
}

const NOTHING: &str = "Nothing playing";

fn playing(title: &str) -> media::State {
    media::State {
        title: title.to_string(),
        ..media::State::default()
    }
}

#[test]
fn a_title_that_fits_does_not_move() {
    let state = playing("Blue Monday");
    assert_eq!(state.marquee(26, NOTHING), "Blue Monday");
    assert!(!state.scrolls(26, NOTHING));
}

#[test]
fn a_long_title_is_cut_to_the_width_and_stays_there() {
    let mut state = playing("Everything In Its Right Place, and then some more words");
    assert!(state.scrolls(26, NOTHING));
    for _ in 0..200 {
        assert_eq!(state.marquee(26, NOTHING).chars().count(), 26);
        state.update(media::Event::Scroll);
    }
}

#[test]
fn scrolling_comes_back_round_to_the_start() {
    let title = "A title comfortably longer than the window";
    let mut state = playing(title);
    let first = state.marquee(20, NOTHING);

    let lap = title.chars().count() + GAP.chars().count();
    for _ in 0..lap {
        state.update(media::Event::Scroll);
    }
    assert_eq!(state.marquee(20, NOTHING), first);
}

#[test]
fn a_new_track_is_read_from_its_beginning() {
    let mut state = playing("A very long first track title indeed");
    for _ in 0..10 {
        state.update(media::Event::Scroll);
    }

    state.update(media::Event::Playing(Box::new(Now {
        title: "Second track".to_string(),
        ..Now::default()
    })));
    assert_eq!(state.marquee(26, NOTHING), "Second track");
}

#[test]
fn a_multibyte_title_is_not_cut_mid_character() {
    let mut state = playing("ゆらゆら帝国で考え中 — 空洞です、とても長いタイトル");
    assert!(state.scrolls(10, NOTHING));
    for _ in 0..50 {
        assert_eq!(state.marquee(10, NOTHING).chars().count(), 10);
        state.update(media::Event::Scroll);
    }
}

#[test]
fn a_zero_width_asks_for_nothing_rather_than_dividing_by_zero() {
    let state = playing("Anything");
    assert!(!state.scrolls(0, NOTHING));
    assert_eq!(state.marquee(0, NOTHING), "Anything");
}

#[test]
fn a_scrolled_title_wraps_through_the_gap() {
    let mut state = playing("abcdefghij");
    for _ in 0..8 {
        state.update(media::Event::Scroll);
    }
    assert_eq!(state.marquee(6, NOTHING), "ij   •");
}

#[test]
fn an_instance_suffix_is_dropped_from_a_bus_name() {
    assert_eq!(
        readable_bus_name("org.mpris.MediaPlayer2.chromium.instance16790"),
        "chromium"
    );
}

#[test]
fn a_plain_bus_name_is_left_alone() {
    assert_eq!(readable_bus_name("org.mpris.MediaPlayer2.vlc"), "vlc");
}

#[test]
fn artist_is_read_whether_it_is_a_list_or_a_string() {
    let as_list = MetaValue::List(vec!["Boards of Canada".to_string()]);
    assert_eq!(media::text_of(Some(&as_list)).as_deref(), Some("Boards of Canada"));

    let as_string = MetaValue::Text("Boards of Canada".to_string());
    assert_eq!(media::text_of(Some(&as_string)).as_deref(), Some("Boards of Canada"));
}

#[test]
fn several_artists_are_joined() {
    let many = MetaValue::List(vec!["A".to_string(), "B".to_string()]);
    assert_eq!(media::text_of(Some(&many)).as_deref(), Some("A, B"));
}

#[test]
fn empty_metadata_reads_as_absent_rather_than_blank() {
    let blank = MetaValue::Text(String::new());
    assert_eq!(media::text_of(Some(&blank)), None);
    assert_eq!(media::text_of(None), None);
}

#[test]
fn the_summary_omits_a_missing_artist() {
    let mut state = media::State::default();
    state.update(media::Event::Playing(Box::new(Now {
        title: "Roygbiv".into(),
        artist: None,
        ..Now::default()
    })));
    assert_eq!(state.summary(NOTHING), "Roygbiv");

    state.artist = Some("Boards of Canada".into());
    assert_eq!(state.summary(NOTHING), "Roygbiv — Boards of Canada");
}

#[test]
fn a_player_without_a_title_says_so() {
    let state = media::State::default();
    assert_eq!(state.summary(NOTHING), NOTHING);
}

#[test]
fn skip_is_refused_when_the_player_says_it_cannot() {
    let mut state = media::State::default();
    state.update(media::Event::Playing(Box::new(Now {
        title: "Stream".into(),
        can_next: false,
        can_previous: false,
        ..Now::default()
    })));
    assert!(state.next().is_none());
    assert!(state.previous().is_none());
}

#[test]
fn losing_the_player_clears_the_row() {
    let mut state = media::State::default();
    state.update(media::Event::Playing(Box::new(Now {
        title: "Roygbiv".into(),
        ..Now::default()
    })));
    assert!(state.availability.is_shown());

    state.update(media::Event::Unavailable);
    assert!(!state.availability.is_shown());
    assert!(state.title.is_empty());
}

#[test]
fn commands_go_to_the_player_being_shown() {
    let mut state = media::State::default();
    state.update(media::Event::Playing(Box::new(Now {
        player: "org.mpris.MediaPlayer2.vlc".into(),
        title: "Roygbiv".into(),
        can_next: true,
        ..Now::default()
    })));
    let request = state.next().expect("the player can skip");
    assert_eq!(request.player, "org.mpris.MediaPlayer2.vlc");
    assert_eq!(request.command, media::Command::Next);
    let toggled = state.play_pause().expect("a player is there");
    assert_eq!(toggled.command, media::Command::PlayPause);
    assert!(state.playing);
}

#[test]
fn only_running_players_are_listed_and_in_a_stable_order() {
    let names = vec![
        "org.freedesktop.DBus".to_string(),
        "org.mpris.MediaPlayer2.vlc".to_string(),
        "org.mpris.MediaPlayer2.chromium.instance1".to_string(),
        ":1.42".to_string(),
    ];
    assert_eq!(
        media::running_players(names),
        vec![
            "org.mpris.MediaPlayer2.chromium.instance1".to_string(),
            "org.mpris.MediaPlayer2.vlc".to_string()
        ]
    );
}

#[test]
fn a_playing_player_wins_over_one_merely_open() {
    let paused = Now {
        player: "a".into(),
        ..Now::default()
    };
    let music = Now {
        player: "b".into(),
        playing: true,
        ..Now::default()
    };
    assert_eq!(media::pick_player(&[paused.clone(), music]), Some(1));
    assert_eq!(media::pick_player(&[paused]), Some(0));
    assert_eq!(media::pick_player(&[]), None);
}

fn nw(ssid: &str, strength: u8) -> Network {
    Network {
        ssid: ssid.to_string(),
        strength,
        secured: true,
        enterprise: false,
        known: false,
        connected: false,
    }
}

#[test]
fn a_saved_network_joins_without_asking_for_a_password() {
    let mut saved = nw("HomeNet", 80);
    saved.known = true;
    assert_eq!(saved.join_kind(), JoinKind::Direct);
}

#[test]
fn an_open_network_joins_without_asking_for_a_password() {
    let mut open = nw("CafeWiFi", 60);
    open.secured = false;
    assert_eq!(open.join_kind(), JoinKind::Direct);
}

#[test]
fn an_unknown_secured_network_asks_for_a_password() {
    assert_eq!(nw("Neighbour", 40).join_kind(), JoinKind::NeedsPassword);
}

#[test]
fn an_unknown_enterprise_network_is_not_offered_a_password_box() {
    let mut eap = nw("eduroam", 70);
    eap.enterprise = true;
    assert_eq!(eap.join_kind(), JoinKind::UnsupportedEnterprise);
}

#[test]
fn a_known_enterprise_network_can_still_be_activated() {
    let mut eap = nw("eduroam", 70);
    eap.enterprise = true;
    eap.known = true;
    assert_eq!(eap.join_kind(), JoinKind::Direct);
}

#[test]
fn duplicate_ssids_collapse_to_the_strongest() {
    let rows = collapse(vec![nw("Mesh", 40), nw("Mesh", 85), nw("Mesh", 20)]);
    assert_eq!(rows.len(), 1);
    assert_eq!(rows[0].strength, 85);
}

#[test]
fn collapsing_keeps_known_and_connected_from_any_duplicate() {
    let mut weak = nw("Mesh", 20);
    weak.known = true;
    weak.connected = true;
    let rows = collapse(vec![nw("Mesh", 85), weak]);
    assert_eq!(rows.len(), 1);
    assert!(rows[0].known);
    assert!(rows[0].connected);
    assert_eq!(rows[0].strength, 85);
}

#[test]
fn collapsing_preserves_distinct_networks() {
    let rows = collapse(vec![nw("A", 30), nw("B", 60), nw("C", 90)]);
    assert_eq!(rows.len(), 3);
    let order: Vec<&str> = rows.iter().map(|r| r.ssid.as_str()).collect();
    assert_eq!(order, vec!["C", "B", "A"]);
}

#[test]
fn the_connected_network_sorts_first_even_when_weak() {
    let mut connected = nw("Weak", 5);
    connected.connected = true;
    let rows = collapse(vec![nw("Strong", 99), connected]);
    assert_eq!(rows[0].ssid, "Weak");
}

#[test]
fn equal_rows_fall_back_to_their_names() {
    let rows = collapse(vec![nw("b", 50), nw("a", 50), nw("ab", 50)]);
    let order: Vec<&str> = rows.iter().map(|r| r.ssid.as_str()).collect();
    assert_eq!(order, vec!["a", "ab", "b"]);
}

#[test]
fn a_bad_password_keeps_the_field_open() {
    let mut state = network::State {
        password_for: Some("HomeNet".into()),
        ..network::State::default()
    };
    state.update(network::Event::Failed("HomeNet".into(), network::Error::AuthFailed));
    assert_eq!(state.password_for.as_deref(), Some("HomeNet"));
    assert!(state.connecting.is_none());
}

#[test]
fn a_successful_join_closes_the_password_state() {
    let mut state = network::State {
        password_for: Some("HomeNet".into()),
        password_input: "hunter2".into(),
        ..network::State::default()
    };
    state.update(network::Event::Connected("HomeNet".into()));
    assert!(state.password_for.is_none());
    assert!(state.password_input.is_empty());
    assert!(state.last_error.is_none());
}

#[test]
fn another_networks_join_does_not_close_the_password_page() {
    let mut state = network::State {
        password_for: Some("Neighbour".into()),
        password_input: "half-typed".into(),
        connecting: Some("HomeNet".into()),
        ..network::State::default()
    };

    state.update(network::Event::Connected("HomeNet".into()));

    assert_eq!(state.password_for.as_deref(), Some("Neighbour"));
    assert_eq!(state.password_input, "half-typed");
    assert!(state.connecting.is_none());
}

#[test]
fn another_networks_failure_does_not_close_the_password_page() {
    let mut state = network::State {
        password_for: Some("Neighbour".into()),
        password_input: "half-typed".into(),
        connecting: Some("HomeNet".into()),
        ..network::State::default()
    };

    state.update(network::Event::Failed("HomeNet".into(), network::Error::Timeout));

    assert_eq!(state.password_for.as_deref(), Some("Neighbour"));
    assert_eq!(state.password_input, "half-typed");
}

#[test]
fn submitting_twice_does_not_start_a_second_join() {
    let mut state = network::State {
        password_for: Some("HomeNet".into()),
        password_input: "hunter2".into(),
        ..network::State::default()
    };

    assert!(state.submit_password().is_some());
    assert_eq!(state.connecting.as_deref(), Some("HomeNet"));
    assert!(
        state.submit_password().is_none(),
        "a second submit must be refused while the first is in flight"
    );
}

#[test]
fn cancelling_clears_the_password_state_and_any_error() {
    let mut state = network::State {
        password_for: Some("HomeNet".into()),
        password_input: "typo".into(),
        last_error: Some(("HomeNet".into(), network::Error::AuthFailed)),
        ..network::State::default()
    };
    state.cancel_password();
    assert!(state.password_for.is_none());
    assert!(state.password_input.is_empty());
    assert!(state.last_error.is_none());
}

#[test]
fn a_non_password_failure_closes_the_field() {
    let mut state = network::State {
        password_for: Some("HomeNet".into()),
        ..network::State::default()
    };
    state.update(network::Event::Failed("HomeNet".into(), network::Error::Timeout));
    assert!(state.password_for.is_none());
}

#[test]
fn an_empty_password_is_refused_locally() {
    let mut state = network::State {
        password_for: Some("HomeNet".into()),
        password_input: String::new(),
        ..network::State::default()
    };
    assert!(state.submit_password().is_none());
}

#[test]
fn airplane_mode_turns_the_radio_off_immediately() {
    let mut state = network::State {
        enabled: true,
        connected_ssid: Some("HomeNet".into()),
        networks: vec![nw("HomeNet", 80)],
        ..network::State::default()
    };

    let _write = state.toggle_airplane_mode();

    assert!(state.airplane_mode);
    assert!(!state.enabled);
    assert!(state.connected_ssid.is_none());
    assert!(state.networks.is_empty());
}

#[test]
fn a_hardware_kill_is_reported_separately_from_being_switched_off() {
    let mut state = network::State::default();
    state.update(network::Event::Snapshot(Box::new(Snapshot {
        enabled: true,
        hardware_killed: true,
        ..Snapshot::default()
    })));
    assert_eq!(state.summary_key(), "wifi-hardware-off");
}

#[test]
fn summary_prefers_airplane_mode_over_everything() {
    let mut state = network::State::default();
    state.update(network::Event::Snapshot(Box::new(Snapshot {
        enabled: false,
        airplane_mode: true,
        hardware_killed: true,
        ..Snapshot::default()
    })));
    assert_eq!(state.summary_key(), "wifi-airplane");
}

#[test]
fn a_scan_landing_mid_join_does_not_clear_the_spinner_early() {
    let mut state = network::State {
        connecting: Some("HomeNet".into()),
        ..network::State::default()
    };
    state.update(network::Event::Snapshot(Box::new(Snapshot {
        enabled: true,
        connected_ssid: Some("OldNet".into()),
        ..Snapshot::default()
    })));
    assert_eq!(state.connecting.as_deref(), Some("HomeNet"));

    state.update(network::Event::Snapshot(Box::new(Snapshot {
        enabled: true,
        connected_ssid: Some("HomeNet".into()),
        ..Snapshot::default()
    })));
    assert!(state.connecting.is_none());
}

#[test]
fn selecting_a_secured_network_opens_the_password_field() {
    let mut state = network::State {
        networks: vec![nw("Neighbour", 40)],
        ..network::State::default()
    };
    assert!(state.select("Neighbour").is_none());
    assert_eq!(state.password_for.as_deref(), Some("Neighbour"));
    assert!(state.connecting.is_none());
}

#[test]
fn selecting_a_saved_network_starts_the_join() {
    let mut saved = nw("HomeNet", 80);
    saved.known = true;
    let mut state = network::State {
        networks: vec![saved],
        ..network::State::default()
    };
    let join = state.select("HomeNet").expect("a saved network joins at once");
    assert_eq!(join.ssid, "HomeNet");
    assert_eq!(join.password, None);
    assert_eq!(state.connecting.as_deref(), Some("HomeNet"));
    assert!(state.select("Elsewhere").is_none());
}

#[test]
fn a_poll_reads_the_radio_and_the_listed_networks() {
    let radio = network::Radio {
        present: true,
        enabled: true,
        hardware_enabled: true,
        airplane_mode: false,
    };
    let devices = vec![
        network::Device {
            interface: "wlp3s0".into(),
            hw_address: "BB".into(),
        },
        network::Device {
            interface: "wlan0".into(),
            hw_address: "AA".into(),
        },
    ];
    let seen = |ssid: &str, active: bool| network::Sighting {
        ssid: ssid.into(),
        strength: Some(50),
        secured: true,
        is_eap: false,
        known: false,
        is_active: active,
        ip4_address: if active { Some("10.0.0.2".into()) } else { None },
        ip6_address: None,
    };
    let snap = network::snapshot_of(
        radio,
        &devices,
        &[seen("<hidden>", false), seen("Home", true), seen("", false)],
    )
    .expect("the radio is present");
    assert_eq!(snap.connected_ssid.as_deref(), Some("Home"));
    assert_eq!(snap.details.mac.as_deref(), Some("AA"));
    assert_eq!(snap.details.ipv4.as_deref(), Some("10.0.0.2"));
    assert_eq!(snap.networks.len(), 1);
    assert_eq!(snap.networks[0].ssid, "Home");

    let absent = network::Radio {
        present: false,
        ..radio
    };
    assert_eq!(
        network::snapshot_of(absent, &devices, &[]).err().as_deref(),
        Some("no wireless device on this machine")
    );
    let off = network::Radio {
        enabled: false,
        ..radio
    };
    let snap = network::snapshot_of(off, &devices, &[seen("Home", true)]).unwrap();
    assert!(snap.networks.is_empty() && snap.connected_ssid.is_none() && snap.details.mac.is_none());
}

#[test]
fn retries_back_off_to_sixteen_seconds() {
    assert_eq!(network::retry_delay_secs(0), None);
    assert_eq!(network::retry_delay_secs(1), Some(2));
    assert_eq!(network::retry_delay_secs(3), Some(8));
    assert_eq!(network::retry_delay_secs(40), Some(16));
}

#[test]
fn each_direction_targets_a_different_node() {
    assert_ne!(Direction::Output.wpctl_node(), Direction::Input.wpctl_node());
    assert_ne!(Direction::Output.pactl_node(), Direction::Input.pactl_node());
    assert_ne!(Direction::Output.poll_id(), Direction::Input.poll_id());
    assert_ne!(Direction::Output.pactl_verbs(), Direction::Input.pactl_verbs());
}

#[test]
fn availability_shows_only_once_a_backend_answered() {
    assert!(!Availability::default().is_shown());
    assert!(Availability::Available.is_shown());
    assert!(!Availability::Unavailable.is_shown());
}

#[test]
fn the_shipped_launchers_are_icon_only_and_monochrome() {
    for user in [Some("alice"), None] {
        let launchers = default_launchers(user);
        assert!(!launchers.is_empty());
        for tile in &launchers {
            assert_eq!(tile.shape, TileShape::Half, "{} is not icon-only", tile.name);
            assert!(
                tile.icon.ends_with("-symbolic"),
                "{} uses {}, which is not a monochrome icon",
                tile.name,
                tile.icon
            );
            assert!(tile.is_runnable(), "{} has no command", tile.name);
        }
    }
}

#[test]
fn everything_that_ends_the_session_asks_first() {
    for user in [Some("alice"), None] {
        for name in ["Log out", "Restart", "Power off"] {
            let Some(tile) = default_launchers(user).into_iter().find(|t| t.name == name) else {
                // Log out is not offered without a user; the others always are.
                assert_eq!(name, "Log out");
                assert!(user.is_none());
                continue;
            };
            assert!(tile.confirm, "{name} runs without asking");
        }
        for tile in default_launchers(user).iter().filter(|t| !t.confirm) {
            assert!(
                !["Log out", "Restart", "Power off"].contains(&tile.name.as_str()),
                "{} should have asked",
                tile.name
            );
        }
    }
}

#[test]
fn logging_out_names_the_user_because_there_is_no_shell_to_expand_it() {
    let logout = default_launchers(Some("alice"))
        .into_iter()
        .find(|t| t.name == "Log out")
        .unwrap();
    assert_eq!(logout.command[0], "loginctl");
    assert_eq!(logout.command.last().unwrap(), "alice");
    assert!(!logout.command.iter().any(|a| a.contains('$')));
    // Without a user the tile is not offered at all.
    assert!(default_launchers(None).iter().all(|t| t.name != "Log out"));
}

#[test]
fn the_tweaks_launcher_runs_through_flatpak_and_restart_warns() {
    let tweaks = default_launchers(None)
        .into_iter()
        .find(|t| t.name == "Tweaks")
        .expect("Tweaks is shipped");
    assert_eq!(tweaks.command, vec!["flatpak", "run", "dev.edfloreshz.CosmicTweaks"]);
    let restart = default_launchers(None)
        .into_iter()
        .find(|t| t.name == "Restart")
        .expect("Restart is shipped");
    assert_eq!(restart.detail.as_deref(), Some("Reboots now"));
}

fn battery_reading(present: bool, supported: bool) -> battery::Event {
    battery::Event::Battery {
        present,
        charging: false,
        charge_threshold_supported: supported,
        charge_threshold_enabled: false,
        time_remaining: None,
    }
}

#[test]
fn no_estimate_is_absent_rather_than_zero() {
    let mut state = battery::State::default();
    state.update(battery_reading(true, false));
    assert_eq!(state.time_remaining, None);
    // UPower's 0 before it has any discharge history reads as no estimate.
    assert!(matches!(
        battery::battery_event(true, 2, 0, 0, false),
        battery::Event::Battery { time_remaining: None, .. }
    ));
}

#[test]
fn a_desktop_keeps_its_profile_switch() {
    let mut state = battery::State::default();
    state.update(battery_reading(false, false));
    state.update(battery::Event::Profiles {
        active: Some(Profile::Balanced),
        supported: Profile::ORDER.to_vec(),
        degraded: None,
    });
    assert!(!state.battery.is_shown(), "no battery should be reported");
    assert!(state.profiles.is_shown(), "the profile switch must survive");
    assert!(state.is_shown(), "the tile must still be drawn");
}

#[test]
fn a_laptop_without_the_daemon_keeps_its_percentage() {
    let mut state = battery::State::default();
    state.update(battery_reading(true, false));
    state.update(battery::Event::Profiles { active: None, supported: Vec::new(), degraded: None });
    assert!(state.battery.is_shown());
    assert!(!state.profiles.is_shown());
    assert!(state.is_shown());
}

#[test]
fn empty_degraded_reason_is_treated_as_not_degraded() {
    let mut state = battery::State::default();
    state.update(battery::Event::Profiles {
        active: Some(Profile::Performance),
        supported: Profile::ORDER.to_vec(),
        degraded: Some(String::new()),
    });
    assert_eq!(state.performance_degraded, None);
    state.update(battery::Event::Profiles {
        active: Some(Profile::Performance),
        supported: Profile::ORDER.to_vec(),
        degraded: Some("lap-detected".to_string()),
    });
    assert_eq!(state.performance_degraded.as_deref(), Some("lap-detected"));
}

#[test]
fn unsupported_hardware_offers_no_charge_limit() {
    let mut state = battery::State::default();
    state.update(battery_reading(true, false));
    assert!(!state.charge_threshold_supported);
    assert!(state.toggle_charge_threshold().is_none());
    assert!(!state.charge_threshold_enabled);
}

#[test]
fn supported_hardware_can_flip_the_charge_limit() {
    let mut state = battery::State::default();
    state.update(battery_reading(true, true));
    assert_eq!(state.toggle_charge_threshold(), Some(true));
    assert!(state.charge_threshold_enabled);
    assert_eq!(state.toggle_charge_threshold(), Some(false));
}

#[test]
fn a_battery_reading_follows_upowers_properties() {
    match battery::battery_event(true, 1, 5400, 1, true) {
        battery::Event::Battery { present, charging, charge_threshold_supported, charge_threshold_enabled, time_remaining } => {
            assert!(present && charging && charge_threshold_supported && charge_threshold_enabled);
            assert_eq!(time_remaining, Some(5400));
        }
        _ => panic!("not a battery reading"),
    }
    assert!(battery::is_charging(4));
    assert!(!battery::is_charging(2));
    // No battery: no estimate, whatever the number.
    assert!(matches!(
        battery::battery_event(false, 2, 300, 0, false),
        battery::Event::Battery { time_remaining: None, charge_threshold_supported: false, .. }
    ));
}

#[test]
fn profiles_are_read_in_display_order_and_unknown_names_skipped() {
    let names = vec!["performance".to_string(), "turbo".to_string(), "power-saver".to_string()];
    match battery::profiles_event(&names, Some("performance"), Some("high-operating-temperature".to_string())) {
        battery::Event::Profiles { active, supported, degraded } => {
            assert_eq!(active, Some(Profile::Performance));
            assert_eq!(supported, vec![Profile::PowerSaver, Profile::Performance]);
            assert_eq!(degraded.as_deref(), Some("high-operating-temperature"));
        }
        _ => panic!("not a profiles reading"),
    }
    assert_eq!(
        battery::profiles_line(Some(Profile::Balanced), &[Profile::PowerSaver, Profile::Balanced]),
        "balanced of [power-saver, balanced]"
    );
    assert_eq!(battery::profiles_line(None, &[]), "none of []");
}

#[test]
fn switching_profile_shows_at_once() {
    let mut state = battery::State::default();
    assert_eq!(state.set_profile(Profile::PowerSaver), Profile::PowerSaver);
    assert_eq!(state.active_profile, Some(Profile::PowerSaver));
}

#[test]
fn the_first_backlight_in_sorted_order_with_a_maximum_is_driven() {
    let found = vec![
        ("intel_backlight".to_string(), Some(96_000)),
        ("acpi_video0".to_string(), Some(0)),
        ("amdgpu_bl0".to_string(), Some(255)),
        ("broken".to_string(), None),
    ];
    assert_eq!(pick_device(&found), Some(Device { name: "amdgpu_bl0".to_string(), max: 255 }));
    // A zero maximum would divide by zero: such a device is not there.
    assert_eq!(pick_device(&[("acpi_video0".to_string(), Some(0))]), None);
    assert_eq!(pick_device(&[]), None);
}

#[test]
fn only_a_keyboard_backlight_is_cycled() {
    let found = vec![
        ("input3::capslock".to_string(), Some(1)),
        ("tpacpi::kbd_backlight".to_string(), Some(2)),
        ("dell::KBD_Backlight".to_string(), Some(0)),
        ("asus::Keyboard_Backlight".to_string(), Some(3)),
    ];
    assert_eq!(keyboard::pick_device(&found), Some(("asus::Keyboard_Backlight".to_string(), 3)));
    assert_eq!(keyboard::pick_device(&found[..1]), None);
}

#[test]
fn the_battery_line_shows_the_charge_else_the_profile() {
    assert_eq!(battery::summary_key(true, true, Some(Profile::Balanced)), "battery-charging");
    assert_eq!(battery::summary_key(true, false, Some(Profile::Balanced)), "battery-charge");
    assert_eq!(battery::summary_key(false, false, Some(Profile::Performance)), "profile-performance");
    assert_eq!(battery::summary_key(false, false, None), "battery-no-battery");
}

#[test]
fn the_check_says_who_holds_the_machine_awake() {
    assert_eq!(
        caffeine::probe_report(Ok(Some("mpv".to_string()))),
        Found::Read("logind reachable; held awake by mpv".to_string())
    );
    assert_eq!(
        caffeine::probe_report(Ok(None)),
        Found::Read("logind reachable; nothing holding the machine awake".to_string())
    );
    assert_eq!(
        caffeine::probe_report(Err("no bus".to_string())),
        Found::Unreadable("logind not reachable: no bus".to_string())
    );
}

#[test]
fn the_check_says_what_is_playing() {
    let mut now = Now::default();
    now.player_name = "Spotify".to_string();
    now.playing = true;
    assert_eq!(media::probe_report(Ok(Some(now.clone()))), Found::Read("nothing on Spotify (playing)".to_string()));
    now.title = "Song".to_string();
    now.playing = false;
    assert_eq!(media::probe_report(Ok(Some(now))), Found::Read("Song on Spotify (paused)".to_string()));
    assert_eq!(media::probe_report(Ok(None)), Found::Absent("no media player is running".to_string()));
    assert_eq!(
        media::probe_report(Err("timeout".to_string())),
        Found::Unreadable("could not ask the session bus: timeout".to_string())
    );
}

#[test]
fn the_check_describes_the_keyboard_backlight() {
    assert_eq!(
        keyboard::probe_report(Some(("tpacpi::kbd_backlight".to_string(), 2)), 1),
        Found::Read("tpacpi::kbd_backlight (max 2), 3 level(s), currently 1".to_string())
    );
    assert_eq!(
        keyboard::probe_report(Some(("x::kbd_backlight".to_string(), 255)), 0),
        Found::Read("x::kbd_backlight (max 255), 4 level(s), currently 0".to_string())
    );
    assert_eq!(
        keyboard::probe_report(None, 0),
        Found::Absent("no keyboard backlight in /sys/class/leds".to_string())
    );
}

#[test]
fn the_check_describes_the_wifi_radio() {
    let mut snapshot = Snapshot::default();
    snapshot.enabled = true;
    snapshot.networks = vec![
        Network { ssid: "home".to_string(), strength: 80, secured: true, enterprise: false, known: true, connected: true },
        Network { ssid: "cafe".to_string(), strength: 30, secured: false, enterprise: false, known: false, connected: false },
    ];
    snapshot.connected_ssid = Some("home".to_string());
    assert_eq!(
        network::probe_report(Ok(Ok(snapshot))),
        Found::Read("radio on, 2 network(s) visible, connected to home".to_string())
    );
    let mut off = Snapshot::default();
    off.hardware_killed = true;
    off.airplane_mode = true;
    assert_eq!(
        network::probe_report(Ok(Ok(off))),
        Found::Read("radio off (hardware killed), airplane mode, 0 network(s) visible, connected to nothing".to_string())
    );
    assert_eq!(
        network::probe_report(Ok(Err("no wireless device on this machine".to_string()))),
        Found::Absent("no wireless device on this machine".to_string())
    );
    assert_eq!(
        network::probe_report(Err("NetworkManager not reachable".to_string())),
        Found::Unreadable("NetworkManager not reachable".to_string())
    );
}

#[test]
fn a_refused_join_is_told_apart_from_a_missing_permission() {
    assert_eq!(network::classify(network::Failure::AuthFailed), network::Error::AuthFailed);
    assert_eq!(network::classify(network::Failure::Timeout), network::Error::Timeout);
    assert_eq!(
        network::classify(network::Failure::Other("org.freedesktop.NetworkManager.PermissionDenied: NotAuthorized".to_string())),
        network::Error::NeedsAuthorisation
    );
    assert_eq!(
        network::classify(network::Failure::Other("device busy".to_string())),
        network::Error::Other("device busy".to_string())
    );
}

#[test]
fn the_check_describes_the_battery() {
    assert_eq!(
        battery::charge_line("81", false, Some(60 * 135), true),
        "81%, 2h 15m remaining, charge limit supported"
    );
    assert_eq!(battery::charge_line("40", true, Some(60 * 45), false), "40% charging, 45m until full");
    assert_eq!(battery::charge_line("100", false, None, false), "100%, no time estimate yet");
}

#[test]
fn keep_awake_names_whoever_holds_it() {
    let mut state = caffeine::State::default();
    assert_eq!(state.summary_key(), "off");
    state.holding = true;
    assert_eq!(state.summary_key(), "on");
    state.held_by = Some("mpv".to_string());
    assert_eq!(state.summary_key(), "keep-awake-held");
}
