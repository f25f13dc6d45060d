# Control Center

The logic of a COSMIC panel applet for the settings reached for daily —
Wi-Fi, Bluetooth, battery and power profiles, DNS, volume, brightness and a
grid of toggles — written in Verus and proved against its contracts.

## Layout

- `src/` — the verified library.
  - `tile_layout/` — the tile grid: shapes and slots, the packer, free
    placement, validation, the band cutter, and the layout editor, with the
    laws that tie them together in `tile_layout/laws.rs`.
  - `config.rs` — the configuration model and its migration to the
    instance-based layout.
  - `modules/` — what each control decides from the state its service
    reports: battery, Bluetooth, brightness, keep awake, custom tiles, DNS,
    GameMode, keyboard backlight, media, Wi-Fi, desktop settings, tiling,
    volume and VPN, and the `--check` line of each.
  - `controls.rs` — what each placed control draws: whether it shows on
    this machine, its icons, state line, accent and press.
  - `panel.rs` — the popup's pages, and what opening it picks up from the
    configuration.
  - `ui/` — icon candidates for every state, text cut to fit, the grid's
    geometry and the description of a tile.
  - `check.rs`, `i18n.rs`, `text.rs` — the `--check` report, the language
    choice, and the text helpers the rest is built on.
- `tests/` — tests of the library, run against the compiled crate.
- `app/` — the command-line program around the library: reading the
  configuration file, talking to D-Bus, NetworkManager, sysfs and the audio
  tools for `--check`, and listing icon candidates for `--icons`. The panel
  applet itself is drawn with libcosmic and is not part of this build.
