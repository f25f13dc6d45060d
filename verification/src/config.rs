//! The user configuration model: which controls exist, how the grid is laid
//! out and drawn, and the badges beside the panel button.
//!
//! Reading and writing `config.toml` happens outside the library; what a
//! parsed configuration means, and how an older one is brought up to the
//! instance-based layout, is decided here.
use vstd::prelude::*;

use crate::text::{same_text, trim, trimmed};

use crate::modules::custom;
use crate::tile_layout::{
    is_placed, kept_by, lemma_kept_by_prefix, merged_order, migrate_from_packed, placed, resolved_by,
    validate, Control, Instance, ShapeOverrides, Slot, TileKey, TileShape,
};
use crate::tile_layout::editor::{first_free_at, first_free_spec, lemma_first_free_unique};
use crate::tile_layout::placing::{
    edges_fit_all, first_free_within, free_spec, free_within, migrated_layout, valid_layout, validate_spec,
};
use crate::tile_layout::laws;

verus! {

/// How long an interval lasts, in nanoseconds: what `Duration::as_nanos`
/// returns for it.
pub uninterp spec fn duration_nanos(d: std::time::Duration) -> nat;

/// `Duration::as_nanos`: the whole interval in nanoseconds.
#[verifier::external_body]
fn nanos_of(d: std::time::Duration) -> (r: u128)
    ensures
        r == duration_nanos(d),
{
    d.as_nanos()
}

/// `Duration::from_secs`: an interval of `secs` whole seconds, which is
/// `secs * 1_000_000_000` nanoseconds.
#[verifier::external_body]
fn duration_from_secs(secs: u64) -> (r: std::time::Duration)
    ensures
        duration_nanos(r) == secs * 1_000_000_000,
{
    std::time::Duration::from_secs(secs)
}

#[derive(Debug, Clone, PartialEq, Eq)]
pub struct Config {
    pub modules: Modules,
    /// Badges beside the panel button.
    pub indicators: Indicators,
    pub appearance: Appearance,
    pub dns: Dns,
    /// User-defined tiles that run a command.
    pub custom: Vec<custom::Tile>,
}

/// Which controls exist at all. A module switched off is never constructed.
#[derive(Debug, Clone, Copy, PartialEq, Eq, Structural)]
pub struct Modules {
    /// The Wi-Fi + Bluetooth + VPN grouped tile, independent of the three
    /// standalone flags below.
    pub connectivity: bool,
    pub wifi: bool,
    pub bluetooth: bool,
    pub battery: bool,
    pub dns: bool,
    pub volume: bool,
    pub brightness: bool,
    pub dark_mode: bool,
    pub tiling: bool,
    pub gamemode: bool,
    pub microphone: bool,
    pub keyboard_backlight: bool,
    pub do_not_disturb: bool,
    pub keep_awake: bool,
    pub media: bool,
    pub vpn: bool,
    pub charge_threshold: bool,
}

impl Default for Modules {
    /// Everything on except the three standalone connectivity tiles, which
    /// the group already shows.
    fn default() -> (r: Self)
        ensures
            r == (Modules {
                connectivity: true,
                wifi: false,
                bluetooth: false,
                battery: true,
                dns: true,
                volume: true,
                brightness: true,
                dark_mode: true,
                tiling: true,
                gamemode: true,
                microphone: true,
                keyboard_backlight: true,
                do_not_disturb: true,
                keep_awake: true,
                media: true,
                vpn: false,
                charge_threshold: true,
            }),
    {
        Modules {
            connectivity: true,
            wifi: false,
            bluetooth: false,
            battery: true,
            dns: true,
            volume: true,
            brightness: true,
            dark_mode: true,
            tiling: true,
            gamemode: true,
            microphone: true,
            keyboard_backlight: true,
            do_not_disturb: true,
            keep_awake: true,
            media: true,
            vpn: false,
            charge_threshold: true,
        }
    }
}

impl Modules {
    /// The switch `key` names.
    pub open spec fn named_spec(self, key: Seq<char>) -> Option<bool> {
        if key == "connectivity"@ {
            Some(self.connectivity)
        } else if key == "wifi"@ {
            Some(self.wifi)
        } else if key == "bluetooth"@ {
            Some(self.bluetooth)
        } else if key == "battery"@ {
            Some(self.battery)
        } else if key == "dns"@ {
            Some(self.dns)
        } else if key == "volume"@ {
            Some(self.volume)
        } else if key == "brightness"@ {
            Some(self.brightness)
        } else if key == "dark_mode"@ {
            Some(self.dark_mode)
        } else if key == "tiling"@ {
            Some(self.tiling)
        } else if key == "gamemode"@ {
            Some(self.gamemode)
        } else if key == "microphone"@ {
            Some(self.microphone)
        } else if key == "keyboard_backlight"@ {
            Some(self.keyboard_backlight)
        } else if key == "media"@ {
            Some(self.media)
        } else if key == "vpn"@ {
            Some(self.vpn)
        } else if key == "do_not_disturb"@ {
            Some(self.do_not_disturb)
        } else if key == "keep_awake"@ {
            Some(self.keep_awake)
        } else if key == "charge_threshold"@ {
            Some(self.charge_threshold)
        } else {
            None
        }
    }

    /// The switch a settings key names, as the Settings window spells
    /// them; `None` for a key that names no module.
    pub fn named(&self, key: &str) -> (r: Option<bool>)
        ensures
            r == self.named_spec(key@),
    {
        if same_text(key, "connectivity") {
            return Some(self.connectivity);
        }
        if same_text(key, "wifi") {
            return Some(self.wifi);
        }
        if same_text(key, "bluetooth") {
            return Some(self.bluetooth);
        }
        if same_text(key, "battery") {
            return Some(self.battery);
        }
        if same_text(key, "dns") {
            return Some(self.dns);
        }
        if same_text(key, "volume") {
            return Some(self.volume);
        }
        if same_text(key, "brightness") {
            return Some(self.brightness);
        }
        if same_text(key, "dark_mode") {
            return Some(self.dark_mode);
        }
        if same_text(key, "tiling") {
            return Some(self.tiling);
        }
        if same_text(key, "gamemode") {
            return Some(self.gamemode);
        }
        if same_text(key, "microphone") {
            return Some(self.microphone);
        }
        if same_text(key, "keyboard_backlight") {
            return Some(self.keyboard_backlight);
        }
        if same_text(key, "media") {
            return Some(self.media);
        }
        if same_text(key, "vpn") {
            return Some(self.vpn);
        }
        if same_text(key, "do_not_disturb") {
            return Some(self.do_not_disturb);
        }
        if same_text(key, "keep_awake") {
            return Some(self.keep_awake);
        }
        if same_text(key, "charge_threshold") {
            return Some(self.charge_threshold);
        }
        None
    }

    /// These switches with the one `key` names set to `value`.
    pub open spec fn with_named(self, key: Seq<char>, value: bool) -> Modules {
        if key == "connectivity"@ {
            Modules { connectivity: value, ..self }
        } else if key == "wifi"@ {
            Modules { wifi: value, ..self }
        } else if key == "bluetooth"@ {
            Modules { bluetooth: value, ..self }
        } else if key == "battery"@ {
            Modules { battery: value, ..self }
        } else if key == "dns"@ {
            Modules { dns: value, ..self }
        } else if key == "volume"@ {
            Modules { volume: value, ..self }
        } else if key == "brightness"@ {
            Modules { brightness: value, ..self }
        } else if key == "dark_mode"@ {
            Modules { dark_mode: value, ..self }
        } else if key == "tiling"@ {
            Modules { tiling: value, ..self }
        } else if key == "gamemode"@ {
            Modules { gamemode: value, ..self }
        } else if key == "microphone"@ {
            Modules { microphone: value, ..self }
        } else if key == "keyboard_backlight"@ {
            Modules { keyboard_backlight: value, ..self }
        } else if key == "media"@ {
            Modules { media: value, ..self }
        } else if key == "vpn"@ {
            Modules { vpn: value, ..self }
        } else if key == "do_not_disturb"@ {
            Modules { do_not_disturb: value, ..self }
        } else if key == "keep_awake"@ {
            Modules { keep_awake: value, ..self }
        } else if key == "charge_threshold"@ {
            Modules { charge_threshold: value, ..self }
        } else {
            self
        }
    }

    /// Set the switch a settings key names; a key that names no module
    /// changes nothing.
    pub fn set_named(&mut self, key: &str, value: bool)
        ensures
            *final(self) == old(self).with_named(key@, value),
    {
        if same_text(key, "connectivity") {
            self.connectivity = value;
            return;
        }
        if same_text(key, "wifi") {
            self.wifi = value;
            return;
        }
        if same_text(key, "bluetooth") {
            self.bluetooth = value;
            return;
        }
        if same_text(key, "battery") {
            self.battery = value;
            return;
        }
        if same_text(key, "dns") {
            self.dns = value;
            return;
        }
        if same_text(key, "volume") {
            self.volume = value;
            return;
        }
        if same_text(key, "brightness") {
            self.brightness = value;
            return;
        }
        if same_text(key, "dark_mode") {
            self.dark_mode = value;
            return;
        }
        if same_text(key, "tiling") {
            self.tiling = value;
            return;
        }
        if same_text(key, "gamemode") {
            self.gamemode = value;
            return;
        }
        if same_text(key, "microphone") {
            self.microphone = value;
            return;
        }
        if same_text(key, "keyboard_backlight") {
            self.keyboard_backlight = value;
            return;
        }
        if same_text(key, "media") {
            self.media = value;
            return;
        }
        if same_text(key, "vpn") {
            self.vpn = value;
            return;
        }
        if same_text(key, "do_not_disturb") {
            self.do_not_disturb = value;
            return;
        }
        if same_text(key, "keep_awake") {
            self.keep_awake = value;
            return;
        }
        if same_text(key, "charge_threshold") {
            self.charge_threshold = value;
            return;
        }
    }
}

#[derive(Debug, Clone, PartialEq, Eq)]
pub struct Appearance {
    pub style: TileStyle,
    /// How tile surfaces are painted.
    pub finish: TileFinish,
    pub icon: PanelIcon,
    /// The placed tiles: what is drawn, at what size, and where. Empty means
    /// "not migrated yet".
    pub layout: Vec<Instance>,
    /// The order tiles were drawn in before free placement; read once to
    /// build `layout`.
    pub order: Vec<TileKey>,
    /// Per-tile shape overrides of the ordered model; read once to build
    /// `layout`.
    pub shapes: ShapeOverrides,
}

impl Default for Appearance {
    fn default() -> (r: Self)
        ensures
            r.style == TileStyle::High,
            r.finish == TileFinish::Frosted,
            r.icon is Preset && r.icon->Preset_0@ == DEFAULT_PRESET@,
            r.layout@.len() == 0,
            r.order@.len() == 0,
            r.shapes@ == Map::<TileKey, TileShape>::empty(),
    {
        Appearance {
            style: TileStyle::default(),
            finish: TileFinish::default(),
            icon: PanelIcon::default(),
            layout: Vec::new(),
            order: Vec::new(),
            shapes: ShapeOverrides::new(),
        }
    }
}

/// How strongly a tile signals that its control is on.
#[derive(Debug, Clone, Copy, PartialEq, Eq, Structural)]
pub enum TileStyle {
    /// The whole tile fills with the accent colour when on.
    High,
    /// The tile stays neutral; a base shape behind the icon takes the accent.
    Medium,
    /// Tiles never show an on state.
    Low,
}

impl Default for TileStyle {
    fn default() -> (r: Self)
        ensures
            r == TileStyle::High,
    {
        TileStyle::High
    }
}

impl TileStyle {
    pub const ALL: [TileStyle; 3] = [TileStyle::High, TileStyle::Medium, TileStyle::Low];

    pub fn l10n_key(self) -> (r: &'static str)
        ensures
            r == (match self {
                TileStyle::High => "style-high",
                TileStyle::Medium => "style-medium",
                TileStyle::Low => "style-low",
            }),
    {
        match self {
            TileStyle::High => "style-high",
            TileStyle::Medium => "style-medium",
            TileStyle::Low => "style-low",
        }
    }

    pub fn description_key(self) -> (r: &'static str)
        ensures
            r == (match self {
                TileStyle::High => "style-high-detail",
                TileStyle::Medium => "style-medium-detail",
                TileStyle::Low => "style-low-detail",
            }),
    {
        match self {
            TileStyle::High => "style-high-detail",
            TileStyle::Medium => "style-medium-detail",
            TileStyle::Low => "style-low-detail",
        }
    }
}

/// How a tile's own surface is painted.
#[derive(Debug, Clone, Copy, PartialEq, Eq, Structural)]
pub enum TileFinish {
    /// A filled card.
    Solid,
    /// A frosted card: the blur behind comes through.
    Frosted,
    /// No fill at all, only a stroke.
    Outline,
}

impl Default for TileFinish {
    fn default() -> (r: Self)
        ensures
            r == TileFinish::Frosted,
    {
        TileFinish::Frosted
    }
}

impl TileFinish {
    pub const ALL: [TileFinish; 3] = [TileFinish::Solid, TileFinish::Frosted, TileFinish::Outline];

    pub fn l10n_key(self) -> (r: &'static str)
        ensures
            r == (match self {
                TileFinish::Solid => "finish-solid",
                TileFinish::Frosted => "finish-frosted",
                TileFinish::Outline => "finish-outline",
            }),
    {
        match self {
            TileFinish::Solid => "finish-solid",
            TileFinish::Frosted => "finish-frosted",
            TileFinish::Outline => "finish-outline",
        }
    }

    pub fn description_key(self) -> (r: &'static str)
        ensures
            r == (match self {
                TileFinish::Solid => "finish-solid-detail",
                TileFinish::Frosted => "finish-frosted-detail",
                TileFinish::Outline => "finish-outline-detail",
            }),
    {
        match self {
            TileFinish::Solid => "finish-solid-detail",
            TileFinish::Frosted => "finish-frosted-detail",
            TileFinish::Outline => "finish-outline-detail",
        }
    }
}

/// Which side of the panel button a badge sits on.
#[derive(Debug, Clone, Copy, PartialEq, Eq, Structural)]
pub enum BadgeSide {
    Left,
    Right,
}

impl Default for BadgeSide {
    fn default() -> (r: Self)
        ensures
            r == BadgeSide::Right,
    {
        BadgeSide::Right
    }
}

impl BadgeSide {
    pub const ALL: [BadgeSide; 2] = [BadgeSide::Left, BadgeSide::Right];

    pub fn l10n_key(self) -> (r: &'static str)
        ensures
            r == (match self {
                BadgeSide::Left => "badge-side-left",
                BadgeSide::Right => "badge-side-right",
            }),
    {
        match self {
            BadgeSide::Left => "badge-side-left",
            BadgeSide::Right => "badge-side-right",
        }
    }
}

/// How long a badge that announces an event stays up.
#[derive(Debug, Clone, Copy, PartialEq, Eq, Structural)]
pub enum BadgeTimeout {
    HalfMinute,
    Minute,
    FiveMinutes,
    /// Until it is fixed.
    Never,
}

impl Default for BadgeTimeout {
    fn default() -> (r: Self)
        ensures
            r == BadgeTimeout::Minute,
    {
        BadgeTimeout::Minute
    }
}

impl BadgeTimeout {
    pub const ALL: [BadgeTimeout; 4] = [
        BadgeTimeout::HalfMinute,
        BadgeTimeout::Minute,
        BadgeTimeout::FiveMinutes,
        BadgeTimeout::Never,
    ];

    /// The badge's lifetime in seconds, or `None` for "until it is fixed".
    pub open spec fn limit_secs(self) -> Option<nat> {
        match self {
            BadgeTimeout::HalfMinute => Some(30),
            BadgeTimeout::Minute => Some(60),
            BadgeTimeout::FiveMinutes => Some(300),
            BadgeTimeout::Never => None,
        }
    }

    /// How long the badge lasts, or `None` for "until it is fixed".
    pub fn duration(self) -> (r: Option<std::time::Duration>)
        ensures
            self.limit_secs() is None ==> r is None,
            self.limit_secs() matches Some(s) ==> r matches Some(d) && duration_nanos(d) == s
                * 1_000_000_000,
    {
        match self {
            BadgeTimeout::HalfMinute => Some(duration_from_secs(30)),
            BadgeTimeout::Minute => Some(duration_from_secs(60)),
            BadgeTimeout::FiveMinutes => Some(duration_from_secs(300)),
            BadgeTimeout::Never => None,
        }
    }

    pub fn l10n_key(self) -> (r: &'static str)
        ensures
            r == (match self {
                BadgeTimeout::HalfMinute => "badge-timeout-30s",
                BadgeTimeout::Minute => "badge-timeout-1m",
                BadgeTimeout::FiveMinutes => "badge-timeout-5m",
                BadgeTimeout::Never => "badge-timeout-never",
            }),
    {
        match self {
            BadgeTimeout::HalfMinute => "badge-timeout-30s",
            BadgeTimeout::Minute => "badge-timeout-1m",
            BadgeTimeout::FiveMinutes => "badge-timeout-5m",
            BadgeTimeout::Never => "badge-timeout-never",
        }
    }
}

/// Small icons beside the panel button.
#[derive(Debug, Clone, Copy, PartialEq, Eq, Structural)]
pub struct Indicators {
    /// A red battery when the charge is low and nothing is charging it.
    pub battery_low: bool,
    /// What counts as low, in percent.
    pub battery_low_percent: u8,
    /// A badge when Wi-Fi drops.
    pub wifi_disconnected: bool,
    /// How long that badge stays up.
    pub wifi_timeout: BadgeTimeout,
    /// Which side of the panel button the badges sit on.
    pub side: BadgeSide,
}

impl Default for Indicators {
    /// Badges are off until asked for; low means 20%.
    fn default() -> (r: Self)
        ensures
            r == (Indicators {
                battery_low: false,
                battery_low_percent: 20,
                wifi_disconnected: false,
                wifi_timeout: BadgeTimeout::Minute,
                side: BadgeSide::Right,
            }),
    {
        Indicators {
            battery_low: false,
            battery_low_percent: 20,
            wifi_disconnected: false,
            wifi_timeout: BadgeTimeout::default(),
            side: BadgeSide::default(),
        }
    }
}

impl Indicators {
    /// Whether the Wi-Fi badge should be up, given how long ago Wi-Fi dropped.
    ///
    /// `None` means Wi-Fi is up, so there is nothing to say. A `Never` timeout
    /// keeps the badge until it reconnects; the rest lapse.
    pub fn wifi_badge(&self, since_lost: Option<std::time::Duration>) -> (r: bool)
        ensures
            r == (match since_lost {
                None => false,
                Some(elapsed) => self.wifi_disconnected && match self.wifi_timeout.limit_secs() {
                    Some(s) => duration_nanos(elapsed) < s * 1_000_000_000,
                    None => true,
                },
            }),
    {
        let elapsed = match since_lost {
            Some(elapsed) => elapsed,
            None => return false,
        };
        self.wifi_disconnected && match self.wifi_timeout.duration() {
            Some(limit) => nanos_of(elapsed) < nanos_of(limit),
            None => true,
        }
    }
}

/// The preset shown on a fresh install.
pub const DEFAULT_PRESET: &'static str = "toggles";

/// What the panel button shows.
#[derive(Debug, Clone, PartialEq, Eq)]
pub enum PanelIcon {
    /// Whatever the icon theme gives for the default name.
    System,
    /// One of the glyphs shipped with the applet.
    Preset(String),
    /// An icon-theme name or an absolute path to an image.
    Custom(String),
}

impl Default for PanelIcon {
    fn default() -> (r: Self)
        ensures
            r is Preset && r->Preset_0@ == DEFAULT_PRESET@,
    {
        PanelIcon::Preset(String::from_str(DEFAULT_PRESET))
    }
}

#[derive(Debug, Clone, PartialEq, Eq)]
pub struct Dns {
    /// Extra providers appended to the built-in list, as `["Name", "1.1.1.1", "1.0.0.1"]`.
    pub custom_providers: Vec<Vec<String>>,
}

impl Default for Dns {
    fn default() -> (r: Self)
        ensures
            r.custom_providers@.len() == 0,
    {
        Dns { custom_providers: Vec::new() }
    }
}

impl Default for Config {
    fn default() -> (r: Self)
        ensures
            r.modules == Modules::default_spec(),
            r.indicators == Indicators::default_spec(),
            r.appearance.style == TileStyle::High,
            r.appearance.finish == TileFinish::Frosted,
            r.appearance.icon is Preset && r.appearance.icon->Preset_0@ == DEFAULT_PRESET@,
            r.appearance.layout@.len() == 0,
            r.appearance.order@.len() == 0,
            r.appearance.shapes@ == Map::<TileKey, TileShape>::empty(),
            r.dns.custom_providers@.len() == 0,
            r.custom@.len() == 0,
    {
        Config {
            modules: Modules::default(),
            indicators: Indicators::default(),
            appearance: Appearance::default(),
            dns: Dns::default(),
            custom: Vec::new(),
        }
    }
}

impl Modules {
    /// The switches of a fresh install.
    pub open spec fn default_spec() -> Modules {
        Modules {
            connectivity: true,
            wifi: false,
            bluetooth: false,
            battery: true,
            dns: true,
            volume: true,
            brightness: true,
            dark_mode: true,
            tiling: true,
            gamemode: true,
            microphone: true,
            keyboard_backlight: true,
            do_not_disturb: true,
            keep_awake: true,
            media: true,
            vpn: false,
            charge_threshold: true,
        }
    }

    /// Whether these switches have `key`'s module on.
    pub open spec fn has(self, key: TileKey) -> bool {
        match key {
            TileKey::Connectivity => self.connectivity,
            TileKey::Wifi => self.wifi,
            TileKey::Bluetooth => self.bluetooth,
            TileKey::Vpn => self.vpn,
            TileKey::Battery => self.battery,
            TileKey::Dns => self.dns,
            TileKey::DarkMode => self.dark_mode,
            TileKey::Tiling => self.tiling,
            TileKey::GameMode => self.gamemode,
            TileKey::Media => self.media,
            TileKey::DoNotDisturb => self.do_not_disturb,
            TileKey::KeepAwake => self.keep_awake,
            TileKey::ChargeThreshold => self.charge_threshold,
            TileKey::KeyboardBacklight => self.keyboard_backlight,
            TileKey::Volume => self.volume,
            TileKey::Brightness => self.brightness,
            TileKey::Microphone => self.microphone,
        }
    }

    fn has_exec(&self, key: TileKey) -> (r: bool)
        ensures
            r == self.has(key),
    {
        match key {
            TileKey::Connectivity => self.connectivity,
            TileKey::Wifi => self.wifi,
            TileKey::Bluetooth => self.bluetooth,
            TileKey::Vpn => self.vpn,
            TileKey::Battery => self.battery,
            TileKey::Dns => self.dns,
            TileKey::DarkMode => self.dark_mode,
            TileKey::Tiling => self.tiling,
            TileKey::GameMode => self.gamemode,
            TileKey::Media => self.media,
            TileKey::DoNotDisturb => self.do_not_disturb,
            TileKey::KeepAwake => self.keep_awake,
            TileKey::ChargeThreshold => self.charge_threshold,
            TileKey::KeyboardBacklight => self.keyboard_backlight,
            TileKey::Volume => self.volume,
            TileKey::Brightness => self.brightness,
            TileKey::Microphone => self.microphone,
        }
    }
}

impl Indicators {
    pub open spec fn default_spec() -> Indicators {
        Indicators {
            battery_low: false,
            battery_low_percent: 20,
            wifi_disconnected: false,
            wifi_timeout: BadgeTimeout::Minute,
            side: BadgeSide::Right,
        }
    }
}

/// The keys the ordered model draws for `order` under the switches `m`: the
/// merged order, keeping the tiles whose module is on.
pub open spec fn enabled_keys(order: Seq<TileKey>, m: Modules) -> Seq<TileKey> {
    kept_by(merged_order(order), merged_order(order).map_values(|k: TileKey| m.has(k)))
}

/// The layout a configuration has once [`Config::migrated`] has run on it:
/// an empty layout is built from the ordered model; a populated one is
/// validated.
pub open spec fn migrated_layout_of(
    layout: Seq<Instance>,
    order: Seq<TileKey>,
    shapes: Map<TileKey, TileShape>,
    m: Modules,
) -> Seq<Instance> {
    if layout.len() == 0 {
        migrated_layout(enabled_keys(order, m), shapes)
    } else {
        validate_spec(layout)
    }
}

/// Whether a placed tile still has something behind it: a built-in control
/// always does, a custom one while `[[custom]]` has `defined` entries past its
/// index.
pub open spec fn is_live(instance: Instance, defined: nat) -> bool {
    match instance.control {
        Control::Custom { custom } => custom < defined,
        Control::Builtin(_) => true,
    }
}

/// `layout` without the custom instances whose entry is gone, in order.
pub open spec fn live_only(layout: Seq<Instance>, defined: nat) -> Seq<Instance>
    decreases layout.len(),
{
    if layout.len() == 0 {
        layout
    } else {
        let prev = live_only(layout.drop_last(), defined);
        if is_live(layout.last(), defined) {
            prev.push(layout.last())
        } else {
            prev
        }
    }
}

/// `layout` once the first `k` entries of `customs` have been looked at: each
/// usable one that is not on the grid yet goes at the first free cell for its
/// shape, unless no free cell leaves its bottom edge a `u16` row.
pub open spec fn with_customs(layout: Seq<Instance>, customs: Seq<custom::TileView>, k: nat) -> Seq<Instance>
    decreases k,
{
    if k == 0 {
        layout
    } else {
        let before = with_customs(layout, customs, (k - 1) as nat);
        let index = (k - 1) as nat;
        let control = Control::Custom { custom: index as usize };
        let shape = customs[index as int].shape;
        if places_custom(before, customs, index) {
            let p = first_free_spec(before, shape);
            before.push(Instance { control, shape, col: p.0, row: p.1 })
        } else {
            before
        }
    }
}

/// The layout a configuration has once [`Config::migrated`] has run on it:
/// the built-in part as [`migrated_layout_of`] gives it, without custom
/// instances whose entry is gone, then each usable custom tile not yet placed
/// at the first free cell.
pub open spec fn loaded_layout(
    layout: Seq<Instance>,
    order: Seq<TileKey>,
    shapes: Map<TileKey, TileShape>,
    m: Modules,
    customs: Seq<custom::TileView>,
) -> Seq<Instance> {
    let base = live_only(migrated_layout_of(layout, order, shapes, m), customs.len());
    with_customs(base, customs, customs.len())
}

/// Every usable custom tile among the first `k` is placed, or could not be
/// without leaving `u16` rows.
pub open spec fn settled(layout: Seq<Instance>, customs: Seq<custom::TileView>, k: nat) -> bool {
    forall|j: int|
        0 <= j < k && (#[trigger] customs[j]).usable() ==> placed(layout, Control::Custom { custom: j as usize })
            || !free_within(layout, customs[j].shape)
}

proof fn lemma_live_only(layout: Seq<Instance>, defined: nat)
    ensures
        forall|a: int| 0 <= a < live_only(layout, defined).len() ==> is_live(#[trigger] live_only(layout, defined)[a], defined),
        forall|a: int| 0 <= a < live_only(layout, defined).len() ==> layout.contains(#[trigger] live_only(layout, defined)[a]),
        (forall|a: int| 0 <= a < layout.len() ==> is_live(#[trigger] layout[a], defined)) ==> live_only(layout, defined) == layout,
        valid_layout(layout) ==> valid_layout(live_only(layout, defined)),
    decreases layout.len(),
{
    if layout.len() > 0 {
        let init = layout.drop_last();
        let last = layout.last();
        lemma_live_only(init, defined);
        let prev = live_only(init, defined);
        let out = live_only(layout, defined);
        assert forall|a: int| 0 <= a < out.len() implies layout.contains(#[trigger] out[a]) by {
            if a < prev.len() {
                assert(init.contains(prev[a]));
                let j = choose|j: int| 0 <= j < init.len() && init[j] == prev[a];
                assert(layout[j] == prev[a]);
            } else {
                assert(out[a] == last);
                assert(layout[layout.len() - 1] == last);
            }
        }
        if forall|a: int| 0 <= a < layout.len() ==> is_live(#[trigger] layout[a], defined) {
            assert forall|a: int| 0 <= a < init.len() implies is_live(#[trigger] init[a], defined) by {
                assert(init[a] == layout[a]);
            }
            assert(is_live(layout[layout.len() - 1], defined));
            assert(init.push(last) == layout);
        }
        if valid_layout(layout) {
            assert forall|a: int, b: int| 0 <= a < b < init.len() implies (#[trigger] init[a]).spec_slot().clear_of(
                (#[trigger] init[b]).spec_slot(),
            ) by {
                assert(init[a] == layout[a] && init[b] == layout[b]);
            }
            assert forall|a: int| 0 <= a < init.len() implies (#[trigger] init[a]).spec_slot().spec_in_bounds() by {
                assert(init[a] == layout[a]);
            }
            if is_live(last, defined) {
                assert forall|a: int, b: int| 0 <= a < b < out.len() implies (#[trigger] out[a]).spec_slot().clear_of(
                    (#[trigger] out[b]).spec_slot(),
                ) by {
                    if b == out.len() - 1 {
                        assert(init.contains(prev[a]));
                        let j = choose|j: int| 0 <= j < init.len() && init[j] == prev[a];
                        assert(layout[j] == out[a]);
                        assert(layout[layout.len() - 1] == out[b]);
                    } else {
                        assert(out[a] == prev[a] && out[b] == prev[b]);
                    }
                }
                assert forall|a: int| 0 <= a < out.len() implies (#[trigger] out[a]).spec_slot().spec_in_bounds() by {
                    if a == out.len() - 1 {
                        assert(layout[layout.len() - 1] == out[a]);
                    } else {
                        assert(out[a] == prev[a]);
                    }
                }
            }
        }
    }
}

/// Placing one more instance frees no cell: where no cell was free, none is.
proof fn lemma_free_within_push(layout: Seq<Instance>, x: Instance, shape: TileShape)
    ensures
        !free_within(layout, shape) ==> !free_within(layout.push(x), shape),
{
    if free_within(layout.push(x), shape) {
        let (c, w) = choose|c: int, w: int|
            0 <= c < crate::tile_layout::GRID_COLUMNS && 0 <= w && w + shape.spec_rows() <= u16::MAX
                && #[trigger] free_spec(layout.push(x), Slot { shape, col: c as u16, row: w as u16 });
        let probe = Slot { shape, col: c as u16, row: w as u16 };
        assert forall|i: int| 0 <= i < layout.len() implies (#[trigger] layout[i]).spec_slot().clear_of(probe) by {
            assert(layout.push(x)[i] == layout[i]);
        }
        assert(free_spec(layout, probe));
    }
}

proof fn lemma_placed_push(layout: Seq<Instance>, x: Instance, c: Control)
    ensures
        placed(layout, c) ==> placed(layout.push(x), c),
        x.control == c ==> placed(layout.push(x), c),
{
    if placed(layout, c) {
        let i = choose|i: int| 0 <= i < layout.len() && (#[trigger] layout[i]).control == c;
        assert(layout.push(x)[i] == layout[i]);
    }
    assert(layout.push(x)[layout.len() as int] == x);
}

/// Whether [`with_customs`] places custom tile `index` on `before`.
pub open spec fn places_custom(before: Seq<Instance>, customs: Seq<custom::TileView>, index: nat) -> bool {
    &&& customs[index as int].usable()
    &&& !placed(before, Control::Custom { custom: index as usize })
    &&& free_within(before, customs[index as int].shape)
}

/// One step of [`with_customs`], given the cell [`first_free`] found: the
/// layout stays valid and live, and one more custom tile is settled.
proof fn lemma_custom_step(layout: Seq<Instance>, customs: Seq<custom::TileView>, index: nat, p: (u16, u16))
    requires
        index < customs.len(),
        valid_layout(with_customs(layout, customs, index)),
        forall|a: int|
            0 <= a < with_customs(layout, customs, index).len() ==> is_live(
                #[trigger] with_customs(layout, customs, index)[a],
                customs.len(),
            ),
        settled(with_customs(layout, customs, index), customs, index),
        places_custom(with_customs(layout, customs, index), customs, index) ==> first_free_at(
            with_customs(layout, customs, index),
            customs[index as int].shape,
            p,
        ) && p.1 + customs[index as int].shape.spec_rows() <= u16::MAX,
    ensures
        places_custom(with_customs(layout, customs, index), customs, index) ==> with_customs(layout, customs, index + 1)
            == with_customs(layout, customs, index).push(
            Instance {
                control: Control::Custom { custom: index as usize },
                shape: customs[index as int].shape,
                col: p.0,
                row: p.1,
            },
        ),
        !places_custom(with_customs(layout, customs, index), customs, index) ==> with_customs(layout, customs, index + 1)
            == with_customs(layout, customs, index),
        valid_layout(with_customs(layout, customs, index + 1)),
        forall|a: int|
            0 <= a < with_customs(layout, customs, index + 1).len() ==> is_live(
                #[trigger] with_customs(layout, customs, index + 1)[a],
                customs.len(),
            ),
        settled(with_customs(layout, customs, index + 1), customs, index + 1),
{
    let before = with_customs(layout, customs, index);
    let control = Control::Custom { custom: index as usize };
    let shape = customs[index as int].shape;
    let out = with_customs(layout, customs, index + 1);
    assert((index + 1) as nat - 1 == index);
    if places_custom(before, customs, index) {
        lemma_first_free_unique(before, shape, p);
        let x = Instance { control, shape, col: p.0, row: p.1 };
        laws::law_placing_where_free_keeps_a_layout_valid(before, control, shape, p.0, p.1);
        assert(out == before.push(x));
        assert forall|a: int| 0 <= a < out.len() implies is_live(#[trigger] out[a], customs.len()) by {
            if a < before.len() {
                assert(out[a] == before[a]);
            }
        }
        assert forall|j: int|
            0 <= j < index + 1 && (#[trigger] customs[j]).usable() implies placed(out, Control::Custom { custom: j as usize })
                || !free_within(out, customs[j].shape) by {
            lemma_placed_push(before, x, Control::Custom { custom: j as usize });
            lemma_free_within_push(before, x, customs[j].shape);
        }
    } else {
        assert(out == before);
    }
}

/// Once every custom tile is settled and every instance live, looking at the
/// custom tiles again changes nothing.
proof fn lemma_with_customs_settled(layout: Seq<Instance>, customs: Seq<custom::TileView>, k: nat)
    requires
        k <= customs.len(),
        settled(layout, customs, customs.len()),
    ensures
        with_customs(layout, customs, k) == layout,
    decreases k,
{
    if k > 0 {
        lemma_with_customs_settled(layout, customs, (k - 1) as nat);
        let index = (k - 1) as int;
        assert(customs[index].usable() ==> placed(layout, Control::Custom { custom: index as usize })
            || !free_within(layout, customs[index].shape));
    }
}

proof fn lemma_resolved_by_switches<F: Fn(TileKey) -> bool>(
    order: Seq<TileKey>,
    is_enabled: F,
    keys: Seq<TileKey>,
    m: Modules,
)
    requires
        resolved_by(order, is_enabled, keys),
        forall|k: TileKey, b: bool| call_ensures(is_enabled, (k,), b) ==> b == m.has(k),
    ensures
        keys == enabled_keys(order, m),
{
    let merged = merged_order(order);
    let answers = choose|answers: Seq<bool>|
        {
            &&& answers.len() == merged.len()
            &&& forall|i: int| 0 <= i < answers.len() ==> call_ensures(is_enabled, (merged[i],), #[trigger] answers[i])
            &&& keys == kept_by(merged, answers)
        };
    let wanted = merged.map_values(|k: TileKey| m.has(k));
    assert forall|i: int| 0 <= i < merged.len() implies answers[i] == wanted[i] by {
        assert(call_ensures(is_enabled, (merged[i],), answers[i]));
    }
    lemma_kept_by_prefix(merged, answers, wanted);
}

proof fn lemma_nothing_kept<T>(s: Seq<T>, keep: Seq<bool>)
    requires
        keep.len() >= s.len(),
        forall|i: int| 0 <= i < s.len() ==> !keep[i],
    ensures
        kept_by(s, keep).len() == 0,
    decreases s.len(),
{
    if s.len() > 0 {
        lemma_nothing_kept(s.drop_last(), keep);
    }
}

proof fn lemma_enabled_keys_empty(order: Seq<TileKey>, m: Modules)
    requires
        enabled_keys(order, m).len() == 0,
    ensures
        forall|k: TileKey| !m.has(k),
{
    let merged = merged_order(order);
    let mask = merged.map_values(|k: TileKey| m.has(k));
    laws::lemma_first_occurrences(order + crate::tile_layout::DEFAULT_ORDER@);
    laws::lemma_kept_by_sub(merged, mask);
    assert forall|k: TileKey| !m.has(k) by {
        laws::law_every_key_is_in_the_default_order(k);
        let j = choose|j: int| 0 <= j < crate::tile_layout::DEFAULT_ORDER@.len() && crate::tile_layout::DEFAULT_ORDER@[j] == k;
        assert((order + crate::tile_layout::DEFAULT_ORDER@)[order.len() + j] == k);
        assert((order + crate::tile_layout::DEFAULT_ORDER@).contains(k));
        let i = choose|i: int| 0 <= i < merged.len() && merged[i] == k;
        if mask[i] {
            assert(kept_by(merged, mask).contains(merged[i]));
        }
    }
}

proof fn lemma_enabled_keys_len(order: Seq<TileKey>, m: Modules)
    ensures
        enabled_keys(order, m).len() <= 17,
{
    let merged = merged_order(order);
    let mask = merged.map_values(|k: TileKey| m.has(k));
    lemma_kept_len(merged, mask);
    crate::tile_layout::lemma_merged_order_len(order);
}

proof fn lemma_kept_len<T>(s: Seq<T>, keep: Seq<bool>)
    ensures
        kept_by(s, keep).len() <= s.len(),
    decreases s.len(),
{
    if s.len() > 0 {
        lemma_kept_len(s.drop_last(), keep);
    }
}

/// Whatever layout the built-in part of migration gives, built from the
/// ordered model or validated from a stored one, is valid: inside the grid,
/// nothing overlapping. [`Config::migrated`] keeps this through the custom
/// tiles.
pub proof fn law_migrated_config_layout_is_valid(
    layout: Seq<Instance>,
    order: Seq<TileKey>,
    shapes: Map<TileKey, TileShape>,
    m: Modules,
)
    ensures
        valid_layout(migrated_layout_of(layout, order, shapes, m)),
{
    if layout.len() == 0 {
        lemma_enabled_keys_len(order, m);
        laws::law_migrated_layout_is_valid(enabled_keys(order, m), shapes);
    } else {
        laws::law_validate_gives_a_valid_layout(layout);
    }
}

/// The built-in part of migration, run on its own result, changes nothing:
/// loading a file twice never stacks or moves tiles. [`Config::migrated`]
/// states the same of the whole migration, custom tiles included.
///
/// Holds unless validation dropped every instance of a populated layout, in
/// which case the next load starts again from the default grid.
pub proof fn law_migration_is_idempotent(
    layout: Seq<Instance>,
    order: Seq<TileKey>,
    shapes: Map<TileKey, TileShape>,
    m: Modules,
)
    requires
        layout.len() == 0 || validate_spec(layout).len() > 0,
    ensures
        migrated_layout_of(
            migrated_layout_of(layout, order, shapes, m),
            Seq::empty(),
            Map::empty(),
            m,
        ) == migrated_layout_of(layout, order, shapes, m),
{
    let once = migrated_layout_of(layout, order, shapes, m);
    law_migrated_config_layout_is_valid(layout, order, shapes, m);
    if once.len() > 0 {
        laws::law_validate_keeps_a_valid_layout(once);
    } else {
        assert(layout.len() == 0);
        assert(enabled_keys(order, m).len() == 0);
        lemma_enabled_keys_empty(order, m);
        let merged = merged_order(Seq::empty());
        lemma_nothing_kept(merged, merged.map_values(|k: TileKey| m.has(k)));
        assert(migrated_layout_of(once, Seq::empty(), Map::empty(), m).len() == 0);
        assert(migrated_layout_of(once, Seq::empty(), Map::empty(), m) =~= once);
    }
}

impl Config {
    /// Whether `[modules]` has this tile switched on.
    pub fn module_enabled(&self, key: TileKey) -> (r: bool)
        ensures
            r == self.modules.has(key),
    {
        self.modules.has_exec(key)
    }

    /// Bring a just-parsed config up to the instance-based layout.
    ///
    /// An empty `layout` (a file from the ordered model, or a fresh install)
    /// is built by running the old packer once over the resolved order, with
    /// the tiles whose module is off left out; a populated `layout` is only
    /// validated, since hand edits can overlap. Either way `order` and
    /// `shapes` are forgotten, so the next save drops them.
    ///
    /// A custom instance whose `[[custom]]` entry is gone is dropped, and each
    /// usable custom tile not on the grid yet goes on it at the first free
    /// cell for its shape. The result is a valid layout, and loading it again
    /// changes nothing, unless a populated layout came out empty.
    pub fn migrated(self) -> (r: Self)
        requires
            forall|i: int|
                0 <= i < self.appearance.layout@.len() ==> #[trigger] self.appearance.layout@[i].row
                    + self.appearance.layout@[i].shape.spec_rows() <= u16::MAX,
        ensures
            r.appearance.layout@ == loaded_layout(
                self.appearance.layout@,
                self.appearance.order@,
                self.appearance.shapes@,
                self.modules,
                custom::views(self.custom@),
            ),
            valid_layout(r.appearance.layout@),
            forall|i: int|
                0 <= i < r.appearance.layout@.len() ==> #[trigger] r.appearance.layout@[i].row
                    + r.appearance.layout@[i].shape.spec_rows() <= u16::MAX,
            self.appearance.layout@.len() == 0 || r.appearance.layout@.len() > 0 ==> loaded_layout(
                r.appearance.layout@,
                Seq::empty(),
                Map::empty(),
                r.modules,
                custom::views(r.custom@),
            ) == r.appearance.layout@,
            r.appearance.order@.len() == 0,
            r.appearance.shapes@ == Map::<TileKey, TileShape>::empty(),
            r.modules == self.modules,
            r.indicators == self.indicators,
            r.dns == self.dns,
            r.custom == self.custom,
            r.appearance.style == self.appearance.style,
            r.appearance.finish == self.appearance.finish,
            r.appearance.icon == self.appearance.icon,
    {
        let mut this = self;
        let modules = this.modules;
        if this.appearance.layout.len() == 0 {
            let is_enabled = |k: TileKey| -> (b: bool)
                ensures
                    b == modules.has(k),
                { modules.has_exec(k) };
            let built = migrate_from_packed(this.appearance.order.as_slice(), &this.appearance.shapes, is_enabled);
            proof {
                let keys = choose|keys: Seq<TileKey>|
                    resolved_by(self.appearance.order@, is_enabled, keys) && built@ == migrated_layout(
                        keys,
                        self.appearance.shapes@,
                    );
                lemma_resolved_by_switches(self.appearance.order@, is_enabled, keys, modules);
            }
            this.appearance.layout = built;
        } else {
            let kept = validate(this.appearance.layout.as_slice());
            this.appearance.layout = kept;
        }
        let ghost base = this.appearance.layout@;
        let defined: usize = this.custom.len();
        let ghost customs = custom::views(this.custom@);
        proof {
            assert(base == migrated_layout_of(
                self.appearance.layout@,
                self.appearance.order@,
                self.appearance.shapes@,
                self.modules,
            ));
            law_migrated_config_layout_is_valid(
                self.appearance.layout@,
                self.appearance.order@,
                self.appearance.shapes@,
                self.modules,
            );
            lemma_live_only(base, defined as nat);
        }
        let mut live: Vec<Instance> = Vec::new();
        let mut i: usize = 0;
        while i < this.appearance.layout.len()
            invariant
                i <= base.len(),
                base == this.appearance.layout@,
                live@ == live_only(base.take(i as int), defined as nat),
            decreases base.len() - i,
        {
            let instance = this.appearance.layout[i];
            let keep = match instance.control {
                Control::Custom { custom } => custom < defined,
                Control::Builtin(_) => true,
            };
            proof {
                assert(base.take(i + 1).drop_last() == base.take(i as int));
                assert(base.take(i + 1).last() == base[i as int]);
            }
            if keep {
                live.push(instance);
            }
            i = i + 1;
        }
        proof {
            assert(base.take(i as int) == base);
        }
        let ghost start = live@;
        proof {
            if self.appearance.layout@.len() == 0 {
                lemma_enabled_keys_len(self.appearance.order@, self.modules);
                laws::law_migrated_layout_is_valid(
                    enabled_keys(self.appearance.order@, self.modules),
                    self.appearance.shapes@,
                );
                assert forall|a: int| 0 <= a < base.len() implies #[trigger] base[a].row
                    + base[a].shape.spec_rows() <= u16::MAX by {
                    assert(base[a].spec_slot().edges_fit());
                }
            } else {
                assert(base == validate_spec(self.appearance.layout@));
                laws::law_validate_keeps_only_input(self.appearance.layout@);
                assert forall|a: int| 0 <= a < base.len() implies #[trigger] base[a].row
                    + base[a].shape.spec_rows() <= u16::MAX by {
                    assert(base.contains(base[a]));
                    assert(validate_spec(self.appearance.layout@).contains(base[a]));
                    assert(self.appearance.layout@.contains(base[a]));
                    let j = choose|j: int|
                        0 <= j < self.appearance.layout@.len() && self.appearance.layout@[j] == base[a];
                    assert(self.appearance.layout@[j].row + self.appearance.layout@[j].shape.spec_rows()
                        <= u16::MAX);
                }
            }
            assert forall|a: int| 0 <= a < start.len() implies #[trigger] start[a].row
                + start[a].shape.spec_rows() <= u16::MAX by {
                assert(base.contains(start[a]));
                let j = choose|j: int| 0 <= j < base.len() && base[j] == start[a];
                assert(base[j].row + base[j].shape.spec_rows() <= u16::MAX);
            }
        }
        let mut grid = live;
        let mut index: usize = 0;
        while index < defined
            invariant
                index <= defined,
                defined == this.custom@.len(),
                customs == custom::views(this.custom@),
                grid@ == with_customs(start, customs, index as nat),
                grid@.len() >= start.len(),
                valid_layout(grid@),
                forall|a: int| 0 <= a < grid@.len() ==> is_live(#[trigger] grid@[a], defined as nat),
                settled(grid@, customs, index as nat),
                forall|a: int| 0 <= a < grid@.len() ==> #[trigger] grid@[a].row + grid@[a].shape.spec_rows()
                    <= u16::MAX,
            decreases defined - index,
        {
            let control = Control::custom(index);
            let shape = this.custom[index].shape;
            let usable = this.custom[index].is_usable();
            let taken = is_placed(grid.as_slice(), control);
            let mut p: (u16, u16) = (0, 0);
            let mut fits = false;
            proof {
                assert(customs[index as int] == this.custom@[index as int]@);
            }
            if usable && !taken {
                proof {
                    assert forall|a: int| 0 <= a < grid@.len() implies (#[trigger] grid@[a]).spec_slot().edges_fit() by {
                        assert(grid@[a].spec_slot().spec_in_bounds());
                    }
                }
                match first_free_within(grid.as_slice(), shape) {
                    Some(spot) => {
                        p = spot;
                        fits = true;
                    },
                    None => {},
                }
            }
            proof {
                lemma_custom_step(start, customs, index as nat, p);
            }
            if usable && !taken && fits {
                grid.push(Instance::of(control, shape, p.0, p.1));
            }
            index = index + 1;
        }
        proof {
            let r_layout = grid@;
            let m = this.modules;
            if r_layout.len() > 0 {
                laws::law_validate_keeps_a_valid_layout(r_layout);
                lemma_live_only(r_layout, defined as nat);
                lemma_with_customs_settled(r_layout, customs, defined as nat);
            } else if self.appearance.layout@.len() == 0 {
                let keys = enabled_keys(self.appearance.order@, m);
                assert forall|a: int| 0 <= a < base.len() implies is_live(#[trigger] base[a], defined as nat) by {
                    assert(base[a].control == Control::Builtin(keys[a]));
                }
                assert(start.len() == 0);
                assert(base.len() == 0);
                assert(keys.len() == 0);
                lemma_enabled_keys_empty(self.appearance.order@, m);
                let merged = merged_order(Seq::empty());
                lemma_nothing_kept(merged, merged.map_values(|k: TileKey| m.has(k)));
                assert(migrated_layout_of(r_layout, Seq::empty(), Map::empty(), m).len() == 0);
                assert(live_only(migrated_layout_of(r_layout, Seq::empty(), Map::empty(), m), defined as nat)
                    =~= start);
            }
        }
        this.appearance.layout = grid;
        this.appearance.order.clear();
        this.appearance.shapes.clear();
        this
    }
}

impl Config {
    /// Take what was typed as a custom panel icon: the name without the white
    /// space around it, or nothing at all when only white space was typed.
    pub fn apply_custom_icon(&mut self, typed: &str)
        ensures
            trimmed(typed@).len() == 0 ==> *final(self) == *old(self),
            trimmed(typed@).len() > 0 ==> {
                &&& final(self).appearance.icon matches PanelIcon::Custom(name) && name@ == trimmed(typed@)
                &&& *final(self) == (Config {
                    appearance: Appearance { icon: final(self).appearance.icon, ..old(self).appearance },
                    ..*old(self)
                })
            },
    {
        let name = trim(typed);
        if name.unicode_len() > 0 {
            self.appearance.icon = PanelIcon::Custom(name);
        }
    }
}

impl Config {
    /// The configuration a first run writes: the defaults, with `offered`
    /// (the shipped launchers whose program is here) as the custom tiles,
    /// brought up to the instance-based layout.
    ///
    /// The launchers are offered on a first run and nowhere else, so that
    /// deleting the last custom tile does not bring them back.
    pub fn first_run(offered: Vec<custom::Tile>) -> (r: Self)
        ensures
            r.custom == offered,
            r.modules == Modules::default_spec(),
            r.indicators == Indicators::default_spec(),
            r.appearance.layout@ == loaded_layout(
                Seq::empty(),
                Seq::empty(),
                Map::empty(),
                Modules::default_spec(),
                custom::views(offered@),
            ),
            r.appearance.order@.len() == 0,
            r.appearance.shapes@ == Map::<TileKey, TileShape>::empty(),
            r.appearance.style == TileStyle::High,
            r.appearance.finish == TileFinish::Frosted,
            r.appearance.icon is Preset && r.appearance.icon->Preset_0@ == DEFAULT_PRESET@,
            r.dns.custom_providers@.len() == 0,
    {
        let mut fresh = Config::default();
        fresh.custom = offered;
        proof {
            assert(fresh.appearance.layout@ =~= Seq::<Instance>::empty());
            assert(fresh.appearance.order@ =~= Seq::<TileKey>::empty());
        }
        fresh.migrated()
    }
}

/// Setting a switch by its settings key and reading it back by that key
/// gives what was set; a key that names no module reads as nothing before
/// and after.
#[verifier::spinoff_prover]
pub proof fn law_a_switch_reads_back_as_set(m: Modules, key: Seq<char>, value: bool)
    ensures
        m.named_spec(key) is Some ==> m.with_named(key, value).named_spec(key) == Some(value),
        m.named_spec(key) is None ==> m.with_named(key, value) == m,
{
    if key == "connectivity"@ {
        assert(m.with_named(key, value) == Modules { connectivity: value, ..m });
    } else if key == "wifi"@ {
        assert(m.with_named(key, value) == Modules { wifi: value, ..m });
    } else if key == "bluetooth"@ {
        assert(m.with_named(key, value) == Modules { bluetooth: value, ..m });
    } else if key == "battery"@ {
        assert(m.with_named(key, value) == Modules { battery: value, ..m });
    } else if key == "dns"@ {
        assert(m.with_named(key, value) == Modules { dns: value, ..m });
    } else if key == "volume"@ {
        assert(m.with_named(key, value) == Modules { volume: value, ..m });
    } else if key == "brightness"@ {
        assert(m.with_named(key, value) == Modules { brightness: value, ..m });
    } else if key == "dark_mode"@ {
        assert(m.with_named(key, value) == Modules { dark_mode: value, ..m });
    } else if key == "tiling"@ {
        assert(m.with_named(key, value) == Modules { tiling: value, ..m });
    } else if key == "gamemode"@ {
        assert(m.with_named(key, value) == Modules { gamemode: value, ..m });
    } else if key == "microphone"@ {
        assert(m.with_named(key, value) == Modules { microphone: value, ..m });
    } else if key == "keyboard_backlight"@ {
        assert(m.with_named(key, value) == Modules { keyboard_backlight: value, ..m });
    } else if key == "media"@ {
        assert(m.with_named(key, value) == Modules { media: value, ..m });
    } else if key == "vpn"@ {
        assert(m.with_named(key, value) == Modules { vpn: value, ..m });
    } else if key == "do_not_disturb"@ {
        assert(m.with_named(key, value) == Modules { do_not_disturb: value, ..m });
    } else if key == "keep_awake"@ {
        assert(m.with_named(key, value) == Modules { keep_awake: value, ..m });
    } else if key == "charge_threshold"@ {
        assert(m.with_named(key, value) == Modules { charge_threshold: value, ..m });
    }
}

} // verus!
