//! What the widgets are built from: icon choices, text cut to fit, the
//! grid's geometry, and the description of a tile.
//!
//! Heights are derived from the theme's spacing rather than hardcoded, so a
//! roomier density grows the tiles instead of clipping their icons. They come
//! in half pixels, the unit in which every one of them is whole.
use vstd::prelude::*;

pub mod icons;

use crate::config::TileStyle;

verus! {

/// Icon size in every tile, in pixels.
pub const ICON_SIZE: u16 = 20;

/// The longest state line a small tile shows before it is shortened.
pub const MAX_STATE_CHARS: usize = 14;

/// `text` cut to at most `max` characters, an ellipsis standing in for what
/// was cut.
pub open spec fn truncated(text: Seq<char>, max: nat) -> Seq<char> {
    if text.len() <= max {
        text
    } else {
        text.take(if max >= 1 { max - 1 } else { 0 }) + seq!['\u{2026}']
    }
}

/// Shorten `text` to at most `max` characters, by character rather than by
/// byte so a name is never cut inside one; the ellipsis counts towards the
/// limit, and a limit below one still gets the ellipsis.
pub fn truncate(text: &str, max: usize) -> (r: String)
    ensures
        r@ == truncated(text@, max as nat),
{
    let n = text.unicode_len();
    if n <= max {
        return text.to_owned();
    }
    let keep = if max >= 1 {
        max - 1
    } else {
        0
    };
    let mut out = String::from_str(text.substring_char(0, keep));
    out.append("\u{2026}");
    proof {
        reveal_strlit("\u{2026}");
        assert(out@ =~= text@.take(keep as int) + seq!['\u{2026}']);
    }
    out
}

/// Shortened text is never wider than the limit, ellipsis included, and
/// text that fits is left alone.
pub proof fn law_truncation_fits_the_limit(text: Seq<char>, max: nat)
    requires
        max >= 1,
    ensures
        truncated(text, max).len() <= max,
        text.len() <= max ==> truncated(text, max) == text,
{
}


/// The theme's spacing tokens, as the widgets use them.
#[derive(Debug, Clone, Copy, PartialEq, Eq, Structural)]
pub struct Spacing {
    /// Gap between items in a row or column.
    pub gap: u16,
    /// Inside a tile or list row, vertically.
    pub pad_y: u16,
    /// Inside a tile or list row, horizontally.
    pub pad_x: u16,
    /// Between sections of a page.
    pub section: u16,
}

/// Padding inside the medium style's icon base, in pixels.
pub open spec fn icon_base_padding(s: Spacing) -> int {
    s.pad_y as int / 2
}

/// Height of one row inside the Connectivity tile, in pixels: its icon on
/// its base.
pub open spec fn connectivity_row_spec(s: Spacing) -> int {
    ICON_SIZE as int + 2 * icon_base_padding(s)
}

/// Height of a single-line tile, in half pixels: the icon, its own padding
/// and room for the base the medium style draws around it. The base is
/// counted whatever the style, so switching style moves no rows.
pub open spec fn one_line_half_px(s: Spacing) -> int {
    2 * (ICON_SIZE as int + 2 * s.pad_y as int + 2 * icon_base_padding(s))
}

/// In half pixels, the Small height at which a Tall tile (two of them and a
/// gap) holds three Connectivity rows, half a gap apart, inside its padding.
pub open spec fn from_rows_half_px(s: Spacing) -> int {
    3 * connectivity_row_spec(s) + 2 * s.pad_y as int
}

/// Height of a Small tile, in half pixels: one line, or what three
/// Connectivity rows in a Tall tile need, whichever is more.
pub open spec fn tile_height_spec(s: Spacing) -> int {
    if one_line_half_px(s) >= from_rows_half_px(s) {
        one_line_half_px(s)
    } else {
        from_rows_half_px(s)
    }
}

/// Height of a Tall tile, in half pixels: two tile rows and the gap between.
pub open spec fn tall_height_spec(s: Spacing) -> int {
    2 * tile_height_spec(s) + 2 * s.gap as int
}

/// Height of one row inside the Connectivity tile, in pixels.
pub fn connectivity_row_height(spacing: Spacing) -> (r: u32)
    ensures
        r == connectivity_row_spec(spacing),
{
    ICON_SIZE as u32 + 2 * (spacing.pad_y as u32 / 2)
}

/// The gap between Connectivity rows, in half pixels: half the grid's gap,
/// since three rows are one control rather than three neighbours.
pub fn connectivity_row_gap_half_px(spacing: Spacing) -> (r: u32)
    ensures
        r == spacing.gap,
{
    spacing.gap as u32
}

/// Height of a Small tile, in half pixels.
pub fn tile_height_half_px(spacing: Spacing) -> (r: u32)
    ensures
        r == tile_height_spec(spacing),
{
    let base = spacing.pad_y as u32 / 2;
    let one_line = 2 * (ICON_SIZE as u32 + 2 * spacing.pad_y as u32 + 2 * base);
    let from_rows = 3 * (ICON_SIZE as u32 + 2 * base) + 2 * spacing.pad_y as u32;
    if one_line >= from_rows {
        one_line
    } else {
        from_rows
    }
}

/// Height of a Tall tile, in half pixels, so the packer's arithmetic and
/// the drawn height agree.
pub fn tall_height_half_px(spacing: Spacing) -> (r: u32)
    ensures
        r == tall_height_spec(spacing),
{
    2 * tile_height_half_px(spacing) + 2 * spacing.gap as u32
}

/// A tile always leaves its icon the room it needs inside its padding.
pub proof fn law_a_tile_is_always_tall_enough_for_its_icon(s: Spacing)
    ensures
        tile_height_spec(s) - 4 * s.pad_y as int >= 2 * ICON_SIZE as int,
{
}

/// A Tall tile holds three Connectivity rows, and the gaps between them,
/// inside its padding.
pub proof fn law_three_connectivity_rows_fit_a_tall_tile(s: Spacing)
    ensures
        tall_height_spec(s) - 4 * s.pad_y as int >= 2 * 3 * connectivity_row_spec(s) + 2 * s.gap as int,
{
    assert(tall_height_spec(s) >= 6 * connectivity_row_spec(s) + 4 * s.pad_y as int + 2 * s.gap as int);
}

/// More vertical padding, everything else the same, makes a taller tile,
/// and never one shorter than its icon.
pub proof fn law_tile_height_grows_with_a_roomier_density(s: Spacing, t: Spacing)
    requires
        s.pad_y < t.pad_y,
        s.gap == t.gap,
    ensures
        tile_height_spec(s) < tile_height_spec(t),
        tile_height_spec(s) >= 2 * ICON_SIZE as int,
{
}

/// How a slider is drawn.
#[derive(Debug, Clone, Copy, PartialEq, Eq, Structural)]
pub enum SliderMode {
    /// In the popup, device on: the track drags, the icon mutes.
    Live,
    /// In the popup, device muted or dimmed: a bar at the level it was, and
    /// the icon still brings it back.
    Held,
    /// In the Settings preview: a picture. Nothing inside responds, since a
    /// live slider would capture every drag before the tile above it could
    /// be picked up and moved.
    Inert,
}

/// A grid tile: an icon and the thing's current state, with its full name
/// for the tooltip, since the tile itself carries no name label.
#[derive(Debug, Clone)]
pub struct Tile<Msg> {
    /// Icon only, for the Half shape: name and state move to the tooltip.
    pub compact: bool,
    pub icon_name: String,
    pub state: String,
    pub name: String,
    /// Whether the tile reads as on, which drives the accent.
    pub active: bool,
    pub style: TileStyle,
    /// What a press sends; none leaves the tile inert.
    pub on_press: Option<Msg>,
}

impl<Msg> Tile<Msg> {
    /// A tile that is off, inert, and drawn in full at the default style.
    pub fn new(icon_name: &str, name: &str, state: &str) -> (r: Self)
        ensures
            r.icon_name@ == icon_name@,
            r.name@ == name@,
            r.state@ == state@,
            !r.compact,
            !r.active,
            r.style == TileStyle::High,
            r.on_press is None,
    {
        Tile {
            compact: false,
            icon_name: icon_name.to_owned(),
            state: state.to_owned(),
            name: name.to_owned(),
            active: false,
            style: TileStyle::High,
            on_press: None,
        }
    }

    /// How strongly to signal the on state.
    pub fn style(self, style: TileStyle) -> (r: Self)
        ensures
            r == (Tile { style, ..self }),
    {
        Tile { style, ..self }
    }

    /// Whether the tile reads as on.
    pub fn active(self, active: bool) -> (r: Self)
        ensures
            r == (Tile { active, ..self }),
    {
        Tile { active, ..self }
    }

    pub fn on_press(self, msg: Msg) -> (r: Self)
        ensures
            r == (Tile { on_press: Some(msg), ..self }),
    {
        Tile { on_press: Some(msg), ..self }
    }

    /// Draw icon-only, for the Half shape.
    pub fn compact(self, compact: bool) -> (r: Self)
        ensures
            r == (Tile { compact, ..self }),
    {
        Tile { compact, ..self }
    }

    /// Set the press action, or leave the tile inert: for controls that exist
    /// but cannot be acted on right now, such as Game Mode held by a running
    /// game.
    pub fn on_press_maybe(self, msg: Option<Msg>) -> (r: Self)
        ensures
            r == (Tile { on_press: msg, ..self }),
    {
        Tile { on_press: msg, ..self }
    }

    /// Whether the accent shows: on, and a style that signals it at all.
    pub fn signalled(&self) -> (r: bool)
        ensures
            r == (self.active && self.style != TileStyle::Low),
    {
        self.active && !matches!(self.style, TileStyle::Low)
    }
}

/// One row of the Connectivity tile.
#[derive(Debug, Clone)]
pub struct ConnectivityRow<Msg> {
    pub icon_name: String,
    pub label: String,
    /// The one line of state under the label, when there is something to say.
    pub state: Option<String>,
    /// Whether this thing is on, for the accent the tile style applies.
    pub on: bool,
    /// Pressing the row body, to drill into the module's page; none makes the
    /// row inert, as the Settings preview needs.
    pub on_press: Option<Msg>,
}

} // verus!
