//! Identity, shape and default order for every tile that can appear in the
//! popup, and the geometry that places them on the grid.
//!
//! [`TileKey`] names a control, [`TileShape`] is its footprint, and
//! [`DEFAULT_ORDER`] is what a fresh install shows. The grid is
//! [`GRID_COLUMNS`] sub-columns wide and unbounded downwards; a Small tile is
//! two sub-columns, so the grid still reads as "two tiles wide".
//!
//! The free-placement layout is a list of [`Instance`]s; [`validate`],
//! [`free_at`] and [`first_free`] guard it. The older ordered model survives
//! for migration only, through [`resolve_order`] and [`pack`]; [`place`] and
//! [`bands`] turn either into something drawable.
use vstd::prelude::*;

pub mod geometry;
pub mod packing;
pub mod placing;
pub mod appearances;
pub mod cutting;
pub mod editor;
pub mod laws;

pub use geometry::{Control, Instance, Placement, Slot};
pub use packing::{pack, rows_fit, Pack};
pub use placing::{
    first_free, first_free_within, free_at, is_placed, migrate_from_packed, packed_slots, place, placed, validate,
};
pub use cutting::{bands, Band, Entry, Strip};



verus! {

/// Every tile the popup can draw.
#[derive(Debug, Clone, Copy, PartialEq, Eq, Hash, Structural)]
pub enum TileKey {
    /// The Wi-Fi + Bluetooth + VPN grouped tile.
    Connectivity,
    Wifi,
    Bluetooth,
    Vpn,
    Battery,
    Dns,
    DarkMode,
    Tiling,
    GameMode,
    Media,
    DoNotDisturb,
    KeepAwake,
    ChargeThreshold,
    KeyboardBacklight,
    Volume,
    Brightness,
    Microphone,
}

/// A tile's footprint on the grid, in sub-columns and rows:
/// `Half` 1×1, `Small` 2×1, `Wide` 4×1, `Tall` 2×2.
#[derive(Debug, Clone, Copy, PartialEq, Eq, Hash, Structural)]
pub enum TileShape {
    /// Half a Small: icon only, four to a row.
    Half,
    Small,
    Wide,
    Tall,
}

/// The grid's width in sub-columns.
pub const GRID_COLUMNS: u16 = 4;

impl TileShape {
    pub open spec fn spec_columns(self) -> usize {
        match self {
            TileShape::Half => 1,
            TileShape::Small | TileShape::Tall => 2,
            TileShape::Wide => 4,
        }
    }

    pub open spec fn spec_rows(self) -> usize {
        match self {
            TileShape::Half | TileShape::Small | TileShape::Wide => 1,
            TileShape::Tall => 2,
        }
    }

    /// Sub-columns occupied (out of [`GRID_COLUMNS`]).
    #[verifier::when_used_as_spec(spec_columns)]
    pub fn columns(self) -> (r: usize)
        ensures
            r == self.spec_columns(),
    {
        match self {
            TileShape::Half => 1,
            TileShape::Small | TileShape::Tall => 2,
            TileShape::Wide => 4,
        }
    }

    /// Rows occupied.
    #[verifier::when_used_as_spec(spec_rows)]
    pub fn rows(self) -> (r: usize)
        ensures
            r == self.spec_rows(),
    {
        match self {
            TileShape::Half | TileShape::Small | TileShape::Wide => 1,
            TileShape::Tall => 2,
        }
    }
}

impl TileKey {
    pub open spec fn spec_default_shape(self) -> TileShape {
        match self {
            TileKey::Connectivity => TileShape::Tall,
            TileKey::Volume | TileKey::Brightness | TileKey::Microphone => TileShape::Wide,
            _ => TileShape::Small,
        }
    }

    /// Default footprint: the Connectivity group is a Tall column, the
    /// sliders read left to right across a Wide row, everything else is Small.
    #[verifier::when_used_as_spec(spec_default_shape)]
    pub fn default_shape(self) -> (r: TileShape)
        ensures
            r == self.spec_default_shape(),
    {
        match self {
            TileKey::Connectivity => TileShape::Tall,
            TileKey::Volume | TileKey::Brightness | TileKey::Microphone => TileShape::Wide,
            _ => TileShape::Small,
        }
    }

    /// The shape to draw: the user's override for this tile, else the default.
    ///
    /// An override to `Half` is honoured only for tiles whose default is
    /// `Small`: the sliders and the Connectivity group have no icon-only form.
    pub fn shape_with(self, overrides: &ShapeOverrides) -> (r: TileShape)
        ensures
            r == shape_with_spec(self, overrides@),
    {
        let default = self.default_shape();
        match overrides.get(self) {
            Some(TileShape::Half) => {
                if default != TileShape::Small {
                    default
                } else {
                    TileShape::Half
                }
            },
            Some(shape) => shape,
            None => default,
        }
    }
}

/// What [`TileKey::shape_with`] gives for `key` under the overrides `m`.
pub open spec fn shape_with_spec(key: TileKey, m: Map<TileKey, TileShape>) -> TileShape {
    let default = key.spec_default_shape();
    if m.contains_key(key) {
        if m[key] == TileShape::Half && default != TileShape::Small {
            default
        } else {
            m[key]
        }
    } else {
        default
    }
}

/// Per-tile shape overrides, from the pre-0.2 `[appearance] shapes` table.
///
/// A small association list: later entries win, so inserting a key again
/// replaces what it maps to.
#[derive(Debug, Clone, PartialEq, Eq)]
pub struct ShapeOverrides {
    entries: Vec<(TileKey, TileShape)>,
}

/// The map an association list stands for: the last entry for a key wins.
pub open spec fn assoc_map(s: Seq<(TileKey, TileShape)>) -> Map<TileKey, TileShape>
    decreases s.len(),
{
    if s.len() == 0 {
        Map::empty()
    } else {
        assoc_map(s.drop_last()).insert(s.last().0, s.last().1)
    }
}

impl View for ShapeOverrides {
    type V = Map<TileKey, TileShape>;

    closed spec fn view(&self) -> Map<TileKey, TileShape> {
        assoc_map(self.entries@)
    }
}

proof fn lemma_assoc_map_last(s: Seq<(TileKey, TileShape)>, k: TileKey, i: int)
    requires
        0 <= i < s.len(),
        s[i].0 == k,
        forall|j: int| i < j < s.len() ==> s[j].0 != k,
    ensures
        assoc_map(s).contains_key(k),
        assoc_map(s)[k] == s[i].1,
    decreases s.len(),
{
    if i < s.len() - 1 {
        lemma_assoc_map_last(s.drop_last(), k, i);
    }
}

proof fn lemma_assoc_map_absent(s: Seq<(TileKey, TileShape)>, k: TileKey)
    requires
        forall|j: int| 0 <= j < s.len() ==> s[j].0 != k,
    ensures
        !assoc_map(s).contains_key(k),
    decreases s.len(),
{
    if s.len() > 0 {
        lemma_assoc_map_absent(s.drop_last(), k);
    }
}

impl ShapeOverrides {
    pub fn new() -> (r: Self)
        ensures
            r@ == Map::<TileKey, TileShape>::empty(),
    {
        ShapeOverrides { entries: Vec::new() }
    }

    /// Set `key`'s override to `shape`, replacing any earlier one.
    pub fn insert(&mut self, key: TileKey, shape: TileShape)
        ensures
            final(self)@ == old(self)@.insert(key, shape),
    {
        self.entries.push((key, shape));
        proof {
            assert(self.entries@.drop_last() == old(self).entries@);
        }
    }

    /// The override for `key`, if there is one.
    pub fn get(&self, key: TileKey) -> (r: Option<TileShape>)
        ensures
            r == (if self@.contains_key(key) { Some(self@[key]) } else { None }),
    {
        let mut i = self.entries.len();
        while i > 0
            invariant
                i <= self.entries.len(),
                forall|j: int| i <= j < self.entries.len() ==> self.entries@[j].0 != key,
            decreases i,
        {
            i = i - 1;
            if self.entries[i].0 == key {
                proof {
                    lemma_assoc_map_last(self.entries@, key, i as int);
                }
                return Some(self.entries[i].1);
            }
        }
        proof {
            lemma_assoc_map_absent(self.entries@, key);
        }
        None
    }

    /// Whether no tile has an override.
    pub fn is_empty(&self) -> (r: bool)
        ensures
            r == (self@ == Map::<TileKey, TileShape>::empty()),
    {
        let r = self.entries.len() == 0;
        proof {
            if !r {
                let s = self.entries@;
                assert(assoc_map(s).contains_key(s.last().0));
                assert(!Map::<TileKey, TileShape>::empty().contains_key(s.last().0));
            }
        }
        r
    }

    /// The overrides as key and shape pairs; a later pair for a key
    /// replaces an earlier one, so inserting them in order rebuilds the map.
    pub fn pairs(&self) -> (r: Vec<(TileKey, TileShape)>)
        ensures
            assoc_map(r@) == self@,
    {
        let mut out: Vec<(TileKey, TileShape)> = Vec::new();
        let mut i: usize = 0;
        while i < self.entries.len()
            invariant
                i <= self.entries@.len(),
                out@ == self.entries@.take(i as int),
            decreases self.entries@.len() - i,
        {
            out.push(self.entries[i]);
            proof {
                assert(out@ =~= self.entries@.take(i + 1));
            }
            i = i + 1;
        }
        proof {
            assert(self.entries@.take(i as int) =~= self.entries@);
        }
        out
    }

    /// Forget every override.
    pub fn clear(&mut self)
        ensures
            final(self)@ == Map::<TileKey, TileShape>::empty(),
    {
        self.entries.clear();
    }
}

/// The order a fresh install shows, from "most likely to be reached for" to
/// least. It is also the reference [`resolve_order`] uses to append tiles a
/// stored order predates.
pub const DEFAULT_ORDER: [TileKey; 17] = [
    TileKey::Connectivity,
    TileKey::Wifi,
    TileKey::Bluetooth,
    TileKey::Vpn,
    TileKey::Battery,
    TileKey::Dns,
    TileKey::DarkMode,
    TileKey::Tiling,
    TileKey::GameMode,
    TileKey::Media,
    TileKey::DoNotDisturb,
    TileKey::KeepAwake,
    TileKey::ChargeThreshold,
    TileKey::KeyboardBacklight,
    TileKey::Volume,
    TileKey::Brightness,
    TileKey::Microphone,
];

/// `s` with every repeat of an earlier element removed: the first occurrence wins.
pub open spec fn first_occurrences(s: Seq<TileKey>) -> Seq<TileKey>
    decreases s.len(),
{
    if s.len() == 0 {
        s
    } else {
        let prev = first_occurrences(s.drop_last());
        if prev.contains(s.last()) {
            prev
        } else {
            prev.push(s.last())
        }
    }
}

/// The elements of `s` whose flag in `keep` is set, in order.
pub open spec fn kept_by<T>(s: Seq<T>, keep: Seq<bool>) -> Seq<T>
    decreases s.len(),
{
    if s.len() == 0 {
        s
    } else {
        let prev = kept_by(s.drop_last(), keep);
        if keep[s.len() - 1] {
            prev.push(s.last())
        } else {
            prev
        }
    }
}

/// The stored order, without repeats, followed by every default tile it lacks.
pub open spec fn merged_order(stored: Seq<TileKey>) -> Seq<TileKey> {
    first_occurrences(stored + DEFAULT_ORDER@)
}

/// `keys` is what [`resolve_order`] may return for `stored` when the
/// predicate answers `is_enabled`: the merged order, keeping exactly the
/// tiles for which the predicate returned `true`.
pub open spec fn resolved_by<F: Fn(TileKey) -> bool>(
    stored: Seq<TileKey>,
    is_enabled: F,
    keys: Seq<TileKey>,
) -> bool {
    exists|answers: Seq<bool>|
        {
            &&& answers.len() == merged_order(stored).len()
            &&& forall|i: int|
                0 <= i < answers.len() ==> call_ensures(
                    is_enabled,
                    (merged_order(stored)[i],),
                    #[trigger] answers[i],
                )
            &&& keys == kept_by(merged_order(stored), answers)
        }
}

/// The merged order names each key at most once, so it is never longer than
/// the list of every key.
pub proof fn lemma_merged_order_len(stored: Seq<TileKey>)
    ensures
        merged_order(stored).len() <= DEFAULT_ORDER@.len(),
{
    let merged = merged_order(stored);
    lemma_first_occurrences_distinct(stored + DEFAULT_ORDER@);
    merged.unique_seq_to_set();
    vstd::seq_lib::seq_to_set_is_finite(DEFAULT_ORDER@);
    DEFAULT_ORDER@.lemma_cardinality_of_set();
    assert forall|k: TileKey| merged.to_set().contains(k) implies DEFAULT_ORDER@.to_set().contains(k) by {
        laws::law_every_key_is_in_the_default_order(k);
    }
    vstd::set_lib::lemma_len_subset(merged.to_set(), DEFAULT_ORDER@.to_set());
}

proof fn lemma_first_occurrences_distinct(s: Seq<TileKey>)
    ensures
        first_occurrences(s).no_duplicates(),
        forall|k: TileKey| first_occurrences(s).contains(k) <==> s.contains(k),
    decreases s.len(),
{
    if s.len() > 0 {
        let init = s.drop_last();
        let last = s.last();
        lemma_first_occurrences_distinct(init);
        let prev = first_occurrences(init);
        assert forall|k: TileKey| s.contains(k) <==> (init.contains(k) || k == last) by {
            if s.contains(k) && k != last {
                let j = choose|j: int| 0 <= j < s.len() && s[j] == k;
                assert(init[j] == k);
            }
            if init.contains(k) {
                let j = choose|j: int| 0 <= j < init.len() && init[j] == k;
                assert(s[j] == k);
            }
            if k == last {
                assert(s[s.len() - 1] == k);
            }
        }
        if !prev.contains(last) {
            let out = prev.push(last);
            assert forall|k: TileKey| out.contains(k) <==> (prev.contains(k) || k == last) by {
                if out.contains(k) && k != last {
                    let j = choose|j: int| 0 <= j < out.len() && out[j] == k;
                    assert(prev[j] == k);
                }
                if prev.contains(k) {
                    let j = choose|j: int| 0 <= j < prev.len() && prev[j] == k;
                    assert(out[j] == k);
                }
                if k == last {
                    assert(out[out.len() - 1] == k);
                }
            }
            assert forall|i: int, j: int| 0 <= i < out.len() && 0 <= j < out.len() && i != j
                implies out[i] != out[j] by {
                if i == out.len() - 1 {
                    assert(prev[j] == out[j]);
                } else if j == out.len() - 1 {
                    assert(prev[i] == out[i]);
                } else {
                    assert(prev[i] == out[i] && prev[j] == out[j]);
                }
            }
        }
    }
}

/// Take the order from `config.toml` and produce the list to draw.
///
/// Repeats in the stored order are dropped (the first occurrence wins), every
/// default tile the stored order lacks is appended in default order, and
/// whatever `is_enabled` refuses is filtered out.
pub fn resolve_order<F: Fn(TileKey) -> bool>(stored: &[TileKey], is_enabled: F) -> (r: Vec<TileKey>)
    requires
        forall|k: TileKey| call_requires(is_enabled, (k,)),
    ensures
        resolved_by(stored@, is_enabled, r@),
{
    let ghost all = stored@ + DEFAULT_ORDER@;
    let mut order: Vec<TileKey> = Vec::new();
    let mut i: usize = 0;
    while i < stored.len()
        invariant
            i <= stored.len(),
            all == stored@ + DEFAULT_ORDER@,
            order@ == first_occurrences(all.take(i as int)),
        decreases stored.len() - i,
    {
        let key = stored[i];
        proof {
            assert(all.take(i + 1).drop_last() == all.take(i as int));
            assert(all.take(i + 1).last() == key);
        }
        if !contains_key(&order, key) {
            order.push(key);
        }
        i = i + 1;
    }
    let mut j: usize = 0;
    while j < 17
        invariant
            i == stored.len(),
            j <= 17,
            all == stored@ + DEFAULT_ORDER@,
            order@ == first_occurrences(all.take(i + j)),
        decreases 17 - j,
    {
        let key = DEFAULT_ORDER[j];
        proof {
            assert(all.take(i + j + 1).drop_last() == all.take(i + j));
            assert(all.take(i + j + 1).last() == key);
        }
        if !contains_key(&order, key) {
            order.push(key);
        }
        j = j + 1;
    }
    proof {
        assert(all.take(i + j) == all);
    }
    let mut r: Vec<TileKey> = Vec::new();
    let ghost mut answers: Seq<bool> = Seq::empty();
    let mut k: usize = 0;
    while k < order.len()
        invariant
            k <= order.len(),
            order@ == merged_order(stored@),
            forall|k: TileKey| call_requires(is_enabled, (k,)),
            answers.len() == k,
            forall|n: int| 0 <= n < k ==> call_ensures(is_enabled, (order@[n],), #[trigger] answers[n]),
            r@ == kept_by(order@.take(k as int), answers),
        decreases order.len() - k,
    {
        let key = order[k];
        let keep = is_enabled(key);
        proof {
            let old_answers = answers;
            answers = answers.push(keep);
            let t = order@.take(k + 1);
            assert(t.drop_last() == order@.take(k as int));
            assert(t.last() == key);
            lemma_kept_by_prefix(order@.take(k as int), answers, old_answers);
        }
        if keep {
            r.push(key);
        }
        k = k + 1;
    }
    proof {
        assert(order@.take(k as int) == order@);
        assert(resolved_by(stored@, is_enabled, r@));
    }
    r
}

/// Two flag sequences that agree on `s`'s indices keep the same elements.
pub proof fn lemma_kept_by_prefix<T>(s: Seq<T>, a: Seq<bool>, b: Seq<bool>)
    requires
        a.len() >= s.len(),
        b.len() >= s.len(),
        forall|i: int| 0 <= i < s.len() ==> a[i] == b[i],
    ensures
        kept_by(s, a) == kept_by(s, b),
    decreases s.len(),
{
    if s.len() > 0 {
        lemma_kept_by_prefix(s.drop_last(), a, b);
    }
}

fn contains_key(v: &Vec<TileKey>, key: TileKey) -> (r: bool)
    ensures
        r == v@.contains(key),
{
    let mut i: usize = 0;
    while i < v.len()
        invariant
            i <= v.len(),
            forall|j: int| 0 <= j < i ==> v@[j] != key,
        decreases v.len() - i,
    {
        if v[i] == key {
            assert(v@[i as int] == key);
            return true;
        }
        i = i + 1;
    }
    false
}

} // verus!
