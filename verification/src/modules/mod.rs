//! Backend modules: what each control decides from the state its service
//! reports. The services themselves are reached outside the library.
use vstd::prelude::*;

use crate::text::{lemma_text_before_order, text_before, text_before_exec};

pub mod battery;
pub mod bluetooth;
pub mod brightness;
pub mod caffeine;
pub mod custom;
pub mod dns;
pub mod gamemode;
pub mod keyboard;
pub mod media;
pub mod network;
pub mod system;
pub mod tiling;
pub mod volume;
pub mod vpn;

verus! {

/// Whether a module has a working backend behind it.
///
/// `Unavailable` means "this machine has no such hardware or daemon"; it is
/// not an error.
#[derive(Debug, Clone, Copy, PartialEq, Eq, Structural)]
pub enum Availability {
    /// Not probed yet.
    Unknown,
    Available,
    Unavailable,
}

impl Availability {
    /// Should the tile be drawn? `Unknown` counts as no, so the popup settles
    /// into its final shape instead of reflowing as each backend answers.
    pub fn is_shown(self) -> (r: bool)
        ensures
            r == (self == Availability::Available),
    {
        match self {
            Availability::Available => true,
            _ => false,
        }
    }
}

impl Default for Availability {
    fn default() -> (r: Self)
        ensures
            r == Availability::Unknown,
    {
        Availability::Unknown
    }
}

/// Index `b` holds the first of the marked names in sorted order: no marked
/// name sorts before it, and of equal names it is the first.
pub open spec fn lowest_marked(names: Seq<Seq<char>>, marked: Seq<bool>, b: int) -> bool {
    &&& 0 <= b < names.len()
    &&& marked[b]
    &&& forall|j: int| 0 <= j < b && #[trigger] marked[j] ==> text_before(names[b], names[j])
    &&& forall|j: int| b < j < names.len() && #[trigger] marked[j] ==> !text_before(names[j], names[b])
}

/// The first of the marked names in sorted order, if any is marked: what
/// sorting the names and taking the first marked one gives, without
/// sorting.
pub fn lowest_marked_exec(names: &[String], marked: &[bool]) -> (r: Option<usize>)
    requires
        names@.len() == marked@.len(),
    ensures
        r is None <==> forall|j: int| 0 <= j < marked@.len() ==> !marked@[j],
        r matches Some(b) ==> lowest_marked(names@.map_values(|s: String| s@), marked@, b as int),
{
    let ghost n = names@.map_values(|s: String| s@);
    let mut best: Option<usize> = None;
    let mut i: usize = 0;
    while i < names.len()
        invariant
            i <= names@.len(),
            names@.len() == marked@.len(),
            n == names@.map_values(|s: String| s@),
            best is None <==> forall|j: int| 0 <= j < i ==> !marked@[j],
            best matches Some(b) ==> {
                &&& b < i
                &&& marked@[b as int]
                &&& forall|j: int| 0 <= j < b && #[trigger] marked@[j] ==> text_before(n[b as int], n[j])
                &&& forall|j: int| b < j < i && #[trigger] marked@[j] ==> !text_before(n[j], n[b as int])
            },
        decreases names@.len() - i,
    {
        if marked[i] {
            match best {
                None => {
                    best = Some(i);
                },
                Some(b) => {
                    if text_before_exec(names[i].as_str(), names[b].as_str()) {
                        proof {
                            assert forall|j: int| 0 <= j < i && #[trigger] marked@[j] implies text_before(
                                n[i as int],
                                n[j],
                            ) by {
                                lemma_text_before_order(n[i as int], n[b as int], n[j]);
                                lemma_text_before_order(n[b as int], n[j], n[j]);
                                if j > b {
                                    lemma_text_before_order(n[j], n[b as int], n[i as int]);
                                }
                            }
                        }
                        best = Some(i);
                    }
                },
            }
        }
        i = i + 1;
    }
    best
}

} // verus!
