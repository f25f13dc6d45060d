//! Which language to show: the primary subtag of the first locale setting
//! that names a real language.
use vstd::prelude::*;

use crate::text::{ascii_lower, ascii_lowercase, same_text};

verus! {

/// The language every string exists in.
pub const FALLBACK: &'static str = "en";

/// Whether `c` ends the primary subtag of a locale value: a codeset follows
/// `.`, a modifier `@`, and a region `_` or `-`.
pub open spec fn ends_subtag(c: char) -> bool {
    c == '.' || c == '@' || c == '_' || c == '-'
}

/// The length of the primary subtag at the start of `value`.
pub open spec fn subtag_len(value: Seq<char>) -> nat
    decreases value.len(),
{
    if value.len() == 0 || ends_subtag(value[0]) {
        0
    } else {
        1 + subtag_len(value.drop_first())
    }
}

/// The primary subtag of a locale value, in lower case: `de_AT.UTF-8`
/// names `de`.
pub open spec fn primary_of(value: Seq<char>) -> Seq<char> {
    value.take(subtag_len(value) as int).map_values(|c: char| ascii_lower(c))
}

/// Whether a primary subtag names a language: not empty, and not the C or
/// POSIX locale, which name none.
pub open spec fn names_a_language(primary: Seq<char>) -> bool {
    primary.len() > 0 && primary != "c"@ && primary != "posix"@
}

/// The language the first setting that names one asks for, else the
/// fallback; `values` are the settings in order of precedence, `None` where
/// one is unset.
pub open spec fn requested(values: Seq<Option<String>>) -> Seq<char>
    decreases values.len(),
{
    if values.len() == 0 {
        FALLBACK@
    } else {
        match values[0] {
            Some(v) if names_a_language(primary_of(v@)) => primary_of(v@),
            _ => requested(values.drop_first()),
        }
    }
}

fn stops(c: char) -> (r: bool)
    ensures
        r == ends_subtag(c),
{
    c == '.' || c == '@' || c == '_' || c == '-'
}

/// The primary subtag of one locale value.
pub fn primary(value: &str) -> (r: String)
    ensures
        r@ == primary_of(value@),
{
    let n = value.unicode_len();
    let mut k: usize = 0;
    proof {
        assert(value@.skip(0) =~= value@);
    }
    while k < n && !stops(value.get_char(k))
        invariant
            n == value@.len(),
            k <= n,
            subtag_len(value@) == k + subtag_len(value@.skip(k as int)),
        decreases n - k,
    {
        proof {
            assert(value@.skip(k as int).drop_first() =~= value@.skip(k + 1));
        }
        k = k + 1;
    }
    proof {
        if k < n {
            assert(value@.skip(k as int)[0] == value@[k as int]);
        }
    }
    ascii_lowercase(value.substring_char(0, k))
}

/// The language to show, from the locale settings in order of precedence.
pub fn requested_language(values: &[Option<String>]) -> (r: String)
    ensures
        r@ == requested(values@),
{
    let mut i: usize = 0;
    proof {
        assert(values@.skip(0) =~= values@);
    }
    while i < values.len()
        invariant
            i <= values@.len(),
            requested(values@.skip(i as int)) == requested(values@),
        decreases values@.len() - i,
    {
        proof {
            assert(values@.skip(i as int).drop_first() =~= values@.skip(i + 1));
            assert(values@.skip(i as int)[0] == values@[i as int]);
        }
        match &values[i] {
            Some(v) => {
                let p = primary(v.as_str());
                if !p.as_str().is_empty() && !same_text(p.as_str(), "c") && !same_text(p.as_str(), "posix") {
                    return p;
                }
            },
            None => {},
        }
        i = i + 1;
    }
    proof {
        assert(values@.skip(i as int).len() == 0);
    }
    FALLBACK.to_owned()
}


/// The text a lookup of `key` shows, given what the message bundle answered:
/// no message of that name, a message without a value, or the message
/// formatted. Anything but the formatted message shows the key itself, so a
/// forgotten string is visible in the interface rather than a panic or an
/// empty label.
pub fn shown_text(key: &str, answer: Option<Option<String>>) -> (r: String)
    ensures
        match answer {
            Some(Some(formatted)) => r@ == formatted@,
            _ => r@ == key@,
        },
{
    match answer {
        Some(Some(formatted)) => formatted,
        _ => key.to_owned(),
    }
}


/// The first setting, in order of precedence, that names a language decides:
/// whatever the settings after it say, the result is its primary subtag.
pub proof fn law_the_first_setting_naming_a_language_wins(values: Seq<Option<String>>, i: int)
    requires
        0 <= i < values.len(),
        values[i] matches Some(v) && names_a_language(primary_of(v@)),
        forall|j: int|
            0 <= j < i ==> !(#[trigger] values[j] matches Some(w) && names_a_language(primary_of(w@))),
    ensures
        requested(values) == primary_of(values[i]->0@),
    decreases i,
{
    if i > 0 {
        assert(!(values[0] matches Some(w) && names_a_language(primary_of(w@))));
        let rest = values.drop_first();
        assert forall|j: int| 0 <= j < i - 1 implies !(#[trigger] rest[j] matches Some(w) && names_a_language(
            primary_of(w@),
        )) by {
            assert(rest[j] == values[j + 1]);
        }
        assert(rest[i - 1] == values[i]);
        law_the_first_setting_naming_a_language_wins(rest, i - 1);
    }
}

/// A setting that names a language, put before any others, is what is
/// asked for; one that names none, or is unset, leaves the choice to the
/// rest; with no setting naming a language the fallback is asked for.
pub proof fn law_a_leading_setting_decides_or_defers(first: Option<String>, rest: Seq<Option<String>>)
    ensures
        (first matches Some(v) && names_a_language(primary_of(v@))) ==> requested(seq![first] + rest)
            == primary_of(first->0@),
        !(first matches Some(v) && names_a_language(primary_of(v@))) ==> requested(seq![first] + rest)
            == requested(rest),
        requested(Seq::empty()) == "en"@,
{
    let all = seq![first] + rest;
    assert(all[0] == first);
    assert(all.drop_first() =~= rest);
}

} // verus!
