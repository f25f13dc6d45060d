//! Reading IPv4 server addresses out of what a person typed.
use vstd::prelude::*;

use super::Address;

verus! {

/// Whether `c` is white space as Unicode's `White_Space` property has it,
/// which is what `str::trim` strips.
pub open spec fn is_white(c: char) -> bool {
    ||| ('\u{9}' <= c && c <= '\u{d}')
    ||| c == ' '
    ||| c == '\u{85}'
    ||| c == '\u{a0}'
    ||| c == '\u{1680}'
    ||| ('\u{2000}' <= c && c <= '\u{200a}')
    ||| c == '\u{2028}'
    ||| c == '\u{2029}'
    ||| c == '\u{202f}'
    ||| c == '\u{205f}'
    ||| c == '\u{3000}'
}

fn white(c: char) -> (r: bool)
    ensures
        r == is_white(c),
{
    ('\u{9}' <= c && c <= '\u{d}') || c == ' ' || c == '\u{85}' || c == '\u{a0}' || c == '\u{1680}' || (
    '\u{2000}' <= c && c <= '\u{200a}') || c == '\u{2028}' || c == '\u{2029}' || c == '\u{202f}' || c
        == '\u{205f}' || c == '\u{3000}'
}

/// `s` without its leading white space.
pub open spec fn trim_start(s: Seq<char>) -> Seq<char>
    decreases s.len(),
{
    if s.len() > 0 && is_white(s[0]) {
        trim_start(s.drop_first())
    } else {
        s
    }
}

/// `s` without its trailing white space.
pub open spec fn trim_end(s: Seq<char>) -> Seq<char>
    decreases s.len(),
{
    if s.len() > 0 && is_white(s.last()) {
        trim_end(s.drop_last())
    } else {
        s
    }
}

/// `s` without white space at either end.
pub open spec fn trimmed(s: Seq<char>) -> Seq<char> {
    trim_end(trim_start(s))
}

/// The pieces of `s` between separators, as `str::split` yields them: two
/// separators in a row give an empty piece, and an empty `s` is one empty
/// piece.
pub open spec fn pieces(s: Seq<char>, sep: spec_fn(char) -> bool) -> Seq<Seq<char>>
    decreases s.len(),
{
    if s.len() == 0 {
        seq![Seq::empty()]
    } else {
        let before = pieces(s.drop_last(), sep);
        if sep(s.last()) {
            before.push(Seq::empty())
        } else {
            before.update(before.len() - 1, before.last().push(s.last()))
        }
    }
}

proof fn lemma_pieces_nonempty(s: Seq<char>, sep: spec_fn(char) -> bool)
    ensures
        pieces(s, sep).len() >= 1,
    decreases s.len(),
{
    if s.len() > 0 {
        lemma_pieces_nonempty(s.drop_last(), sep);
    }
}

/// The separators between addresses in a typed list.
pub open spec fn list_separator() -> spec_fn(char) -> bool {
    |c: char| c == ',' || c == ' ' || c == ';'
}

pub open spec fn dot() -> spec_fn(char) -> bool {
    |c: char| c == '.'
}

pub open spec fn is_digit(c: char) -> bool {
    '0' <= c && c <= '9'
}

pub open spec fn digit_value(c: char) -> nat {
    (c as int - '0' as int) as nat
}

/// The number a run of decimal digits writes.
pub open spec fn digits_value(t: Seq<char>) -> nat
    decreases t.len(),
{
    if t.len() == 0 {
        0
    } else {
        digits_value(t.drop_last()) * 10 + digit_value(t.last())
    }
}

/// Whether `t` writes one octet of an address: one to three decimal digits,
/// no leading zero, at most 255.
pub open spec fn octet_ok(t: Seq<char>) -> bool {
    &&& 1 <= t.len() <= 3
    &&& forall|i: int| 0 <= i < t.len() ==> is_digit(#[trigger] t[i])
    &&& !(t.len() > 1 && t[0] == '0')
    &&& digits_value(t) <= 255
}

/// The address `t` writes as four dotted octets, if it writes one.
pub open spec fn ipv4_of(t: Seq<char>) -> Option<Address> {
    let p = pieces(t, dot());
    if p.len() == 4 && octet_ok(p[0]) && octet_ok(p[1]) && octet_ok(p[2]) && octet_ok(p[3]) {
        Some(
            Address {
                a: digits_value(p[0]) as u8,
                b: digits_value(p[1]) as u8,
                c: digits_value(p[2]) as u8,
                d: digits_value(p[3]) as u8,
            },
        )
    } else {
        None
    }
}

/// The addresses the pieces write, each trimmed, in order; a piece that is
/// not an address is left out.
pub open spec fn addresses_in(ps: Seq<Seq<char>>) -> Seq<Address>
    decreases ps.len(),
{
    if ps.len() == 0 {
        Seq::empty()
    } else {
        match ipv4_of(trimmed(ps.last())) {
            Some(a) => addresses_in(ps.drop_last()).push(a),
            None => addresses_in(ps.drop_last()),
        }
    }
}

/// Trim white space from both ends.
pub fn trim(s: &str) -> (r: String)
    ensures
        r@ == trimmed(s@),
{
    let n = s.unicode_len();
    let mut a: usize = 0;
    proof {
        assert(s@.skip(0) =~= s@);
    }
    while a < n && white(s.get_char(a))
        invariant
            n == s@.len(),
            a <= n,
            trim_start(s@.skip(a as int)) == trim_start(s@),
        decreases n - a,
    {
        proof {
            assert(s@.skip(a as int).drop_first() =~= s@.skip(a + 1));
        }
        a = a + 1;
    }
    let ghost front = s@.skip(a as int);
    proof {
        assert(trim_start(front) == front);
        assert(front.take(front.len() as int) =~= front);
    }
    let mut b: usize = n;
    while b > a && white(s.get_char(b - 1))
        invariant
            n == s@.len(),
            a <= b <= n,
            front == s@.skip(a as int),
            trim_start(s@) == front,
            trim_end(front.take(b - a)) == trim_end(front),
        decreases b - a,
    {
        proof {
            assert(front.take(b - a).drop_last() =~= front.take(b - 1 - a));
        }
        b = b - 1;
    }
    proof {
        assert(trim_end(front.take(b - a)) == front.take(b - a));
        assert(front.take(b - a) =~= s@.subrange(a as int, b as int));
    }
    String::from_str(s.substring_char(a, b))
}

/// The value of an octet written as `t`, if `t` writes one.
fn octet(t: &str) -> (r: Option<u8>)
    ensures
        octet_ok(t@) <==> r is Some,
        r matches Some(v) ==> v == digits_value(t@),
{
    let n = t.unicode_len();
    if n < 1 || n > 3 {
        return None;
    }
    let mut value: u32 = 0;
    let mut i: usize = 0;
    while i < n
        invariant
            n == t@.len(),
            1 <= n <= 3,
            i <= n,
            forall|j: int| 0 <= j < i ==> is_digit(#[trigger] t@[j]),
            value == digits_value(t@.take(i as int)),
            value < 1000,
            i == 0 ==> value == 0,
            i == 1 ==> value < 10,
            i == 2 ==> value < 100,
        decreases n - i,
    {
        let c = t.get_char(i);
        if !('0' <= c && c <= '9') {
            return None;
        }
        let d: u32 = c as u32 - '0' as u32;
        proof {
            assert(t@.take(i + 1).drop_last() =~= t@.take(i as int));
            assert(t@.take(i + 1).last() == c);
            assert(d == digit_value(c));
        }
        value = value * 10 + d;
        i = i + 1;
    }
    proof {
        assert(t@.take(i as int) =~= t@);
    }
    if n > 1 && t.get_char(0) == '0' {
        return None;
    }
    if value > 255 {
        return None;
    }
    Some(value as u8)
}

/// The address `t` writes as four dotted octets, as `Ipv4Addr`'s parser
/// reads one.
pub fn ipv4(t: &str) -> (r: Option<Address>)
    ensures
        r == ipv4_of(t@),
{
    let n = t.unicode_len();
    let mut found: Vec<u8> = Vec::new();
    let mut ok = true;
    let mut start: usize = 0;
    let mut count: usize = 0;
    let mut i: usize = 0;
    proof {
        assert(t@.take(0) =~= Seq::<char>::empty());
        assert(t@.subrange(0, 0) =~= Seq::<char>::empty());
    }
    while i < n
        invariant
            n == t@.len(),
            start <= i <= n,
            pieces(t@.take(i as int), dot()).len() == count + 1,
            pieces(t@.take(i as int), dot()).last() == t@.subrange(start as int, i as int),
            found@.len() <= count,
            count <= i,
            ok ==> found@.len() == count && forall|k: int|
                0 <= k < count ==> octet_ok(pieces(t@.take(i as int), dot())[k]) && found@[k] == digits_value(
                    #[trigger] pieces(t@.take(i as int), dot())[k],
                ),
            !ok ==> exists|k: int| 0 <= k < count && !octet_ok(#[trigger] pieces(t@.take(i as int), dot())[k]),
        decreases n - i,
    {
        let ghost before = pieces(t@.take(i as int), dot());
        proof {
            assert(t@.take(i + 1).drop_last() =~= t@.take(i as int));
            assert(t@.take(i + 1).last() == t@[i as int]);
        }
        if t.get_char(i) == '.' {
            let piece = t.substring_char(start, i);
            if ok {
                match octet(piece) {
                    Some(v) => {
                        found.push(v);
                    },
                    None => {
                        ok = false;
                    },
                }
            }
            proof {
                let after = pieces(t@.take(i + 1), dot());
                assert(after == before.push(Seq::empty()));
                assert(after[count as int] == before[count as int]);
                assert forall|k: int| 0 <= k < count implies after[k] == before[k] by {}
                if !ok {
                    if exists|k: int| 0 <= k < count && !octet_ok(#[trigger] before[k]) {
                        let k = choose|k: int| 0 <= k < count && !octet_ok(#[trigger] before[k]);
                        assert(!octet_ok(after[k]));
                    } else {
                        assert(!octet_ok(after[count as int]));
                    }
                }
                assert(t@.subrange((i + 1) as int, (i + 1) as int) =~= Seq::<char>::empty());
            }
            count = count + 1;
            start = i + 1;
        } else {
            proof {
                let after = pieces(t@.take(i + 1), dot());
                assert(after == before.update(before.len() - 1, before.last().push(t@[i as int])));
                assert(t@.subrange(start as int, i + 1) =~= t@.subrange(start as int, i as int).push(t@[i as int]));
                assert forall|k: int| 0 <= k < count implies after[k] == before[k] by {}
                if !ok {
                    let k = choose|k: int| 0 <= k < count && !octet_ok(#[trigger] before[k]);
                    assert(!octet_ok(after[k]));
                }
            }
        }
        i = i + 1;
    }
    proof {
        assert(t@.take(i as int) =~= t@);
    }
    let ghost p = pieces(t@, dot());
    if !ok || count != 3 {
        return None;
    }
    let last = t.substring_char(start, n);
    match octet(last) {
        Some(v) => {
            proof {
                assert(p[3] == last@);
            }
            Some(Address { a: found[0], b: found[1], c: found[2], d: v })
        },
        None => None,
    }
}

/// The IPv4 addresses in a typed list, in order: pieces split at commas,
/// spaces and semicolons, trimmed, and read as addresses; what does not read
/// as one is dropped, so a partly valid list keeps its valid part.
pub fn parse_servers(input: &str) -> (r: Vec<Address>)
    ensures
        r@ == addresses_in(pieces(input@, list_separator())),
{
    let n = input.unicode_len();
    let mut out: Vec<Address> = Vec::new();
    let mut start: usize = 0;
    let mut i: usize = 0;
    proof {
        assert(input@.take(0) =~= Seq::<char>::empty());
        assert(input@.subrange(0, 0) =~= Seq::<char>::empty());
        assert(pieces(input@.take(0), list_separator()).drop_last() =~= Seq::<Seq<char>>::empty());
    }
    while i < n
        invariant
            n == input@.len(),
            start <= i <= n,
            pieces(input@.take(i as int), list_separator()).len() >= 1,
            pieces(input@.take(i as int), list_separator()).last() == input@.subrange(start as int, i as int),
            out@ == addresses_in(pieces(input@.take(i as int), list_separator()).drop_last()),
        decreases n - i,
    {
        let ghost before = pieces(input@.take(i as int), list_separator());
        proof {
            assert(input@.take(i + 1).drop_last() =~= input@.take(i as int));
            assert(input@.take(i + 1).last() == input@[i as int]);
        }
        let c = input.get_char(i);
        if c == ',' || c == ' ' || c == ';' {
            let piece = trim(input.substring_char(start, i));
            match ipv4(piece.as_str()) {
                Some(address) => {
                    out.push(address);
                },
                None => {},
            }
            proof {
                let after = pieces(input@.take(i + 1), list_separator());
                assert(after == before.push(Seq::empty()));
                assert(after.drop_last() == before);
                assert(before.drop_last().push(before.last()) =~= before);
                assert(input@.subrange((i + 1) as int, (i + 1) as int) =~= Seq::<char>::empty());
            }
            start = i + 1;
        } else {
            proof {
                let after = pieces(input@.take(i + 1), list_separator());
                assert(after == before.update(before.len() - 1, before.last().push(c)));
                assert(after.drop_last() =~= before.drop_last());
                assert(input@.subrange(start as int, i + 1) =~= input@.subrange(start as int, i as int).push(c));
            }
        }
        i = i + 1;
    }
    proof {
        assert(input@.take(i as int) =~= input@);
    }
    let ghost all = pieces(input@, list_separator());
    let piece = trim(input.substring_char(start, n));
    match ipv4(piece.as_str()) {
        Some(address) => {
            out.push(address);
        },
        None => {},
    }
    proof {
        assert(all.drop_last().push(all.last()) =~= all);
    }
    out
}

} // verus!
