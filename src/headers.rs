//! Operations on header lists, read through the mapping they denote.
use vstd::prelude::*;
use vstd::string::StrSliceExecFns;
use vstd::string::StringExecFns;
use crate::structs::{header_map, keys_unique, pairs_of};

verus! {

/// `c` is `t`, or its upper-case form when `t` is a lower-case ASCII letter.
pub open spec fn same_ignoring_case(c: char, t: char) -> bool {
    c == t || ('a' <= t && t <= 'z' && c as u32 + 32 == t as u32)
}

/// `name` spells the lower-case name `t` in any mix of cases.
pub open spec fn names_match(name: Seq<char>, t: Seq<char>) -> bool {
    name.len() == t.len() && forall|i: int|
        0 <= i < name.len() ==> same_ignoring_case(#[trigger] name[i], t[i])
}

/// The mapping without every name that spells `t`.
pub open spec fn map_without(m: Map<Seq<char>, Seq<char>>, t: Seq<char>) -> Map<
    Seq<char>,
    Seq<char>,
> {
    Map::new(|k: Seq<char>| m.contains_key(k) && !names_match(k, t), |k: Seq<char>| m[k])
}

/// The value of the last entry whose name spells `t`, if any.
pub open spec fn lookup(s: Seq<(Seq<char>, Seq<char>)>, t: Seq<char>) -> Option<Seq<char>>
    decreases s.len(),
{
    if s.len() == 0 {
        None
    } else if names_match(s.last().0, t) {
        Some(s.last().1)
    } else {
        lookup(s.drop_last(), t)
    }
}

/// Whether a header name spells the lower-case name `t`, in any mix of cases.
pub fn name_matches(name: &str, t: &str) -> (r: bool)
    ensures
        r == names_match(name@, t@),
{
    let n = name.unicode_len();
    if n != t.unicode_len() {
        return false;
    }
    let mut i: usize = 0;
    while i < n
        invariant
            n == name@.len(),
            n == t@.len(),
            i <= n,
            forall|j: int| 0 <= j < i ==> same_ignoring_case(#[trigger] name@[j], t@[j]),
        decreases n - i,
    {
        let c = name.get_char(i);
        let d = t.get_char(i);
        if !(c == d || ('a' <= d && d <= 'z' && (c as u32) + 32 == d as u32)) {
            assert(!same_ignoring_case(name@[i as int], t@[i as int]));
            return false;
        }
        i += 1;
    }
    true
}

/// The value of the last entry whose name spells `t`, in any mix of cases.
pub fn find_header(h: &Vec<(String, String)>, t: &str) -> (r: Option<String>)
    ensures
        match r {
            Some(v) => lookup(pairs_of(h@), t@) == Some(v@),
            None => lookup(pairs_of(h@), t@) is None,
        },
{
    let ghost p = pairs_of(h@);
    let mut i: usize = h.len();
    assert(p.take(i as int) =~= p);
    while i > 0
        invariant
            i <= h@.len(),
            p == pairs_of(h@),
            lookup(p, t@) == lookup(p.take(i as int), t@),
        decreases i,
    {
        assert(p.take(i as int).drop_last() =~= p.take(i - 1));
        if name_matches(h[i - 1].0.as_str(), t) {
            return Some(h[i - 1].1.clone());
        }
        i -= 1;
    }
    None
}

/// Removes every entry whose name spells `t`, in any mix of cases.
pub fn remove_header(h: &mut Vec<(String, String)>, t: &str)
    ensures
        header_map(pairs_of(final(h)@)) == map_without(header_map(pairs_of(old(h)@)), t@),
{
    let ghost p = pairs_of(old(h)@);
    let mut out: Vec<(String, String)> = Vec::new();
    let mut i: usize = 0;
    while i < h.len()
        invariant
            i <= h@.len(),
            p == pairs_of(h@),
            header_map(pairs_of(out@)) == map_without(header_map(p.take(i as int)), t@),
        decreases h@.len() - i,
    {
        assert(p.take(i + 1).drop_last() =~= p.take(i as int));
        let ghost before = out@;
        if !name_matches(h[i].0.as_str(), t) {
            out.push((h[i].0.clone(), h[i].1.clone()));
            assert(pairs_of(out@).drop_last() =~= pairs_of(before));
            assert(header_map(pairs_of(out@)) =~= map_without(header_map(p.take(i + 1)), t@));
        } else {
            assert(header_map(pairs_of(out@)) =~= map_without(header_map(p.take(i + 1)), t@));
        }
        i += 1;
    }
    assert(p.take(h@.len() as int) =~= p);
    *h = out;
}

/// Gives a name exactly one value: every entry that spells it, in any mix of
/// cases, is replaced by one entry.
pub fn set_header(h: &mut Vec<(String, String)>, name: String, value: String)
    ensures
        header_map(pairs_of(final(h)@)) == map_without(header_map(pairs_of(old(h)@)), name@).insert(
            name@,
            value@,
        ),
{
    remove_header(h, name.as_str());
    let ghost before = h@;
    let ghost (n, v) = (name@, value@);
    h.push((name, value));
    assert(pairs_of(h@).drop_last() =~= pairs_of(before));
    assert(header_map(pairs_of(h@)) =~= map_without(header_map(pairs_of(old(h)@)), n).insert(n, v));
}

/// Replacing the value of the one entry of a name, in a list where each
/// name appears once, replaces it in the mapping.
proof fn lemma_update_unique(s: Seq<(Seq<char>, Seq<char>)>, j: int, v: Seq<char>)
    requires
        keys_unique(s),
        0 <= j < s.len(),
    ensures
        header_map(s.update(j, (s[j].0, v))) == header_map(s).insert(s[j].0, v),
        keys_unique(s.update(j, (s[j].0, v))),
    decreases s.len(),
{
    let k = s[j].0;
    let u = s.update(j, (k, v));
    let t = s.drop_last();
    assert(keys_unique(u)) by {
        assert forall|a: int, b: int| 0 <= a < u.len() && 0 <= b < u.len() && a != b implies u[a].0
            != u[b].0 by {
            assert(u[a].0 == s[a].0 && u[b].0 == s[b].0);
        }
    }
    if j == s.len() - 1 {
        assert(u.drop_last() =~= t);
        assert(header_map(u) =~= header_map(s).insert(k, v));
    } else {
        assert(keys_unique(t)) by {
            assert forall|a: int, b: int|
                0 <= a < t.len() && 0 <= b < t.len() && a != b implies t[a].0 != t[b].0 by {
                assert(t[a] == s[a] && t[b] == s[b]);
            }
        }
        assert(t[j] == s[j]);
        lemma_update_unique(t, j, v);
        assert(u.drop_last() =~= t.update(j, (k, v)));
        assert(s.last().0 != k);
        assert(header_map(u) =~= header_map(s).insert(k, v));
    }
}

/// The same mapping as a list in which each name appears once, holding the
/// value of its last entry.
pub fn merge_headers(h: &Vec<(String, String)>) -> (r: Vec<(String, String)>)
    ensures
        header_map(pairs_of(r@)) == header_map(pairs_of(h@)),
        keys_unique(pairs_of(r@)),
{
    let ghost p = pairs_of(h@);
    let mut out: Vec<(String, String)> = Vec::new();
    let mut i: usize = 0;
    while i < h.len()
        invariant
            i <= h@.len(),
            p == pairs_of(h@),
            header_map(pairs_of(out@)) == header_map(p.take(i as int)),
            keys_unique(pairs_of(out@)),
        decreases h@.len() - i,
    {
        assert(p.take(i + 1).drop_last() =~= p.take(i as int));
        let mut j: usize = 0;
        while j < out.len() && out[j].0 != h[i].0
            invariant
                i < h@.len(),
                j <= out@.len(),
                forall|a: int| 0 <= a < j ==> out@[a].0@ != h@[i as int].0@,
            decreases out@.len() - j,
        {
            j += 1;
        }
        let ghost before = pairs_of(out@);
        let name = h[i].0.clone();
        let value = h[i].1.clone();
        if j < out.len() {
            proof {
                lemma_update_unique(before, j as int, value@);
            }
            out.set(j, (name, value));
            assert(pairs_of(out@) =~= before.update(j as int, (before[j as int].0, h@[i as int].1@)));
        } else {
            out.push((name, value));
            assert(pairs_of(out@).drop_last() =~= before);
            assert(keys_unique(pairs_of(out@))) by {
                assert forall|a: int, b: int|
                    0 <= a < pairs_of(out@).len() && 0 <= b < pairs_of(out@).len() && a != b implies
                    pairs_of(out@)[a].0 != pairs_of(out@)[b].0 by {
                    if a < before.len() && b < before.len() {
                        assert(pairs_of(out@)[a] == before[a] && pairs_of(out@)[b] == before[b]);
                    }
                }
            }
        }
        i += 1;
    }
    assert(p.take(h@.len() as int) =~= p);
    out
}

/// The character of a decimal digit.
pub open spec fn digit_char(d: nat) -> char {
    if d == 0 { '0' } else if d == 1 { '1' } else if d == 2 { '2' } else if d == 3 { '3' }
    else if d == 4 { '4' } else if d == 5 { '5' } else if d == 6 { '6' } else if d == 7 { '7' }
    else if d == 8 { '8' } else { '9' }
}

/// The decimal text of a number, without leading zeros.
pub open spec fn decimal_of(n: nat) -> Seq<char>
    decreases n,
{
    if n < 10 {
        seq![digit_char(n)]
    } else {
        decimal_of(n / 10).push(digit_char(n % 10))
    }
}

fn digit_text(d: usize) -> (r: &'static str)
    requires
        d < 10,
    ensures
        r@ == seq![digit_char(d as nat)],
{
    proof {
        reveal_strlit("0");
        reveal_strlit("1");
        reveal_strlit("2");
        reveal_strlit("3");
        reveal_strlit("4");
        reveal_strlit("5");
        reveal_strlit("6");
        reveal_strlit("7");
        reveal_strlit("8");
        reveal_strlit("9");
    }
    match d {
        0 => "0",
        1 => "1",
        2 => "2",
        3 => "3",
        4 => "4",
        5 => "5",
        6 => "6",
        7 => "7",
        8 => "8",
        _ => "9",
    }
}

/// The decimal text of a number.
pub fn decimal_text(n: usize) -> (r: String)
    ensures
        r@ == decimal_of(n as nat),
    decreases n,
{
    if n < 10 {
        let mut s = String::new();
        s.append(digit_text(n));
        assert(s@ =~= decimal_of(n as nat));
        s
    } else {
        let mut s = decimal_text(n / 10);
        s.append(digit_text(n % 10));
        assert(s@ =~= decimal_of(n as nat));
        s
    }
}

/// A non-empty run of ASCII digits.
pub open spec fn all_digits(s: Seq<char>) -> bool {
    s.len() > 0 && forall|i: int| 0 <= i < s.len() ==> '0' <= #[trigger] s[i] && s[i] <= '9'
}

/// The number that a run of decimal digits denotes.
pub open spec fn digits_value(s: Seq<char>) -> nat
    decreases s.len(),
{
    if s.len() == 0 {
        0
    } else {
        digits_value(s.drop_last()) * 10 + (s.last() as u32 - '0' as u32) as nat
    }
}

/// The number a text denotes, when it is a run of decimal digits whose value
/// fits in `usize`.
pub open spec fn decimal_value(v: Seq<char>) -> Option<nat> {
    if all_digits(v) && digits_value(v) <= usize::MAX {
        Some(digits_value(v))
    } else {
        None
    }
}

/// Reads a decimal number that fits in `usize`.
pub fn parse_decimal(v: &str) -> (r: Option<usize>)
    ensures
        match r {
            Some(n) => decimal_value(v@) == Some(n as nat),
            None => decimal_value(v@) is None,
        },
{
    let n = v.unicode_len();
    if n == 0 {
        return None;
    }
    let mut value: usize = 0;
    let mut i: usize = 0;
    while i < n
        invariant
            n == v@.len(),
            i <= n,
            value as nat == digits_value(v@.take(i as int)),
            forall|j: int| 0 <= j < i ==> '0' <= #[trigger] v@[j] && v@[j] <= '9',
        decreases n - i,
    {
        let c = v.get_char(i);
        assert(v@.take(i + 1).drop_last() =~= v@.take(i as int));
        if !('0' <= c && c <= '9') {
            assert(!all_digits(v@));
            return None;
        }
        let d = (c as u32 - '0' as u32) as usize;
        if value > (usize::MAX - d) / 10 {
            proof {
                assert(value * 10 + d > usize::MAX) by (nonlinear_arith)
                    requires
                        value > (usize::MAX - d) / 10,
                        d <= 9,
                ;
                assert(v@.take(i + 1).last() == c);
                assert(digits_value(v@.take(i + 1)) == value * 10 + d);
                if all_digits(v@) {
                    lemma_digits_grow(v@, i as int + 1);
                }
            }
            return None;
        }
        assert(value * 10 + d <= usize::MAX) by (nonlinear_arith)
            requires
                value <= (usize::MAX - d) / 10,
                d <= 9,
        ;
        value = value * 10 + d;
        i += 1;
    }
    assert(v@.take(n as int) =~= v@);
    Some(value)
}

/// The value of a run of digits is at least that of any prefix of it.
proof fn lemma_digits_grow(s: Seq<char>, k: int)
    requires
        0 <= k <= s.len(),
        forall|j: int| 0 <= j < s.len() ==> '0' <= #[trigger] s[j] && s[j] <= '9',
    ensures
        digits_value(s) >= digits_value(s.take(k)),
    decreases s.len(),
{
    if k < s.len() {
        let t = s.drop_last();
        assert(s.take(k) =~= t.take(k));
        lemma_digits_grow(t, k);
    } else {
        assert(s.take(k) =~= s);
    }
}

} // verus!
