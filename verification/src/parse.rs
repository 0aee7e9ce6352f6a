//! Waypoint node-name parsing.
//!
//! Robber waypoints are authored as scene nodes named
//! `Robber<group>Point<suffix>`: the prefix token `Robber`, a decimal group
//! number, the separator token `Point` (occurring exactly once in the name),
//! and a decimal suffix number. `extract_group_and_suffix` recovers the two
//! numbers; any name that does not match the pattern is not a waypoint and is
//! rejected gracefully (`None`), never with a panic, since scene content is
//! externally authored.

use vstd::prelude::*;

verus! {

/// A decimal digit byte (ASCII `0` to `9`).
pub open spec fn is_digit(b: u8) -> bool {
    48 <= b <= 57
}

/// Every byte a decimal digit.
pub open spec fn all_digits(s: Seq<u8>) -> bool {
    forall|i: int| 0 <= i < s.len() ==> is_digit(#[trigger] s[i])
}

/// The number written by a digit string, most significant digit first.
pub open spec fn digits_value(s: Seq<u8>) -> int
    decreases s.len(),
{
    if s.len() == 0 {
        0
    } else {
        digits_value(s.drop_last()) * 10 + (s.last() - 48)
    }
}

/// The separator token `Point` occurs at position `i` (the bytes spell
/// `P o i n t`).
pub open spec fn point_at(s: Seq<u8>, i: int) -> bool {
    &&& 0 <= i
    &&& i + 5 <= s.len()
    &&& s[i] == 80
    &&& s[i + 1] == 111
    &&& s[i + 2] == 105
    &&& s[i + 3] == 110
    &&& s[i + 4] == 116
}

/// The name starts with the prefix token `Robber` (the bytes spell
/// `R o b b e r`).
pub open spec fn robber_prefix(s: Seq<u8>) -> bool {
    &&& s.len() >= 6
    &&& s[0] == 82
    &&& s[1] == 111
    &&& s[2] == 98
    &&& s[3] == 98
    &&& s[4] == 101
    &&& s[5] == 114
}

/// The least position `>= from` where the separator token occurs.
pub open spec fn find_point_from(s: Seq<u8>, from: int) -> Option<int>
    decreases s.len() - from,
{
    if from < 0 || from + 5 > s.len() {
        None
    } else if point_at(s, from) {
        Some(from)
    } else {
        find_point_from(s, from + 1)
    }
}

/// What a waypoint name parses to: `None` unless the name is
/// `Robber<group digits>Point<suffix digits>` with the separator token
/// occurring exactly once and both numbers fitting in `usize`.
pub open spec fn spec_extract(name: Seq<u8>) -> Option<(usize, usize)> {
    match find_point_from(name, 0) {
        None => None,
        Some(i) => {
            if find_point_from(name, i + 1) is Some || i < 6 || !robber_prefix(name) {
                None
            } else {
                let gd = name.subrange(6, i);
                let sd = name.subrange(i + 5, name.len() as int);
                if gd.len() > 0 && all_digits(gd) && digits_value(gd) <= usize::MAX && sd.len()
                    > 0 && all_digits(sd) && digits_value(sd) <= usize::MAX {
                    Some((digits_value(gd) as usize, digits_value(sd) as usize))
                } else {
                    None
                }
            }
        },
    }
}

/// A digit string writes a non-negative number.
pub proof fn lemma_digits_value_nonneg(s: Seq<u8>)
    requires
        all_digits(s),
    ensures
        digits_value(s) >= 0,
    decreases s.len(),
{
    if s.len() > 0 {
        assert(all_digits(s.drop_last())) by {
            assert(forall|i: int|
                0 <= i < s.len() - 1 ==> #[trigger] s.drop_last()[i] == s[i]);
        }
        lemma_digits_value_nonneg(s.drop_last());
    }
}

/// Extending a digit string never shrinks its value.
pub proof fn lemma_digits_value_prefix_le(s: Seq<u8>, j: int)
    requires
        all_digits(s),
        0 <= j <= s.len(),
    ensures
        digits_value(s.subrange(0, j)) <= digits_value(s),
    decreases s.len() - j,
{
    if j == s.len() {
        assert(s.subrange(0, j) =~= s);
    } else {
        let t = s.drop_last();
        assert(all_digits(t)) by {
            assert(forall|i: int| 0 <= i < t.len() ==> #[trigger] t[i] == s[i]);
        }
        assert(s.subrange(0, j) =~= t.subrange(0, j));
        lemma_digits_value_prefix_le(t, j);
        lemma_digits_value_nonneg(t);
    }
}

/// Where `find_point_from` answers, the token is there, no earlier than asked.
pub proof fn lemma_find_point_some(s: Seq<u8>, from: int)
    requires
        find_point_from(s, from) is Some,
    ensures
        from <= find_point_from(s, from)->Some_0,
        point_at(s, find_point_from(s, from)->Some_0),
    decreases s.len() - from,
{
    if from < 0 || from + 5 > s.len() {
    } else if point_at(s, from) {
    } else {
        lemma_find_point_some(s, from + 1);
    }
}

/// True when the separator token occurs at `i`.
fn point_at_exec(name: &Vec<u8>, i: usize) -> (r: bool)
    requires
        i + 5 <= name@.len(),
    ensures
        r == point_at(name@, i as int),
{
    // name.len() bounds the view's length, keeping the index sums in range
    let n = name.len();
    name[i] == 80 && name[i + 1] == 111 && name[i + 2] == 105 && name[i + 3] == 110 && name[i
        + 4] == 116
}

/// The least position `>= from` holding the separator token.
fn find_point(name: &Vec<u8>, from: usize) -> (r: Option<usize>)
    ensures
        match r {
            None => find_point_from(name@, from as int) is None,
            Some(j) => find_point_from(name@, from as int) == Some(j as int),
        },
{
    let n = name.len();
    if n < 5 || from > n - 5 {
        return None;
    }
    let mut j = from;
    while j <= n - 5
        invariant
            n == name@.len(),
            5 <= n,
            from <= j <= n - 4,
            find_point_from(name@, from as int) == find_point_from(name@, j as int),
        decreases n - j,
    {
        if point_at_exec(name, j) {
            return Some(j);
        }
        j = j + 1;
    }
    None
}

/// The token `Camera` occurs at position `i` (the bytes spell `C a m e r a`).
pub open spec fn camera_at(s: Seq<u8>, i: int) -> bool {
    &&& 0 <= i
    &&& i + 6 <= s.len()
    &&& s[i] == 67
    &&& s[i + 1] == 97
    &&& s[i + 2] == 109
    &&& s[i + 3] == 101
    &&& s[i + 4] == 114
    &&& s[i + 5] == 97
}

/// The least position `>= from` where the camera token occurs.
pub open spec fn find_camera_from(s: Seq<u8>, from: int) -> Option<int>
    decreases s.len() - from,
{
    if from < 0 || from + 6 > s.len() {
        None
    } else if camera_at(s, from) {
        Some(from)
    } else {
        find_camera_from(s, from + 1)
    }
}

/// The name contains the token `Camera` somewhere.
pub open spec fn contains_camera(s: Seq<u8>) -> bool {
    find_camera_from(s, 0) is Some
}

/// True when the node name contains the token `Camera`: such nodes anchor the
/// jump-to cameras of the scene.
pub fn is_camera_node(name: &Vec<u8>) -> (r: bool)
    ensures
        r == contains_camera(name@),
{
    let n = name.len();
    if n < 6 {
        return false;
    }
    let mut j: usize = 0;
    while j <= n - 6
        invariant
            n == name@.len(),
            6 <= n,
            0 <= j <= n - 5,
            find_camera_from(name@, 0) == find_camera_from(name@, j as int),
        decreases n - j,
    {
        if name[j] == 67 && name[j + 1] == 97 && name[j + 2] == 109 && name[j + 3] == 101 && name[j
            + 4] == 114 && name[j + 5] == 97 {
            return true;
        }
        j = j + 1;
    }
    false
}

/// The number written by `name[lo..hi]`, when that range is one or more
/// decimal digits and the number fits in `usize`.
fn parse_usize(name: &Vec<u8>, lo: usize, hi: usize) -> (r: Option<usize>)
    requires
        lo <= hi <= name@.len(),
    ensures
        ({
            let s = name@.subrange(lo as int, hi as int);
            &&& (r is Some <==> s.len() > 0 && all_digits(s) && digits_value(s) <= usize::MAX)
            &&& (r is Some ==> r->Some_0 == digits_value(s))
        }),
{
    let ghost s = name@.subrange(lo as int, hi as int);
    if lo == hi {
        return None;
    }
    let mut v: usize = 0;
    let mut j = lo;
    while j < hi
        invariant
            lo <= j <= hi <= name@.len(),
            s == name@.subrange(lo as int, hi as int),
            all_digits(name@.subrange(lo as int, j as int)),
            v == digits_value(name@.subrange(lo as int, j as int)),
        decreases hi - j,
    {
        let ghost p = name@.subrange(lo as int, j as int);
        let ghost p1 = name@.subrange(lo as int, j as int + 1);
        proof {
            assert(p1.drop_last() =~= p);
        }
        let b = name[j];
        if b < 48 || b > 57 {
            proof {
                assert(s[j - lo] == name@[j as int]);
            }
            return None;
        }
        let d = (b - 48) as usize;
        let v_scaled = match v.checked_mul(10) {
            Some(w) => w,
            None => {
                proof {
                    lemma_parse_overflow(name@, lo as int, j as int, hi as int, v as int);
                }
                return None;
            },
        };
        let v_next = match v_scaled.checked_add(d) {
            Some(w) => w,
            None => {
                proof {
                    lemma_parse_overflow(name@, lo as int, j as int, hi as int, v as int);
                }
                return None;
            },
        };
        v = v_next;
        j = j + 1;
    }
    proof {
        assert(name@.subrange(lo as int, j as int) =~= s);
    }
    Some(v)
}

/// If the next digit would push the running value past `usize::MAX`, the
/// whole digit string's value is past it too.
proof fn lemma_parse_overflow(whole: Seq<u8>, lo: int, j: int, hi: int, v: int)
    requires
        0 <= lo <= j < hi <= whole.len(),
        all_digits(whole.subrange(lo, j)),
        v == digits_value(whole.subrange(lo, j)),
        is_digit(whole[j]),
        v * 10 + (whole[j] - 48) > usize::MAX,
    ensures
        all_digits(whole.subrange(lo, hi)) ==> digits_value(whole.subrange(lo, hi)) > usize::MAX,
{
    let s = whole.subrange(lo, hi);
    if all_digits(s) {
        let p = whole.subrange(lo, j);
        let p1 = whole.subrange(lo, j + 1);
        assert(p1.drop_last() =~= p);
        assert(p1.last() == whole[j]);
        assert(p1 =~= s.subrange(0, j + 1 - lo));
        lemma_digits_value_prefix_le(s, j + 1 - lo);
    }
}

/// Parse a node name as `Robber<group>Point<suffix>`.
///
/// Exactly the names of that shape — prefix token, decimal group number, one
/// occurrence of the separator token, decimal suffix number — yield
/// `Some((group, suffix))`; every other name yields `None`.
pub fn extract_group_and_suffix(name: &Vec<u8>) -> (r: Option<(usize, usize)>)
    ensures
        r == spec_extract(name@),
{
    // name.len() bounds the view's length, keeping the index sums in range
    let n = name.len();
    let i = match find_point(name, 0) {
        None => {
            return None;
        },
        Some(i) => i,
    };
    proof {
        lemma_find_point_some(name@, 0);
    }
    match find_point(name, i + 1) {
        Some(_) => {
            return None;
        },
        None => {},
    }
    if i < 6 {
        return None;
    }
    if !(name[0] == 82 && name[1] == 111 && name[2] == 98 && name[3] == 98 && name[4]
        == 101 && name[5] == 114) {
        return None;
    }
    let g = parse_usize(name, 6, i);
    let s = parse_usize(name, i + 5, name.len());
    match (g, s) {
        (Some(g), Some(s)) => Some((g, s)),
        _ => None,
    }
}

} // verus!
