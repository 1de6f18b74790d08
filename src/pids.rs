//! Text parsing of process identifiers: one identifier from a log record's
//! PID field, and the set of identifiers in a device query's output.
use vstd::prelude::*;
use std::collections::HashSet;

verus! {

broadcast use vstd::std_specs::hash::group_hash_axioms;

/// Whether `c` has the Unicode `White_Space` property, the set of
/// characters that separate the words of a query's output.
pub open spec fn is_ws(c: char) -> bool {
    let u = c as u32;
    ||| 0x9 <= u <= 0xD
    ||| u == 0x20
    ||| u == 0x85
    ||| u == 0xA0
    ||| u == 0x1680
    ||| 0x2000 <= u <= 0x200A
    ||| u == 0x2028
    ||| u == 0x2029
    ||| u == 0x202F
    ||| u == 0x205F
    ||| u == 0x3000
}

/// `s[i..j]` is a word of `s`: a maximal non-empty run of characters that
/// are not whitespace.
pub open spec fn is_word(s: Seq<char>, i: int, j: int) -> bool {
    &&& 0 <= i < j <= s.len()
    &&& i == 0 || is_ws(s[i - 1])
    &&& j == s.len() || is_ws(s[j])
    &&& forall|k: int| i <= k < j ==> !is_ws(#[trigger] s[k])
}

/// The identifiers written by the words of `s` that end before position `pos`.
pub open spec fn pids_before(s: Seq<char>, pos: int) -> Set<u32> {
    Set::new(
        |p: u32|
            exists|i: int, j: int|
                is_word(s, i, j) && j < pos && parse_u32_spec(#[trigger] s.subrange(i, j)) == Some(
                    p,
                ),
    )
}

/// The identifiers that a query's output `s` lists: every word of `s` that
/// parses as a `u32`; the other words are ignored.
pub open spec fn pids_in(s: Seq<char>) -> Set<u32> {
    Set::new(
        |p: u32|
            exists|i: int, j: int|
                is_word(s, i, j) && parse_u32_spec(#[trigger] s.subrange(i, j)) == Some(p),
    )
}

/// Whether `c` is an ASCII decimal digit.
pub open spec fn is_digit(c: char) -> bool {
    '0' as u32 <= c as u32 <= '9' as u32
}

/// Every character of `s` is a decimal digit.
pub open spec fn all_digits(s: Seq<char>) -> bool {
    forall|i: int| 0 <= i < s.len() ==> is_digit(#[trigger] s[i])
}

/// The number written by the decimal digits `s` (most significant first).
pub open spec fn decimal_value(s: Seq<char>) -> nat
    decreases s.len(),
{
    if s.len() == 0 {
        0
    } else {
        decimal_value(s.drop_last()) * 10 + (s.last() as u32 - '0' as u32) as nat
    }
}

/// The digits of an unsigned number: `s` without one leading `+`.
pub open spec fn unsigned_digits(s: Seq<char>) -> Seq<char> {
    if s.len() > 0 && s[0] == '+' {
        s.skip(1)
    } else {
        s
    }
}

/// What parsing `s` as a `u32` gives: an optional `+`, then at least one
/// decimal digit and nothing else, with a value that fits in 32 bits.
pub open spec fn parse_u32_spec(s: Seq<char>) -> Option<u32> {
    let d = unsigned_digits(s);
    if d.len() > 0 && all_digits(d) && decimal_value(d) <= u32::MAX {
        Some(decimal_value(d) as u32)
    } else {
        None
    }
}

/// A prefix of a digit string never denotes more than the whole string.
proof fn lemma_prefix_value_le(s: Seq<char>, k: int)
    requires
        0 <= k <= s.len(),
        all_digits(s),
    ensures
        decimal_value(s.take(k)) <= decimal_value(s),
    decreases s.len(),
{
    if k < s.len() {
        let t = s.drop_last();
        assert(t.take(k) =~= s.take(k));
        lemma_prefix_value_le(t, k);
        assert(s.take(s.len() as int) =~= s);
    } else {
        assert(s.take(k) =~= s);
    }
}

/// While scanning `s`, the state before position `pos`: inside a word that
/// started at `start`, or after whitespace (or at the very beginning).
pub open spec fn scan_state(s: Seq<char>, pos: int, start: int, in_word: bool) -> bool {
    &&& 0 <= pos <= s.len()
    &&& in_word ==> {
        &&& 0 <= start < pos
        &&& start == 0 || is_ws(s[start - 1])
        &&& forall|k: int| start <= k < pos ==> !is_ws(#[trigger] s[k])
    }
    &&& !in_word ==> pos == 0 || is_ws(s[pos - 1])
}

/// At a word boundary `pos`, the only word that ends there is the one being
/// scanned, if any.
proof fn lemma_boundary(s: Seq<char>, pos: int, start: int, in_word: bool)
    requires
        scan_state(s, pos, start, in_word),
        pos == s.len() || is_ws(s[pos]),
    ensures
        forall|p: u32|
            #[trigger] pids_before(s, pos + 1).contains(p) <==> pids_before(s, pos).contains(p)
                || (in_word && parse_u32_spec(s.subrange(start, pos)) == Some(p)),
{
    assert forall|p: u32|
        #[trigger] pids_before(s, pos + 1).contains(p) <==> pids_before(s, pos).contains(p)
            || (in_word && parse_u32_spec(s.subrange(start, pos)) == Some(p)) by {
        if pids_before(s, pos + 1).contains(p) && !pids_before(s, pos).contains(p) {
            let (i, j) = choose|i: int, j: int|
                is_word(s, i, j) && j < pos + 1 && parse_u32_spec(#[trigger] s.subrange(i, j))
                    == Some(p);
            assert(j == pos);
            if in_word {
                if i < start {
                    assert(!is_ws(s[start - 1]));
                } else if i > start {
                    assert(!is_ws(s[i - 1]));
                }
            } else {
                assert(!is_ws(s[j - 1]));
            }
        }
        if in_word && parse_u32_spec(s.subrange(start, pos)) == Some(p) {
            assert(is_word(s, start, pos));
        }
    }
}

/// Whether `c` is whitespace in the sense of `is_ws`.
pub fn is_whitespace(c: char) -> (r: bool)
    ensures
        r == is_ws(c),
{
    let u: u32 = c as u32;
    (0x9 <= u && u <= 0xD) || u == 0x20 || u == 0x85 || u == 0xA0 || u == 0x1680 || (0x2000 <= u
        && u <= 0x200A) || u == 0x2028 || u == 0x2029 || u == 0x202F || u == 0x205F || u == 0x3000
}

/// The characters of `s`, in order.
fn chars_of(s: &str) -> (r: Vec<char>)
    ensures
        r@ == s@,
{
    let mut r: Vec<char> = Vec::new();
    for c in it: s.chars()
        invariant
            r@ == it.seq().take(it.index() as int),
    {
        r.push(c);
    }
    r
}

/// Parses `cs[start..end]` as a `u32`.
fn parse_u32_range(cs: &Vec<char>, start: usize, end: usize) -> (r: Option<u32>)
    requires
        start <= end <= cs@.len(),
    ensures
        r == parse_u32_spec(cs@.subrange(start as int, end as int)),
{
    let ghost s = cs@.subrange(start as int, end as int);
    let mut i: usize = start;
    if i < end && cs[i] == '+' {
        i = i + 1;
    }
    let ghost d = unsigned_digits(s);
    assert(d =~= cs@.subrange(i as int, end as int));
    if i == end {
        return None;
    }
    let first: usize = i;
    let mut acc: u64 = 0;
    while i < end
        invariant
            start <= first <= i <= end <= cs@.len(),
            d =~= cs@.subrange(first as int, end as int),
            d == unsigned_digits(s),
            s == cs@.subrange(start as int, end as int),
            all_digits(cs@.subrange(first as int, i as int)),
            acc == decimal_value(cs@.subrange(first as int, i as int)),
            acc <= u32::MAX,
        decreases end - i,
    {
        let c = cs[i];
        let v: u32 = c as u32;
        if v < '0' as u32 || v > '9' as u32 {
            assert(!is_digit(d[i - first]));
            return None;
        }
        let ghost prev = cs@.subrange(first as int, i as int);
        let ghost next = cs@.subrange(first as int, i + 1);
        assert(next.drop_last() =~= prev);
        acc = acc * 10 + (v - '0' as u32) as u64;
        i = i + 1;
        assert(all_digits(next)) by {
            assert forall|k: int| 0 <= k < next.len() implies is_digit(#[trigger] next[k]) by {
                if k < prev.len() {
                    assert(next[k] == prev[k]);
                }
            }
        }
        if acc > u32::MAX as u64 {
            proof {
                if all_digits(d) {
                    assert(d.take(next.len() as int) =~= next);
                    lemma_prefix_value_le(d, next.len() as int);
                }
            }
            return None;
        }
    }
    assert(cs@.subrange(first as int, i as int) =~= d);
    Some(acc as u32)
}

/// Parses a log record's PID field as an unsigned 32-bit integer.
pub fn parse_pid(text: &str) -> (r: Option<u32>)
    ensures
        r == parse_u32_spec(text@),
{
    let cs = chars_of(text);
    let n = cs.len();
    assert(cs@.subrange(0, n as int) =~= text@);
    parse_u32_range(&cs, 0, n)
}

/// The set of process identifiers listed in a device query's output: each
/// whitespace-separated word that parses as a `u32`, malformed words skipped.
pub fn parse_pids(output: &str) -> (r: HashSet<u32>)
    ensures
        r@ == pids_in(output@),
{
    let cs = chars_of(output);
    let n = cs.len();
    let ghost s = cs@;
    let mut r: HashSet<u32> = HashSet::new();
    let mut in_word = false;
    let mut start: usize = 0;
    let mut pos: usize = 0;
    assert(r@ =~= pids_before(s, 0));
    while pos < n
        invariant
            s == cs@,
            n == s.len(),
            scan_state(s, pos as int, start as int, in_word),
            r@ == pids_before(s, pos as int),
        decreases n - pos,
    {
        if is_whitespace(cs[pos]) {
            proof {
                lemma_boundary(s, pos as int, start as int, in_word);
            }
            if in_word {
                if let Some(p) = parse_u32_range(&cs, start, pos) {
                    r.insert(p);
                }
                in_word = false;
            }
            assert(r@ =~= pids_before(s, pos + 1));
        } else {
            if !in_word {
                start = pos;
                in_word = true;
            }
            assert(r@ =~= pids_before(s, pos + 1)) by {
                assert forall|p: u32| #[trigger]
                    pids_before(s, pos + 1).contains(p) implies pids_before(s, pos as int).contains(
                    p,
                ) by {
                    let (i, j) = choose|i: int, j: int|
                        is_word(s, i, j) && j < pos + 1 && parse_u32_spec(
                            #[trigger] s.subrange(i, j),
                        ) == Some(p);
                    assert(j != pos);
                }
            }
        }
        pos = pos + 1;
    }
    proof {
        lemma_boundary(s, n as int, start as int, in_word);
    }
    if in_word {
        if let Some(p) = parse_u32_range(&cs, start, n) {
            r.insert(p);
        }
    }
    assert(r@ =~= pids_in(output@)) by {
        assert forall|p: u32| #[trigger] pids_in(s).contains(p) implies pids_before(
            s,
            n + 1,
        ).contains(p) by {
            let (i, j) = choose|i: int, j: int|
                is_word(s, i, j) && parse_u32_spec(#[trigger] s.subrange(i, j)) == Some(p);
            assert(j < n + 1);
        }
    }
    r
}

} // verus!
