//! Protocol versions: `major.minor.patch`, as written in text and as packed
//! into an EVM word.

use vstd::prelude::*;
use crate::bytes::{be_value, lemma_be_value_bound, pow256, Word};

verus! {

/// A protocol version `major.minor.patch`.
#[derive(Debug, Clone, Copy, PartialEq, Eq, Structural)]
pub struct ProtocolVersion {
    pub major: u64,
    pub minor: u64,
    pub patch: u64,
}

/// The version packed in a word: the patch in the lowest 32 bits, the minor
/// in the next 32, the major in the 32 above those.
pub open spec fn unpacked(w: Seq<u8>) -> ProtocolVersion {
    ProtocolVersion {
        major: be_value(w.subrange(20, 24)) as u64,
        minor: be_value(w.subrange(24, 28)) as u64,
        patch: be_value(w.subrange(28, 32)) as u64,
    }
}

/// A decimal digit.
pub open spec fn is_digit(c: char) -> bool {
    '0' <= c <= '9'
}

/// Every character is a decimal digit.
pub open spec fn all_digits(s: Seq<char>) -> bool {
    forall|i: int| 0 <= i < s.len() ==> is_digit(#[trigger] s[i])
}

/// The number a string of decimal digits denotes.
pub open spec fn decimal_value(s: Seq<char>) -> nat
    decreases s.len(),
{
    if s.len() == 0 {
        0
    } else {
        decimal_value(s.drop_last()) * 10 + ((s.last() as int - '0' as int) as nat)
    }
}

/// What `u64::from_str` gives: an optional `+`, then at least one decimal
/// digit, with a value that fits in 64 bits.
pub open spec fn parsed_u64(s: Seq<char>) -> Option<u64> {
    let d = if s.len() > 0 && s[0] == '+' {
        s.drop_first()
    } else {
        s
    };
    if d.len() > 0 && all_digits(d) && decimal_value(d) <= u64::MAX {
        Some(decimal_value(d) as u64)
    } else {
        None
    }
}

/// `s` without the copies of `c` at its start.
pub open spec fn trim_start(s: Seq<char>, c: char) -> Seq<char>
    decreases s.len(),
{
    if s.len() > 0 && s[0] == c {
        trim_start(s.drop_first(), c)
    } else {
        s
    }
}

/// The pieces of `s` between the separators `sep` (one piece more than
/// there are separators).
pub open spec fn split_on(s: Seq<char>, sep: char) -> Seq<Seq<char>>
    decreases s.len(),
{
    if s.len() == 0 {
        seq![Seq::empty()]
    } else {
        let init = split_on(s.drop_last(), sep);
        if s.last() == sep {
            init.push(Seq::empty())
        } else {
            init.update(init.len() - 1, init.last().push(s.last()))
        }
    }
}

/// What parsing a version from text gives: leading `v`s are dropped, and the
/// rest must be three numbers separated by dots.
pub open spec fn parsed_version(s: Seq<char>) -> Option<ProtocolVersion> {
    let parts = split_on(trim_start(s, 'v'), '.');
    if parts.len() == 3 && parsed_u64(parts[0]) is Some && parsed_u64(parts[1]) is Some
        && parsed_u64(parts[2]) is Some {
        Some(
            ProtocolVersion {
                major: parsed_u64(parts[0])->0,
                minor: parsed_u64(parts[1])->0,
                patch: parsed_u64(parts[2])->0,
            },
        )
    } else {
        None
    }
}

proof fn lemma_decimal_monotone(d: Seq<char>, k: int)
    requires
        0 <= k <= d.len(),
        all_digits(d),
    ensures
        decimal_value(d.take(k)) <= decimal_value(d),
    decreases d.len() - k,
{
    if k < d.len() {
        lemma_decimal_monotone(d, k + 1);
        assert(d.take(k + 1).drop_last() =~= d.take(k));
        assert(d.take(k + 1).last() == d[k]);
        assert(is_digit(d[k]));
    } else {
        assert(d.take(k) =~= d);
    }
}

/// Reads a number written as an optional `+` and decimal digits, as
/// `u64::from_str` does.
pub fn parse_u64(s: &Vec<char>) -> (r: Option<u64>)
    ensures
        r == parsed_u64(s@),
{
    let mut start: usize = 0;
    if s.len() > 0 && s[0] == '+' {
        start = 1;
    }
    let ghost d = if s@.len() > 0 && s@[0] == '+' {
        s@.drop_first()
    } else {
        s@
    };
    assert(d =~= s@.skip(start as int));
    if start == s.len() {
        return None;
    }
    let mut acc: u64 = 0;
    let mut i: usize = start;
    while i < s.len()
        invariant
            start <= i <= s@.len(),
            d =~= s@.skip(start as int),
            d == (if s@.len() > 0 && s@[0] == '+' {
                s@.drop_first()
            } else {
                s@
            }),
            acc == decimal_value(d.take(i - start)),
            all_digits(d.take(i - start)),
        decreases s@.len() - i,
    {
        let c = s[i];
        if !('0' <= c && c <= '9') {
            assert(d[i - start] == c);
            assert(!is_digit(d[i - start]));
            assert(!all_digits(d));
            return None;
        }
        let digit: u64 = (c as u32 - '0' as u32) as u64;
        assert(d.take(i - start + 1).drop_last() =~= d.take(i - start));
        assert(d.take(i - start + 1).last() == c);
        match acc.checked_mul(10) {
            Some(m) => match m.checked_add(digit) {
                Some(v) => {
                    acc = v;
                },
                None => {
                    proof {
                        if all_digits(d) {
                            lemma_decimal_monotone(d, i - start + 1);
                        }
                    }
                    return None;
                },
            },
            None => {
                proof {
                    if all_digits(d) {
                        lemma_decimal_monotone(d, i - start + 1);
                    }
                }
                return None;
            },
        }
        assert forall|j: int| 0 <= j < d.take(i - start + 1).len() implies is_digit(
            #[trigger] d.take(i - start + 1)[j],
        ) by {
            if j < i - start {
                assert(d.take(i - start + 1)[j] == d.take(i - start)[j]);
            }
        }
        i = i + 1;
    }
    assert(d.take(i - start) =~= d);
    Some(acc)
}

/// `s` without the `v`s at its start.
fn trim_leading_v(s: &str) -> (r: Vec<char>)
    ensures
        r@ == trim_start(s@, 'v'),
{
    let n = s.unicode_len();
    let mut i: usize = 0;
    assert(s@.skip(0) =~= s@);
    while i < n && s.get_char(i) == 'v'
        invariant
            i <= n,
            n == s@.len(),
            trim_start(s@, 'v') == trim_start(s@.skip(i as int), 'v'),
        decreases n - i,
    {
        assert(s@.skip(i as int).drop_first() =~= s@.skip(i + 1));
        i = i + 1;
    }
    let mut r: Vec<char> = Vec::new();
    let mut j: usize = i;
    while j < n
        invariant
            i <= j <= n,
            n == s@.len(),
            r@ =~= s@.subrange(i as int, j as int),
        decreases n - j,
    {
        r.push(s.get_char(j));
        j = j + 1;
    }
    assert(s@.subrange(i as int, n as int) =~= s@.skip(i as int));
    r
}

/// The pieces of `s` between the dots.
fn split_dots(s: &Vec<char>) -> (r: Vec<Vec<char>>)
    ensures
        r@.map_values(|p: Vec<char>| p@) == split_on(s@, '.'),
{
    let mut done: Vec<Vec<char>> = Vec::new();
    let mut cur: Vec<char> = Vec::new();
    let mut i: usize = 0;
    assert(s@.take(0) =~= Seq::<char>::empty());
    while i < s.len()
        invariant
            i <= s@.len(),
            split_on(s@.take(i as int), '.') == done@.map_values(|p: Vec<char>| p@).push(cur@),
        decreases s@.len() - i,
    {
        let c = s[i];
        let ghost before = split_on(s@.take(i as int), '.');
        assert(s@.take(i + 1).drop_last() =~= s@.take(i as int));
        if c == '.' {
            let finished = cur;
            done.push(finished);
            cur = Vec::new();
            assert(done@.map_values(|p: Vec<char>| p@) =~= before);
        } else {
            cur.push(c);
            assert(split_on(s@.take(i + 1), '.') =~= done@.map_values(|p: Vec<char>| p@).push(
                cur@,
            ));
        }
        i = i + 1;
    }
    assert(s@.take(s@.len() as int) =~= s@);
    done.push(cur);
    assert(done@.map_values(|p: Vec<char>| p@) =~= split_on(s@, '.'));
    done
}

/// Reads a version such as `0.29.1` or `v0.29.1`.
pub fn parse_protocol_version(s: &str) -> (r: Option<ProtocolVersion>)
    ensures
        r == parsed_version(s@),
{
    let trimmed = trim_leading_v(s);
    let parts = split_dots(&trimmed);
    if parts.len() != 3 {
        return None;
    }
    assert(parts@.map_values(|p: Vec<char>| p@)[0] == parts@[0]@);
    assert(parts@.map_values(|p: Vec<char>| p@)[1] == parts@[1]@);
    assert(parts@.map_values(|p: Vec<char>| p@)[2] == parts@[2]@);
    let major = parse_u64(&parts[0]);
    let minor = parse_u64(&parts[1]);
    let patch = parse_u64(&parts[2]);
    match (major, minor, patch) {
        (Some(major), Some(minor), Some(patch)) => Some(ProtocolVersion { major, minor, patch }),
        _ => None,
    }
}

/// Reads four bytes of a word as a number.
fn read_u32_be(w: &Word, from: usize) -> (r: u64)
    requires
        from + 4 <= 32,
    ensures
        r == be_value(w@.subrange(from as int, from + 4)),
{
    let mut acc: u64 = 0;
    let mut i: usize = from;
    assert(w@.subrange(from as int, from as int) =~= Seq::<u8>::empty());
    while i < from + 4
        invariant
            from <= i <= from + 4,
            from + 4 <= 32,
            acc == be_value(w@.subrange(from as int, i as int)),
        decreases from + 4 - i,
    {
        proof {
            lemma_be_value_bound(w@.subrange(from as int, i as int));
            reveal_with_fuel(pow256, 5);
            assert(w@.subrange(from as int, i + 1).drop_last() =~= w@.subrange(
                from as int,
                i as int,
            ));
        }
        acc = acc * 256 + w[i] as u64;
        i = i + 1;
    }
    acc
}

impl ProtocolVersion {
    /// The version packed in a word (`From<U256>`).
    pub fn from_word(w: &Word) -> (r: ProtocolVersion)
        ensures
            r == unpacked(w@),
    {
        let major = read_u32_be(w, 20);
        let minor = read_u32_be(w, 24);
        let patch = read_u32_be(w, 28);
        ProtocolVersion { major, minor, patch }
    }
}


/// The version that the upgrade moves chains to.
pub const EXPECTED_NEW_PROTOCOL_VERSION_STR: &'static str = "0.29.1";

/// The version that chains are expected to run before the upgrade.
pub const EXPECTED_OLD_PROTOCOL_VERSION_STR: &'static str = "0.28.1";

/// The first version of the previous release.
pub const V28_PROTOCOL_VERSION_STR: &'static str = "0.28.0";

/// Parsing `"0.<minor>.<patch>"` for one-digit `patch` and two-digit `minor`.
proof fn lemma_parse_0_mm_p(s: Seq<char>, m1: char, m2: char, p: char)
    requires
        s =~= seq!['0', '.', m1, m2, '.', p],
        is_digit(m1),
        is_digit(m2),
        is_digit(p),
    ensures
        parsed_version(s) == Some(
            ProtocolVersion {
                major: 0,
                minor: ((m1 as int - '0' as int) * 10 + (m2 as int - '0' as int)) as u64,
                patch: (p as int - '0' as int) as u64,
            },
        ),
{
    assert(trim_start(s, 'v') == s);
    let parts = split_on(s, '.');
    assert(m1 != '.' && m2 != '.' && p != '.');
    assert(seq![m1].push(m2) =~= seq![m1, m2]);
    assert(Seq::<char>::empty().push(p) =~= seq![p]);
    assert(Seq::<char>::empty().push(m1) =~= seq![m1]);
    assert(seq!['0'].drop_last() =~= Seq::<char>::empty());
    assert(split_on(Seq::<char>::empty(), '.') =~= seq![Seq::<char>::empty()]);
    assert(split_on(seq!['0'], '.') =~= seq![seq!['0']]);
    assert(seq!['0', '.'].drop_last() =~= seq!['0']);
    assert(split_on(seq!['0', '.'], '.') =~= seq![seq!['0'], Seq::<char>::empty()]);
    assert(seq!['0', '.', m1].drop_last() =~= seq!['0', '.']);
    assert(split_on(seq!['0', '.', m1], '.') =~= seq![seq!['0'], seq![m1]]);
    assert(seq!['0', '.', m1, m2].drop_last() =~= seq!['0', '.', m1]);
    assert(split_on(seq!['0', '.', m1, m2], '.') =~= seq![seq!['0'], seq![m1, m2]]);
    assert(seq!['0', '.', m1, m2, '.'].drop_last() =~= seq!['0', '.', m1, m2]);
    assert(split_on(seq!['0', '.', m1, m2, '.'], '.') =~= seq![
        seq!['0'],
        seq![m1, m2],
        Seq::<char>::empty(),
    ]);
    assert(s.drop_last() =~= seq!['0', '.', m1, m2, '.']);
    assert(parts =~= seq![seq!['0'], seq![m1, m2], seq![p]]);
    reveal_with_fuel(decimal_value, 3);
    assert(seq![m1, m2].drop_last() =~= seq![m1]);
    assert(seq![m1].drop_last() =~= Seq::<char>::empty());
    assert(seq!['0'].drop_last() =~= Seq::<char>::empty());
    assert(seq![p].drop_last() =~= Seq::<char>::empty());
    assert(all_digits(seq!['0']));
    assert(all_digits(seq![m1, m2]));
    assert(all_digits(seq![p]));
}

/// Version `0.29.1`.
pub fn get_expected_new_protocol_version() -> (r: ProtocolVersion)
    ensures
        r == (ProtocolVersion { major: 0, minor: 29, patch: 1 }),
{
    proof {
        reveal_strlit("0.29.1");
        lemma_parse_0_mm_p(EXPECTED_NEW_PROTOCOL_VERSION_STR@, '2', '9', '1');
    }
    parse_protocol_version(EXPECTED_NEW_PROTOCOL_VERSION_STR).unwrap()
}

/// Version `0.28.1`.
pub fn get_expected_old_protocol_version() -> (r: ProtocolVersion)
    ensures
        r == (ProtocolVersion { major: 0, minor: 28, patch: 1 }),
{
    proof {
        reveal_strlit("0.28.1");
        lemma_parse_0_mm_p(EXPECTED_OLD_PROTOCOL_VERSION_STR@, '2', '8', '1');
    }
    parse_protocol_version(EXPECTED_OLD_PROTOCOL_VERSION_STR).unwrap()
}

/// Version `0.28.0`.
pub fn get_expected_v28_protocol_version() -> (r: ProtocolVersion)
    ensures
        r == (ProtocolVersion { major: 0, minor: 28, patch: 0 }),
{
    proof {
        reveal_strlit("0.28.0");
        lemma_parse_0_mm_p(V28_PROTOCOL_VERSION_STR@, '2', '8', '0');
    }
    parse_protocol_version(V28_PROTOCOL_VERSION_STR).unwrap()
}

} // verus!
