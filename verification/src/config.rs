//! Parsing the target-program configuration: a flat JSON-style object that
//! maps name fragments to unfocused volume levels, written as decimals in
//! [0, 1]. Levels are kept to thousandths of full volume; fractional digits
//! beyond the third are ignored. A file that is not such an object, has an
//! empty or repeated fragment, or a level above 1 is rejected, and the
//! caller treats that as fatal.
//!
//! Byte values are spelled as numbers below: 34 is `"`, 44 `,`, 46 `.`,
//! 58 `:`, 92 `\`, 123 `{`, 125 `}`.

use vstd::prelude::*;
use crate::targets::{entries_model, targets_wf, TargetMap};
use crate::text::{lower_byte, spec_lower};
use crate::FULL_VOLUME;

verus! {

/// Parsing failed: the configuration text is not a well-formed mapping.
#[derive(Debug, Clone, Copy, PartialEq, Eq, Structural)]
pub struct ConfigParseError;

/// Whitespace accepted between tokens.
pub open spec fn is_ws(b: u8) -> bool {
    b == 32 || b == 9 || b == 10 || b == 13
}

/// A decimal digit.
pub open spec fn is_digit(b: u8) -> bool {
    48 <= b <= 57
}

/// A byte allowed inside a quoted fragment: anything printable or non-ASCII
/// except the quote and the backslash (no escapes are recognised).
pub open spec fn is_string_byte(b: u8) -> bool {
    b >= 32 && b != 34 && b != 92
}

/// The first position at or after `i` that does not hold whitespace.
pub open spec fn spec_skip_ws(s: Seq<u8>, i: int) -> int
    decreases s.len() - i,
{
    if 0 <= i < s.len() && is_ws(s[i]) {
        spec_skip_ws(s, i + 1)
    } else {
        i
    }
}

/// The first position at or after `i` that does not hold a digit.
pub open spec fn spec_scan_digits(s: Seq<u8>, i: int) -> int
    decreases s.len() - i,
{
    if 0 <= i < s.len() && is_digit(s[i]) {
        spec_scan_digits(s, i + 1)
    } else {
        i
    }
}

/// The position of the closing quote of a fragment whose content starts at
/// `i`, or nothing if the string is unterminated or holds a forbidden byte.
pub open spec fn spec_scan_string(s: Seq<u8>, i: int) -> Option<int>
    decreases s.len() - i,
{
    if !(0 <= i < s.len()) {
        Option::None
    } else if s[i] == 34 {
        Option::Some(i)
    } else if is_string_byte(s[i]) {
        spec_scan_string(s, i + 1)
    } else {
        Option::None
    }
}

/// The value of the digit run `s[i..j]` read as a decimal integer.
pub open spec fn digits_val(s: Seq<u8>, i: int, j: int) -> int
    decreases j - i,
{
    if i >= j {
        0
    } else {
        digits_val(s, i, j - 1) * 10 + (s[j - 1] - 48)
    }
}

/// The value of the fraction digits `s[i..j]` in thousandths, ignoring
/// digits beyond the third.
pub open spec fn frac_thousandths(s: Seq<u8>, i: int, j: int) -> int {
    (if i < j {
        (s[i] - 48) * 100
    } else {
        0
    }) + (if i + 1 < j {
        (s[i + 1] - 48) * 10
    } else {
        0
    }) + (if i + 2 < j {
        (s[i + 2] - 48) as int
    } else {
        0
    })
}

/// A decimal number at `i`: digits, optionally a point and more digits.
/// Its value in thousandths, and the position after it; nothing if no
/// digits are present or the value exceeds full volume.
pub open spec fn spec_parse_number(s: Seq<u8>, i: int) -> Option<(u32, int)> {
    let j = spec_scan_digits(s, i);
    if j == i {
        Option::None
    } else if j < s.len() && s[j] == 46 {
        let k = spec_scan_digits(s, j + 1);
        if k == j + 1 {
            Option::None
        } else {
            let total = digits_val(s, i, j) * 1000 + frac_thousandths(s, j + 1, k);
            if total > FULL_VOLUME {
                Option::None
            } else {
                Option::Some((total as u32, k))
            }
        }
    } else {
        let total = digits_val(s, i, j) * 1000;
        if total > FULL_VOLUME {
            Option::None
        } else {
            Option::Some((total as u32, j))
        }
    }
}

/// One `"fragment": number` pair starting at `i` (leading whitespace
/// allowed): the lowercased fragment, its level, and the position after the
/// number. The fragment must be non-empty.
pub open spec fn spec_parse_pair(s: Seq<u8>, i: int) -> Option<(Seq<u8>, u32, int)> {
    let a = spec_skip_ws(s, i);
    if 0 <= i && a < s.len() && s[a] == 34 {
        match spec_scan_string(s, a + 1) {
            Option::Some(q) => {
                if q == a + 1 {
                    Option::None
                } else {
                    let key = spec_lower(s.subrange(a + 1, q));
                    let c = spec_skip_ws(s, q + 1);
                    if c < s.len() && s[c] == 58 {
                        match spec_parse_number(s, spec_skip_ws(s, c + 1)) {
                            Option::Some((v, e)) => Option::Some((key, v, e)),
                            Option::None => Option::None,
                        }
                    } else {
                        Option::None
                    }
                }
            },
            Option::None => Option::None,
        }
    } else {
        Option::None
    }
}

/// Some entry carries this fragment.
pub open spec fn keys_contain(entries: Seq<(Seq<u8>, u32)>, key: Seq<u8>) -> bool {
    exists|i: int| 0 <= i < entries.len() && (#[trigger] entries[i]).0 == key
}

/// A comma-separated run of pairs starting at `i`: the entries in order and
/// the position after the last pair. A repeated fragment is rejected.
pub open spec fn spec_parse_entries(s: Seq<u8>, i: int) -> Option<(Seq<(Seq<u8>, u32)>, int)>
    decreases s.len() - i,
    via spec_parse_entries_decreases
{
    match spec_parse_pair(s, i) {
        Option::None => Option::None,
        Option::Some((k, v, e)) => {
            let c = spec_skip_ws(s, e);
            if c < s.len() && s[c] == 44 {
                match spec_parse_entries(s, c + 1) {
                    Option::None => Option::None,
                    Option::Some((rest, end)) => {
                        if keys_contain(rest, k) {
                            Option::None
                        } else {
                            Option::Some((seq![(k, v)] + rest, end))
                        }
                    },
                }
            } else {
                Option::Some((seq![(k, v)], e))
            }
        },
    }
}

#[via_fn]
proof fn spec_parse_entries_decreases(s: Seq<u8>, i: int) {
    match spec_parse_pair(s, i) {
        Option::None => {},
        Option::Some((k, v, e)) => {
            assert(0 <= i < s.len());
            lemma_parse_pair_advances(s, i);
            lemma_skip_ws_range(s, e);
        },
    }
}

/// The whole configuration: whitespace, an object of zero or more pairs,
/// whitespace, end of input.
pub open spec fn spec_parse_config(s: Seq<u8>) -> Option<Seq<(Seq<u8>, u32)>> {
    let a = spec_skip_ws(s, 0);
    if a < s.len() && s[a] == 123 {
        let b = spec_skip_ws(s, a + 1);
        if b < s.len() && s[b] == 125 {
            if spec_skip_ws(s, b + 1) == s.len() {
                Option::Some(Seq::empty())
            } else {
                Option::None
            }
        } else {
            match spec_parse_entries(s, a + 1) {
                Option::None => Option::None,
                Option::Some((es, e)) => {
                    let c = spec_skip_ws(s, e);
                    if c < s.len() && s[c] == 125 && spec_skip_ws(s, c + 1) == s.len() {
                        Option::Some(es)
                    } else {
                        Option::None
                    }
                },
            }
        }
    } else {
        Option::None
    }
}

/// Everything the digit scan passed over is a digit.
proof fn lemma_scan_digits_chars(s: Seq<u8>, i: int)
    ensures
        0 <= i <= s.len() ==> forall|k: int|
            i <= k < spec_scan_digits(s, i) ==> is_digit(#[trigger] s[k]),
    decreases s.len() - i,
{
    if 0 <= i < s.len() && is_digit(s[i]) {
        lemma_scan_digits_chars(s, i + 1);
    }
}

/// A run of digits has a non-negative value.
proof fn lemma_digits_val_nonneg(s: Seq<u8>, i: int, j: int)
    requires
        forall|k: int| i <= k < j ==> is_digit(#[trigger] s[k]),
    ensures
        digits_val(s, i, j) >= 0,
    decreases j - i,
{
    if i < j {
        lemma_digits_val_nonneg(s, i, j - 1);
    }
}

/// A successfully parsed number is a valid volume level.
proof fn lemma_parse_number_bounds(s: Seq<u8>, i: int)
    ensures
        0 <= i <= s.len() ==> (spec_parse_number(s, i) matches Option::Some((v, e)) ==> v
            <= FULL_VOLUME),
{
    if 0 <= i <= s.len() {
        lemma_scan_digits_chars(s, i);
        lemma_scan_digits_range(s, i);
        let j = spec_scan_digits(s, i);
        lemma_digits_val_nonneg(s, i, j);
        if j < s.len() && s[j] == 46 {
            lemma_scan_digits_chars(s, j + 1);
            lemma_scan_digits_range(s, j + 1);
        }
    }
}

proof fn lemma_skip_ws_range(s: Seq<u8>, i: int)
    ensures
        0 <= i <= s.len() ==> i <= spec_skip_ws(s, i) <= s.len(),
    decreases s.len() - i,
{
    if 0 <= i < s.len() && is_ws(s[i]) {
        lemma_skip_ws_range(s, i + 1);
    }
}

proof fn lemma_scan_digits_range(s: Seq<u8>, i: int)
    ensures
        0 <= i <= s.len() ==> i <= spec_scan_digits(s, i) <= s.len(),
    decreases s.len() - i,
{
    if 0 <= i < s.len() && is_digit(s[i]) {
        lemma_scan_digits_range(s, i + 1);
    }
}

proof fn lemma_scan_string_range(s: Seq<u8>, i: int)
    ensures
        0 <= i <= s.len() ==> (spec_scan_string(s, i) matches Option::Some(q) ==> i <= q
            < s.len()),
    decreases s.len() - i,
{
    if 0 <= i < s.len() && s[i] != 34 && is_string_byte(s[i]) {
        lemma_scan_string_range(s, i + 1);
    }
}

proof fn lemma_parse_number_advances(s: Seq<u8>, i: int)
    ensures
        0 <= i <= s.len() ==> (spec_parse_number(s, i) matches Option::Some((v, e)) ==> i
            < e <= s.len()),
{
    if 0 <= i <= s.len() {
        lemma_scan_digits_range(s, i);
        let j = spec_scan_digits(s, i);
        if j < s.len() && s[j] == 46 {
            lemma_scan_digits_range(s, j + 1);
        }
    }
}

proof fn lemma_parse_pair_advances(s: Seq<u8>, i: int)
    ensures
        0 <= i <= s.len() ==> (spec_parse_pair(s, i) matches Option::Some((k, v, e)) ==> i
            < e <= s.len()),
{
    if 0 <= i <= s.len() {
        lemma_skip_ws_range(s, i);
        let a = spec_skip_ws(s, i);
        if a < s.len() && s[a] == 34 {
            lemma_scan_string_range(s, a + 1);
            match spec_scan_string(s, a + 1) {
                Option::Some(q) => {
                    lemma_skip_ws_range(s, q + 1);
                    let c = spec_skip_ws(s, q + 1);
                    if c < s.len() && s[c] == 58 {
                        lemma_skip_ws_range(s, c + 1);
                        lemma_parse_number_advances(s, spec_skip_ws(s, c + 1));
                    }
                },
                Option::None => {},
            }
        }
    }
}

fn skip_ws(s: &Vec<u8>, i: usize) -> (r: usize)
    requires
        i <= s@.len(),
    ensures
        r == spec_skip_ws(s@, i as int),
        i <= r <= s@.len(),
    decreases s@.len() - i,
{
    if i < s.len() {
        let b = s[i];
        if b == 32 || b == 9 || b == 10 || b == 13 {
            return skip_ws(s, i + 1);
        }
    }
    i
}

fn scan_digits(s: &Vec<u8>, i: usize) -> (r: usize)
    requires
        i <= s@.len(),
    ensures
        r == spec_scan_digits(s@, i as int),
        i <= r <= s@.len(),
    decreases s@.len() - i,
{
    if i < s.len() {
        let b = s[i];
        if 48 <= b && b <= 57 {
            return scan_digits(s, i + 1);
        }
    }
    i
}

fn scan_string(s: &Vec<u8>, i: usize) -> (r: Option<usize>)
    requires
        i <= s@.len(),
    ensures
        (match r {
            Option::Some(q) => spec_scan_string(s@, i as int) == Option::Some(q as int) && i <= q
                < s@.len(),
            Option::None => spec_scan_string(s@, i as int) == Option::None::<int>,
        }),
    decreases s@.len() - i,
{
    if i < s.len() {
        let b = s[i];
        if b == 34 {
            Option::Some(i)
        } else if b >= 32 && b != 92 {
            scan_string(s, i + 1)
        } else {
            Option::None
        }
    } else {
        Option::None
    }
}

/// The lowercased copy of `s[from..to]`.
fn lower_range(s: &Vec<u8>, from: usize, to: usize) -> (r: Vec<u8>)
    requires
        from <= to <= s@.len(),
    ensures
        r@ == spec_lower(s@.subrange(from as int, to as int)),
{
    let mut out: Vec<u8> = Vec::new();
    let mut t: usize = from;
    while t < to
        invariant
            from <= t <= to <= s@.len(),
            out@ == spec_lower(s@.subrange(from as int, t as int)),
        decreases to - t,
    {
        out.push(lower_byte(s[t]));
        proof {
            assert(s@.subrange(from as int, t + 1).drop_last() == s@.subrange(
                from as int,
                t as int,
            ));
            assert(out@ =~= spec_lower(s@.subrange(from as int, t + 1)));
        }
        t = t + 1;
    }
    out
}

fn parse_number(s: &Vec<u8>, i: usize) -> (r: Option<(u32, usize)>)
    requires
        i <= s@.len(),
    ensures
        (match r {
            Option::Some((v, e)) => {
                &&& spec_parse_number(s@, i as int) == Option::Some((v, e as int))
                &&& i < e <= s@.len()
                &&& v <= FULL_VOLUME
            },
            Option::None => spec_parse_number(s@, i as int) == Option::None::<(u32, int)>,
        }),
{
    proof {
        lemma_scan_digits_chars(s@, i as int);
    }
    let j = scan_digits(s, i);
    if j == i {
        return Option::None;
    }
    // The integer part can only be 0 or 1 in a valid level; anything larger
    // is tracked as the cap 2, which is already out of range.
    let mut ip: u32 = 0;
    let mut t: usize = i;
    while t < j
        invariant
            i <= t <= j <= s@.len(),
            j == spec_scan_digits(s@, i as int),
            forall|k: int| i <= k < j ==> is_digit(#[trigger] s@[k]),
            ip == (if digits_val(s@, i as int, t as int) >= 2 {
                2int
            } else {
                digits_val(s@, i as int, t as int)
            }),
        decreases j - t,
    {
        let d: u32 = (s[t] - 48) as u32;
        if ip >= 2 {
            ip = 2;
        } else if ip * 10 + d >= 2 {
            ip = 2;
        } else {
            ip = ip * 10 + d;
        }
        t = t + 1;
    }
    if j < s.len() && s[j] == 46 {
        proof {
            lemma_scan_digits_chars(s@, j + 1);
        }
        let k = scan_digits(s, j + 1);
        if k == j + 1 {
            return Option::None;
        }
        let count = k - (j + 1);
        let mut fv: u32 = 0;
        if count >= 1 {
            fv = fv + ((s[j + 1] - 48) as u32) * 100;
        }
        if count >= 2 {
            fv = fv + ((s[j + 2] - 48) as u32) * 10;
        }
        if count >= 3 {
            fv = fv + ((s[j + 3] - 48) as u32);
        }
        proof {
            assert(fv == frac_thousandths(s@, j + 1, k as int));
            lemma_digits_val_nonneg(s@, i as int, j as int);
        }
        if ip >= 2 {
            return Option::None;
        }
        let total = ip * 1000 + fv;
        if total > FULL_VOLUME {
            return Option::None;
        }
        Option::Some((total, k))
    } else {
        proof {
            lemma_digits_val_nonneg(s@, i as int, j as int);
        }
        if ip >= 2 {
            return Option::None;
        }
        let total = ip * 1000;
        if total > FULL_VOLUME {
            return Option::None;
        }
        Option::Some((total, j))
    }
}

fn parse_pair(s: &Vec<u8>, i: usize) -> (r: Option<(Vec<u8>, u32, usize)>)
    requires
        i <= s@.len(),
    ensures
        (match r {
            Option::Some((k, v, e)) => {
                &&& spec_parse_pair(s@, i as int) == Option::Some((k@, v, e as int))
                &&& i < e <= s@.len()
                &&& v <= FULL_VOLUME
            },
            Option::None => spec_parse_pair(s@, i as int) == Option::None::<(Seq<u8>, u32, int)>,
        }),
{
    let a = skip_ws(s, i);
    if !(a < s.len()) {
        return Option::None;
    }
    if s[a] != 34 {
        return Option::None;
    }
    match scan_string(s, a + 1) {
        Option::None => Option::None,
        Option::Some(q) => {
            if q == a + 1 {
                return Option::None;
            }
            let key = lower_range(s, a + 1, q);
            let c = skip_ws(s, q + 1);
            if c < s.len() && s[c] == 58 {
                let v0 = skip_ws(s, c + 1);
                match parse_number(s, v0) {
                    Option::Some((v, e)) => Option::Some((key, v, e)),
                    Option::None => Option::None,
                }
            } else {
                Option::None
            }
        },
    }
}

fn contains_key(entries: &Vec<(Vec<u8>, u32)>, key: &Vec<u8>) -> (r: bool)
    ensures
        r == keys_contain(entries_model(entries@), key@),
{
    let mut t: usize = 0;
    while t < entries.len()
        invariant
            t <= entries@.len(),
            forall|k2: int|
                0 <= k2 < t ==> (#[trigger] entries_model(entries@)[k2]).0 != key@,
        decreases entries@.len() - t,
    {
        proof {
            assert(entries_model(entries@)[t as int] == (entries@[t as int].0@, entries@[t as int].1));
        }
        if crate::targets::bytes_eq(&entries[t].0, key) {
            return true;
        }
        t = t + 1;
    }
    false
}

fn parse_entries(s: &Vec<u8>, i: usize) -> (r: Option<(Vec<(Vec<u8>, u32)>, usize)>)
    requires
        i <= s@.len(),
    ensures
        (match r {
            Option::Some((es, e)) => {
                &&& spec_parse_entries(s@, i as int) == Option::Some((entries_model(es@), e as int))
                &&& i < e <= s@.len()
            },
            Option::None => spec_parse_entries(s@, i as int) == Option::None::<(
                Seq<(Seq<u8>, u32)>,
                int,
            )>,
        }),
    decreases s@.len() - i,
{
    match parse_pair(s, i) {
        Option::None => Option::None,
        Option::Some((k, v, e)) => {
            let c = skip_ws(s, e);
            if c < s.len() && s[c] == 44 {
                match parse_entries(s, c + 1) {
                    Option::None => Option::None,
                    Option::Some((rest, end)) => {
                        if contains_key(&rest, &k) {
                            return Option::None;
                        }
                        let ghost old_rest = rest@;
                        let mut out = rest;
                        out.insert(0, (k, v));
                        proof {
                            assert(entries_model(out@) =~= seq![(out@[0].0@, out@[0].1)]
                                + entries_model(old_rest));
                        }
                        Option::Some((out, end))
                    },
                }
            } else {
                let mut es: Vec<(Vec<u8>, u32)> = Vec::new();
                let ghost kv = (k@, v);
                es.push((k, v));
                proof {
                    assert(entries_model(es@) =~= seq![kv]);
                }
                Option::Some((es, e))
            }
        },
    }
}

/// A successfully parsed entry list is a well-formed target table.
proof fn lemma_parse_entries_wf(s: Seq<u8>, i: int)
    ensures
        0 <= i <= s.len() ==> (spec_parse_entries(s, i) matches Option::Some((es, e))
            ==> targets_wf(es)),
    decreases s.len() - i,
{
    if 0 <= i <= s.len() {
        match spec_parse_pair(s, i) {
            Option::None => {},
            Option::Some((k, v, e)) => {
                lemma_parse_pair_advances(s, i);
                lemma_pair_key_wf(s, i);
                lemma_skip_ws_range(s, e);
                let c = spec_skip_ws(s, e);
                if c < s.len() && s[c] == 44 {
                    lemma_parse_entries_wf(s, c + 1);
                    match spec_parse_entries(s, c + 1) {
                        Option::None => {},
                        Option::Some((rest, end)) => {
                            if !keys_contain(rest, k) {
                                let es = seq![(k, v)] + rest;
                                assert forall|a: int| 0 <= a < es.len() implies {
                                    &&& (#[trigger] es[a]).0.len() > 0
                                    &&& es[a].0 == spec_lower(es[a].0)
                                    &&& es[a].1 <= FULL_VOLUME
                                } by {
                                    if a > 0 {
                                        assert(es[a] == rest[a - 1]);
                                    }
                                }
                                assert forall|a: int, b: int| 0 <= a < b < es.len() implies (
                                #[trigger] es[a]).0 != (#[trigger] es[b]).0 by {
                                    if a == 0 {
                                        assert(es[b] == rest[b - 1]);
                                        assert(!keys_contain(rest, k));
                                        assert(rest[b - 1].0 != k) by {
                                            if rest[b - 1].0 == k {
                                                assert(keys_contain(rest, k));
                                            }
                                        }
                                    } else {
                                        assert(es[a] == rest[a - 1]);
                                        assert(es[b] == rest[b - 1]);
                                    }
                                }
                            }
                        },
                    }
                } else {
                    let es = seq![(k, v)];
                    assert(es[0] == (k, v));
                }
            },
        }
    }
}

/// The key and level of a parsed pair are a non-empty lowercase fragment
/// and a valid level.
proof fn lemma_pair_key_wf(s: Seq<u8>, i: int)
    ensures
        0 <= i <= s.len() ==> (spec_parse_pair(s, i) matches Option::Some((k, v, e)) ==> (
        k.len() > 0 && k == spec_lower(k) && v <= FULL_VOLUME)),
{
    if 0 <= i <= s.len() {
        lemma_skip_ws_range(s, i);
        let a = spec_skip_ws(s, i);
        if a < s.len() && s[a] == 34 {
            lemma_scan_string_range(s, a + 1);
            match spec_scan_string(s, a + 1) {
                Option::Some(q) => {
                    if q != a + 1 {
                        crate::text::lemma_lower_idempotent(s.subrange(a + 1, q));
                        lemma_skip_ws_range(s, q + 1);
                        let c = spec_skip_ws(s, q + 1);
                        if c < s.len() && s[c] == 58 {
                            lemma_skip_ws_range(s, c + 1);
                            lemma_parse_number_bounds(s, spec_skip_ws(s, c + 1));
                        }
                    }
                },
                Option::None => {},
            }
        }
    }
}

/// The documented default mapping: "firefox" ducked to a tenth of full
/// volume when unfocused, "chrome" to two tenths.
pub open spec fn spec_default_targets() -> Seq<(Seq<u8>, u32)> {
    seq![
        (seq![102u8, 105u8, 114u8, 101u8, 102u8, 111u8, 120u8], 100u32),
        (seq![99u8, 104u8, 114u8, 111u8, 109u8, 101u8], 200u32),
    ]
}

/// The table used when no configuration file exists yet.
pub fn default_targets() -> (r: TargetMap)
    ensures
        r.wf(),
        r@ == spec_default_targets(),
{
    let mut firefox: Vec<u8> = Vec::new();
    firefox.push(102);
    firefox.push(105);
    firefox.push(114);
    firefox.push(101);
    firefox.push(102);
    firefox.push(111);
    firefox.push(120);
    let mut chrome: Vec<u8> = Vec::new();
    chrome.push(99);
    chrome.push(104);
    chrome.push(114);
    chrome.push(111);
    chrome.push(109);
    chrome.push(101);
    proof {
        assert(spec_lower(firefox@) =~= firefox@);
        assert(spec_lower(chrome@) =~= chrome@);
        assert(spec_lower(firefox@).len() != spec_lower(chrome@).len());
    }
    let mut t = TargetMap::new();
    let ghost ff = firefox@;
    let ghost ch = chrome@;
    t.insert(firefox, 100);
    proof {
        assert(t@.len() == 1 && t@[0].0 == spec_lower(ff));
        assert forall|i: int| 0 <= i < t@.len() implies (#[trigger] t@[i]).0 != spec_lower(ch) by {
            assert(t@[i].0.len() == 7 && spec_lower(ch).len() == 6);
        }
    }
    t.insert(chrome, 200);
    proof {
        assert(t@ =~~= spec_default_targets());
    }
    t
}

/// Parse a configuration text into a target table.
///
/// Succeeds exactly on the texts `spec_parse_config` accepts, and then
/// returns exactly the table it describes; every other text is an error.
pub fn parse_config(s: &Vec<u8>) -> (r: Result<TargetMap, ConfigParseError>)
    ensures
        (match r {
            Result::Ok(t) => t.wf() && spec_parse_config(s@) == Option::Some(t@),
            Result::Err(_) => spec_parse_config(s@) == Option::None::<Seq<(Seq<u8>, u32)>>,
        }),
{
    let a = skip_ws(s, 0);
    if !(a < s.len()) {
        return Result::Err(ConfigParseError);
    }
    if s[a] != 123 {
        return Result::Err(ConfigParseError);
    }
    let b = skip_ws(s, a + 1);
    if b < s.len() && s[b] == 125 {
        let f = skip_ws(s, b + 1);
        if f == s.len() {
            Result::Ok(TargetMap::new())
        } else {
            Result::Err(ConfigParseError)
        }
    } else {
        match parse_entries(s, a + 1) {
            Option::None => Result::Err(ConfigParseError),
            Option::Some((es, e)) => {
                let c = skip_ws(s, e);
                if c < s.len() && s[c] == 125 {
                    let f = skip_ws(s, c + 1);
                    if f == s.len() {
                        proof {
                            lemma_parse_entries_wf(s@, a + 1);
                        }
                        Result::Ok(crate::targets::TargetMap::from_entries(es))
                    } else {
                        Result::Err(ConfigParseError)
                    }
                } else {
                    Result::Err(ConfigParseError)
                }
            },
        }
    }
}

} // verus!
