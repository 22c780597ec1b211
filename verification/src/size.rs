//! The human-readable byte-size parser: a decimal number with an optional
//! unit suffix among `GB`, `GiB`, `MB`, `MiB`, `KB`, `KiB` and `kB`, scaled
//! with binary (1024-based) multipliers. Anything that is not a decimal
//! number degrades to zero; a value past `u64::MAX` saturates.

use vstd::prelude::*;

use crate::text::{
    all_digits, dec_val, is_digit, lemma_dec_val_nonneg, lemma_dec_val_take_succ, spec_ends_with,
    spec_find_last, spec_split, split_str, str_ends_with,
};

verus! {

/// Whether `c` has the Unicode White_Space property, the set of characters
/// that `str::trim` removes.
pub open spec fn is_white_space(c: char) -> bool {
    ||| c == ' '
    ||| c == '\t'
    ||| c == '\n'
    ||| c == '\u{b}'
    ||| c == '\u{c}'
    ||| c == '\r'
    ||| c == '\u{85}'
    ||| c == '\u{a0}'
    ||| c == '\u{1680}'
    ||| ('\u{2000}' <= c && c <= '\u{200a}')
    ||| c == '\u{2028}'
    ||| c == '\u{2029}'
    ||| c == '\u{202f}'
    ||| c == '\u{205f}'
    ||| c == '\u{3000}'
}

/// `s` with leading and trailing whitespace removed.
pub open spec fn spec_trim(s: Seq<char>) -> Seq<char>
    decreases s.len(),
{
    if s.len() == 0 {
        s
    } else if is_white_space(s[0]) {
        spec_trim(s.skip(1))
    } else if is_white_space(s.last()) {
        spec_trim(s.drop_last())
    } else {
        s
    }
}

fn is_ws_char(c: char) -> (r: bool)
    ensures
        r == is_white_space(c),
{
    c == ' ' || c == '\t' || c == '\n' || c == '\u{b}' || c == '\u{c}' || c == '\r'
        || c == '\u{85}' || c == '\u{a0}' || c == '\u{1680}' || ('\u{2000}' <= c && c
        <= '\u{200a}') || c == '\u{2028}' || c == '\u{2029}' || c == '\u{202f}' || c
        == '\u{205f}' || c == '\u{3000}'
}

/// Removes leading and trailing whitespace.
pub fn trim_str<'a>(s: &'a str) -> (t: &'a str)
    ensures
        t@ == spec_trim(s@),
{
    let n = s.unicode_len();
    let mut lo: usize = 0;
    proof {
        assert(s@.skip(0) =~= s@);
    }
    while lo < n
        invariant
            0 <= lo <= n,
            n == s@.len(),
            spec_trim(s@) == spec_trim(s@.skip(lo as int)),
        ensures
            lo == n || !is_white_space(s@[lo as int]),
        decreases n - lo,
    {
        let ch = s.get_char(lo);
        proof {
            assert(s@.skip(lo as int)[0] == s@[lo as int]);
            assert(s@.skip(lo as int).skip(1) =~= s@.skip(lo as int + 1));
        }
        if !is_ws_char(ch) {
            break;
        }
        lo += 1;
    }
    if lo == n {
        let t = s.substring_char(n, n);
        proof {
            assert(t@ =~= s@.skip(n as int));
            assert(s@.skip(n as int) =~= Seq::<char>::empty());
        }
        return t;
    }
    // the character at `lo` is not whitespace
    let mut hi: usize = n;
    proof {
        assert(s@.skip(lo as int) =~= s@.subrange(lo as int, n as int));
    }
    while hi > lo + 1
        invariant
            lo < hi <= n,
            n == s@.len(),
            !is_white_space(s@[lo as int]),
            spec_trim(s@) == spec_trim(s@.subrange(lo as int, hi as int)),
        decreases hi,
    {
        let ch = s.get_char(hi - 1);
        proof {
            let t = s@.subrange(lo as int, hi as int);
            assert(t[0] == s@[lo as int]);
            assert(t.last() == s@[hi - 1]);
            assert(t.drop_last() =~= s@.subrange(lo as int, hi as int - 1));
        }
        if !is_ws_char(ch) {
            let t = s.substring_char(lo, hi);
            proof {
                let tv = s@.subrange(lo as int, hi as int);
                assert(t@ =~= tv);
                assert(tv[0] == s@[lo as int]);
                assert(tv.last() == s@[hi - 1]);
            }
            return t;
        }
        hi -= 1;
    }
    // `hi == lo + 1`: a single non-whitespace character remains
    let t = s.substring_char(lo, hi);
    proof {
        let tv = s@.subrange(lo as int, hi as int);
        assert(t@ =~= tv);
        assert(tv[0] == s@[lo as int]);
        assert(tv.last() == s@[lo as int]);
    }
    t
}

/// The binary multiplier that the unit suffix of `t` selects.
pub open spec fn spec_multiplier(t: Seq<char>) -> u64 {
    if spec_ends_with(t, "GB"@) || spec_ends_with(t, "GiB"@) {
        1073741824
    } else if spec_ends_with(t, "MB"@) || spec_ends_with(t, "MiB"@) {
        1048576
    } else if spec_ends_with(t, "KB"@) || spec_ends_with(t, "KiB"@) || spec_ends_with(t, "kB"@) {
        1024
    } else {
        1
    }
}

fn multiplier_of(t: &str) -> (m: u64)
    ensures
        m == spec_multiplier(t@),
{
    if str_ends_with(t, "GB") || str_ends_with(t, "GiB") {
        1073741824
    } else if str_ends_with(t, "MB") || str_ends_with(t, "MiB") {
        1048576
    } else if str_ends_with(t, "KB") || str_ends_with(t, "KiB") || str_ends_with(t, "kB") {
        1024
    } else {
        1
    }
}

/// Whether `c` may appear in the numeric part: an ASCII digit or a dot.
pub open spec fn is_numchar(c: char) -> bool {
    is_digit(c) || c == '.'
}

/// `t` with trailing characters that are not digits or dots removed; this is
/// how the unit suffix is cut off before the number is read.
pub open spec fn spec_strip_nonnum(t: Seq<char>) -> Seq<char>
    decreases t.len(),
{
    if t.len() > 0 && !is_numchar(t.last()) {
        spec_strip_nonnum(t.drop_last())
    } else {
        t
    }
}

fn strip_nonnum<'a>(t: &'a str) -> (r: &'a str)
    ensures
        r@ == spec_strip_nonnum(t@),
{
    let n = t.unicode_len();
    let mut hi: usize = n;
    proof {
        assert(t@.take(n as int) =~= t@);
    }
    while hi > 0
        invariant
            0 <= hi <= n,
            n == t@.len(),
            spec_strip_nonnum(t@) == spec_strip_nonnum(t@.take(hi as int)),
        decreases hi,
    {
        let ch = t.get_char(hi - 1);
        proof {
            assert(t@.take(hi as int).last() == t@[hi - 1]);
            assert(t@.take(hi as int).drop_last() =~= t@.take(hi as int - 1));
        }
        let v = ch as u32;
        if (48 <= v && v <= 57) || ch == '.' {
            let r = t.substring_char(0, hi);
            proof {
                assert(r@ =~= t@.take(hi as int));
            }
            return r;
        }
        hi -= 1;
    }
    let r = t.substring_char(0, 0);
    proof {
        assert(r@ =~= t@.take(0));
    }
    r
}

/// Whether `num` is a decimal number that `parse_size` accepts: non-empty,
/// only digits and dots, at least one digit, and at most one dot.
pub open spec fn spec_numeric_valid(num: Seq<char>) -> bool {
    &&& num.len() > 0
    &&& (forall|i: int| 0 <= i < num.len() ==> is_numchar(num[i]))
    &&& (exists|i: int| 0 <= i < num.len() && is_digit(num[i]))
    &&& (forall|i: int, j: int|
        0 <= i < num.len() && 0 <= j < num.len() && num[i] == '.' && num[j] == '.' ==> i == j)
}

/// The digits before the dot (the whole string when there is no dot).
pub open spec fn spec_int_part(num: Seq<char>) -> Seq<char> {
    match spec_find_last(num, '.') {
        Some(i) => num.take(i),
        None => num,
    }
}

/// The byte count that a size string denotes: the integral part of its
/// decimal number, scaled by the suffix's binary multiplier, saturating at
/// `u64::MAX`; zero when the numeric part is malformed.
pub open spec fn spec_parse_size(s: Seq<char>) -> u64 {
    let t = spec_trim(s);
    let num = spec_strip_nonnum(t);
    if spec_numeric_valid(num) {
        let n = dec_val(spec_int_part(num));
        let m = spec_multiplier(t) as int;
        if n * m > u64::MAX {
            u64::MAX
        } else {
            (n * m) as u64
        }
    } else {
        0
    }
}

proof fn lemma_find_last_at(s: Seq<char>, c: char, d: int)
    requires
        0 <= d < s.len(),
        s[d] == c,
        forall|j: int| 0 <= j < s.len() && j != d ==> s[j] != c,
    ensures
        spec_find_last(s, c) == Some(d),
    decreases s.len(),
{
    if s.last() == c {
        assert(d == s.len() - 1);
    } else {
        assert(s.drop_last()[d] == c);
        lemma_find_last_at(s.drop_last(), c, d);
    }
}

proof fn lemma_find_last_none(s: Seq<char>, c: char)
    requires
        forall|j: int| 0 <= j < s.len() ==> s[j] != c,
    ensures
        spec_find_last(s, c) is None,
    decreases s.len(),
{
    if s.len() > 0 {
        lemma_find_last_none(s.drop_last(), c);
    }
}

/// Parses a human-readable size string into a byte count.
#[verifier::loop_isolation(false)]
pub fn parse_size(s: &str) -> (r: u64)
    ensures
        r == spec_parse_size(s@),
{
    let t = trim_str(s);
    let mult = multiplier_of(t);
    let num = strip_nonnum(t);
    let n = num.unicode_len();
    if n == 0 {
        return 0;
    }
    // scan the numeric part: everything must be a digit or a single dot
    let mut i: usize = 0;
    let mut dot: usize = n;
    let mut saw_digit = false;
    while i < n
        invariant
            0 <= i <= n,
            n == num@.len(),
            forall|j: int| 0 <= j < i ==> is_numchar(num@[j]),
            saw_digit ==> exists|j: int| 0 <= j < i && is_digit(num@[j]),
            !saw_digit ==> forall|j: int| 0 <= j < i ==> !is_digit(num@[j]),
            dot <= n,
            dot < n ==> dot < i && num@[dot as int] == '.',
            forall|j: int| 0 <= j < i && num@[j] == '.' ==> j == dot,
        decreases n - i,
    {
        let c = num.get_char(i);
        let v = c as u32;
        if 48 <= v && v <= 57 {
            saw_digit = true;
            assert(is_digit(num@[i as int]));
        } else if c == '.' {
            if dot < n {
                // a second dot: the numeric part is invalid
                proof {
                    assert(num@[dot as int] == '.' && num@[i as int] == '.');
                    assert(!spec_numeric_valid(num@)) by {
                        if spec_numeric_valid(num@) {
                            assert(dot as int == i as int);
                        }
                    }
                }
                return 0;
            }
            dot = i;
        } else {
            proof {
                assert(!is_numchar(num@[i as int]));
                assert(!spec_numeric_valid(num@)) by {
                    if spec_numeric_valid(num@) {
                        assert(is_numchar(num@[i as int]));
                    }
                }
            }
            return 0;
        }
        i += 1;
    }
    if !saw_digit {
        proof {
            assert(!spec_numeric_valid(num@)) by {
                if spec_numeric_valid(num@) {
                    let j = choose|j: int| 0 <= j < num@.len() && is_digit(num@[j]);
                    assert(!is_digit(num@[j]));
                }
            }
        }
        return 0;
    }
    assert(spec_numeric_valid(num@));
    // the integral part runs up to the dot, or to the end without one
    let end = if dot < n {
        dot
    } else {
        n
    };
    proof {
        if dot < n {
            lemma_find_last_at(num@, '.', dot as int);
        } else {
            lemma_find_last_none(num@, '.');
            assert(num@.take(n as int) =~= num@);
        }
        assert(spec_int_part(num@) == num@.take(end as int));
        assert(forall|j: int| 0 <= j < end ==> is_digit(num@[j]));
        assert(forall|j: int|
            0 <= j < end ==> #[trigger] num@.take(end as int)[j] == num@[j]);
        assert(all_digits(num@.take(end as int)));
    }
    let ghost ip = num@.take(end as int);
    let mut acc: u64 = 0;
    let mut sat = false;
    let mut k: usize = 0;
    proof {
        assert(ip.take(0) =~= Seq::<char>::empty());
    }
    while k < end
        invariant
            0 <= k <= end <= n,
            n == num@.len(),
            ip == num@.take(end as int),
            all_digits(ip),
            !sat ==> acc == dec_val(ip.take(k as int)),
            sat ==> dec_val(ip.take(k as int)) > u64::MAX,
        decreases end - k,
    {
        let c = num.get_char(k);
        proof {
            assert(ip[k as int] == num@[k as int]);
            assert(is_digit(ip[k as int]));
            lemma_dec_val_take_succ(ip, k as int);
            lemma_dec_val_nonneg(ip.take(k as int));
        }
        let d = (c as u32) - 48;
        if sat {
            proof {
                assert(dec_val(ip.take(k as int + 1)) >= dec_val(ip.take(k as int)) * 10);
            }
        } else {
            let step = match acc.checked_mul(10) {
                Some(x) => x.checked_add(d as u64),
                None => None,
            };
            match step {
                Some(v) => {
                    acc = v;
                },
                None => {
                    sat = true;
                },
            }
        }
        k += 1;
    }
    proof {
        assert(ip.take(end as int) =~= ip);
    }
    let ghost nspec = dec_val(ip);
    let ghost m = mult as int;
    proof {
        lemma_dec_val_nonneg(ip);
        assert(m >= 1);
    }
    if sat {
        proof {
            assert(nspec * m >= nspec * 1) by (nonlinear_arith)
                requires
                    m >= 1,
                    nspec >= 0,
            ;
        }
        return u64::MAX;
    }
    match acc.checked_mul(mult) {
        Some(v) => v,
        None => u64::MAX,
    }
}

proof fn lemma_strip_nonnum_concat(t: Seq<char>, u: Seq<char>)
    requires
        forall|i: int| 0 <= i < u.len() ==> !is_numchar(u[i]),
    ensures
        spec_strip_nonnum(t + u) == spec_strip_nonnum(t),
    decreases u.len(),
{
    if u.len() == 0 {
        assert(t + u =~= t);
    } else {
        assert((t + u).last() == u.last());
        assert((t + u).drop_last() =~= t + u.drop_last());
        lemma_strip_nonnum_concat(t, u.drop_last());
    }
}

proof fn lemma_strip_nonnum_prefix(t: Seq<char>)
    ensures
        spec_strip_nonnum(t).len() <= t.len(),
        forall|j: int|
            0 <= j < spec_strip_nonnum(t).len() ==> spec_strip_nonnum(t)[j] == t[j],
    decreases t.len(),
{
    if t.len() > 0 && !is_numchar(t.last()) {
        lemma_strip_nonnum_prefix(t.drop_last());
        assert forall|j: int|
            0 <= j < spec_strip_nonnum(t).len() implies spec_strip_nonnum(t)[j] == t[j] by {
            assert(spec_strip_nonnum(t) == spec_strip_nonnum(t.drop_last()));
            assert(spec_strip_nonnum(t.drop_last())[j] == t.drop_last()[j]);
            assert(t.drop_last()[j] == t[j]);
        }
    }
}

/// Every well-formed size string — a non-empty run of digits followed by a
/// unit suffix of non-numeric, non-whitespace characters — parses to its
/// number scaled by the string's multiplier.
pub proof fn lemma_parse_size_well_formed(num: Seq<char>, unit: Seq<char>)
    requires
        num.len() > 0,
        all_digits(num),
        forall|i: int| 0 <= i < unit.len() ==> !is_numchar(unit[i]) && !is_white_space(unit[i]),
        dec_val(num) * spec_multiplier(num + unit) <= u64::MAX,
    ensures
        spec_parse_size(num + unit) == dec_val(num) * spec_multiplier(num + unit),
{
    let s = num + unit;
    assert(s[0] == num[0]);
    assert(is_digit(s[0]));
    assert(!is_white_space(s[0]));
    if unit.len() > 0 {
        assert(s.last() == unit.last());
    } else {
        assert(s.last() == num.last());
    }
    assert(!is_white_space(s.last()));
    assert(spec_trim(s) == s);
    lemma_strip_nonnum_concat(num, unit);
    assert(num + unit =~= s);
    assert(spec_strip_nonnum(num) == num);
    assert(spec_numeric_valid(num)) by {
        assert(is_digit(num[0]));
        assert(forall|i: int| 0 <= i < num.len() ==> is_numchar(num[i]));
        assert(forall|i: int| 0 <= i < num.len() ==> num[i] != '.');
    }
    lemma_find_last_none(num, '.');
    assert(spec_int_part(num) == num);
    lemma_dec_val_nonneg(num);
}

proof fn lemma_ends_with_concat_cases(num: Seq<char>, unit: Seq<char>, x: Seq<char>)
    requires
        num.len() > 0,
        all_digits(num),
        x.len() == 0 || !is_digit(x[0]),
    ensures
        spec_ends_with(num + unit, x) == spec_ends_with(unit, x),
{
    let s = num + unit;
    if x.len() <= unit.len() {
        assert(s.skip(s.len() - x.len()) =~= unit.skip(unit.len() - x.len()));
    } else {
        assert(!spec_ends_with(unit, x));
        if s.len() >= x.len() && spec_ends_with(s, x) {
            let off = s.len() - x.len();
            assert(s.skip(off)[0] == x[0]);
            assert(s.skip(off)[0] == s[off]);
            assert(off < num.len());
            assert(s[off] == num[off]);
            assert(is_digit(num[off]));
            assert(false);
        }
    }
}

/// The multiplier of a digits-then-unit string is decided by the unit alone,
/// for every unit of the table and for the empty (bytes) unit.
pub proof fn lemma_multiplier_of_unit(num: Seq<char>, unit: Seq<char>)
    requires
        num.len() > 0,
        all_digits(num),
        unit == "GB"@ || unit == "GiB"@ || unit == "MB"@ || unit == "MiB"@ || unit == "KB"@
            || unit == "KiB"@ || unit == "kB"@ || unit == Seq::<char>::empty(),
    ensures
        spec_multiplier(num + unit) == spec_multiplier(unit),
{
    reveal_strlit("GB");
    reveal_strlit("GiB");
    reveal_strlit("MB");
    reveal_strlit("MiB");
    reveal_strlit("KB");
    reveal_strlit("KiB");
    reveal_strlit("kB");
    lemma_ends_with_concat_cases(num, unit, "GB"@);
    lemma_ends_with_concat_cases(num, unit, "GiB"@);
    lemma_ends_with_concat_cases(num, unit, "MB"@);
    lemma_ends_with_concat_cases(num, unit, "MiB"@);
    lemma_ends_with_concat_cases(num, unit, "KB"@);
    lemma_ends_with_concat_cases(num, unit, "KiB"@);
    lemma_ends_with_concat_cases(num, unit, "kB"@);
}

/// Every size string of the documented shape — a non-empty run of digits
/// followed by one unit suffix of the table, or by no suffix at all — parses
/// to its number scaled by the unit's binary multiplier, whenever that
/// product fits.
pub proof fn lemma_parse_size_law(num: Seq<char>, unit: Seq<char>)
    requires
        num.len() > 0,
        all_digits(num),
        unit == "GB"@ || unit == "GiB"@ || unit == "MB"@ || unit == "MiB"@ || unit == "KB"@
            || unit == "KiB"@ || unit == "kB"@ || unit == Seq::<char>::empty(),
        dec_val(num) * spec_multiplier(unit) <= u64::MAX,
    ensures
        spec_parse_size(num + unit) == dec_val(num) * spec_multiplier(unit),
{
    reveal_strlit("GB");
    reveal_strlit("GiB");
    reveal_strlit("MB");
    reveal_strlit("MiB");
    reveal_strlit("KB");
    reveal_strlit("KiB");
    reveal_strlit("kB");
    lemma_multiplier_of_unit(num, unit);
    assert(forall|i: int|
        0 <= i < unit.len() ==> !is_numchar(#[trigger] unit[i]) && !is_white_space(unit[i]));
    lemma_parse_size_well_formed(num, unit);
}

/// A string whose trimmed text holds no digit at all parses to zero.
pub proof fn lemma_parse_size_non_numeric(s: Seq<char>)
    requires
        forall|i: int| 0 <= i < spec_trim(s).len() ==> !is_digit(spec_trim(s)[i]),
    ensures
        spec_parse_size(s) == 0,
{
    let t = spec_trim(s);
    let num = spec_strip_nonnum(t);
    lemma_strip_nonnum_prefix(t);
    assert forall|j: int| 0 <= j < num.len() implies !is_digit(num[j]) by {
        assert(num[j] == t[j]);
        assert(!is_digit(t[j]));
    }
    assert(!spec_numeric_valid(num)) by {
        if spec_numeric_valid(num) {
            let j = choose|j: int| 0 <= j < num.len() && is_digit(num[j]);
            assert(!is_digit(num[j]));
        }
    }
}

/// The pair of sizes in a combined `used / limit` display string; `(0, 0)`
/// unless splitting on `" / "` yields exactly two halves.
pub open spec fn spec_parse_pair(s: Seq<char>) -> (u64, u64) {
    let parts = spec_split(s, " / "@);
    if parts.len() == 2 {
        (spec_parse_size(parts[0]), spec_parse_size(parts[1]))
    } else {
        (0, 0)
    }
}

fn parse_pair(s: &str) -> (r: (u64, u64))
    ensures
        r == spec_parse_pair(s@),
{
    proof {
        reveal_strlit(" / ");
    }
    let parts = split_str(s, " / ");
    if parts.len() == 2 {
        proof {
            assert(parts@[0]@ == parts.deep_view()[0]);
            assert(parts@[1]@ == parts.deep_view()[1]);
        }
        (parse_size(parts[0].as_str()), parse_size(parts[1].as_str()))
    } else {
        (0, 0)
    }
}

/// Splits a memory `used / limit` string and parses both halves as sizes.
pub fn parse_memory_usage(s: &str) -> (r: (u64, u64))
    ensures
        r == spec_parse_pair(s@),
{
    parse_pair(s)
}

/// Splits a network or block `read / write` string and parses both halves as
/// sizes.
pub fn parse_io_stats(s: &str) -> (r: (u64, u64))
    ensures
        r == spec_parse_pair(s@),
{
    parse_pair(s)
}

} // verus!
