//! Verified building blocks for text parsing: substring splitting, character
//! searches, whitespace trimming and decimal digit parsing, all specified
//! over `Seq<char>` views.

use vstd::prelude::*;

verus! {

/// Whether `c` is an ASCII decimal digit.
pub open spec fn is_digit(c: char) -> bool {
    '0' <= c && c <= '9'
}

/// A decimal digit's numeric value.
pub open spec fn digit_val(c: char) -> int {
    c as int - '0' as int
}

/// Whether every character of `s` is an ASCII decimal digit.
pub open spec fn all_digits(s: Seq<char>) -> bool {
    forall|i: int| 0 <= i < s.len() ==> is_digit(s[i])
}

/// The value of a sequence of decimal digits, most significant first.
pub open spec fn dec_val(s: Seq<char>) -> int
    decreases s.len(),
{
    if s.len() == 0 {
        0
    } else {
        dec_val(s.drop_last()) * 10 + digit_val(s.last())
    }
}

pub proof fn lemma_dec_val_nonneg(s: Seq<char>)
    requires
        all_digits(s),
    ensures
        dec_val(s) >= 0,
    decreases s.len(),
{
    if s.len() > 0 {
        assert(all_digits(s.drop_last()));
        lemma_dec_val_nonneg(s.drop_last());
    }
}

/// Extending a digit string to the right multiplies its value by ten and adds
/// the new digit.
pub proof fn lemma_dec_val_take_succ(s: Seq<char>, i: int)
    requires
        0 <= i < s.len(),
    ensures
        dec_val(s.take(i + 1)) == dec_val(s.take(i)) * 10 + digit_val(s[i]),
{
    assert(s.take(i + 1).drop_last() =~= s.take(i));
    assert(s.take(i + 1).last() == s[i]);
}

/// The value of a digit string is at least the value of any prefix of it.
pub proof fn lemma_dec_val_prefix_le(s: Seq<char>, i: int)
    requires
        0 <= i <= s.len(),
        all_digits(s),
    ensures
        dec_val(s.take(i)) <= dec_val(s),
    decreases s.len() - i,
{
    if i == s.len() {
        assert(s.take(i) =~= s);
    } else {
        lemma_dec_val_take_succ(s, i);
        assert(all_digits(s.take(i))) by {
            assert(forall|j: int| 0 <= j < i ==> s.take(i)[j] == s[j]);
        }
        lemma_dec_val_nonneg(s.take(i));
        lemma_dec_val_prefix_le(s, i + 1);
    }
}

/// Splitting on a non-empty separator, leftmost match first; mirrors how
/// `str::split` cuts a string into pieces.
pub open spec fn spec_split(s: Seq<char>, sep: Seq<char>) -> Seq<Seq<char>>
    decreases s.len(),
{
    if s.len() == 0 {
        seq![Seq::<char>::empty()]
    } else if 1 <= sep.len() && sep.len() <= s.len() && s.take(sep.len() as int) == sep {
        seq![Seq::<char>::empty()] + spec_split(s.skip(sep.len() as int), sep)
    } else {
        let rest = spec_split(s.skip(1), sep);
        seq![seq![s[0]] + rest[0]] + rest.skip(1)
    }
}

pub proof fn lemma_split_len(s: Seq<char>, sep: Seq<char>)
    ensures
        spec_split(s, sep).len() >= 1,
    decreases s.len(),
{
    if s.len() == 0 {
    } else if 1 <= sep.len() && sep.len() <= s.len() && s.take(sep.len() as int) == sep {
        lemma_split_len(s.skip(sep.len() as int), sep);
    } else {
        lemma_split_len(s.skip(1), sep);
    }
}

/// A partial piece `p` prepended to the first piece of `ss`.
pub open spec fn prepend_first(p: Seq<char>, ss: Seq<Seq<char>>) -> Seq<Seq<char>> {
    seq![p + ss[0]] + ss.skip(1)
}

/// Whether `sep` occurs in `s` starting at position `i`.
fn match_at(s: &str, i: usize, sep: &str) -> (r: bool)
    requires
        i + sep@.len() <= s@.len(),
    ensures
        r == (s@.subrange(i as int, i as int + sep@.len()) == sep@),
{
    let n = s.unicode_len();
    let m = sep.unicode_len();
    let mut j: usize = 0;
    while j < m
        invariant
            0 <= j <= m,
            m == sep@.len(),
            n == s@.len(),
            i + m <= n,
            forall|k: int| 0 <= k < j ==> s@[i + k] == sep@[k],
        decreases m - j,
    {
        if s.get_char(i + j) != sep.get_char(j) {
            assert(s@.subrange(i as int, i as int + sep@.len())[j as int] == s@[i + j]);
            return false;
        }
        j += 1;
    }
    proof {
        assert(s@.subrange(i as int, i as int + sep@.len()) =~= sep@);
    }
    true
}

/// Splits `s` on the non-empty separator `sep`, leftmost match first,
/// exactly as `str::split` does.
pub fn split_str(s: &str, sep: &str) -> (r: Vec<String>)
    requires
        sep@.len() >= 1,
    ensures
        r.deep_view() == spec_split(s@, sep@),
{
    let n = s.unicode_len();
    let m = sep.unicode_len();
    let mut r: Vec<String> = Vec::new();
    let mut st: usize = 0;
    let mut i: usize = 0;
    proof {
        lemma_split_len(s@, sep@);
        assert(s@.skip(0) =~= s@);
        assert(prepend_first(s@.subrange(0, 0), spec_split(s@, sep@)) =~~= spec_split(s@, sep@));
    }
    while i < n
        invariant
            st <= i <= n,
            n == s@.len(),
            m == sep@.len(),
            1 <= m,
            spec_split(s@, sep@) == r.deep_view() + prepend_first(
                s@.subrange(st as int, i as int),
                spec_split(s@.skip(i as int), sep@),
            ),
        decreases n - i,
    {
        let ghost pre = r.deep_view();
        let ghost cur = s@.subrange(st as int, i as int);
        let is_match = m <= n - i && match_at(s, i, sep);
        if is_match {
            proof {
                assert(s@.skip(i as int).take(m as int) =~= s@.subrange(
                    i as int,
                    i as int + m as int,
                ));
                lemma_split_len(s@.skip(i as int + m), sep@);
            }
            let piece = s.substring_char(st, i);
            r.push(String::from_str(piece));
            st = i + m;
            i = i + m;
            proof {
                let tail = spec_split(s@.skip(i as int), sep@);
                assert(s@.skip((i - m) as int).skip(m as int) =~= s@.skip(i as int));
                assert(spec_split(s@.skip((i - m) as int), sep@) =~~= seq![Seq::<char>::empty()]
                    + tail);
                assert(prepend_first(cur, seq![Seq::<char>::empty()] + tail) =~~= seq![cur]
                    + prepend_first(s@.subrange(st as int, i as int), tail));
                assert(r.deep_view() =~~= pre + seq![cur]);
                assert(spec_split(s@, sep@) =~~= r.deep_view() + prepend_first(
                    s@.subrange(st as int, i as int),
                    tail,
                ));
            }
        } else {
            i = i + 1;
            proof {
                let oi = i - 1;
                let si = s@.skip(oi);
                assert(si.len() > 0);
                // the separator does not start at position `oi`
                assert(m <= n - oi ==> si.take(sep@.len() as int) =~= s@.subrange(
                    oi,
                    oi + m as int,
                ));
                assert(!(1 <= sep@.len() && sep@.len() <= si.len() && si.take(sep@.len() as int)
                    == sep@));
                let rest = spec_split(s@.skip(oi + 1), sep@);
                assert(s@.skip(oi).skip(1) =~= s@.skip(oi + 1));
                assert(spec_split(si, sep@) =~~= seq![seq![s@[oi]] + rest[0]] + rest.skip(1));
                lemma_split_len(s@.skip(oi + 1), sep@);
                assert(cur + (seq![s@[oi]] + rest[0]) =~= s@.subrange(st as int, i as int)
                    + rest[0]);
                assert(prepend_first(cur, spec_split(si, sep@)) =~~= prepend_first(
                    s@.subrange(st as int, i as int),
                    rest,
                ));
            }
        }
    }
    let piece = s.substring_char(st, n);
    r.push(String::from_str(piece));
    proof {
        let cur = s@.subrange(st as int, n as int);
        assert(s@.skip(n as int) =~= Seq::<char>::empty());
        assert(spec_split(s@.skip(n as int), sep@) =~~= seq![Seq::<char>::empty()]);
        assert(prepend_first(cur, seq![Seq::<char>::empty()]) =~~= seq![cur]);
        assert(r.deep_view() =~~= spec_split(s@, sep@));
    }
    r
}

/// The index of the last occurrence of `c` in `s`, if any.
pub open spec fn spec_find_last(s: Seq<char>, c: char) -> Option<int>
    decreases s.len(),
{
    if s.len() == 0 {
        None
    } else if s.last() == c {
        Some(s.len() - 1)
    } else {
        spec_find_last(s.drop_last(), c)
    }
}

/// A found position is in range and holds the character.
pub proof fn lemma_find_last_props(s: Seq<char>, c: char)
    requires
        spec_find_last(s, c) is Some,
    ensures
        0 <= spec_find_last(s, c)->0 < s.len(),
        s[spec_find_last(s, c)->0] == c,
    decreases s.len(),
{
    if s.len() > 0 && s.last() != c {
        lemma_find_last_props(s.drop_last(), c);
    }
}

/// Finds the last occurrence of `c` in `s`, as `str::rsplitn` with a
/// character pattern would cut at it.
pub fn find_last_char(s: &str, c: char) -> (r: Option<usize>)
    ensures
        (match r {
            Some(i) => Some(i as int),
            None => None::<int>,
        }) == spec_find_last(s@, c),
{
    let n = s.unicode_len();
    let mut i: usize = n;
    proof {
        assert(s@.take(n as int) =~= s@);
    }
    while i > 0
        invariant
            0 <= i <= n,
            n == s@.len(),
            spec_find_last(s@, c) == spec_find_last(s@.take(i as int), c),
        decreases i,
    {
        let ch = s.get_char(i - 1);
        proof {
            assert(s@.take(i as int).last() == s@[i - 1]);
            assert(s@.take(i as int).drop_last() =~= s@.take(i as int - 1));
        }
        if ch == c {
            return Some(i - 1);
        }
        i -= 1;
    }
    proof {
        assert(s@.take(0) =~= Seq::<char>::empty());
    }
    None
}

/// The digits of a port number: one optional leading plus sign is allowed,
/// as the standard integer parse accepts it.
pub open spec fn spec_u16_digits(s: Seq<char>) -> Seq<char> {
    if s.len() > 0 && s[0] == '+' {
        s.skip(1)
    } else {
        s
    }
}

/// Parses an unsigned decimal port number: defined exactly when the string,
/// after one optional leading plus sign, is non-empty, all digits, and the
/// value fits in sixteen bits.
pub open spec fn spec_parse_u16(s: Seq<char>) -> Option<u16> {
    let t = spec_u16_digits(s);
    if t.len() > 0 && all_digits(t) && dec_val(t) <= 0xffff {
        Some(dec_val(t) as u16)
    } else {
        None
    }
}

pub fn parse_u16(s: &str) -> (r: Option<u16>)
    ensures
        r == spec_parse_u16(s@),
{
    let sn = s.unicode_len();
    if sn == 0 {
        return None;
    }
    let t: &str = if s.get_char(0) == '+' {
        s.substring_char(1, sn)
    } else {
        s
    };
    proof {
        if s@[0] == '+' {
            assert(t@ =~= s@.skip(1));
        }
        assert(t@ == spec_u16_digits(s@));
    }
    let n = t.unicode_len();
    if n == 0 {
        return None;
    }
    let mut acc: u32 = 0;
    let mut i: usize = 0;
    proof {
        assert(t@.take(0) =~= Seq::<char>::empty());
    }
    while i < n
        invariant
            0 <= i <= n,
            n == t@.len(),
            t@ == spec_u16_digits(s@),
            all_digits(t@.take(i as int)),
            acc == dec_val(t@.take(i as int)),
            acc <= 0xffff,
        decreases n - i,
    {
        let c = t.get_char(i);
        let v = c as u32;
        if v < 48 || v > 57 {
            assert(!is_digit(t@[i as int]));
            return None;
        }
        let d = v - 48;
        proof {
            lemma_dec_val_take_succ(t@, i as int);
            assert(t@.take(i as int + 1) =~= t@.take(i as int).push(t@[i as int]));
            assert(forall|j: int| 0 <= j < i + 1 ==> is_digit(#[trigger] t@.take(i as int + 1)[j]));
        }
        acc = acc * 10 + d;
        i += 1;
        if acc > 0xffff {
            proof {
                if all_digits(t@) && dec_val(t@) <= 0xffff {
                    lemma_dec_val_prefix_le(t@, i as int);
                }
            }
            return None;
        }
    }
    proof {
        assert(t@.take(n as int) =~= t@);
    }
    Some(acc as u16)
}

/// Character-wise string equality.
pub fn str_eq(a: &str, b: &str) -> (r: bool)
    ensures
        r == (a@ == b@),
{
    let n = a.unicode_len();
    if n != b.unicode_len() {
        return false;
    }
    let mut i: usize = 0;
    while i < n
        invariant
            0 <= i <= n,
            n == a@.len(),
            n == b@.len(),
            forall|j: int| 0 <= j < i ==> a@[j] == b@[j],
        decreases n - i,
    {
        if a.get_char(i) != b.get_char(i) {
            return false;
        }
        i += 1;
    }
    proof {
        assert(a@ =~= b@);
    }
    true
}

/// `s` with every trailing occurrence of `c` removed, as
/// `str::trim_end_matches` with a character pattern leaves it.
pub open spec fn spec_strip_trailing_char(s: Seq<char>, c: char) -> Seq<char>
    decreases s.len(),
{
    if s.len() > 0 && s.last() == c {
        spec_strip_trailing_char(s.drop_last(), c)
    } else {
        s
    }
}

pub fn strip_trailing_char<'a>(s: &'a str, c: char) -> (t: &'a str)
    ensures
        t@ == spec_strip_trailing_char(s@, c),
{
    let n = s.unicode_len();
    let mut hi: usize = n;
    proof {
        assert(s@.take(n as int) =~= s@);
    }
    while hi > 0
        invariant
            0 <= hi <= n,
            n == s@.len(),
            spec_strip_trailing_char(s@, c) == spec_strip_trailing_char(s@.take(hi as int), c),
        decreases hi,
    {
        let ch = s.get_char(hi - 1);
        proof {
            assert(s@.take(hi as int).last() == s@[hi - 1]);
            assert(s@.take(hi as int).drop_last() =~= s@.take(hi as int - 1));
        }
        if ch != c {
            let t = s.substring_char(0, hi);
            proof {
                assert(t@ =~= s@.take(hi as int));
            }
            return t;
        }
        hi -= 1;
    }
    let t = s.substring_char(0, 0);
    proof {
        assert(t@ =~= s@.take(0));
    }
    t
}

/// Whether `s` ends with the suffix `suf`.
pub open spec fn spec_ends_with(s: Seq<char>, suf: Seq<char>) -> bool {
    s.len() >= suf.len() && s.skip(s.len() - suf.len()) == suf
}

pub fn str_ends_with(s: &str, suf: &str) -> (r: bool)
    ensures
        r == spec_ends_with(s@, suf@),
{
    let n = s.unicode_len();
    let m = suf.unicode_len();
    if m > n {
        return false;
    }
    let off = n - m;
    let mut j: usize = 0;
    while j < m
        invariant
            0 <= j <= m,
            off == n - m,
            m <= n,
            n == s@.len(),
            m == suf@.len(),
            forall|k: int| 0 <= k < j ==> s@[off + k] == suf@[k],
        decreases m - j,
    {
        if s.get_char(off + j) != suf.get_char(j) {
            assert(s@.skip(s@.len() - suf@.len())[j as int] == s@[off + j]);
            return false;
        }
        j += 1;
    }
    proof {
        assert(s@.skip(s@.len() - suf@.len()) =~= suf@);
    }
    true
}

} // verus!
