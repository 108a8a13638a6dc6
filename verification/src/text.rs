//! Character-level string helpers shared by the other modules.
use vstd::prelude::*;

verus! {

/// Compares two string slices for equality.
///
/// Trusted wrapper around `<str as PartialEq>::eq`; std documents that two
/// `str` values are equal exactly when they hold the same characters.
#[verifier::external_body]
pub(crate) fn str_eq(a: &str, b: &str) -> (r: bool)
    ensures
        r == (a@ == b@),
{
    a == b
}

/// Appends a character to a `String`.
///
/// Trusted wrapper around `String::push`, which std documents as appending
/// the given `char` to the end of the string.
#[verifier::external_body]
pub(crate) fn push_char(s: &mut String, c: char)
    ensures
        final(s)@ == old(s)@.push(c),
{
    s.push(c)
}

/// Removes the last character of a `String`.
///
/// Trusted wrapper around `String::pop`, which std documents as removing the
/// last character and returning it, or returning `None` when the string is
/// empty.
#[verifier::external_body]
pub(crate) fn pop_char(s: &mut String) -> (r: Option<char>)
    ensures
        old(s)@.len() == 0 ==> r is None && final(s)@ == old(s)@,
        old(s)@.len() > 0 ==> r == Some(old(s)@.last()) && final(s)@ == old(s)@.drop_last(),
{
    s.pop()
}

/// Copies a string slice into a new `String` holding the same characters.
pub(crate) fn owned(s: &str) -> (r: String)
    ensures
        r@ == s@,
{
    s.to_owned()
}

/// The characters of `s`, in order.
pub(crate) fn chars_of(s: &str) -> (r: Vec<char>)
    ensures
        r@ == s@,
{
    let mut out: Vec<char> = Vec::new();
    for c in it: s.chars()
        invariant
            out@ == it.seq().take(it.index() as int),
    {
        out.push(c);
    }
    out
}

/// A `String` holding the characters `cs[from..to]`.
pub(crate) fn string_from_range(cs: &Vec<char>, from: usize, to: usize) -> (r: String)
    requires
        from <= to <= cs@.len(),
    ensures
        r@ == cs@.subrange(from as int, to as int),
{
    let mut out = String::new();
    let mut i = from;
    while i < to
        invariant
            from <= i <= to,
            to <= cs@.len(),
            out@ == cs@.subrange(from as int, i as int),
        decreases to - i,
    {
        push_char(&mut out, cs[i]);
        assert(cs@.subrange(from as int, i + 1) =~= cs@.subrange(from as int, i as int).push(
            cs@[i as int],
        ));
        i += 1;
    }
    out
}

/// `s` with every leading copy of the non-empty pattern `p` removed.
pub open spec fn trim_start_all(s: Seq<char>, p: Seq<char>) -> Seq<char>
    decreases s.len(),
{
    if p.len() > 0 && s.len() >= p.len() && s.take(p.len() as int) == p {
        trim_start_all(s.skip(p.len() as int), p)
    } else {
        s
    }
}

/// `s` with every trailing copy of the non-empty pattern `p` removed.
pub open spec fn trim_end_all(s: Seq<char>, p: Seq<char>) -> Seq<char>
    decreases s.len(),
{
    if p.len() > 0 && s.len() >= p.len() && s.skip(s.len() - p.len()) == p {
        trim_end_all(s.take(s.len() - p.len()), p)
    } else {
        s
    }
}

/// Index of the first occurrence of `c` in `s`, or -1.
pub open spec fn first_index_of(s: Seq<char>, c: char) -> int
    decreases s.len(),
{
    if s.len() == 0 {
        -1
    } else {
        let p = first_index_of(s.drop_last(), c);
        if p >= 0 {
            p
        } else if s.last() == c {
            s.len() - 1
        } else {
            -1
        }
    }
}

/// `s[pos..]` starts with `p`.
fn matches_at(s: &Vec<char>, pos: usize, p: &Vec<char>) -> (r: bool)
    requires
        pos <= s@.len(),
    ensures
        r == (s@.len() - pos >= p@.len() && s@.subrange(pos as int, pos + p@.len()) == p@),
{
    if s.len() - pos < p.len() {
        return false;
    }
    let mut k: usize = 0;
    while k < p.len()
        invariant
            k <= p@.len(),
            pos <= s@.len() <= usize::MAX,
            s@.len() - pos >= p@.len(),
            forall|j: int| 0 <= j < k ==> s@[pos + j] == p@[j],
        decreases p@.len() - k,
    {
        if s[pos + k] != p[k] {
            assert(s@.subrange(pos as int, pos + p@.len())[k as int] != p@[k as int]);
            return false;
        }
        k += 1;
    }
    assert(s@.subrange(pos as int, pos + p@.len()) =~= p@);
    true
}

/// Bounds `[from, to)` of `trim_end_all(trim_start_all(s, start), end)`
/// inside `s`.
pub(crate) fn trim_bounds(s: &Vec<char>, start: &Vec<char>, end: &Vec<char>) -> (r: (usize, usize))
    requires
        start@.len() > 0,
        end@.len() > 0,
    ensures
        r.0 <= r.1 <= s@.len(),
        s@.subrange(r.0 as int, r.1 as int) == trim_end_all(trim_start_all(s@, start@), end@),
{
    let mut from: usize = 0;
    let _n = s.len();
    assert(s@.skip(0) =~= s@);
    let mut more = matches_at(s, 0, start);
    while more
        invariant
            from <= s@.len() <= usize::MAX,
            start@.len() > 0,
            trim_start_all(s@.skip(from as int), start@) == trim_start_all(s@, start@),
            more == (s@.len() - from >= start@.len() && s@.subrange(
                from as int,
                from + start@.len(),
            ) == start@),
        decreases s@.len() - from,
    {
        let ghost rest = s@.skip(from as int);
        assert(rest.take(start@.len() as int) =~= s@.subrange(from as int, from + start@.len()));
        assert(rest.skip(start@.len() as int) =~= s@.skip(from + start@.len()));
        from = from + start.len();
        more = matches_at(s, from, start);
    }
    let ghost rest = s@.skip(from as int);
    assert(rest.len() >= start@.len() ==> rest.take(start@.len() as int) =~= s@.subrange(
        from as int,
        from + start@.len(),
    ));
    assert(trim_start_all(s@, start@) == rest);
    let mut to: usize = s.len();
    assert(rest =~= s@.subrange(from as int, s@.len() as int));
    let mut more_end = to - from >= end.len() && matches_at(s, to - end.len(), end);
    while more_end
        invariant
            from <= to <= s@.len(),
            end@.len() > 0,
            rest == s@.skip(from as int),
            trim_end_all(s@.subrange(from as int, to as int), end@) == trim_end_all(rest, end@),
            more_end == (to - from >= end@.len() && s@.subrange(to - end@.len(), to as int)
                == end@),
        decreases to,
    {
        let ghost cur = s@.subrange(from as int, to as int);
        assert(cur.skip(cur.len() - end@.len()) =~= s@.subrange(to - end@.len(), to as int));
        assert(cur.take(cur.len() - end@.len()) =~= s@.subrange(from as int, to - end@.len()));
        to = to - end.len();
        more_end = to - from >= end.len() && matches_at(s, to - end.len(), end);
    }
    let ghost cur = s@.subrange(from as int, to as int);
    assert(cur.len() >= end@.len() ==> cur.skip(cur.len() - end@.len()) =~= s@.subrange(
        to - end@.len(),
        to as int,
    ));
    (from, to)
}

/// Index of the first `c` in `s[from..to]` (relative to `s`).
pub(crate) fn find_char_in(s: &Vec<char>, from: usize, to: usize, c: char) -> (r: Option<usize>)
    requires
        from <= to <= s@.len(),
    ensures
        match r {
            Some(i) => from <= i < to && i - from == first_index_of(s@.subrange(from as int, to as int), c),
            None => first_index_of(s@.subrange(from as int, to as int), c) < 0,
        },
{
    let mut i = from;
    while i < to
        invariant
            from <= i <= to <= s@.len(),
            first_index_of(s@.subrange(from as int, i as int), c) < 0,
        decreases to - i,
    {
        let ghost pre = s@.subrange(from as int, i + 1);
        assert(pre.drop_last() =~= s@.subrange(from as int, i as int));
        if s[i] == c {
            proof {
                lemma_first_index_prefix(s@.subrange(from as int, to as int), i + 1 - from, c);
                assert(s@.subrange(from as int, to as int).take(i + 1 - from) =~= pre);
            }
            return Some(i);
        }
        i += 1;
    }
    None
}

/// A match found in a prefix is the first match of the whole sequence.
pub proof fn lemma_first_index_prefix(s: Seq<char>, k: int, c: char)
    requires
        0 <= k <= s.len(),
        first_index_of(s.take(k), c) >= 0,
    ensures
        first_index_of(s, c) == first_index_of(s.take(k), c),
    decreases s.len(),
{
    if k == s.len() {
        assert(s.take(k) =~= s);
    } else {
        assert(s.drop_last().take(k) =~= s.take(k));
        lemma_first_index_prefix(s.drop_last(), k, c);
    }
}

/// `c` is one of `0`..`9`.
pub open spec fn is_digit(c: char) -> bool {
    '0' <= c && c <= '9'
}

/// The value of a string of decimal digits.
pub open spec fn decimal_value(s: Seq<char>) -> int
    decreases s.len(),
{
    if s.len() == 0 {
        0
    } else {
        decimal_value(s.drop_last()) * 10 + (s.last() as int - '0' as int)
    }
}

/// The digits that `u64::from_str`-style parsing reads: one optional
/// leading `+` is skipped.
pub open spec fn unsigned_digits(s: Seq<char>) -> Seq<char> {
    if s.len() > 0 && s[0] == '+' {
        s.skip(1)
    } else {
        s
    }
}

/// What std's `FromStr` for an unsigned integer type whose maximum is
/// `max` returns: the value when `s` is an optional `+` followed by one or
/// more decimal digits whose value is at most `max`, otherwise nothing.
pub open spec fn parse_unsigned(s: Seq<char>, max: int) -> Option<int> {
    let d = unsigned_digits(s);
    if d.len() > 0 && (forall|i: int| 0 <= i < d.len() ==> is_digit(#[trigger] d[i]))
        && decimal_value(d) <= max {
        Some(decimal_value(d))
    } else {
        None
    }
}

proof fn lemma_decimal_value_monotone(s: Seq<char>, k: int)
    requires
        0 <= k <= s.len(),
        forall|i: int| 0 <= i < s.len() ==> is_digit(#[trigger] s[i]),
    ensures
        decimal_value(s.take(k)) <= decimal_value(s),
        decimal_value(s) >= 0,
    decreases s.len(),
{
    if s.len() > 0 {
        assert(forall|i: int| 0 <= i < s.drop_last().len() ==> is_digit(#[trigger] s.drop_last()[i])) by {
            assert forall|i: int| 0 <= i < s.drop_last().len() implies is_digit(#[trigger] s.drop_last()[i]) by {
                assert(s.drop_last()[i] == s[i]);
            }
        }
        if k == s.len() {
            assert(s.take(k) =~= s);
            lemma_decimal_value_monotone(s.drop_last(), 0);
        } else {
            assert(s.drop_last().take(k) =~= s.take(k));
            lemma_decimal_value_monotone(s.drop_last(), k);
        }
        assert(is_digit(s[s.len() - 1]));
    } else {
        assert(s.take(k) =~= s);
    }
}

/// Parses `s` as std's `FromStr` for an unsigned integer type whose
/// maximum is `max` would.
pub(crate) fn parse_unsigned_exec(s: &Vec<char>, from: usize, to: usize, max: u64) -> (r: Option<u64>)
    requires
        from <= to <= s@.len(),
    ensures
        match r {
            Some(v) => parse_unsigned(s@.subrange(from as int, to as int), max as int) == Some(
                v as int,
            ),
            None => parse_unsigned(s@.subrange(from as int, to as int), max as int) is None,
        },
{
    let ghost whole = s@.subrange(from as int, to as int);
    let mut i = from;
    if i < to && s[i] == '+' {
        i = i + 1;
    }
    let ghost d = unsigned_digits(whole);
    assert(d =~= s@.subrange(i as int, to as int));
    if i == to {
        return None;
    }
    let start = i;
    let mut acc: u64 = 0;
    while i < to
        invariant
            start <= i <= to <= s@.len(),
            d == s@.subrange(start as int, to as int),
            d == unsigned_digits(whole),
            whole == s@.subrange(from as int, to as int),
            forall|j: int| 0 <= j < i - start ==> is_digit(#[trigger] d[j]),
            acc as int == decimal_value(d.take(i - start)),
            acc <= max,
        decreases to - i,
    {
        let c = s[i];
        assert(c == d[i - start]);
        if !('0' <= c && c <= '9') {
            assert(!is_digit(d[i - start]));
            assert(parse_unsigned(whole, max as int) is None);
            return None;
        }
        let digit = (c as u32 - '0' as u32) as u64;
        assert(d.take(i + 1 - start).drop_last() =~= d.take(i - start));
        assert(d.take(i + 1 - start).last() == c);
        assert(decimal_value(d.take(i + 1 - start)) == acc * 10 + digit);
        if digit > max {
            proof {
                if forall|j: int| 0 <= j < d.len() ==> is_digit(#[trigger] d[j]) {
                    lemma_decimal_value_monotone(d, i + 1 - start);
                }
                assert(parse_unsigned(whole, max as int) is None);
            }
            return None;
        }
        if acc > (max - digit) / 10 {
            proof {
                assert(acc * 10 + digit > max) by (nonlinear_arith)
                    requires
                        acc > (max - digit) / 10,
                        digit <= max,
                ;
                if forall|j: int| 0 <= j < d.len() ==> is_digit(#[trigger] d[j]) {
                    lemma_decimal_value_monotone(d, i + 1 - start);
                }
            }
            return None;
        }
        assert(acc * 10 + digit <= max) by (nonlinear_arith)
            requires
                acc <= (max - digit) / 10,
                digit <= max,
        ;
        acc = acc * 10 + digit;
        i += 1;
    }
    assert(d.take(d.len() as int) =~= d);
    Some(acc)
}

/// The Unicode lower-case mapping of `s`, as `str::to_lowercase` computes it.
pub uninterp spec fn lowercase(s: Seq<char>) -> Seq<char>;

/// Lower-cases a string.
///
/// Trusted wrapper around `str::to_lowercase`; its result depends on the
/// characters of `s` alone and is named `lowercase`.
#[verifier::external_body]
pub(crate) fn to_lowercase(s: &str) -> (r: String)
    ensures
        r@ == lowercase(s@),
{
    s.to_lowercase()
}

/// `c` with `A`..`Z` mapped to `a`..`z`.
pub open spec fn ascii_lower_char(c: char) -> char {
    if 'A' <= c && c <= 'Z' {
        ((c as u32) + 32) as char
    } else {
        c
    }
}

/// `s` with ASCII upper-case letters mapped to lower case.
pub open spec fn ascii_lower(s: Seq<char>) -> Seq<char> {
    s.map_values(|c: char| ascii_lower_char(c))
}

/// `s` with ASCII upper-case letters mapped to lower case, as
/// `str::to_ascii_lowercase` does.
pub(crate) fn to_ascii_lowercase(s: &str) -> (r: String)
    ensures
        r@ == ascii_lower(s@),
{
    let cs = chars_of(s);
    let mut out = String::new();
    let mut i: usize = 0;
    while i < cs.len()
        invariant
            i <= cs@.len(),
            cs@ == s@,
            out@ == ascii_lower(cs@.take(i as int)),
        decreases cs@.len() - i,
    {
        let c = cs[i];
        let l = if 'A' <= c && c <= 'Z' {
            let code: u8 = (c as u32 + 32) as u8;
            code as char
        } else {
            c
        };
        assert(l == ascii_lower_char(c));
        push_char(&mut out, l);
        assert(ascii_lower(cs@.take(i + 1)) =~= ascii_lower(cs@.take(i as int)).push(l));
        i += 1;
    }
    assert(cs@.take(cs@.len() as int) =~= cs@);
    out
}

/// `p` occurs in `s` as a contiguous run of characters.
pub open spec fn contains_seq(s: Seq<char>, p: Seq<char>) -> bool {
    exists|i: int| 0 <= i && i + p.len() <= s.len() && #[trigger] s.subrange(i, i + p.len()) == p
}

/// Whether `p` occurs in `s`, as `str::contains` with a `&str` pattern.
pub(crate) fn contains_str(s: &str, p: &str) -> (r: bool)
    ensures
        r == contains_seq(s@, p@),
{
    let sc = chars_of(s);
    let pc = chars_of(p);
    if pc.len() > sc.len() {
        return false;
    }
    if pc.len() == 0 {
        assert(s@.subrange(0, 0 + p@.len() as int) =~= p@);
        return true;
    }
    let mut i: usize = 0;
    let last = sc.len() - pc.len();
    while i <= last
        invariant
            sc@ == s@,
            pc@ == p@,
            pc@.len() <= sc@.len() <= usize::MAX,
            last == sc@.len() - pc@.len(),
            pc@.len() > 0,
            i <= last + 1,
            forall|j: int| 0 <= j < i ==> #[trigger] sc@.subrange(j, j + pc@.len()) != pc@,
        decreases last + 1 - i,
    {
        if matches_at(&sc, i, &pc) {
            return true;
        }
        i += 1;
    }
    assert forall|j: int| 0 <= j && j + pc@.len() <= sc@.len() implies #[trigger] sc@.subrange(
        j,
        j + pc@.len(),
    ) != pc@ by {
        assert(j < i);
    }
    false
}

/// The decimal digit for `d`, which is below ten.
pub open spec fn digit_char(d: nat) -> char {
    ((d + 48) as u32) as char
}

/// The decimal representation of `n`, without leading zeros, as `{}`
/// formats an unsigned integer.
pub open spec fn decimal_of(n: nat) -> Seq<char>
    decreases n,
{
    if n < 10 {
        seq![digit_char(n)]
    } else {
        decimal_of(n / 10).push(digit_char(n % 10))
    }
}

/// The decimal representation of `n` is a non-empty run of digits whose
/// value is `n`.
pub proof fn lemma_decimal_of(n: nat)
    ensures
        decimal_of(n).len() > 0,
        forall|i: int| 0 <= i < decimal_of(n).len() ==> is_digit(#[trigger] decimal_of(n)[i]),
        decimal_value(decimal_of(n)) == n,
        decimal_of(n)[0] != '+',
    decreases n,
{
    let s = decimal_of(n);
    assert((digit_char(n % 10) as int) - ('0' as int) == n % 10);
    if n >= 10 {
        lemma_decimal_of(n / 10);
        assert(s.drop_last() =~= decimal_of(n / 10));
        assert(s.last() == digit_char(n % 10));
        assert(n == (n / 10) * 10 + n % 10);
        assert(decimal_value(s) == decimal_value(s.drop_last()) * 10 + (s.last() as int - '0' as int));
        assert(decimal_value(s.drop_last()) == n / 10);
        assert forall|i: int| 0 <= i < s.len() implies is_digit(#[trigger] s[i]) by {
            if i < s.len() - 1 {
                assert(s[i] == decimal_of(n / 10)[i]);
            }
        }
    } else {
        assert(s.drop_last() =~= Seq::<char>::empty());
        assert(n % 10 == n);
        assert(decimal_value(s) == decimal_value(s.drop_last()) * 10 + (s.last() as int - '0' as int));
    }
}

/// Appends the decimal representation of `n` to `s`.
pub(crate) fn push_decimal(s: &mut String, n: u64)
    ensures
        final(s)@ == old(s)@ + decimal_of(n as nat),
    decreases n,
{
    if n >= 10 {
        push_decimal(s, n / 10);
    }
    let d: u8 = (n % 10) as u8 + 48;
    let c = d as char;
    assert(c == digit_char((n % 10) as nat));
    push_char(s, c);
    proof {
        if n >= 10 {
            assert(old(s)@ + decimal_of(n as nat) =~= old(s)@ + decimal_of((n / 10) as nat) + seq![c]);
        } else {
            assert(old(s)@ + decimal_of(n as nat) =~= old(s)@.push(c));
        }
    }
}

/// Appends the characters of `t` to `s`.
pub(crate) fn push_str_chars(s: &mut String, t: &str)
    ensures
        final(s)@ == old(s)@ + t@,
{
    let cs = chars_of(t);
    let mut i: usize = 0;
    while i < cs.len()
        invariant
            i <= cs@.len(),
            cs@ == t@,
            s@ == old(s)@ + cs@.take(i as int),
        decreases cs@.len() - i,
    {
        push_char(s, cs[i]);
        assert(old(s)@ + cs@.take(i + 1) =~= old(s)@ + cs@.take(i as int) + seq![cs@[i as int]]);
        i += 1;
    }
    assert(cs@.take(cs@.len() as int) =~= cs@);
}

/// What std's `FromStr` for `i64` returns: an optional sign followed by one
/// or more decimal digits whose value fits `i64`.
pub open spec fn parse_i64(s: Seq<char>) -> Option<int> {
    if s.len() > 0 && s[0] == '-' {
        let rest = s.skip(1);
        if rest.len() > 0 && rest[0] == '+' {
            None
        } else {
            match parse_unsigned(rest, 0x8000_0000_0000_0000) {
                Some(v) => Some(-v),
                None => None,
            }
        }
    } else {
        parse_unsigned(s, i64::MAX as int)
    }
}

/// Parses `s` as std's `FromStr` for `i64` would.
pub(crate) fn parse_i64_exec(s: &str) -> (r: Option<i64>)
    ensures
        match r {
            Some(v) => parse_i64(s@) == Some(v as int),
            None => parse_i64(s@) is None,
        },
{
    let cs = chars_of(s);
    if cs.len() > 0 && cs[0] == '-' {
        assert(cs@.subrange(1, cs@.len() as int) =~= s@.skip(1));
        if cs.len() > 1 && cs[1] == '+' {
            return None;
        }
        match parse_unsigned_exec(&cs, 1, cs.len(), 0x8000_0000_0000_0000u64) {
            Some(v) => {
                let n: i128 = 0i128 - (v as i128);
                Some(n as i64)
            },
            None => None,
        }
    } else {
        assert(cs@.subrange(0, cs@.len() as int) =~= s@);
        match parse_unsigned_exec(&cs, 0, cs.len(), i64::MAX as u64) {
            Some(v) => Some(v as i64),
            None => None,
        }
    }
}

} // verus!
