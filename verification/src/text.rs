//! Small verified helpers on strings: character access, substring search,
//! ordering by code point and decimal parsing.

use vstd::prelude::*;

verus! {

/// The characters of `s`, in order.
pub fn chars_of(s: &str) -> (out: Vec<char>)
    ensures
        out@ == s@,
{
    let mut out: Vec<char> = Vec::new();
    for c in it: s.chars()
        invariant
            it.seq() == s@,
            out@ == s@.take(it.index() as int),
    {
        out.push(c);
    }
    out
}

/// `needle` stands in `hay` at offset `at`.
pub open spec fn occurs_at(hay: Seq<char>, needle: Seq<char>, at: int) -> bool {
    &&& 0 <= at
    &&& at + needle.len() <= hay.len()
    &&& hay.subrange(at, at + needle.len()) == needle
}

/// `needle` is a contiguous part of `hay`. The empty text is part of every text.
pub open spec fn contains_text(hay: Seq<char>, needle: Seq<char>) -> bool {
    exists|at: int| occurs_at(hay, needle, at)
}

/// The empty text is part of every text: a search for it admits all.
pub proof fn empty_text_is_everywhere(hay: Seq<char>)
    ensures
        contains_text(hay, Seq::empty()),
{
    assert(hay.subrange(0, 0) =~= Seq::<char>::empty());
    assert(occurs_at(hay, Seq::empty(), 0));
}

/// Tests whether `needle` stands in `hay` at offset `at`.
pub fn matches_at(hay: &Vec<char>, needle: &Vec<char>, at: usize) -> (r: bool)
    requires
        at + needle@.len() <= hay@.len(),
    ensures
        r == occurs_at(hay@, needle@, at as int),
{
    let n = needle.len();
    let total = hay.len();
    let mut j: usize = 0;
    while j < n
        invariant
            n == needle@.len(),
            total == hay@.len(),
            at + n <= hay@.len(),
            j <= n,
            forall|k: int| 0 <= k < j ==> hay@[at + k] == needle@[k],
        decreases n - j,
    {
        if hay[at + j] != needle[j] {
            assert(hay@.subrange(at as int, at + n)[j as int] == hay@[at + j]);
            return false;
        }
        j += 1;
    }
    assert(hay@.subrange(at as int, at + n) =~= needle@);
    true
}

/// Case-sensitive substring test.
pub fn contains(hay: &str, needle: &str) -> (r: bool)
    ensures
        r == contains_text(hay@, needle@),
{
    let h = chars_of(hay);
    let n = chars_of(needle);
    if n.len() > h.len() {
        return false;
    }
    let last = h.len() - n.len();
    let mut at: usize = 0;
    loop
        invariant
            h@ == hay@,
            n@ == needle@,
            last == h@.len() - n@.len(),
            at <= last,
            forall|k: int| 0 <= k < at ==> !occurs_at(h@, n@, k),
        decreases last - at,
    {
        if matches_at(&h, &n, at) {
            return true;
        }
        if at == last {
            return false;
        }
        at += 1;
    }
}

/// Strict order of two texts by code point, the first difference deciding and
/// a proper prefix coming first. This is the order of `str` in std.
pub open spec fn text_lt(a: Seq<char>, b: Seq<char>) -> bool
    decreases a.len(),
{
    if b.len() == 0 {
        false
    } else if a.len() == 0 {
        true
    } else if a[0] != b[0] {
        (a[0] as int) < (b[0] as int)
    } else {
        text_lt(a.drop_first(), b.drop_first())
    }
}

/// No text is both before and behind another.
pub proof fn text_lt_asymmetric(a: Seq<char>, b: Seq<char>)
    ensures
        text_lt(a, b) ==> !text_lt(b, a),
    decreases a.len(),
{
    if a.len() > 0 && b.len() > 0 && a[0] == b[0] {
        text_lt_asymmetric(a.drop_first(), b.drop_first());
    }
}

/// A text that is before another is before, or a third is before, whatever
/// the third: the order by code point ranks every text.
pub proof fn text_lt_cut(a: Seq<char>, b: Seq<char>, c: Seq<char>)
    ensures
        text_lt(a, c) ==> text_lt(a, b) || text_lt(b, c),
    decreases a.len(),
{
    if a.len() > 0 && b.len() > 0 && c.len() > 0 {
        let (x, y, z) = (a[0], b[0], c[0]);
        if x == z && y == x {
            text_lt_cut(a.drop_first(), b.drop_first(), c.drop_first());
        }
    }
}

/// Tests `a < b` in the order of [`text_lt`].
pub fn less_than(a: &str, b: &str) -> (r: bool)
    ensures
        r == text_lt(a@, b@),
{
    let x = chars_of(a);
    let y = chars_of(b);
    let mut i: usize = 0;
    assert(x@.skip(0) =~= x@ && y@.skip(0) =~= y@);
    while i < x.len() && i < y.len()
        invariant
            x@ == a@,
            y@ == b@,
            i <= x@.len(),
            i <= y@.len(),
            text_lt(a@, b@) == text_lt(x@.skip(i as int), y@.skip(i as int)),
        decreases x@.len() - i,
    {
        let ghost xs = x@.skip(i as int);
        let ghost ys = y@.skip(i as int);
        assert(xs[0] == x@[i as int] && ys[0] == y@[i as int]);
        assert(xs.drop_first() =~= x@.skip(i + 1));
        assert(ys.drop_first() =~= y@.skip(i + 1));
        if x[i] != y[i] {
            return x[i] < y[i];
        }
        i += 1;
    }
    assert(x@.skip(i as int).len() == x@.len() - i);
    assert(y@.skip(i as int).len() == y@.len() - i);
    i < y.len()
}

/// The value of a decimal digit.
pub open spec fn digit_of(c: char) -> Option<int> {
    if '0' <= c && c <= '9' {
        Some(c as int - '0' as int)
    } else {
        None
    }
}

/// The number that a run of decimal digits writes; `None` where a character
/// is no digit. The empty run writes 0.
pub open spec fn digits_value(s: Seq<char>) -> Option<int>
    decreases s.len(),
{
    if s.len() == 0 {
        Some(0)
    } else {
        match (digits_value(s.drop_last()), digit_of(s.last())) {
            (Some(v), Some(d)) => Some(v * 10 + d),
            _ => None,
        }
    }
}

/// What `s` reads as in decimal: an optional `+` or `-`, then one digit or
/// more, the value within the range of `i32`. Anything else reads as nothing.
pub open spec fn decimal_i32(s: Seq<char>) -> Option<i32> {
    let negative = s.len() > 0 && s[0] == '-';
    let signed = s.len() > 0 && (s[0] == '-' || s[0] == '+');
    let body = if signed { s.drop_first() } else { s };
    if body.len() == 0 {
        None
    } else {
        match digits_value(body) {
            Some(v) => {
                let n = if negative { -v } else { v };
                if i32::MIN <= n <= i32::MAX {
                    Some(n as i32)
                } else {
                    None
                }
            },
            None => None,
        }
    }
}

/// A run of digits writes at least what each of its prefixes writes.
proof fn digits_value_grows(s: Seq<char>, k: int)
    requires
        0 <= k <= s.len(),
        digits_value(s) is Some,
    ensures
        digits_value(s.take(k)) is Some,
        0 <= digits_value(s.take(k))->0 <= digits_value(s)->0,
    decreases s.len(),
{
    if k == s.len() {
        assert(s.take(k) =~= s);
        if s.len() > 0 {
            digits_value_grows(s.drop_last(), k - 1);
            assert(s.drop_last().take(k - 1) =~= s.drop_last());
        }
    } else {
        digits_value_grows(s.drop_last(), k);
        assert(s.drop_last().take(k) =~= s.take(k));
    }
}

/// A run with a character that is no digit writes nothing.
proof fn digits_value_needs_digits(s: Seq<char>, k: int)
    requires
        0 <= k < s.len(),
        digit_of(s[k]) is None,
    ensures
        digits_value(s) is None,
    decreases s.len(),
{
    if k < s.len() - 1 {
        digits_value_needs_digits(s.drop_last(), k);
    }
}

/// Reads a decimal `i32` as `str::parse::<i32>` does.
pub fn parse_i32(s: &str) -> (r: Option<i32>)
    ensures
        r == decimal_i32(s@),
{
    let cs = chars_of(s);
    let n = cs.len();
    let negative = n > 0 && cs[0] == '-';
    let signed = n > 0 && (cs[0] == '-' || cs[0] == '+');
    let start: usize = if signed { 1 } else { 0 };
    if start == n {
        return None;
    }
    let ghost body = if signed { cs@.drop_first() } else { cs@ };
    assert(body =~= cs@.skip(start as int));
    let limit: i64 = 2147483648;
    let mut acc: i64 = 0;
    let mut i: usize = start;
    while i < n
        invariant
            n == cs@.len(),
            cs@ == s@,
            start <= i <= n,
            start < n,
            negative == (s@.len() > 0 && s@[0] == '-'),
            signed == (s@.len() > 0 && (s@[0] == '-' || s@[0] == '+')),
            body == (if signed { s@.drop_first() } else { s@ }),
            body == cs@.skip(start as int),
            limit == 2147483648,
            digits_value(body.take(i - start)) == Some(acc as int),
            0 <= acc <= limit,
        decreases n - i,
    {
        let c = cs[i];
        assert(body[i - start] == c);
        assert(body.take(i - start + 1).drop_last() =~= body.take(i - start));
        assert(body.take(i - start + 1).last() == c);
        if !('0' <= c && c <= '9') {
            proof {
                digits_value_needs_digits(body, i - start);
            }
            return None;
        }
        let d: i64 = (c as u32 - '0' as u32) as i64;
        acc = acc * 10 + d;
        assert(digits_value(body.take(i - start + 1)) == Some(acc as int));
        if acc > limit {
            proof {
                if digits_value(body) is Some {
                    digits_value_grows(body, i - start + 1);
                }
            }
            return None;
        }
        i += 1;
    }
    assert(body.take(n - start) =~= body);
    if negative {
        Some((-acc) as i32)
    } else if acc == limit {
        None
    } else {
        Some(acc as i32)
    }
}

/// `String::push`: the text grows by the one character at its end.
#[verifier::external_body]
pub(crate) fn push_char(text: &mut String, c: char)
    ensures
        final(text)@ == old(text)@.push(c),
{
    text.push(c);
}

/// `s` with every occurrence of `pattern` taken out, found from the left and
/// never overlapping. An empty pattern takes nothing out.
pub open spec fn without_pattern(s: Seq<char>, pattern: Seq<char>) -> Seq<char>
    decreases s.len(),
{
    if pattern.len() == 0 || s.len() < pattern.len() {
        s
    } else if s.subrange(0, pattern.len() as int) == pattern {
        without_pattern(s.skip(pattern.len() as int), pattern)
    } else {
        seq![s[0]] + without_pattern(s.skip(1), pattern)
    }
}

/// A text that lacks a character of the pattern holds no occurrence of it,
/// and is left as it is.
pub proof fn without_pattern_keeps(s: Seq<char>, pattern: Seq<char>, at: int)
    requires
        0 <= at < pattern.len(),
        forall|i: int| 0 <= i < s.len() ==> s[i] != pattern[at],
    ensures
        without_pattern(s, pattern) == s,
    decreases s.len(),
{
    if s.len() >= pattern.len() {
        assert(s.subrange(0, pattern.len() as int)[at] == s[at]);
        let rest = s.skip(1);
        assert forall|i: int| 0 <= i < rest.len() implies rest[i] != pattern[at] by {
            assert(rest[i] == s[i + 1]);
        }
        without_pattern_keeps(rest, pattern, at);
        assert(seq![s[0]] + rest =~= s);
    }
}

/// Takes every occurrence of `pattern` out of `s`.
pub fn remove_all(s: &str, pattern: &str) -> (out: String)
    ensures
        out@ == without_pattern(s@, pattern@),
{
    let h = chars_of(s);
    let p = chars_of(pattern);
    let mut out = String::new();
    let mut at: usize = 0;
    assert(h@.skip(0) =~= h@);
    while at < h.len()
        invariant
            h@ == s@,
            p@ == pattern@,
            at <= h@.len(),
            without_pattern(h@, p@) == out@ + without_pattern(h@.skip(at as int), p@),
        decreases h@.len() - at,
    {
        let ghost rest = h@.skip(at as int);
        if p.len() > 0 && p.len() <= h.len() - at && matches_at(&h, &p, at) {
            proof {
                assert(rest.subrange(0, p@.len() as int) =~= h@.subrange(at as int, at + p@.len()));
                assert(rest.skip(p@.len() as int) =~= h@.skip(at + p@.len()));
            }
            at += p.len();
        } else {
            proof {
                if p@.len() > 0 && p@.len() <= rest.len() {
                    assert(rest.subrange(0, p@.len() as int) =~= h@.subrange(
                        at as int,
                        at + p@.len(),
                    ));
                }
                assert(rest.skip(1) =~= h@.skip(at + 1));
                if p@.len() == 0 || rest.len() < p@.len() {
                    without_pattern_short(rest, p@);
                }
                assert(out@.push(h@[at as int]) + without_pattern(h@.skip(at + 1), p@) =~= out@ + (
                seq![rest[0]] + without_pattern(rest.skip(1), p@)));
            }
            push_char(&mut out, h[at]);
            at += 1;
        }
    }
    assert(h@.skip(h@.len() as int) =~= Seq::<char>::empty());
    assert(out@ + Seq::<char>::empty() =~= out@);
    out
}

/// Where the pattern cannot occur, a text is taken apart and put together
/// unchanged.
proof fn without_pattern_short(s: Seq<char>, pattern: Seq<char>)
    requires
        pattern.len() == 0 || s.len() < pattern.len(),
        s.len() > 0,
    ensures
        s == seq![s[0]] + without_pattern(s.skip(1), pattern),
{
    assert(s =~= seq![s[0]] + s.skip(1));
}

/// The character of a decimal digit.
pub open spec fn digit_char(d: int) -> char {
    (d + 48) as u8 as char
}

/// A natural number in decimal, without leading zeros.
pub open spec fn digits_text(n: nat) -> Seq<char>
    decreases n,
{
    if n < 10 {
        seq![digit_char(n as int)]
    } else {
        digits_text(n / 10).push(digit_char((n % 10) as int))
    }
}

/// An integer in decimal: a `-` before the digits of a negative number.
pub open spec fn decimal_text(n: int) -> Seq<char> {
    if n < 0 {
        seq!['-'] + digits_text((-n) as nat)
    } else {
        digits_text(n as nat)
    }
}

/// Writes an `i32` in decimal.
pub fn format_i32(n: i32) -> (out: String)
    ensures
        out@ == decimal_text(n as int),
{
    let magnitude: i64 = if n < 0 { -(n as i64) } else { n as i64 };
    let mut rest: i64 = magnitude;
    let mut digits: Vec<char> = Vec::new();
    assert(digits_text(magnitude as nat) =~= digits_text(rest as nat) + digits@.reverse());
    while rest >= 10
        invariant
            0 <= rest <= magnitude,
            digits_text(magnitude as nat) == digits_text(rest as nat) + digits@.reverse(),
        decreases rest,
    {
        let d: u8 = (rest % 10) as u8;
        let c: char = (d + 48) as char;
        let ghost before = digits@;
        digits.push(c);
        proof {
            assert(c == digit_char((rest % 10) as int));
            assert(digits@.reverse() =~= seq![c] + before.reverse());
            assert(digits_text((rest / 10) as nat).push(c) + before.reverse() =~= digits_text(
                (rest / 10) as nat,
            ) + digits@.reverse());
        }
        rest = rest / 10;
    }
    let last: char = (rest as u8 + 48) as char;
    let ghost before = digits@;
    digits.push(last);
    proof {
        assert(last == digit_char(rest as int));
        assert(digits@.reverse() =~= seq![last] + before.reverse());
        assert(digits_text(magnitude as nat) =~= digits@.reverse());
    }
    let mut out = String::new();
    if n < 0 {
        push_char(&mut out, '-');
    }
    let ghost sign = out@;
    let mut k: usize = digits.len();
    assert(sign + digits@.reverse().take(0) =~= sign);
    while k > 0
        invariant
            k <= digits@.len(),
            out@ == sign + digits@.reverse().take(digits@.len() - k),
        decreases k,
    {
        k -= 1;
        push_char(&mut out, digits[k]);
        proof {
            let r = digits@.reverse();
            assert(r[digits@.len() - 1 - k] == digits@[k as int]);
            assert(r.take(digits@.len() - k) =~= r.take(digits@.len() - k - 1).push(digits@[k as int]));
        }
    }
    proof {
        let r = digits@.reverse();
        assert(r.take(digits@.len() as int) =~= r);
        if n < 0 {
            assert(sign =~= seq!['-']);
        } else {
            assert(sign + r =~= r);
        }
    }
    out
}

/// The digits of a number write that number.
pub proof fn digits_text_value(n: nat)
    ensures
        digits_text(n).len() > 0,
        digits_value(digits_text(n)) == Some(n as int),
        digit_of(digits_text(n)[0]) is Some,
    decreases n,
{
    if n < 10 {
        let s = digits_text(n);
        assert(s.drop_last() =~= Seq::<char>::empty());
        assert(digits_value(s.drop_last()) == Some(0int));
        assert(digit_of(s.last()) == Some(n as int));
    } else {
        digits_text_value(n / 10);
        let s = digits_text(n);
        assert(s.drop_last() =~= digits_text(n / 10));
        assert(digit_of(s.last()) == Some((n % 10) as int));
        assert(s[0] == digits_text(n / 10)[0]);
    }
}

/// Reading what was written gives the number back: `decimal_i32` undoes
/// `decimal_text` on every `i32`.
pub proof fn decimal_round_trip(n: i32)
    ensures
        decimal_i32(decimal_text(n as int)) == Some(n),
{
    let s = decimal_text(n as int);
    if n < 0 {
        let m = (-(n as int)) as nat;
        digits_text_value(m);
        assert(s[0] == '-');
        assert(s.drop_first() =~= digits_text(m));
    } else {
        digits_text_value(n as nat);
        assert(s[0] != '-' && s[0] != '+');
    }
}

} // verus!
