//! Text helpers shared by the catalog modules.

use vstd::prelude::*;

verus! {

/// `String::push` appends one character to the end of the string and leaves
/// the characters before it as they were.
pub assume_specification[ String::push ](s: &mut String, ch: char)
    ensures
        final(s)@ == old(s)@.push(ch),
;

/// The lower-case form of a text, as Unicode defines it.
pub uninterp spec fn lowercase(s: Seq<char>) -> Seq<char>;

/// `str::to_lowercase` returns the lower-case form of the text, which
/// depends on the text alone.
pub assume_specification[ str::to_lowercase ](s: &str) -> (r: String)
    ensures
        r@ == lowercase(s@),
;

/// The mathematical values of the items of a sequence, in order.
pub open spec fn views<T: View>(s: Seq<T>) -> Seq<T::V> {
    Seq::new(s.len(), |i: int| s[i]@)
}

/// The characters of `s`, in order.
pub(crate) fn chars_of(s: &str) -> (v: Vec<char>)
    ensures
        v@ == s@,
{
    let mut v: Vec<char> = Vec::new();
    for c in it: s.chars()
        invariant
            v@ == it.seq().take(it.index()),
            it.seq() == s@,
    {
        v.push(c);
    }
    v
}

/// The string made of the characters of `v`, in order.
pub(crate) fn string_of(v: &Vec<char>) -> (s: String)
    ensures
        s@ == v@,
{
    let mut s = String::new();
    let mut i: usize = 0;
    while i < v.len()
        invariant
            i <= v.len(),
            s@ == v@.subrange(0, i as int),
        decreases v.len() - i,
    {
        s.push(v[i]);
        i = i + 1;
        assert(s@ == v@.subrange(0, i as int));
    }
    assert(v@.subrange(0, v.len() as int) == v@);
    s
}

/// Whether `c` is one of the digits `0` to `9`.
pub open spec fn is_digit(c: char) -> bool {
    '0' <= c && c <= '9'
}

/// The value of a digit; 0 for any other character.
pub open spec fn digit_value(c: char) -> nat {
    if is_digit(c) {
        (c as int - 48) as nat
    } else {
        0
    }
}

/// The number that a string of digits spells in base 10.
pub open spec fn decimal_value(d: Seq<char>) -> nat
    decreases d.len(),
{
    if d.len() == 0 {
        0
    } else {
        decimal_value(d.drop_last()) * 10 + digit_value(d.last())
    }
}

/// The character of a digit below 10.
pub open spec fn digit_char(d: nat) -> char {
    (d + 48) as char
}

/// A natural number in base 10, without leading zeros.
pub open spec fn nat_digits(n: nat) -> Seq<char>
    decreases n,
{
    if n < 10 {
        seq![digit_char(n)]
    } else {
        nat_digits(n / 10).push(digit_char(n % 10))
    }
}

/// An integer in base 10, with a `-` in front where it is negative.
pub open spec fn decimal(n: int) -> Seq<char> {
    if n < 0 {
        seq!['-'] + nat_digits((-n) as nat)
    } else {
        nat_digits(n as nat)
    }
}

/// An integer in base 10, filled with a zero to a width of two.
pub open spec fn pad2(n: int) -> Seq<char> {
    if 0 <= n < 10 {
        seq!['0'] + decimal(n)
    } else {
        decimal(n)
    }
}

/// An integer in base 10, filled with zeros to a width of three; the sign of
/// a negative number counts for the width.
pub open spec fn pad3(n: int) -> Seq<char> {
    if 0 <= n < 10 {
        seq!['0', '0'] + decimal(n)
    } else if 10 <= n < 100 {
        seq!['0'] + decimal(n)
    } else if -10 < n < 0 {
        seq!['-', '0'] + nat_digits((-n) as nat)
    } else {
        decimal(n)
    }
}

/// A leading part of a string of digits spells no more than the whole.
pub proof fn lemma_decimal_value_prefix(d: Seq<char>, k: int)
    requires
        0 <= k <= d.len(),
    ensures
        decimal_value(d.take(k)) <= decimal_value(d),
    decreases d.len(),
{
    if k == d.len() {
        assert(d.take(k) == d);
    } else {
        assert(d.take(k) == d.drop_last().take(k));
        lemma_decimal_value_prefix(d.drop_last(), k);
    }
}

pub(crate) fn is_digit_char(c: char) -> (b: bool)
    ensures
        b == is_digit(c),
{
    c >= '0' && c <= '9'
}

/// Appends the characters of `s` from index `from` up to `to`.
pub(crate) fn push_range(out: &mut Vec<char>, s: &Vec<char>, from: usize, to: usize)
    requires
        from <= to <= s.len(),
    ensures
        final(out)@ == old(out)@ + s@.subrange(from as int, to as int),
{
    let mut k: usize = from;
    while k < to
        invariant
            from <= k <= to <= s.len(),
            out@ == old(out)@ + s@.subrange(from as int, k as int),
        decreases to - k,
    {
        out.push(s[k]);
        k = k + 1;
        assert(out@ == old(out)@ + s@.subrange(from as int, k as int));
    }
}

/// Appends the characters of `s`.
pub(crate) fn push_str(out: &mut Vec<char>, s: &str)
    ensures
        final(out)@ == old(out)@ + s@,
{
    let v = chars_of(s);
    push_range(out, &v, 0, v.len());
    assert(v@.subrange(0, v.len() as int) == v@);
}

/// Appends `n` in base 10.
pub(crate) fn push_nat(out: &mut Vec<char>, n: u64)
    ensures
        final(out)@ == old(out)@ + nat_digits(n as nat),
    decreases n,
{
    if n >= 10 {
        push_nat(out, n / 10);
    }
    let d = (n % 10) as u8;
    out.push((d + 48) as char);
    assert(out@ == old(out)@ + nat_digits(n as nat));
}

/// Appends `n` in base 10, with its sign where it is negative.
pub(crate) fn push_decimal(out: &mut Vec<char>, n: i64)
    requires
        n > i64::MIN,
    ensures
        final(out)@ == old(out)@ + decimal(n as int),
{
    if n < 0 {
        out.push('-');
        push_nat(out, (-n) as u64);
        assert(out@ == old(out)@ + decimal(n as int));
    } else {
        push_nat(out, n as u64);
    }
}

/// Appends `n` in base 10, filled with a zero to a width of two.
pub(crate) fn push_pad2(out: &mut Vec<char>, n: i32)
    ensures
        final(out)@ == old(out)@ + pad2(n as int),
{
    if 0 <= n && n < 10 {
        out.push('0');
        push_decimal(out, n as i64);
        assert(out@ == old(out)@ + pad2(n as int));
    } else {
        push_decimal(out, n as i64);
    }
}

/// Appends `n` in base 10, filled with zeros to a width of three.
pub(crate) fn push_pad3(out: &mut Vec<char>, n: i32)
    ensures
        final(out)@ == old(out)@ + pad3(n as int),
{
    if 0 <= n && n < 10 {
        out.push('0');
        out.push('0');
        push_decimal(out, n as i64);
        assert(out@ == old(out)@ + pad3(n as int));
    } else if 10 <= n && n < 100 {
        out.push('0');
        push_decimal(out, n as i64);
        assert(out@ == old(out)@ + pad3(n as int));
    } else if -10 < n && n < 0 {
        out.push('-');
        out.push('0');
        push_nat(out, (-n) as u64);
        assert(out@ == old(out)@ + pad3(n as int));
    } else {
        push_decimal(out, n as i64);
    }
}

/// Whether the characters of `s` from `from` up to `to` are all digits and
/// lie inside `s`.
pub open spec fn all_digits(s: Seq<char>, from: int, to: int) -> bool {
    0 <= from <= to <= s.len() && forall|k: int| from <= k < to ==> is_digit(#[trigger] s[k])
}

/// The number that a string of digits spells, where it is at most `limit`.
pub open spec fn parse_bounded(d: Seq<char>, limit: nat) -> Option<int> {
    if decimal_value(d) <= limit {
        Some(decimal_value(d) as int)
    } else {
        None
    }
}

/// The 32-bit signed integer that a text spells: an optional `+` or `-`, then
/// digits and nothing else. `None` where the text has another form or the
/// number does not fit.
pub open spec fn parse_signed(s: Seq<char>) -> Option<int> {
    let signed = s.len() > 0 && (s[0] == '-' || s[0] == '+');
    let digits = if signed {
        s.drop_first()
    } else {
        s
    };
    if digits.len() == 0 || !all_digits(digits, 0, digits.len() as int) {
        None
    } else if s[0] == '-' {
        if decimal_value(digits) <= 0x8000_0000 {
            Some(-(decimal_value(digits) as int))
        } else {
            None
        }
    } else {
        parse_bounded(digits, 0x7fff_ffff)
    }
}

/// Whether two vectors hold the same characters.
pub(crate) fn same_chars(a: &Vec<char>, b: &Vec<char>) -> (r: bool)
    ensures
        r == (a@ == b@),
{
    if a.len() != b.len() {
        return false;
    }
    let mut k: usize = 0;
    while k < a.len()
        invariant
            k <= a.len(),
            a.len() == b.len(),
            forall|j: int| 0 <= j < k ==> a@[j] == b@[j],
        decreases a.len() - k,
    {
        if a[k] != b[k] {
            return false;
        }
        k = k + 1;
    }
    assert(a@ =~= b@);
    true
}

/// Whether two texts are the same.
pub(crate) fn same_text(a: &str, b: &str) -> (r: bool)
    ensures
        r == (a@ == b@),
{
    let x = chars_of(a);
    let y = chars_of(b);
    same_chars(&x, &y)
}

/// The number that the digits of `s` from `from` up to `to` spell, where it
/// is at most `limit`.
pub(crate) fn parse_digits(s: &Vec<char>, from: usize, to: usize, limit: u64) -> (r: Option<u64>)
    requires
        all_digits(s@, from as int, to as int),
        limit <= 0xffff_ffff,
    ensures
        match r {
            Some(v) => parse_bounded(s@.subrange(from as int, to as int), limit as nat) == Some(
                v as int,
            ),
            None => parse_bounded(s@.subrange(from as int, to as int), limit as nat) is None,
        },
{
    let ghost whole = s@.subrange(from as int, to as int);
    let mut acc: u64 = 0;
    let mut k: usize = from;
    while k < to
        invariant
            from <= k <= to <= s.len(),
            all_digits(s@, from as int, to as int),
            whole == s@.subrange(from as int, to as int),
            acc as nat == decimal_value(whole.take(k - from)),
            acc <= limit <= 0xffff_ffff,
        decreases to - k,
    {
        let d = (s[k] as u32 - 48) as u64;
        proof {
            assert(whole.take(k + 1 - from).drop_last() == whole.take(k - from));
            assert(whole.take(k + 1 - from).last() == s@[k as int]);
        }
        acc = acc * 10 + d;
        k = k + 1;
        if acc > limit {
            proof {
                lemma_decimal_value_prefix(whole, k - from);
            }
            return None;
        }
    }
    assert(whole.take(k - from) == whole);
    Some(acc)
}

/// Whether the characters from `from` up to `to` are all digits.
pub(crate) fn digits_in(s: &Vec<char>, from: usize, to: usize) -> (b: bool)
    requires
        from <= to <= s.len(),
    ensures
        b == all_digits(s@, from as int, to as int),
{
    let mut k: usize = from;
    while k < to
        invariant
            from <= k <= to <= s.len(),
            all_digits(s@, from as int, k as int),
        decreases to - k,
    {
        if !is_digit_char(s[k]) {
            return false;
        }
        k = k + 1;
    }
    true
}

/// The 32-bit signed integer that `s[from..to]` spells.
pub(crate) fn parse_i32(s: &Vec<char>, from: usize, to: usize) -> (r: Option<i32>)
    requires
        from <= to <= s.len(),
    ensures
        match r {
            Some(v) => parse_signed(s@.subrange(from as int, to as int)) == Some(v as int),
            None => parse_signed(s@.subrange(from as int, to as int)) is None,
        },
{
    let ghost t = s@.subrange(from as int, to as int);
    if from == to {
        return None;
    }
    let signed = s[from] == '-' || s[from] == '+';
    let start = if signed {
        from + 1
    } else {
        from
    };
    let ghost digits = if signed {
        t.drop_first()
    } else {
        t
    };
    assert(digits == s@.subrange(start as int, to as int));
    if start == to {
        return None;
    }
    let all = digits_in(s, start, to);
    proof {
        assert(all == all_digits(digits, 0, digits.len() as int)) by {
            if all {
                assert forall|k: int| 0 <= k < digits.len() implies is_digit(
                    #[trigger] digits[k],
                ) by {
                    assert(digits[k] == s@[start + k]);
                }
            } else {
                if all_digits(digits, 0, digits.len() as int) {
                    assert forall|k: int| start <= k < to implies is_digit(#[trigger] s@[k]) by {
                        assert(s@[k] == digits[k - start]);
                    }
                }
            }
        }
    }
    if !all {
        return None;
    }
    if s[from] == '-' {
        match parse_digits(s, start, to, 0x8000_0000) {
            Some(v) => Some((0 - v as i64) as i32),
            None => None,
        }
    } else {
        match parse_digits(s, start, to, 0x7fff_ffff) {
            Some(v) => Some(v as i32),
            None => None,
        }
    }
}

/// Whether `needle` occurs in `hay` as a run of characters.
pub open spec fn contains_text(hay: Seq<char>, needle: Seq<char>) -> bool {
    exists|i: int|
        0 <= i && i + needle.len() <= hay.len() && #[trigger] hay.subrange(i, i + needle.len())
            == needle
}

/// Whether the characters of `needle` stand in `hay` from index `i` on.
pub(crate) fn occurs_at(hay: &Vec<char>, i: usize, needle: &Vec<char>) -> (b: bool)
    requires
        i + needle.len() <= hay.len(),
    ensures
        b == (hay@.subrange(i as int, i + needle.len()) == needle@),
{
    let ghost t = hay@.subrange(i as int, i + needle.len());
    let mut k: usize = 0;
    while k < needle.len()
        invariant
            k <= needle.len(),
            i + needle.len() <= hay.len(),
            t == hay@.subrange(i as int, i + needle.len()),
            forall|j: int| 0 <= j < k ==> needle@[j] == t[j],
        decreases needle.len() - k,
    {
        if needle[k] != hay[i + k] {
            assert(t[k as int] != needle@[k as int]);
            return false;
        }
        k = k + 1;
    }
    assert(t =~= needle@);
    true
}

/// Whether `needle` occurs in `hay` as a run of characters.
pub(crate) fn contains_chars(hay: &Vec<char>, needle: &Vec<char>) -> (b: bool)
    ensures
        b == contains_text(hay@, needle@),
{
    if needle.len() > hay.len() {
        return false;
    }
    let last = hay.len() - needle.len();
    let mut i: usize = 0;
    while i < last
        invariant
            i <= last,
            last == hay.len() - needle.len(),
            needle.len() <= hay.len(),
            forall|j: int|
                0 <= j < i ==> #[trigger] hay@.subrange(j, j + needle@.len()) != needle@,
        decreases last - i,
    {
        if occurs_at(hay, i, needle) {
            return true;
        }
        i = i + 1;
    }
    occurs_at(hay, last, needle)
}

/// Whether `s` starts with `prefix`.
pub(crate) fn has_prefix(s: &str, prefix: &str) -> (b: bool)
    ensures
        b == prefix@.is_prefix_of(s@),
{
    let t = chars_of(s);
    let p = chars_of(prefix);
    if p.len() > t.len() {
        return false;
    }
    let b = occurs_at(&t, 0, &p);
    assert(t@.subrange(0, 0 + p@.len() as int) == s@.subrange(0, p@.len() as int));
    b
}

/// `prefix` followed by `rest`.
pub(crate) fn with_prefix(prefix: &str, rest: &str) -> (r: String)
    ensures
        r@ == prefix@ + rest@,
{
    let mut out: Vec<char> = Vec::new();
    push_str(&mut out, prefix);
    push_str(&mut out, rest);
    assert(out@ == prefix@ + rest@);
    string_of(&out)
}

/// The first index at or after `from` at which `needle` occurs in `hay`,
/// or -1 where it occurs nowhere from there on.
pub open spec fn find_text(hay: Seq<char>, needle: Seq<char>, from: int) -> int
    decreases hay.len() - from,
{
    if from < 0 || from + needle.len() > hay.len() {
        -1
    } else if hay.subrange(from, from + needle.len()) == needle {
        from
    } else if from >= hay.len() {
        -1
    } else {
        find_text(hay, needle, from + 1)
    }
}

/// The first index at or after `from` at which `needle` occurs in `hay`.
pub(crate) fn find_chars(hay: &Vec<char>, needle: &Vec<char>, from: usize) -> (r: Option<usize>)
    ensures
        match r {
            Some(i) => find_text(hay@, needle@, from as int) == i && from <= i && i + needle@.len()
                <= hay@.len(),
            None => find_text(hay@, needle@, from as int) == -1,
        },
{
    if from > hay.len() || hay.len() - from < needle.len() {
        return None;
    }
    let last = hay.len() - needle.len();
    let mut i: usize = from;
    while i < last
        invariant
            from <= i <= last,
            last == hay.len() - needle.len(),
            needle.len() <= hay.len(),
            find_text(hay@, needle@, from as int) == find_text(hay@, needle@, i as int),
        decreases last - i,
    {
        if occurs_at(hay, i, needle) {
            return Some(i);
        }
        i = i + 1;
    }
    if occurs_at(hay, last, needle) {
        Some(last)
    } else {
        assert(find_text(hay@, needle@, last + 1) == -1);
        None
    }
}

/// `s` without every leading repetition of `prefix`.
pub open spec fn strip_repeated(s: Seq<char>, prefix: Seq<char>) -> Seq<char>
    decreases s.len(),
{
    if prefix.len() > 0 && prefix.is_prefix_of(s) {
        strip_repeated(s.subrange(prefix.len() as int, s.len() as int), prefix)
    } else {
        s
    }
}

/// Whether `s[start..]` starts with the characters of `p`.
pub(crate) fn starts_with_at(s: &Vec<char>, start: usize, p: &Vec<char>) -> (b: bool)
    requires
        start <= s.len(),
    ensures
        b == p@.is_prefix_of(s@.subrange(start as int, s@.len() as int)),
{
    let ghost t = s@.subrange(start as int, s@.len() as int);
    if s.len() - start < p.len() {
        return false;
    }
    let mut k: usize = 0;
    while k < p.len()
        invariant
            k <= p.len() <= s.len() - start,
            start <= s.len(),
            t == s@.subrange(start as int, s@.len() as int),
            forall|j: int| 0 <= j < k ==> p@[j] == t[j],
        decreases p.len() - k,
    {
        if p[k] != s[start + k] {
            assert(t.subrange(0, p@.len() as int)[k as int] == t[k as int]);
            return false;
        }
        k = k + 1;
    }
    assert(p@ =~= t.subrange(0, p@.len() as int));
    true
}

/// The start of what is left of `s` once every leading repetition of `p`
/// is gone.
pub(crate) fn skip_repeated(s: &Vec<char>, p: &Vec<char>) -> (r: usize)
    ensures
        r <= s.len(),
        s@.subrange(r as int, s@.len() as int) == strip_repeated(s@, p@),
{
    let mut k: usize = 0;
    assert(s@.subrange(0, s@.len() as int) == s@);
    if p.len() == 0 {
        return 0;
    }
    while starts_with_at(s, k, p)
        invariant
            k <= s.len(),
            p.len() > 0,
            strip_repeated(s@.subrange(k as int, s@.len() as int), p@) == strip_repeated(s@, p@),
        decreases s.len() - k,
    {
        let ghost t = s@.subrange(k as int, s@.len() as int);
        assert(t.subrange(p@.len() as int, t.len() as int) == s@.subrange(
            k + p@.len(),
            s@.len() as int,
        ));
        k = k + p.len();
    }
    k
}

} // verus!
