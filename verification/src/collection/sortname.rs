//! The key by which a display name is sorted.

use vstd::prelude::*;
use crate::text::{chars_of, is_digit, is_digit_char, lowercase, push_range, string_of};

verus! {

/// Whether `c` is white space: a character with the Unicode property
/// `White_Space`.
pub open spec fn is_whitespace(c: char) -> bool {
    let u = c as u32;
    (0x09 <= u <= 0x0d) || u == 0x20 || u == 0x85 || u == 0xa0 || u == 0x1680 || (0x2000 <= u
        <= 0x200a) || u == 0x2028 || u == 0x2029 || u == 0x202f || u == 0x205f || u == 0x3000
}

/// Whether `c` is an ASCII punctuation character.
pub open spec fn is_ascii_punctuation(c: char) -> bool {
    let u = c as u32;
    (33 <= u <= 47) || (58 <= u <= 64) || (91 <= u <= 96) || (123 <= u <= 126)
}

/// Whether `c` is dropped from the start of a name: white space, and
/// punctuation too where `punct` is set.
pub open spec fn is_skipped(c: char, punct: bool) -> bool {
    is_whitespace(c) || (punct && is_ascii_punctuation(c))
}

/// `s` without the skipped characters at its start.
pub open spec fn skip_leading(s: Seq<char>, punct: bool) -> Seq<char>
    decreases s.len(),
{
    if s.len() > 0 && is_skipped(s[0], punct) {
        skip_leading(s.drop_first(), punct)
    } else {
        s
    }
}

/// `s` without the white space at its end.
pub open spec fn drop_trailing_space(s: Seq<char>) -> Seq<char>
    decreases s.len(),
{
    if s.len() > 0 && is_whitespace(s.last()) {
        drop_trailing_space(s.drop_last())
    } else {
        s
    }
}

/// `s` without the white space at its start and at its end.
pub open spec fn trim(s: Seq<char>) -> Seq<char> {
    drop_trailing_space(skip_leading(s, false))
}

/// `s` without `article` at its start and the white space around what is
/// left; `None` where `s` does not start with `article`.
pub open spec fn without_article(s: Seq<char>, article: Seq<char>) -> Option<Seq<char>> {
    if article.is_prefix_of(s) {
        Some(trim(s.subrange(article.len() as int, s.len() as int)))
    } else {
        None
    }
}

/// `s` without one leading article: `the`, `a` or `an`, each followed by a
/// space.
pub open spec fn strip_article(s: Seq<char>) -> Seq<char> {
    if without_article(s, "the "@) is Some {
        without_article(s, "the "@)->0
    } else if without_article(s, "a "@) is Some {
        without_article(s, "a "@)->0
    } else if without_article(s, "an "@) is Some {
        without_article(s, "an "@)->0
    } else {
        s
    }
}

/// Whether `s` ends in a year in parentheses: `(`, four digits, `)`.
pub open spec fn ends_in_year(s: Seq<char>) -> bool {
    let n = s.len() as int;
    n >= 6 && s[n - 6] == '(' && is_digit(s[n - 5]) && is_digit(s[n - 4]) && is_digit(s[n - 3])
        && is_digit(s[n - 2]) && s[n - 1] == ')'
}

/// Where the year suffix of `s` starts: a year in parentheses with any white
/// space before and after it, at the end of `s`. `None` where `s` has no
/// such suffix.
pub open spec fn year_suffix_start(s: Seq<char>) -> Option<int> {
    let r = drop_trailing_space(s);
    if ends_in_year(r) {
        Some(drop_trailing_space(r.take(r.len() - 6)).len() as int)
    } else {
        None
    }
}

/// `s` without its year suffix and the white space around what is left; `s`
/// itself where it has no year suffix.
pub open spec fn remove_year_suffix_spec(s: Seq<char>) -> Seq<char> {
    match year_suffix_start(s) {
        Some(k) => trim(s.take(k)),
        None => s,
    }
}

/// The sort key of a name that is already in lower case.
pub open spec fn sort_name_of_lowered(lowered: Seq<char>) -> Seq<char> {
    remove_year_suffix_spec(skip_leading(strip_article(trim(lowered)), true))
}

/// The sort key of a display name.
pub open spec fn sort_name_spec(name: Seq<char>) -> Seq<char> {
    sort_name_of_lowered(lowercase(name))
}

/// Taking white space off the end of a text leaves a leading part of it,
/// which itself ends in no white space.
pub proof fn lemma_drop_trailing_space(s: Seq<char>)
    ensures
        drop_trailing_space(s).is_prefix_of(s),
        drop_trailing_space(s).len() > 0 ==> !is_whitespace(drop_trailing_space(s).last()),
    decreases s.len(),
{
    if s.len() > 0 && is_whitespace(s.last()) {
        lemma_drop_trailing_space(s.drop_last());
    }
}

fn is_whitespace_char(c: char) -> (b: bool)
    ensures
        b == is_whitespace(c),
{
    let u = c as u32;
    (0x09 <= u && u <= 0x0d) || u == 0x20 || u == 0x85 || u == 0xa0 || u == 0x1680 || (0x2000 <= u
        && u <= 0x200a) || u == 0x2028 || u == 0x2029 || u == 0x202f || u == 0x205f || u == 0x3000
}

fn is_skipped_char(c: char, punct: bool) -> (b: bool)
    ensures
        b == is_skipped(c, punct),
{
    let u = c as u32;
    is_whitespace_char(c) || (punct && ((33 <= u && u <= 47) || (58 <= u && u <= 64) || (91 <= u
        && u <= 96) || (123 <= u && u <= 126)))
}

/// The start of what is left of `s[start..end]` once the skipped characters
/// at its start are gone.
fn skip_leading_from(s: &Vec<char>, start: usize, end: usize, punct: bool) -> (r: usize)
    requires
        start <= end <= s.len(),
    ensures
        start <= r <= end,
        s@.subrange(r as int, end as int) == skip_leading(
            s@.subrange(start as int, end as int),
            punct,
        ),
{
    let mut k: usize = start;
    while k < end && is_skipped_char(s[k], punct)
        invariant
            start <= k <= end <= s.len(),
            skip_leading(s@.subrange(k as int, end as int), punct) == skip_leading(
                s@.subrange(start as int, end as int),
                punct,
            ),
        decreases end - k,
    {
        assert(s@.subrange(k as int, end as int).drop_first() == s@.subrange(
            k as int + 1,
            end as int,
        ));
        k = k + 1;
    }
    k
}

/// The end of what is left of `s[start..end]` once the white space at its
/// end is gone.
fn drop_trailing_to(s: &Vec<char>, start: usize, end: usize) -> (r: usize)
    requires
        start <= end <= s.len(),
    ensures
        start <= r <= end,
        s@.subrange(start as int, r as int) == drop_trailing_space(
            s@.subrange(start as int, end as int),
        ),
{
    let mut k: usize = end;
    while k > start && is_whitespace_char(s[k - 1])
        invariant
            start <= k <= end <= s.len(),
            drop_trailing_space(s@.subrange(start as int, k as int)) == drop_trailing_space(
                s@.subrange(start as int, end as int),
            ),
        decreases k,
    {
        assert(s@.subrange(start as int, k as int).drop_last() == s@.subrange(
            start as int,
            k as int - 1,
        ));
        k = k - 1;
    }
    k
}

/// The bounds of `s[start..end]` trimmed at both ends.
pub(crate) fn trim_bounds(s: &Vec<char>, start: usize, end: usize) -> (r: (usize, usize))
    requires
        start <= end <= s.len(),
    ensures
        start <= r.0 <= r.1 <= end,
        s@.subrange(r.0 as int, r.1 as int) == trim(s@.subrange(start as int, end as int)),
{
    let a = skip_leading_from(s, start, end, false);
    let b = drop_trailing_to(s, a, end);
    (a, b)
}

/// The bounds of `s[start..end]` without `article` at its start, trimmed.
fn article_bounds(s: &Vec<char>, start: usize, end: usize, article: &str) -> (r: Option<
    (usize, usize),
>)
    requires
        start <= end <= s.len(),
    ensures
        match r {
            Some(b) => start <= b.0 <= b.1 <= end && without_article(
                s@.subrange(start as int, end as int),
                article@,
            ) == Some(s@.subrange(b.0 as int, b.1 as int)),
            None => without_article(s@.subrange(start as int, end as int), article@) is None,
        },
{
    let a = chars_of(article);
    let ghost t = s@.subrange(start as int, end as int);
    if end - start < a.len() {
        return None;
    }
    let mut k: usize = 0;
    while k < a.len()
        invariant
            k <= a.len() <= end - start,
            start <= end <= s.len(),
            a@ == article@,
            t == s@.subrange(start as int, end as int),
            forall|j: int| 0 <= j < k ==> a@[j] == t[j],
        decreases a.len() - k,
    {
        if a[k] != s[start + k] {
            assert(t.subrange(0, a@.len() as int)[k as int] == t[k as int]);
            return None;
        }
        k = k + 1;
    }
    assert(a@ =~= t.subrange(0, a@.len() as int));
    let b = trim_bounds(s, start + a.len(), end);
    assert(t.subrange(a@.len() as int, t.len() as int) == s@.subrange(
        start + a@.len(),
        end as int,
    ));
    Some(b)
}

/// The bounds of `s[start..end]` without one leading article.
fn strip_article_bounds(s: &Vec<char>, start: usize, end: usize) -> (r: (usize, usize))
    requires
        start <= end <= s.len(),
    ensures
        start <= r.0 <= r.1 <= end,
        s@.subrange(r.0 as int, r.1 as int) == strip_article(s@.subrange(start as int, end as int)),
{
    if let Some(b) = article_bounds(s, start, end, "the ") {
        return b;
    }
    if let Some(b) = article_bounds(s, start, end, "a ") {
        return b;
    }
    if let Some(b) = article_bounds(s, start, end, "an ") {
        return b;
    }
    (start, end)
}

/// The bounds of `s[start..end]` without its year suffix, trimmed; `None`
/// where it has no year suffix.
fn year_suffix_bounds(s: &Vec<char>, start: usize, end: usize) -> (r: Option<(usize, usize)>)
    requires
        start <= end <= s.len(),
    ensures
        match r {
            Some(b) => start <= b.0 <= b.1 <= end && year_suffix_start(
                s@.subrange(start as int, end as int),
            ) is Some && remove_year_suffix_spec(s@.subrange(start as int, end as int))
                == s@.subrange(b.0 as int, b.1 as int),
            None => year_suffix_start(s@.subrange(start as int, end as int)) is None,
        },
{
    let ghost t = s@.subrange(start as int, end as int);
    let e = drop_trailing_to(s, start, end);
    let ghost r0 = s@.subrange(start as int, e as int);
    if e - start < 6 {
        return None;
    }
    if !(s[e - 6] == '(' && is_digit_char(s[e - 5]) && is_digit_char(s[e - 4]) && is_digit_char(
        s[e - 3],
    ) && is_digit_char(s[e - 2]) && s[e - 1] == ')') {
        return None;
    }
    assert(ends_in_year(r0));
    let k = drop_trailing_to(s, start, e - 6);
    assert(r0.take(r0.len() - 6) == s@.subrange(start as int, e - 6));
    assert(year_suffix_start(t) == Some(k - start));
    assert(t.take(k - start) == s@.subrange(start as int, k as int));
    let b = trim_bounds(s, start, k);
    Some(b)
}

/// Removes a year in parentheses from the end of a name, with the white
/// space around what is left. A name without such a suffix is returned as it
/// is.
pub fn remove_year_suffix(name: &str) -> (r: String)
    ensures
        r@ == remove_year_suffix_spec(name@),
{
    let s = chars_of(name);
    assert(s@.subrange(0, s@.len() as int) == s@);
    let mut out: Vec<char> = Vec::new();
    match year_suffix_bounds(&s, 0, s.len()) {
        Some(b) => {
            push_range(&mut out, &s, b.0, b.1);
        },
        None => {
            push_range(&mut out, &s, 0, s.len());
        },
    }
    string_of(&out)
}

/// The sort key of a name that is already in lower case: trimmed, without
/// one leading article, without leading punctuation and without a year
/// suffix.
pub fn sort_name_from_lowered(lowered: &str) -> (r: String)
    ensures
        r@ == sort_name_of_lowered(lowered@),
{
    let s = chars_of(lowered);
    assert(s@.subrange(0, s@.len() as int) == s@);
    let t = trim_bounds(&s, 0, s.len());
    let a = strip_article_bounds(&s, t.0, t.1);
    let p = skip_leading_from(&s, a.0, a.1, true);
    let mut out: Vec<char> = Vec::new();
    match year_suffix_bounds(&s, p, a.1) {
        Some(b) => {
            push_range(&mut out, &s, b.0, b.1);
        },
        None => {
            push_range(&mut out, &s, p, a.1);
        },
    }
    string_of(&out)
}

/// The key by which a display name is sorted: the name in lower case,
/// trimmed, without one leading article, without leading punctuation and
/// without a year suffix.
pub fn make_sort_name(name: &str) -> (r: String)
    ensures
        r@ == sort_name_spec(name@),
{
    let lowered = name.to_lowercase();
    sort_name_from_lowered(lowered.as_str())
}

} // verus!
