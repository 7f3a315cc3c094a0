//! Season and episode numbers read from the name of a video file.
//!
//! Four kinds of marker are looked for, in a fixed order; the first kind that
//! occurs in the name decides the result. Where a kind occurs more than once,
//! its last occurrence counts.

use vstd::prelude::*;
use crate::text::{
    all_digits, chars_of, digits_in, is_digit, is_digit_char, pad2, parse_bounded, parse_digits,
    push_pad2, push_range, string_of,
};

verus! {

/// The kinds of marker, in the order in which they are tried.
#[derive(Clone, Copy, Debug)]
pub enum Pattern {
    /// `s03e04` between separators.
    Single,
    /// `s03e04e05` or `s03e04-e05` between separators.
    Double,
    /// `2015.03.08` or `2015-03-08` between separators.
    Date,
    /// `308` or `3x08` between separators.
    Bare,
}

/// Where the digit groups of a marker lie in the name: each as the index of
/// its first character and the index after its last.
pub struct Groups {
    pub first: (int, int),
    pub second: (int, int),
    pub third: (int, int),
}

/// The groups of a marker found by the executable matcher.
#[derive(Clone, Copy, Debug)]
pub struct Spans {
    pub first: (usize, usize),
    pub second: (usize, usize),
    pub third: (usize, usize),
}

impl View for Spans {
    type V = Groups;

    open spec fn view(&self) -> Groups {
        Groups {
            first: (self.first.0 as int, self.first.1 as int),
            second: (self.second.0 as int, self.second.1 as int),
            third: (self.third.0 as int, self.third.1 as int),
        }
    }
}

/// A separator around a season-and-episode marker: space, dot or underscore.
pub open spec fn is_marker_sep(c: char) -> bool {
    c == ' ' || c == '.' || c == '_'
}

/// A separator around a date or a bare number: space or dot.
pub open spec fn is_plain_sep(c: char) -> bool {
    c == ' ' || c == '.'
}

/// A separator inside a date: dot or hyphen.
pub open spec fn is_date_sep(c: char) -> bool {
    c == '.' || c == '-'
}

/// The letter in front of a season number.
pub open spec fn is_season_letter(c: char) -> bool {
    c == 's' || c == 'S'
}

/// The letter in front of an episode number.
pub open spec fn is_episode_letter(c: char) -> bool {
    c == 'e' || c == 'E'
}

/// The index of the first character at or after `from` that is no digit.
pub open spec fn digits_end(s: Seq<char>, from: int) -> int
    decreases s.len() - from,
{
    if 0 <= from < s.len() && is_digit(s[from]) {
        digits_end(s, from + 1)
    } else {
        from
    }
}

/// A `Single` marker whose leading separator stands at `i`.
pub open spec fn single_at(s: Seq<char>, i: int) -> Option<Groups> {
    let a = i + 2;
    let b = digits_end(s, a);
    let c = b + 1;
    let d = digits_end(s, c);
    if 0 <= i && i + 1 < s.len() && is_marker_sep(s[i]) && is_season_letter(s[i + 1]) && a < b
        && b < s.len() && is_episode_letter(s[b]) && c < d && d < s.len() && is_marker_sep(s[d]) {
        Some(Groups { first: (a, b), second: (c, d), third: (d, d) })
    } else {
        None
    }
}

/// A `Double` marker whose leading separator stands at `i`.
pub open spec fn double_at(s: Seq<char>, i: int) -> Option<Groups> {
    let a = i + 2;
    let b = digits_end(s, a);
    let c = b + 1;
    let d = digits_end(s, c);
    let e = if 0 <= d < s.len() && s[d] == '-' {
        d + 1
    } else {
        d
    };
    let f = e + 1;
    let g = digits_end(s, f);
    if 0 <= i && i + 1 < s.len() && is_marker_sep(s[i]) && is_season_letter(s[i + 1]) && a < b
        && b < s.len() && is_episode_letter(s[b]) && c < d && e < s.len() && is_episode_letter(
        s[e],
    ) && f < g && g < s.len() && is_marker_sep(s[g]) {
        Some(Groups { first: (a, b), second: (c, d), third: (f, g) })
    } else {
        None
    }
}

/// A `Date` marker whose leading separator stands at `i`.
pub open spec fn date_at(s: Seq<char>, i: int) -> Option<Groups> {
    if 0 <= i && i + 11 < s.len() && is_plain_sep(s[i]) && all_digits(s, i + 1, i + 5)
        && is_date_sep(s[i + 5]) && all_digits(s, i + 6, i + 8) && is_date_sep(s[i + 8])
        && all_digits(s, i + 9, i + 11) && is_plain_sep(s[i + 11]) {
        Some(Groups { first: (i + 1, i + 5), second: (i + 6, i + 8), third: (i + 9, i + 11) })
    } else {
        None
    }
}

/// A `Bare` marker at `i` whose season has `width` digits, with or without
/// an `x` between season and episode.
pub open spec fn bare_with(s: Seq<char>, i: int, width: int, cross: bool) -> bool {
    let p = i + 1 + width + if cross {
        1int
    } else {
        0int
    };
    0 <= i && p + 2 < s.len() && is_plain_sep(s[i]) && all_digits(s, i + 1, i + 1 + width) && (cross
        ==> s[i + 1 + width] == 'x') && all_digits(s, p, p + 2) && is_plain_sep(s[p + 2])
}

/// A `Bare` marker whose leading separator stands at `i`: a season of two
/// digits is preferred to one of one digit.
pub open spec fn bare_at(s: Seq<char>, i: int) -> Option<Groups> {
    if bare_with(s, i, 2, true) {
        Some(Groups { first: (i + 1, i + 3), second: (i + 4, i + 6), third: (i + 6, i + 6) })
    } else if bare_with(s, i, 2, false) {
        Some(Groups { first: (i + 1, i + 3), second: (i + 3, i + 5), third: (i + 5, i + 5) })
    } else if bare_with(s, i, 1, true) {
        Some(Groups { first: (i + 1, i + 2), second: (i + 3, i + 5), third: (i + 5, i + 5) })
    } else if bare_with(s, i, 1, false) {
        Some(Groups { first: (i + 1, i + 2), second: (i + 2, i + 4), third: (i + 4, i + 4) })
    } else {
        None
    }
}

/// A marker of kind `p` whose leading separator stands at `i`.
pub open spec fn marker_at(p: Pattern, s: Seq<char>, i: int) -> Option<Groups> {
    match p {
        Pattern::Single => single_at(s, i),
        Pattern::Double => double_at(s, i),
        Pattern::Date => date_at(s, i),
        Pattern::Bare => bare_at(s, i),
    }
}

/// The marker of kind `p` that starts last among those starting before
/// `upto`.
pub open spec fn last_marker(p: Pattern, s: Seq<char>, upto: int) -> Option<Groups>
    decreases upto,
{
    if upto <= 0 {
        None
    } else if marker_at(p, s, upto - 1) is Some {
        marker_at(p, s, upto - 1)
    } else {
        last_marker(p, s, upto - 1)
    }
}

/// The marker of kind `p` in a name: none where the name holds a line feed.
pub open spec fn find_marker(p: Pattern, s: Seq<char>) -> Option<Groups> {
    if s.contains('\n') {
        None
    } else {
        last_marker(p, s, s.len() as int)
    }
}

/// The characters of a group.
pub open spec fn capture(s: Seq<char>, r: (int, int)) -> Seq<char> {
    s.subrange(r.0, r.1)
}

/// The number that a group of digits spells, where it fits 32 signed bits.
pub open spec fn parse_number(d: Seq<char>) -> Option<int> {
    parse_bounded(d, 0x7fff_ffff)
}

/// What a name says: season, episode, whether the file holds two episodes,
/// and a display name.
pub type Parsed = (int, int, bool, Seq<char>);

/// What a `Single` marker says.
pub open spec fn single_result(s: Seq<char>, g: Groups) -> Option<Parsed> {
    let season = capture(s, g.first);
    let episode = capture(s, g.second);
    if parse_number(season) is Some && parse_number(episode) is Some {
        Some((parse_number(season)->0, parse_number(episode)->0, false, season + seq!['x'] + episode))
    } else {
        None
    }
}

/// What a `Double` marker says: the first of its two episodes counts.
pub open spec fn double_result(s: Seq<char>, g: Groups) -> Option<Parsed> {
    let season = capture(s, g.first);
    let episode = capture(s, g.second);
    let second = capture(s, g.third);
    if parse_number(season) is Some && parse_number(episode) is Some {
        Some(
            (
                parse_number(season)->0,
                parse_number(episode)->0,
                true,
                season + seq!['x'] + episode + seq!['-'] + second,
            ),
        )
    } else {
        None
    }
}

/// What a `Date` marker says: the season is the hint, the episode number is
/// the date read as one number of eight digits.
pub open spec fn date_result(s: Seq<char>, g: Groups, hint: int) -> Option<Parsed> {
    let year = capture(s, g.first);
    let month = capture(s, g.second);
    let day = capture(s, g.third);
    if parse_number(year + month + day) is Some {
        Some(
            (
                hint,
                parse_number(year + month + day)->0,
                false,
                year + seq!['.'] + month + seq!['.'] + day,
            ),
        )
    } else {
        None
    }
}

/// What a `Bare` marker says: nothing unless the hint is unknown (negative)
/// or equal to the season read.
pub open spec fn bare_result(s: Seq<char>, g: Groups, hint: int) -> Option<Parsed> {
    let season = capture(s, g.first);
    let episode = capture(s, g.second);
    if parse_number(season) is Some && parse_number(episode) is Some && (hint < 0 || hint
        == parse_number(season)->0) {
        Some(
            (
                parse_number(season)->0,
                parse_number(episode)->0,
                false,
                pad2(parse_number(season)->0) + seq!['x'] + episode,
            ),
        )
    } else {
        None
    }
}

/// What a file name says about its episode, given the season that is
/// expected (`hint`, negative where none is).
pub open spec fn parse_episode_spec(name: Seq<char>, hint: int) -> Option<Parsed> {
    if find_marker(Pattern::Single, name) is Some {
        single_result(name, find_marker(Pattern::Single, name)->0)
    } else if find_marker(Pattern::Double, name) is Some {
        double_result(name, find_marker(Pattern::Double, name)->0)
    } else if find_marker(Pattern::Date, name) is Some {
        date_result(name, find_marker(Pattern::Date, name)->0, hint)
    } else if find_marker(Pattern::Bare, name) is Some {
        bare_result(name, find_marker(Pattern::Bare, name)->0, hint)
    } else {
        None
    }
}

/// The kinds of marker are tried in a fixed order: a name that holds both a
/// `Single` marker and a `Bare` marker says what the `Single` marker says,
/// whatever the hint.
pub proof fn lemma_single_marker_wins(name: Seq<char>, hint: int)
    requires
        find_marker(Pattern::Single, name) is Some,
        find_marker(Pattern::Bare, name) is Some,
    ensures
        parse_episode_spec(name, hint) == single_result(
            name,
            find_marker(Pattern::Single, name)->0,
        ),
{
}

/// The marker found is the last of its kind: it stands at some index of the
/// name, and no marker of its kind starts after it.
pub proof fn lemma_last_marker(p: Pattern, s: Seq<char>, upto: int)
    requires
        last_marker(p, s, upto) is Some,
    ensures
        exists|i: int|
            0 <= i < upto && #[trigger] marker_at(p, s, i) == last_marker(p, s, upto) && forall|
                j: int,
            |
                i < j < upto ==> #[trigger] marker_at(p, s, j) is None,
    decreases upto,
{
    if upto > 0 {
        if marker_at(p, s, upto - 1) is Some {
            let i = upto - 1;
            assert(marker_at(p, s, i) == last_marker(p, s, upto));
        } else {
            lemma_last_marker(p, s, upto - 1);
            let i = choose|i: int|
                0 <= i < upto - 1 && #[trigger] marker_at(p, s, i) == last_marker(p, s, upto - 1)
                    && forall|j: int| i < j < upto - 1 ==> #[trigger] marker_at(p, s, j) is None;
            assert(marker_at(p, s, i) == last_marker(p, s, upto));
            assert forall|j: int| i < j < upto implies #[trigger] marker_at(p, s, j) is None by {}
        }
    }
}

/// A season read from a date or from a bare number never contradicts a
/// known hint: the season returned is the hint itself.
pub proof fn lemma_hint_is_kept(name: Seq<char>, hint: int)
    requires
        hint >= 0,
        find_marker(Pattern::Single, name) is None,
        find_marker(Pattern::Double, name) is None,
        parse_episode_spec(name, hint) is Some,
    ensures
        ({
            let (season, episode, double, display) = parse_episode_spec(name, hint)->0;
            season == hint
        }),
{
}

/// Whether a result of `parse_episode_name` is the result `want`.
pub open spec fn parsed_is(r: Option<(i32, i32, bool, String)>, want: Option<Parsed>) -> bool {
    match (r, want) {
        (Some(t), Some(u)) => t.0 == u.0 && t.1 == u.1 && t.2 == u.2 && t.3@ == u.3,
        (None, None) => true,
        _ => false,
    }
}

/// The groups that a matcher found, with their indices as integers.
pub open spec fn spans_view(r: Option<Spans>) -> Option<Groups> {
    match r {
        Some(sp) => Some(sp@),
        None => None,
    }
}

/// Whether the groups lie inside the name and hold digits only.
pub open spec fn groups_ok(s: Seq<char>, g: Groups) -> bool {
    &&& all_digits(s, g.first.0, g.first.1)
    &&& all_digits(s, g.second.0, g.second.1)
    &&& all_digits(s, g.third.0, g.third.1)
}

fn is_marker_sep_char(c: char) -> (b: bool)
    ensures
        b == is_marker_sep(c),
{
    c == ' ' || c == '.' || c == '_'
}

fn is_plain_sep_char(c: char) -> (b: bool)
    ensures
        b == is_plain_sep(c),
{
    c == ' ' || c == '.'
}

fn is_date_sep_char(c: char) -> (b: bool)
    ensures
        b == is_date_sep(c),
{
    c == '.' || c == '-'
}

/// The end of the run of digits that starts at `from`.
fn digits_until(s: &Vec<char>, from: usize) -> (end: usize)
    requires
        from <= s.len(),
    ensures
        end == digits_end(s@, from as int),
        from <= end <= s.len(),
        all_digits(s@, from as int, end as int),
{
    let mut j: usize = from;
    while j < s.len() && is_digit_char(s[j])
        invariant
            from <= j <= s.len(),
            digits_end(s@, j as int) == digits_end(s@, from as int),
            all_digits(s@, from as int, j as int),
        decreases s.len() - j,
    {
        j = j + 1;
    }
    j
}

fn match_single(s: &Vec<char>, i: usize) -> (r: Option<Spans>)
    requires
        i < s.len(),
    ensures
        spans_view(r) == single_at(s@, i as int),
        r matches Some(sp) ==> groups_ok(s@, sp@),
{
    let n = s.len();
    if n - i < 2 || !is_marker_sep_char(s[i]) || !(s[i + 1] == 's' || s[i + 1] == 'S') {
        return None;
    }
    let a = i + 2;
    let b = digits_until(s, a);
    if b == a || b >= n || !(s[b] == 'e' || s[b] == 'E') {
        return None;
    }
    let c = b + 1;
    let d = digits_until(s, c);
    if d == c || d >= n || !is_marker_sep_char(s[d]) {
        return None;
    }
    Some(Spans { first: (a, b), second: (c, d), third: (d, d) })
}

fn match_double(s: &Vec<char>, i: usize) -> (r: Option<Spans>)
    requires
        i < s.len(),
    ensures
        spans_view(r) == double_at(s@, i as int),
        r matches Some(sp) ==> groups_ok(s@, sp@),
{
    let n = s.len();
    if n - i < 2 || !is_marker_sep_char(s[i]) || !(s[i + 1] == 's' || s[i + 1] == 'S') {
        return None;
    }
    let a = i + 2;
    let b = digits_until(s, a);
    if b == a || b >= n || !(s[b] == 'e' || s[b] == 'E') {
        return None;
    }
    let c = b + 1;
    let d = digits_until(s, c);
    if d == c {
        return None;
    }
    let e = if d < n && s[d] == '-' {
        d + 1
    } else {
        d
    };
    if e >= n || !(s[e] == 'e' || s[e] == 'E') {
        return None;
    }
    let f = e + 1;
    let g = digits_until(s, f);
    if g == f || g >= n || !is_marker_sep_char(s[g]) {
        return None;
    }
    Some(Spans { first: (a, b), second: (c, d), third: (f, g) })
}

fn match_date(s: &Vec<char>, i: usize) -> (r: Option<Spans>)
    requires
        i < s.len(),
    ensures
        spans_view(r) == date_at(s@, i as int),
        r matches Some(sp) ==> groups_ok(s@, sp@),
{
    let n = s.len();
    if n - i <= 11 {
        return None;
    }
    if is_plain_sep_char(s[i]) && digits_in(s, i + 1, i + 5) && is_date_sep_char(s[i + 5])
        && digits_in(s, i + 6, i + 8) && is_date_sep_char(s[i + 8]) && digits_in(s, i + 9, i + 11)
        && is_plain_sep_char(s[i + 11]) {
        Some(Spans { first: (i + 1, i + 5), second: (i + 6, i + 8), third: (i + 9, i + 11) })
    } else {
        None
    }
}

/// Whether a bare number with a season of `width` digits stands at `i`.
fn bare_matches(s: &Vec<char>, i: usize, width: usize, cross: bool) -> (b: bool)
    requires
        i < s.len(),
        1 <= width <= 2,
    ensures
        b == bare_with(s@, i as int, width as int, cross),
{
    let n = s.len();
    let off: usize = 1 + width + if cross {
        1
    } else {
        0
    };
    if n - i <= off + 2 {
        return false;
    }
    let p = i + off;
    is_plain_sep_char(s[i]) && digits_in(s, i + 1, i + 1 + width) && (!cross || s[i + 1 + width]
        == 'x') && digits_in(s, p, p + 2) && is_plain_sep_char(s[p + 2])
}

fn match_bare(s: &Vec<char>, i: usize) -> (r: Option<Spans>)
    requires
        i < s.len(),
    ensures
        spans_view(r) == bare_at(s@, i as int),
        r matches Some(sp) ==> groups_ok(s@, sp@),
{
    if bare_matches(s, i, 2, true) {
        Some(Spans { first: (i + 1, i + 3), second: (i + 4, i + 6), third: (i + 6, i + 6) })
    } else if bare_matches(s, i, 2, false) {
        Some(Spans { first: (i + 1, i + 3), second: (i + 3, i + 5), third: (i + 5, i + 5) })
    } else if bare_matches(s, i, 1, true) {
        Some(Spans { first: (i + 1, i + 2), second: (i + 3, i + 5), third: (i + 5, i + 5) })
    } else if bare_matches(s, i, 1, false) {
        Some(Spans { first: (i + 1, i + 2), second: (i + 2, i + 4), third: (i + 4, i + 4) })
    } else {
        None
    }
}

fn match_at(p: Pattern, s: &Vec<char>, i: usize) -> (r: Option<Spans>)
    requires
        i < s.len(),
    ensures
        spans_view(r) == marker_at(p, s@, i as int),
        r matches Some(sp) ==> groups_ok(s@, sp@),
{
    match p {
        Pattern::Single => match_single(s, i),
        Pattern::Double => match_double(s, i),
        Pattern::Date => match_date(s, i),
        Pattern::Bare => match_bare(s, i),
    }
}

/// The last marker of kind `p` in `s`.
fn find_last(p: Pattern, s: &Vec<char>) -> (r: Option<Spans>)
    ensures
        spans_view(r) == last_marker(p, s@, s@.len() as int),
        r matches Some(sp) ==> groups_ok(s@, sp@),
{
    let mut i: usize = s.len();
    while i > 0
        invariant
            i <= s.len(),
            last_marker(p, s@, s@.len() as int) == last_marker(p, s@, i as int),
        decreases i,
    {
        let m = match_at(p, s, i - 1);
        if m.is_some() {
            return m;
        }
        i = i - 1;
    }
    None
}

/// Whether `s` holds a line feed.
fn has_line_feed(s: &Vec<char>) -> (b: bool)
    ensures
        b == s@.contains('\n'),
{
    let mut k: usize = 0;
    while k < s.len()
        invariant
            k <= s.len(),
            forall|j: int| 0 <= j < k ==> s@[j] != '\n',
        decreases s.len() - k,
    {
        if s[k] == '\n' {
            return true;
        }
        k = k + 1;
    }
    false
}

/// The number that the digits from `from` up to `to` spell, where it fits 32
/// signed bits.
fn parse_group(s: &Vec<char>, from: usize, to: usize) -> (r: Option<i32>)
    requires
        all_digits(s@, from as int, to as int),
    ensures
        match r {
            Some(v) => parse_number(s@.subrange(from as int, to as int)) == Some(v as int),
            None => parse_number(s@.subrange(from as int, to as int)) is None,
        },
{
    match parse_digits(s, from, to, 0x7fff_ffff) {
        Some(v) => Some(v as i32),
        None => None,
    }
}

/// Reads season and episode from the name of a video file. `season_hint` is
/// the season that the file is expected to belong to, negative where none is
/// known. The result is the season, the episode, whether the file holds two
/// episodes, and a display name; `None` where the name holds no marker, or
/// where the first kind of marker found holds a number too large.
pub fn parse_episode_name(filename: &str, season_hint: i32) -> (r: Option<(i32, i32, bool, String)>)
    ensures
        parsed_is(r, parse_episode_spec(filename@, season_hint as int)),
{
    let s = chars_of(filename);
    if has_line_feed(&s) {
        return None;
    }
    if let Some(sp) = find_last(Pattern::Single, &s) {
        let season = parse_group(&s, sp.first.0, sp.first.1);
        let episode = parse_group(&s, sp.second.0, sp.second.1);
        if season.is_none() || episode.is_none() {
            return None;
        }
        let mut name: Vec<char> = Vec::new();
        push_range(&mut name, &s, sp.first.0, sp.first.1);
        name.push('x');
        push_range(&mut name, &s, sp.second.0, sp.second.1);
        assert(name@ == capture(s@, sp@.first) + seq!['x'] + capture(s@, sp@.second));
        return Some((season.unwrap(), episode.unwrap(), false, string_of(&name)));
    }
    if let Some(sp) = find_last(Pattern::Double, &s) {
        let season = parse_group(&s, sp.first.0, sp.first.1);
        let episode = parse_group(&s, sp.second.0, sp.second.1);
        if season.is_none() || episode.is_none() {
            return None;
        }
        let mut name: Vec<char> = Vec::new();
        push_range(&mut name, &s, sp.first.0, sp.first.1);
        name.push('x');
        push_range(&mut name, &s, sp.second.0, sp.second.1);
        name.push('-');
        push_range(&mut name, &s, sp.third.0, sp.third.1);
        assert(name@ == capture(s@, sp@.first) + seq!['x'] + capture(s@, sp@.second) + seq!['-']
            + capture(s@, sp@.third));
        return Some((season.unwrap(), episode.unwrap(), true, string_of(&name)));
    }
    if let Some(sp) = find_last(Pattern::Date, &s) {
        let mut joined: Vec<char> = Vec::new();
        push_range(&mut joined, &s, sp.first.0, sp.first.1);
        push_range(&mut joined, &s, sp.second.0, sp.second.1);
        push_range(&mut joined, &s, sp.third.0, sp.third.1);
        assert(joined@ == capture(s@, sp@.first) + capture(s@, sp@.second) + capture(
            s@,
            sp@.third,
        ));
        assert(joined@.subrange(0, joined@.len() as int) == joined@);
        let episode = parse_group(&joined, 0, joined.len());
        if episode.is_none() {
            return None;
        }
        let mut name: Vec<char> = Vec::new();
        push_range(&mut name, &s, sp.first.0, sp.first.1);
        name.push('.');
        push_range(&mut name, &s, sp.second.0, sp.second.1);
        name.push('.');
        push_range(&mut name, &s, sp.third.0, sp.third.1);
        assert(name@ == capture(s@, sp@.first) + seq!['.'] + capture(s@, sp@.second) + seq!['.']
            + capture(s@, sp@.third));
        return Some((season_hint, episode.unwrap(), false, string_of(&name)));
    }
    if let Some(sp) = find_last(Pattern::Bare, &s) {
        let season = parse_group(&s, sp.first.0, sp.first.1);
        let episode = parse_group(&s, sp.second.0, sp.second.1);
        if season.is_none() || episode.is_none() {
            return None;
        }
        let season_no = season.unwrap();
        if season_hint < 0 || season_hint == season_no {
            let mut name: Vec<char> = Vec::new();
            push_pad2(&mut name, season_no);
            name.push('x');
            push_range(&mut name, &s, sp.second.0, sp.second.1);
            assert(name@ == pad2(season_no as int) + seq!['x'] + capture(s@, sp@.second));
            return Some((season_no, episode.unwrap(), false, string_of(&name)));
        }
    }
    None
}

} // verus!
