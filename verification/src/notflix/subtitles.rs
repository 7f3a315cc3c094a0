//! Subtitles: reading the lines of an SRT file and writing them as WebVTT.

use vstd::prelude::*;
use crate::collection::sortname::{trim, trim_bounds};
use crate::text::{
    chars_of, find_chars, find_text, pad2, pad3, parse_i32, parse_signed, push_pad2, push_pad3,
    push_range, push_str, string_of, views,
};

verus! {

/// One subtitle: its number, when it is shown and hidden in milliseconds,
/// and its lines of text.
#[derive(Debug)]
pub struct SubEntry {
    pub id: i32,
    pub start: i32,
    pub end: i32,
    pub lines: Vec<String>,
}

/// The mathematical value of a `SubEntry`.
pub struct SubEntryView {
    pub id: int,
    pub start: int,
    pub end: int,
    pub lines: Seq<Seq<char>>,
}

impl View for SubEntry {
    type V = SubEntryView;

    open spec fn view(&self) -> SubEntryView {
        SubEntryView {
            id: self.id as int,
            start: self.start as int,
            end: self.end as int,
            lines: views(self.lines@),
        }
    }
}

/// A time in milliseconds as WebVTT writes it: hours, minutes, seconds and
/// milliseconds, each a part of the time cut off towards zero.
pub open spec fn vtt_time_spec(ms: int) -> Seq<char> {
    let a = if ms < 0 {
        -ms
    } else {
        ms
    };
    let sign = if ms < 0 {
        -1int
    } else {
        1int
    };
    pad2(sign * (a / 1000 / 3600)) + seq![':'] + pad2(sign * ((a / 1000 / 60) % 60)) + seq![':']
        + pad2(sign * ((a / 1000) % 60)) + seq!['.'] + pad3(sign * (a % 1000))
}

/// Whether `c` parts the fields of a time in an SRT file.
pub open spec fn is_time_sep(c: char) -> bool {
    c == ':' || c == ','
}

/// The indices of the characters of `s` that part the fields of a time.
pub open spec fn time_seps(s: Seq<char>) -> Seq<int>
    decreases s.len(),
{
    if s.len() == 0 {
        Seq::empty()
    } else if is_time_sep(s.last()) {
        time_seps(s.drop_last()).push(s.len() - 1)
    } else {
        time_seps(s.drop_last())
    }
}

/// The number that a field spells; 0 where it spells none.
pub open spec fn field_value(s: Seq<char>) -> int {
    match parse_signed(s) {
        Some(v) => v,
        None => 0,
    }
}

/// The time in milliseconds that a text of the form `h:m:s,ms` spells, as a
/// number of 32 bits; 0 where the text has not four fields.
pub open spec fn parse_time_spec(s: Seq<char>) -> i32 {
    let t = trim(s);
    let seps = time_seps(t);
    if seps.len() == 3 {
        let h = field_value(t.subrange(0, seps[0]));
        let m = field_value(t.subrange(seps[0] + 1, seps[1]));
        let sec = field_value(t.subrange(seps[1] + 1, seps[2]));
        let ms = field_value(t.subrange(seps[2] + 1, t.len() as int));
        (((h * 3600 + m * 60 + sec) * 1000 + ms) as i32)
    } else {
        0
    }
}

/// A time in milliseconds as WebVTT writes it, such as `01:02:03.004`.
pub fn vtt_time(ms: i32) -> (r: String)
    ensures
        r@ == vtt_time_spec(ms as int),
{
    let negative = ms < 0;
    let a: i64 = if negative {
        -(ms as i64)
    } else {
        ms as i64
    };
    let sign: i64 = if negative {
        -1
    } else {
        1
    };
    let h = sign * (a / 1000 / 3600);
    let m = sign * ((a / 1000 / 60) % 60);
    let sec = sign * ((a / 1000) % 60);
    let msec = sign * (a % 1000);
    let mut out: Vec<char> = Vec::new();
    push_pad2(&mut out, h as i32);
    out.push(':');
    push_pad2(&mut out, m as i32);
    out.push(':');
    push_pad2(&mut out, sec as i32);
    out.push('.');
    push_pad3(&mut out, msec as i32);
    assert(out@ == vtt_time_spec(ms as int));
    string_of(&out)
}

/// The number that `s[from..to]` spells; 0 where it spells none.
fn field_of(s: &Vec<char>, from: usize, to: usize) -> (v: i32)
    requires
        from <= to <= s.len(),
    ensures
        v == field_value(s@.subrange(from as int, to as int)),
{
    match parse_i32(s, from, to) {
        Some(v) => v,
        None => 0,
    }
}

/// The time in milliseconds that a text of the form `h:m:s,ms` spells; 0
/// where the text has not four fields. A field that is no number counts as
/// 0, and a time too large for 32 bits is cut to 32 bits.
pub fn parse_time(time_str: &str) -> (r: i32)
    ensures
        r == parse_time_spec(time_str@),
{
    let s = chars_of(time_str);
    assert(s@.subrange(0, s@.len() as int) == s@);
    let b = trim_bounds(&s, 0, s.len());
    let ghost t = s@.subrange(b.0 as int, b.1 as int);
    let mut seps: Vec<usize> = Vec::new();
    let mut k: usize = b.0;
    assert(t.take(0) =~= Seq::empty());
    while k < b.1
        invariant
            b.0 <= k <= b.1 <= s.len(),
            t == s@.subrange(b.0 as int, b.1 as int),
            seps@.len() == time_seps(t.take(k - b.0)).len(),
            forall|i: int|
                0 <= i < seps@.len() ==> #[trigger] seps@[i] - b.0 == time_seps(t.take(k - b.0))[i],
            forall|i: int| 0 <= i < seps@.len() ==> b.0 <= #[trigger] seps@[i] < k,
        decreases b.1 - k,
    {
        proof {
            assert(t.take(k + 1 - b.0).drop_last() == t.take(k - b.0));
            assert(t.take(k + 1 - b.0).last() == s@[k as int]);
        }
        if s[k] == ':' || s[k] == ',' {
            seps.push(k);
        }
        k = k + 1;
    }
    assert(t.take(k - b.0) == t);
    if seps.len() != 3 {
        return 0;
    }
    let (i0, i1, i2) = (seps[0], seps[1], seps[2]);
    proof {
        let all = time_seps(t);
        assert(all[0] == i0 - b.0 && all[1] == i1 - b.0 && all[2] == i2 - b.0);
        lemma_time_seps_ascend(t);
        assert(t.subrange(0, all[0]) == s@.subrange(b.0 as int, i0 as int));
        assert(t.subrange(all[0] + 1, all[1]) == s@.subrange(i0 + 1, i1 as int));
        assert(t.subrange(all[1] + 1, all[2]) == s@.subrange(i1 + 1, i2 as int));
        assert(t.subrange(all[2] + 1, t.len() as int) == s@.subrange(i2 + 1, b.1 as int));
    }
    let h = field_of(&s, b.0, i0) as i64;
    let m = field_of(&s, i0 + 1, i1) as i64;
    let sec = field_of(&s, i1 + 1, i2) as i64;
    let ms = field_of(&s, i2 + 1, b.1) as i64;
    let total: i64 = (h * 3600 + m * 60 + sec) * 1000 + ms;
    #[verifier::truncate]
    (total as i32)
}

/// The indices of the separators rise, and each lies inside the text.
pub proof fn lemma_time_seps_ascend(s: Seq<char>)
    ensures
        forall|i: int| 0 <= i < time_seps(s).len() ==> 0 <= #[trigger] time_seps(s)[i] < s.len(),
        forall|i: int, j: int|
            0 <= i < j < time_seps(s).len() ==> #[trigger] time_seps(s)[i] < #[trigger] time_seps(
                s,
            )[j],
    decreases s.len(),
{
    if s.len() > 0 {
        lemma_time_seps_ascend(s.drop_last());
        let rest = time_seps(s.drop_last());
        let all = time_seps(s);
        assert forall|i: int| 0 <= i < all.len() implies 0 <= #[trigger] all[i] < s.len() by {
            if i < rest.len() {
                assert(all[i] == rest[i]);
            }
        }
        assert forall|i: int, j: int| 0 <= i < j < all.len() implies #[trigger] all[i]
            < #[trigger] all[j] by {
            assert(all[i] == rest[i]);
            if j < rest.len() {
                assert(all[j] == rest[j]);
            }
        }
    }
}

/// What the reader of an SRT file expects next.
#[derive(Debug, Clone, Copy)]
pub enum Phase {
    /// The number of a subtitle.
    Number,
    /// The line with the two times of the subtitle.
    Times,
    /// A line of text, or the empty line that ends the subtitle.
    Text,
}

/// How far an SRT file has been read.
pub struct SrtState {
    pub phase: Phase,
    /// The subtitle that is being read.
    pub current: SubEntryView,
    /// The subtitles that are complete.
    pub done: Seq<SubEntryView>,
    /// Whether a byte order mark was seen.
    pub utf8: bool,
}

/// A subtitle of which nothing is read yet.
pub open spec fn blank_entry() -> SubEntryView {
    SubEntryView { id: 0, start: 0, end: 0, lines: Seq::empty() }
}

/// The state before the first line.
pub open spec fn srt_start() -> SrtState {
    SrtState { phase: Phase::Number, current: blank_entry(), done: Seq::empty(), utf8: false }
}

/// Whether a line starts with a byte order mark.
pub open spec fn has_mark(line: Seq<char>) -> bool {
    line.len() > 0 && line[0] == '\u{feff}'
}

/// A line without the byte order mark in front of it.
pub open spec fn without_mark(line: Seq<char>) -> Seq<char> {
    if has_mark(line) {
        line.drop_first()
    } else {
        line
    }
}

/// Where the arrow of a line of times stands: the index of ` --> `, where
/// the line holds it exactly once.
pub open spec fn arrow_index(line: Seq<char>) -> Option<int> {
    let i = find_text(line, " --> "@, 0);
    if i >= 0 && find_text(line, " --> "@, i + " --> "@.len()) < 0 {
        Some(i)
    } else {
        None
    }
}

/// The state after one more line.
pub open spec fn srt_step(st: SrtState, raw: Seq<char>) -> SrtState {
    let line = without_mark(raw);
    let utf8 = st.utf8 || has_mark(raw);
    match st.phase {
        Phase::Number => match parse_signed(trim(line)) {
            Some(id) => SrtState {
                phase: Phase::Times,
                current: SubEntryView { id, ..st.current },
                utf8,
                ..st
            },
            None => SrtState { utf8, ..st },
        },
        Phase::Times => match arrow_index(line) {
            Some(i) => SrtState {
                phase: Phase::Text,
                current: SubEntryView {
                    start: parse_time_spec(line.subrange(0, i)) as int,
                    end: parse_time_spec(line.subrange(i + " --> "@.len(), line.len() as int)) as int,
                    ..st.current
                },
                utf8,
                ..st
            },
            None => SrtState { utf8, ..st },
        },
        Phase::Text => if trim(line).len() == 0 {
            SrtState {
                phase: Phase::Number,
                current: blank_entry(),
                done: st.done.push(st.current),
                utf8,
            }
        } else {
            SrtState {
                current: SubEntryView { lines: st.current.lines.push(line), ..st.current },
                utf8,
                ..st
            }
        },
    }
}

/// The state after all of `lines`.
pub open spec fn srt_run(lines: Seq<Seq<char>>) -> SrtState
    decreases lines.len(),
{
    if lines.len() == 0 {
        srt_start()
    } else {
        srt_step(srt_run(lines.drop_last()), lines.last())
    }
}

/// The subtitles of an SRT file, given its lines: those that are complete
/// and, where it has text, the one that the end of the file cuts short.
pub open spec fn srt_entries(lines: Seq<Seq<char>>) -> Seq<SubEntryView> {
    let st = srt_run(lines);
    if st.current.lines.len() > 0 {
        st.done.push(st.current)
    } else {
        st.done
    }
}

/// The text of one subtitle in a WebVTT file: an empty line, the times, the
/// lines of text.
pub open spec fn vtt_lines(lines: Seq<Seq<char>>) -> Seq<char>
    decreases lines.len(),
{
    if lines.len() == 0 {
        Seq::empty()
    } else {
        vtt_lines(lines.drop_last()) + lines.last() + seq!['\n']
    }
}

/// One subtitle as WebVTT writes it: the line of times, the lines of text
/// and an empty line.
pub open spec fn vtt_cue(e: SubEntryView) -> Seq<char> {
    vtt_time_spec(e.start) + " --> "@ + vtt_time_spec(e.end) + seq!['\n'] + vtt_lines(e.lines)
}

/// The cues of a list of subtitles, each after a line feed.
pub open spec fn vtt_cues(subs: Seq<SubEntryView>) -> Seq<char>
    decreases subs.len(),
{
    if subs.len() == 0 {
        Seq::empty()
    } else {
        vtt_cues(subs.drop_last()) + seq!['\n'] + vtt_cue(subs.last())
    }
}

/// A WebVTT file with the given subtitles.
pub open spec fn vtt_text(subs: Seq<SubEntryView>) -> Seq<char> {
    "WEBVTT\n"@ + vtt_cues(subs)
}

/// The reader of an SRT file between two lines.
struct Reader {
    phase: Phase,
    current: SubEntry,
    done: Vec<SubEntry>,
    utf8: bool,
}

impl View for Reader {
    type V = SrtState;

    closed spec fn view(&self) -> SrtState {
        SrtState {
            phase: self.phase,
            current: self.current@,
            done: views(self.done@),
            utf8: self.utf8,
        }
    }
}

/// A subtitle of which nothing is read yet.
fn blank() -> (e: SubEntry)
    ensures
        e@ == blank_entry(),
{
    let e = SubEntry { id: 0, start: 0, end: 0, lines: Vec::new() };
    assert(e@.lines =~= Seq::empty());
    e
}

/// Reads one more line.
fn read_line(r: &mut Reader, raw: &str)
    ensures
        final(r)@ == srt_step(old(r)@, raw@),
{
    let s = chars_of(raw);
    let marked = s.len() > 0 && s[0] == '\u{feff}';
    let from: usize = if marked {
        1
    } else {
        0
    };
    let ghost line = without_mark(raw@);
    assert(line == s@.subrange(from as int, s@.len() as int));
    if marked {
        r.utf8 = true;
    }
    match r.phase {
        Phase::Number => {
            let b = trim_bounds(&s, from, s.len());
            match parse_i32(&s, b.0, b.1) {
                Some(id) => {
                    r.current.id = id;
                    r.phase = Phase::Times;
                },
                None => {},
            }
        },
        Phase::Times => {
            let mut text: Vec<char> = Vec::new();
            push_range(&mut text, &s, from, s.len());
            assert(text@ == line);
            let arrow = chars_of(" --> ");
            match find_chars(&text, &arrow, 0) {
                Some(i) => {
                    if find_chars(&text, &arrow, i + arrow.len()).is_none() {
                        let mut left: Vec<char> = Vec::new();
                        push_range(&mut left, &text, 0, i);
                        let mut right: Vec<char> = Vec::new();
                        push_range(&mut right, &text, i + arrow.len(), text.len());
                        assert(left@ == line.subrange(0, i as int));
                        assert(right@ == line.subrange(i + " --> "@.len(), line.len() as int));
                        let start = parse_time(string_of(&left).as_str());
                        let end = parse_time(string_of(&right).as_str());
                        r.current.start = start;
                        r.current.end = end;
                        r.phase = Phase::Text;
                    }
                },
                None => {},
            }
        },
        Phase::Text => {
            let b = trim_bounds(&s, from, s.len());
            if b.0 == b.1 {
                let ghost before = r.done@;
                let mut finished = blank();
                std::mem::swap(&mut finished, &mut r.current);
                r.done.push(finished);
                assert(views(r.done@) =~= views(before).push(finished@));
                r.phase = Phase::Number;
            } else {
                let ghost before = r.current.lines@;
                let mut text: Vec<char> = Vec::new();
                push_range(&mut text, &s, from, s.len());
                assert(text@ == line);
                let text = string_of(&text);
                r.current.lines.push(text);
                assert(views(r.current.lines@) =~= views(before).push(line));
            }
        },
    }
}

/// Reads the subtitles of an SRT file from its lines, given without their
/// line ends. The second part of the result says whether a byte order mark
/// was seen. A subtitle starts with a line that holds its number, goes on
/// with a line that holds two times with ` --> ` between them, and ends
/// before the next line that is empty or holds white space only; lines that
/// do not fit are passed over.
pub fn parse_srt(lines: &Vec<String>) -> (r: (Vec<SubEntry>, bool))
    ensures
        views(r.0@) == srt_entries(views(lines@)),
        r.1 == srt_run(views(lines@)).utf8,
{
    let ghost all = views(lines@);
    let mut reader = Reader { phase: Phase::Number, current: blank(), done: Vec::new(), utf8: false };
    assert(reader@.done =~= Seq::empty());
    assert(all.take(0) =~= Seq::empty());
    let mut k: usize = 0;
    while k < lines.len()
        invariant
            k <= lines.len(),
            all == views(lines@),
            reader@ == srt_run(all.take(k as int)),
        decreases lines.len() - k,
    {
        proof {
            assert(all.take(k + 1).drop_last() == all.take(k as int));
            assert(all.take(k + 1).last() == lines@[k as int]@);
        }
        read_line(&mut reader, lines[k].as_str());
        k = k + 1;
    }
    assert(all.take(k as int) == all);
    let Reader { phase, current, done, utf8 } = reader;
    let mut subs = done;
    if current.lines.len() > 0 {
        let ghost before = subs@;
        subs.push(current);
        assert(views(subs@) =~= views(before).push(current@));
    }
    (subs, utf8)
}

/// Writes subtitles as a WebVTT file: the heading, then each subtitle after
/// an empty line, with its times and its lines of text.
pub fn render_vtt(subs: &Vec<SubEntry>) -> (r: String)
    ensures
        r@ == vtt_text(views(subs@)),
{
    let ghost all = views(subs@);
    let mut out: Vec<char> = Vec::new();
    push_str(&mut out, "WEBVTT\n");
    let mut k: usize = 0;
    assert(all.take(0) =~= Seq::empty());
    assert(out@ =~= "WEBVTT\n"@ + vtt_cues(all.take(0)));
    while k < subs.len()
        invariant
            k <= subs.len(),
            all == views(subs@),
            out@ == "WEBVTT\n"@ + vtt_cues(all.take(k as int)),
        decreases subs.len() - k,
    {
        let sub = &subs[k];
        let ghost before = out@;
        proof {
            assert(all.take(k + 1).drop_last() == all.take(k as int));
            assert(all.take(k + 1).last() == sub@);
        }
        out.push('\n');
        push_str(&mut out, vtt_time(sub.start).as_str());
        push_str(&mut out, " --> ");
        push_str(&mut out, vtt_time(sub.end).as_str());
        out.push('\n');
        let ghost head = out@;
        let ghost texts = views(sub.lines@);
        let mut j: usize = 0;
        assert(texts.take(0) =~= Seq::empty());
        assert(out@ =~= head + vtt_lines(texts.take(0)));
        while j < sub.lines.len()
            invariant
                j <= sub.lines.len(),
                texts == views(sub.lines@),
                out@ == head + vtt_lines(texts.take(j as int)),
            decreases sub.lines.len() - j,
        {
            proof {
                assert(texts.take(j + 1).drop_last() == texts.take(j as int));
                assert(texts.take(j + 1).last() == sub.lines@[j as int]@);
            }
            push_str(&mut out, sub.lines[j].as_str());
            out.push('\n');
            assert(out@ =~= head + vtt_lines(texts.take(j + 1)));
            j = j + 1;
        }
        assert(texts.take(j as int) == texts);
        assert(out@ =~= before + seq!['\n'] + vtt_cue(sub@));
        k = k + 1;
    }
    assert(all.take(k as int) == all);
    string_of(&out)
}

} // verus!
