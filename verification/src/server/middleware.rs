//! What the server decides about a request before it is handled: the path
//! that is meant, and whether an entity tag matches.

use vstd::prelude::*;
use crate::collection::sortname::{trim, trim_bounds};
use crate::text::{
    chars_of, push_range, same_chars, skip_repeated, starts_with_at, string_of, strip_repeated,
};

verus! {

/// An entity tag without the mark of a weak tag, `W/`, in front.
pub open spec fn without_weak(s: Seq<char>) -> Seq<char> {
    if "W/"@.is_prefix_of(s) {
        s.subrange("W/"@.len() as int, s.len() as int)
    } else {
        s
    }
}

/// Whether one tag of a request matches the tag of the server: trimmed, it
/// is the same, or the same once the mark of a weak tag is taken off both.
pub open spec fn etag_matches(candidate: Seq<char>, server: Seq<char>) -> bool {
    trim(candidate) == server || without_weak(trim(candidate)) == without_weak(server)
}

/// Whether one of the tags of `client`, which commas part, matches the tag
/// of the server: the tag that starts at `start` and is read up to `pos`,
/// or one of those after it.
pub open spec fn any_etag_matches(client: Seq<char>, server: Seq<char>, start: int, pos: int) -> bool
    decreases client.len() - pos,
{
    if start < 0 || start > pos || pos > client.len() {
        false
    } else if pos == client.len() {
        etag_matches(client.subrange(start, pos), server)
    } else if client[pos] == ',' {
        etag_matches(client.subrange(start, pos), server) || any_etag_matches(
            client,
            server,
            pos + 1,
            pos + 1,
        )
    } else {
        any_etag_matches(client, server, start, pos + 1)
    }
}

/// Whether one of the tags that a client sent matches the tag of the
/// server.
pub open spec fn etags_match_spec(client: Seq<char>, server: Seq<char>) -> bool {
    any_etag_matches(client, server, 0, 0)
}

/// The characters of `s[start..end]` without the mark of a weak tag.
fn strip_weak(s: &Vec<char>, start: usize, end: usize) -> (r: Vec<char>)
    requires
        start <= end <= s.len(),
    ensures
        r@ == without_weak(s@.subrange(start as int, end as int)),
{
    let ghost t = s@.subrange(start as int, end as int);
    let mark = chars_of("W/");
    let mut out: Vec<char> = Vec::new();
    if end - start >= mark.len() {
        let mut head: Vec<char> = Vec::new();
        push_range(&mut head, s, start, start + mark.len());
        assert(head@ =~= t.subrange(0, mark@.len() as int));
        if same_chars(&head, &mark) {
            push_range(&mut out, s, start + mark.len(), end);
            assert(out@ =~= t.subrange(mark@.len() as int, t.len() as int));
            return out;
        }
    }
    push_range(&mut out, s, start, end);
    assert(out@ =~= t);
    out
}

/// Whether one tag of the client, `c[start..end]`, matches the tag of the
/// server.
fn one_etag_matches(c: &Vec<char>, start: usize, end: usize, s: &Vec<char>) -> (b: bool)
    requires
        start <= end <= c.len(),
    ensures
        b == etag_matches(c@.subrange(start as int, end as int), s@),
{
    let bounds = trim_bounds(c, start, end);
    let mut tag: Vec<char> = Vec::new();
    push_range(&mut tag, c, bounds.0, bounds.1);
    assert(tag@ =~= trim(c@.subrange(start as int, end as int)));
    if same_chars(&tag, s) {
        return true;
    }
    assert(s@.subrange(0, s@.len() as int) == s@);
    let server_stripped = strip_weak(s, 0, s.len());
    let stripped = strip_weak(c, bounds.0, bounds.1);
    same_chars(&stripped, &server_stripped)
}

/// Whether a tag sent by a client matches the tag of the server. The client
/// may send several tags with commas between them; white space around a tag
/// does not count, and a weak tag matches like a strong one.
pub fn etags_match(client_etag: &str, server_etag: &str) -> (b: bool)
    ensures
        b == etags_match_spec(client_etag@, server_etag@),
{
    let c = chars_of(client_etag);
    let s = chars_of(server_etag);
    let mut start: usize = 0;
    let mut pos: usize = 0;
    while pos < c.len()
        invariant
            start <= pos <= c.len(),
            c@ == client_etag@,
            s@ == server_etag@,
            etags_match_spec(c@, s@) == any_etag_matches(c@, s@, start as int, pos as int),
        decreases c.len() - pos,
    {
        if c[pos] == ',' {
            if one_etag_matches(&c, start, pos, &s) {
                return true;
            }
            start = pos + 1;
        }
        pos = pos + 1;
    }
    one_etag_matches(&c, start, pos, &s)
}

/// `s` with each run of slashes made one slash.
pub open spec fn collapse_slashes(s: Seq<char>) -> Seq<char>
    decreases s.len(),
{
    if s.len() == 0 {
        s
    } else {
        let before = collapse_slashes(s.drop_last());
        if s.last() == '/' && before.len() > 0 && before.last() == '/' {
            before
        } else {
            before.push(s.last())
        }
    }
}

/// A path without the prefix `/emby`, however often it is repeated, where
/// the path starts with `/emby/`.
pub open spec fn without_emby(s: Seq<char>) -> Seq<char> {
    if "/emby/"@.is_prefix_of(s) {
        strip_repeated(s, "/emby"@)
    } else {
        s
    }
}

/// The path that a request path means.
pub open spec fn normalized_path(path: Seq<char>) -> Seq<char> {
    without_emby(collapse_slashes(path))
}

/// The path that a request path means: each run of slashes counts as one
/// slash, and a path that starts with `/emby/` loses that prefix.
pub fn normalize_path(path: &str) -> (r: String)
    ensures
        r@ == normalized_path(path@),
{
    let s = chars_of(path);
    let mut out: Vec<char> = Vec::new();
    let mut k: usize = 0;
    assert(s@.take(0) =~= Seq::empty());
    while k < s.len()
        invariant
            k <= s.len(),
            out@ == collapse_slashes(s@.take(k as int)),
        decreases s.len() - k,
    {
        proof {
            assert(s@.take(k + 1).drop_last() == s@.take(k as int));
            assert(s@.take(k + 1).last() == s@[k as int]);
        }
        let n = out.len();
        if !(s[k] == '/' && n > 0 && out[n - 1] == '/') {
            out.push(s[k]);
        }
        k = k + 1;
    }
    assert(s@.take(k as int) == s@);
    assert(out@.subrange(0, out@.len() as int) == out@);
    if starts_with_at(&out, 0, &chars_of("/emby/")) {
        let from = skip_repeated(&out, &chars_of("/emby"));
        let mut rest: Vec<char> = Vec::new();
        push_range(&mut rest, &out, from, out.len());
        assert(rest@ =~= strip_repeated(out@, "/emby"@));
        string_of(&rest)
    } else {
        string_of(&out)
    }
}

} // verus!
