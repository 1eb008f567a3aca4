//! The HTTP side of the live preview server: which handler a request goes
//! to, what a request's head says of its body, and the response heads and
//! event-stream frames the server writes.
use vstd::prelude::*;

use crate::bench::{parse_u64_spec, parse_u64_text};
use crate::cli::status_text;
use crate::format::{is_unicode_whitespace, is_whitespace};
use crate::readers::{lines_view, trim_end_spec, trim_spec, trimmed};
use crate::text::{
    chars_of, copy_str, decimal, push_decimal, push_str, str_eq, string_from_chars,
};

verus! {

/// The handlers of the preview server.
#[derive(Clone, Copy, Debug, Eq, PartialEq, Structural)]
pub enum Route {
    /// `GET /`: the preview page.
    Page,
    /// `GET /favicon.ico`: no content.
    Favicon,
    /// `GET /api/snapshot`: the current snapshot.
    Snapshot,
    /// `GET /events`: the stream of snapshots.
    Events,
    /// `POST /api/context`: new control values.
    UpdateContext,
    /// `POST /api/run`: a fresh run.
    Run,
    /// Anything else.
    NotFound,
}

pub open spec fn route_spec(method: Seq<char>, path: Seq<char>) -> Route {
    if method == "GET"@ && path == "/"@ {
        Route::Page
    } else if method == "GET"@ && path == "/favicon.ico"@ {
        Route::Favicon
    } else if method == "GET"@ && path == "/api/snapshot"@ {
        Route::Snapshot
    } else if method == "GET"@ && path == "/events"@ {
        Route::Events
    } else if method == "POST"@ && path == "/api/context"@ {
        Route::UpdateContext
    } else if method == "POST"@ && path == "/api/run"@ {
        Route::Run
    } else {
        Route::NotFound
    }
}

/// The handler for a request's method and path.
pub fn route(method: &str, path: &str) -> (r: Route)
    ensures
        r == route_spec(method@, path@),
{
    let get = str_eq(method, "GET");
    let post = str_eq(method, "POST");
    if get && str_eq(path, "/") {
        Route::Page
    } else if get && str_eq(path, "/favicon.ico") {
        Route::Favicon
    } else if get && str_eq(path, "/api/snapshot") {
        Route::Snapshot
    } else if get && str_eq(path, "/events") {
        Route::Events
    } else if post && str_eq(path, "/api/context") {
        Route::UpdateContext
    } else if post && str_eq(path, "/api/run") {
        Route::Run
    } else {
        Route::NotFound
    }
}

/// The whitespace-separated words of `cs` (`str::split_whitespace`).
pub open spec fn words(cs: Seq<char>) -> Seq<Seq<char>>
    decreases cs.len(),
{
    if cs.len() == 0 {
        Seq::empty()
    } else {
        let w = words(cs.drop_last());
        let c = cs.last();
        if is_unicode_whitespace(c) {
            w
        } else if cs.len() >= 2 && !is_unicode_whitespace(cs[cs.len() - 2]) {
            w.update(w.len() - 1, w.last().push(c))
        } else {
            w.push(seq![c])
        }
    }
}

/// The `i`th word, or nothing where there are fewer words.
pub open spec fn word_or_empty(ws: Seq<Seq<char>>, i: int) -> Seq<char> {
    if 0 <= i < ws.len() {
        ws[i]
    } else {
        Seq::empty()
    }
}

/// The words of `cs`, given the words found before `i` and the word being
/// read.
pub open spec fn words_so_far(done: Seq<Seq<char>>, current: Seq<char>) -> Seq<Seq<char>> {
    if current.len() == 0 {
        done
    } else {
        done.push(current)
    }
}

fn words_of(line: &str) -> (r: Vec<Vec<char>>)
    ensures
        lines_view(r@) == words(line@),
{
    let cs = chars_of(line);
    let mut done: Vec<Vec<char>> = Vec::new();
    let mut current: Vec<char> = Vec::new();
    let mut i: usize = 0;
    while i < cs.len()
        invariant
            i <= cs.len(),
            cs@ == line@,
            words(cs@.take(i as int)) == words_so_far(lines_view(done@), current@),
            current@.len() > 0 <==> (i > 0 && !is_unicode_whitespace(cs@[i - 1])),
        decreases cs.len() - i,
    {
        let c = cs[i];
        let ghost t = cs@.take(i + 1);
        let ghost done_before = lines_view(done@);
        let ghost current_before = current@;
        assert(t.drop_last() =~= cs@.take(i as int));
        assert(t.last() == c);
        if is_whitespace(c) {
            if current.len() > 0 {
                done.push(current);
                current = Vec::new();
                assert(lines_view(done@) =~= done_before.push(current_before));
            }
        } else {
            let continuing = i > 0 && !is_whitespace(cs[i - 1]);
            current.push(c);
            proof {
                if continuing {
                    assert(t[t.len() - 2] == cs@[i - 1]);
                    assert(done_before.push(current_before).update(
                        done_before.len() as int,
                        current_before.push(c),
                    ) =~= done_before.push(current@));
                } else {
                    assert(i == 0 || is_unicode_whitespace(t[t.len() - 2]));
                    assert(current@ =~= seq![c]);
                }
            }
        }
        i += 1;
    }
    assert(cs@.take(cs.len() as int) =~= cs@);
    if current.len() > 0 {
        done.push(current);
    }
    done
}

/// The method and path of an HTTP request line: its first two words, each
/// empty where it is missing.
pub fn request_line_parts(line: &str) -> (r: (String, String))
    ensures
        r.0@ == word_or_empty(words(line@), 0),
        r.1@ == word_or_empty(words(line@), 1),
{
    let ws = words_of(line);
    let method = if ws.len() > 0 {
        string_from_chars(ws[0].as_slice())
    } else {
        String::new()
    };
    let path = if ws.len() > 1 {
        string_from_chars(ws[1].as_slice())
    } else {
        String::new()
    };
    (method, path)
}

/// A character's code with ASCII capitals lowered.
pub open spec fn ascii_lower_code(c: char) -> u32 {
    if 65 <= c as u32 <= 90 {
        (c as u32 + 32) as u32
    } else {
        c as u32
    }
}

/// Equality up to ASCII case (`str::eq_ignore_ascii_case`).
pub open spec fn eq_ignore_ascii_case(a: Seq<char>, b: Seq<char>) -> bool {
    a.len() == b.len() && forall|i: int| 0 <= i < a.len() ==> ascii_lower_code(a[i]) == ascii_lower_code(b[i])
}

fn lower_code(c: char) -> (r: u32)
    ensures
        r == ascii_lower_code(c),
{
    let v = c as u32;
    if 65 <= v && v <= 90 {
        v + 32
    } else {
        v
    }
}

fn chars_eq_ignore_ascii_case(a: &[char], b: &[char]) -> (r: bool)
    ensures
        r == eq_ignore_ascii_case(a@, b@),
{
    if a.len() != b.len() {
        return false;
    }
    let mut i: usize = 0;
    while i < a.len()
        invariant
            a.len() == b.len(),
            i <= a.len(),
            forall|k: int| 0 <= k < i ==> ascii_lower_code(a@[k]) == ascii_lower_code(b@[k]),
        decreases a.len() - i,
    {
        if lower_code(a[i]) != lower_code(b[i]) {
            return false;
        }
        i += 1;
    }
    true
}

/// Where the first `:` of `s` is.
pub open spec fn colon_index(s: Seq<char>) -> Option<int>
    decreases s.len(),
{
    if s.len() == 0 {
        None
    } else if s[0] == ':' {
        Some(0)
    } else {
        match colon_index(s.drop_first()) {
            Some(k) => Some(k + 1),
            None => None,
        }
    }
}

/// What `usize::from_str` reads, with `0` for anything it refuses.
pub open spec fn parse_usize_or_zero(t: Seq<char>) -> usize {
    match parse_u64_spec(t) {
        Some(v) => if v <= usize::MAX {
            v as usize
        } else {
            0
        },
        None => 0,
    }
}

/// What one header line says of the length of the body: the value of a
/// `Content-Length` header, named in any case (`0` where the value is not
/// a number that fits), or nothing for any other line.
pub open spec fn header_length(line: Seq<char>) -> Option<usize> {
    let t = trim_end_spec(line);
    match colon_index(t) {
        Some(k) => if eq_ignore_ascii_case(t.take(k), "content-length"@) {
            Some(parse_usize_or_zero(trim_spec(t.skip(k + 1))))
        } else {
            None
        },
        None => None,
    }
}

/// The body length that header lines give, the last `Content-Length`
/// header winning, up to the first blank line; `acc` before any.
pub open spec fn content_length_from(lines: Seq<Seq<char>>, acc: usize) -> usize
    decreases lines.len(),
{
    if lines.len() == 0 || trim_end_spec(lines[0]).len() == 0 {
        acc
    } else {
        content_length_from(
            lines.drop_first(),
            match header_length(lines[0]) {
                Some(n) => n,
                None => acc,
            },
        )
    }
}

fn colon_position(t: &Vec<char>) -> (r: Option<usize>)
    ensures
        match r {
            Some(k) => colon_index(t@) == Some(k as int) && k < t@.len(),
            None => colon_index(t@) is None,
        },
{
    let mut i: usize = 0;
    assert(t@.skip(0) =~= t@);
    while i < t.len()
        invariant
            i <= t.len(),
            colon_index(t@) == match colon_index(t@.skip(i as int)) {
                Some(k) => Some(k + i),
                None => None,
            },
        decreases t.len() - i,
    {
        assert(t@.skip(i as int)[0] == t@[i as int]);
        if t[i] == ':' {
            return Some(i);
        }
        assert(t@.skip(i as int).drop_first() =~= t@.skip(i + 1));
        i += 1;
    }
    assert(t@.skip(i as int).len() == 0);
    None
}

fn trim_end_chars(cs: &Vec<char>) -> (r: Vec<char>)
    ensures
        r@ == trim_end_spec(cs@),
{
    let mut e: usize = cs.len();
    assert(cs@.take(e as int) =~= cs@);
    while e > 0 && is_whitespace(cs[e - 1])
        invariant
            e <= cs.len(),
            trim_end_spec(cs@) == trim_end_spec(cs@.take(e as int)),
        decreases e,
    {
        assert(cs@.take(e as int).drop_last() =~= cs@.take(e - 1));
        e -= 1;
    }
    let mut out: Vec<char> = Vec::new();
    let mut k: usize = 0;
    while k < e
        invariant
            k <= e <= cs.len(),
            out@ == cs@.take(k as int),
        decreases e - k,
    {
        out.push(cs[k]);
        k += 1;
        assert(out@ =~= cs@.take(k as int));
    }
    out
}

fn header_length_of(line: &String) -> (r: Option<usize>)
    ensures
        r == header_length(line@),
{
    let cs = chars_of(line.as_str());
    let t = trim_end_chars(&cs);
    let found = colon_position(&t);
    let k = match found {
        Some(k) => k,
        None => return None,
    };
    let length = t.len();
    assert(k < length);
    let name = vstd::slice::slice_subrange(t.as_slice(), 0, k);
    let target = chars_of("content-length");
    assert(name@ =~= t@.take(k as int));
    if !chars_eq_ignore_ascii_case(name, target.as_slice()) {
        return None;
    }
    let mut value: Vec<char> = Vec::new();
    let mut j: usize = k + 1;
    while j < t.len()
        invariant
            k + 1 <= j <= t.len(),
            value@ == t@.subrange(k + 1, j as int),
        decreases t.len() - j,
    {
        value.push(t[j]);
        j += 1;
        assert(value@ =~= t@.subrange(k + 1, j as int));
    }
    assert(value@ =~= t@.skip(k + 1));
    let number = trimmed(&value);
    let digits = chars_of(number.as_str());
    let n = match parse_u64_text(digits.as_slice()) {
        Some(v) => if (v as u128) <= (usize::MAX as u128) {
            v as usize
        } else {
            0
        },
        None => 0,
    };
    Some(n)
}

/// The length of a request's body from its header lines (read after the
/// request line): the value of the last `Content-Length` header before
/// the first blank line, `0` where there is none or it is not a number.
pub fn content_length(lines: &[String]) -> (r: usize)
    ensures
        r == content_length_from(lines@.map_values(|l: String| l@), 0),
{
    let ghost ls = lines@.map_values(|l: String| l@);
    let mut acc: usize = 0;
    let mut i: usize = 0;
    assert(ls.skip(0) =~= ls);
    while i < lines.len()
        invariant
            i <= lines.len(),
            ls == lines@.map_values(|l: String| l@),
            content_length_from(ls, 0) == content_length_from(ls.skip(i as int), acc),
        decreases lines.len() - i,
    {
        let ghost rest = ls.skip(i as int);
        assert(rest[0] == lines@[i as int]@);
        let cs = chars_of(lines[i].as_str());
        let t = trim_end_chars(&cs);
        if t.len() == 0 {
            return acc;
        }
        match header_length_of(&lines[i]) {
            Some(n) => {
                acc = n;
            },
            None => {},
        }
        assert(rest.drop_first() =~= ls.skip(i + 1));
        i += 1;
    }
    assert(ls.skip(i as int).len() == 0);
    acc
}

/// The head of a response: status line, content type and length, and a
/// closed connection.
pub open spec fn response_head_spec(status: u16, content_type: Seq<char>, body_len: usize) -> Seq<char> {
    "HTTP/1.1 "@ + decimal(status as nat) + " "@ + (if status == 204 {
        "No Content"@
    } else if status == 404 {
        "Not Found"@
    } else {
        "OK"@
    }) + "\r\nContent-Type: "@ + content_type + "\r\nContent-Length: "@ + decimal(body_len as nat)
        + "\r\nConnection: close\r\n\r\n"@
}

/// The head of a response whose body is `body_len` bytes long.
pub fn response_head(status: u16, content_type: &str, body_len: usize) -> (r: String)
    ensures
        r@ == response_head_spec(status, content_type@, body_len),
{
    let mut out = copy_str("HTTP/1.1 ");
    push_decimal(&mut out, status as usize);
    push_str(&mut out, " ");
    push_str(&mut out, status_text(status));
    push_str(&mut out, "\r\nContent-Type: ");
    push_str(&mut out, content_type);
    push_str(&mut out, "\r\nContent-Length: ");
    push_decimal(&mut out, body_len);
    push_str(&mut out, "\r\nConnection: close\r\n\r\n");
    out
}

/// What the event stream writes next: the snapshot as a `data:` frame when
/// its revision is new, else a keep-alive comment; and the revision it has
/// then sent last.
pub fn event_frame(last_revision: Option<u64>, revision: u64, payload: &str) -> (r: (String, Option<u64>))
    ensures
        last_revision != Some(revision) ==> r.0@ == "data: "@ + payload@ + "\n\n"@ && r.1 == Some(revision),
        last_revision == Some(revision) ==> r.0@ == ": keep-alive\n\n"@ && r.1 == last_revision,
{
    let fresh = match last_revision {
        Some(last) => last != revision,
        None => true,
    };
    if fresh {
        let mut frame = copy_str("data: ");
        push_str(&mut frame, payload);
        push_str(&mut frame, "\n\n");
        (frame, Some(revision))
    } else {
        (copy_str(": keep-alive\n\n"), last_revision)
    }
}

} // verus!
