//! The head of an HTTP/1.1 request as the loopback listener reads it: where
//! the head ends, its method and path, its `Content-Length` and its cookies.
use vstd::prelude::*;

use crate::admins::{parse_u64, parse_u64_spec};
use crate::cache::fields_view;
use crate::form::{first_cookie, lossy_utf8, read_cookie, utf8_lossy};
use crate::text::{
    chars_of, eq_ignore_ascii_case, lemma_split_nonempty, split_chars, split_spec,
    str_eq_ignore_ascii_case, string_from_chars, trim_chars, trim_spec,
};

verus! {

// ---------------------------------------------------------------------------
// Splitting at the first occurrence of a character
// ---------------------------------------------------------------------------

/// What comes before the first `sep` of `p` (all of it, when there is none).
pub open spec fn before_char(p: Seq<char>, sep: char) -> Seq<char>
    decreases p.len(),
{
    if p.len() == 0 {
        p
    } else if p[0] == sep {
        seq![]
    } else {
        seq![p[0]] + before_char(p.drop_first(), sep)
    }
}

/// What comes after the first `sep` of `p`: none when `p` holds no `sep`.
pub open spec fn after_char(p: Seq<char>, sep: char) -> Option<Seq<char>>
    decreases p.len(),
{
    if p.len() == 0 {
        None
    } else if p[0] == sep {
        Some(p.drop_first())
    } else {
        after_char(p.drop_first(), sep)
    }
}

proof fn lemma_split_once(p: Seq<char>, sep: char, i: int)
    requires
        0 <= i <= p.len(),
        forall|k: int| 0 <= k < i ==> p[k] != sep,
        i == p.len() || p[i] == sep,
    ensures
        before_char(p, sep) == p.take(i),
        after_char(p, sep) == if i < p.len() {
            Some(p.subrange(i + 1, p.len() as int))
        } else {
            None
        },
    decreases i,
{
    if i > 0 {
        let t = p.drop_first();
        assert forall|k: int| 0 <= k < i - 1 implies t[k] != sep by {
            assert(t[k] == p[k + 1]);
        }
        if i < p.len() {
            assert(t[i - 1] == p[i]);
        }
        lemma_split_once(t, sep, i - 1);
        assert(p.take(i) == seq![p[0]] + t.take(i - 1));
        if i < p.len() {
            assert(t.subrange(i, t.len() as int) == p.subrange(i + 1, p.len() as int));
        }
    } else {
        assert(p.take(0) == Seq::<char>::empty());
        if p.len() > 0 {
            assert(p.drop_first() == p.subrange(1, p.len() as int));
        }
    }
}

/// `p` split at its first `sep`, as `str::split_once` splits it.
pub fn split_once_char(p: &Vec<char>, sep: char) -> (r: (Vec<char>, Option<Vec<char>>))
    ensures
        r.0@ == before_char(p@, sep),
        match r.1 {
            Some(v) => after_char(p@, sep) == Some(v@),
            None => after_char(p@, sep) is None,
        },
{
    let mut head: Vec<char> = Vec::new();
    let mut i: usize = 0;
    while i < p.len() && p[i] != sep
        invariant
            i <= p.len(),
            head@ == p@.take(i as int),
            forall|k: int| 0 <= k < i ==> p@[k] != sep,
        decreases p.len() - i,
    {
        head.push(p[i]);
        assert(p@.take(i + 1) == p@.take(i as int).push(p@[i as int]));
        i += 1;
    }
    proof {
        lemma_split_once(p@, sep, i as int);
    }
    if i == p.len() {
        return (head, None);
    }
    let mut tail: Vec<char> = Vec::new();
    let mut j: usize = i + 1;
    while j < p.len()
        invariant
            i + 1 <= j <= p.len(),
            tail@ == p@.subrange(i + 1, j as int),
        decreases p.len() - j,
    {
        tail.push(p[j]);
        assert(p@.subrange(i + 1, j + 1) == p@.subrange(i + 1, j as int).push(p@[j as int]));
        j += 1;
    }
    (head, Some(tail))
}

// ---------------------------------------------------------------------------
// The end of the head
// ---------------------------------------------------------------------------

/// Whether the blank line that ends a request head (`\r\n\r\n`) starts at
/// byte `i` of `b`.
pub open spec fn blank_line_at(b: Seq<u8>, i: int) -> bool {
    0 <= i && i + 4 <= b.len() && b[i] == 13u8 && b[i + 1] == 10u8 && b[i + 2] == 13u8 && b[i
        + 3] == 10u8
}

/// Where the first `\r\n\r\n` of `b` starts: none while the head is not
/// complete.
pub fn head_end(b: &[u8]) -> (r: Option<usize>)
    ensures
        match r {
            Some(i) => blank_line_at(b@, i as int) && forall|j: int|
                0 <= j < i ==> !#[trigger] blank_line_at(b@, j),
            None => forall|j: int| !#[trigger] blank_line_at(b@, j),
        },
{
    if b.len() < 4 {
        return None;
    }
    let mut i: usize = 0;
    let last: usize = b.len() - 3;
    while i < last
        invariant
            last == b@.len() - 3,
            b@.len() >= 4,
            i + 3 <= b@.len(),
            forall|j: int| 0 <= j < i ==> !#[trigger] blank_line_at(b@, j),
        decreases b.len() - i,
    {
        if b[i] == 13 && b[i + 1] == 10 && b[i + 2] == 13 && b[i + 3] == 10 {
            return Some(i);
        }
        i += 1;
    }
    None
}

// ---------------------------------------------------------------------------
// Lines and the request line
// ---------------------------------------------------------------------------

/// A line without the `\r` that ends it.
pub open spec fn strip_cr(l: Seq<char>) -> Seq<char> {
    if l.len() > 0 && l.last() == '\r' {
        l.drop_last()
    } else {
        l
    }
}

/// The lines of a head, each without its line break.
pub open spec fn head_lines(head: Seq<char>) -> Seq<Seq<char>> {
    split_spec(head, '\n').map_values(|l: Seq<char>| strip_cr(l))
}

/// The words of the request line.
pub open spec fn request_words(head: Seq<char>) -> Seq<Seq<char>> {
    split_spec(head_lines(head)[0], ' ')
}

/// The request's method: the first word of the request line.
pub open spec fn method_spec(head: Seq<char>) -> Seq<char> {
    request_words(head)[0]
}

/// The request's target: the second word of the request line, if any.
pub open spec fn target_spec(head: Seq<char>) -> Seq<char> {
    let w = request_words(head);
    if w.len() > 1 {
        w[1]
    } else {
        seq![]
    }
}

/// The request's path: its target up to the first `?`.
pub open spec fn path_spec(head: Seq<char>) -> Seq<char> {
    split_spec(target_spec(head), '?')[0]
}

// ---------------------------------------------------------------------------
// Header fields
// ---------------------------------------------------------------------------

/// The value a header line gives the field `name`, trimmed: none when the
/// line has no `:` or names another field (names match regardless of ASCII
/// case, and white space round them is ignored).
pub open spec fn header_value(line: Seq<char>, name: Seq<char>) -> Option<Seq<char>> {
    match after_char(line, ':') {
        Some(v) => if eq_ignore_ascii_case(trim_spec(before_char(line, ':')), name) {
            Some(trim_spec(v))
        } else {
            None
        },
        None => None,
    }
}

/// The value of the last of `lines` that gives the field `name`.
pub open spec fn last_header(lines: Seq<Seq<char>>, name: Seq<char>) -> Option<Seq<char>>
    decreases lines.len(),
{
    if lines.len() == 0 {
        None
    } else {
        match header_value(lines.last(), name) {
            Some(v) => Some(v),
            None => last_header(lines.drop_last(), name),
        }
    }
}

/// The value of the first of `lines` that gives the field `name`.
pub open spec fn first_header(lines: Seq<Seq<char>>, name: Seq<char>) -> Option<Seq<char>>
    decreases lines.len(),
{
    if lines.len() == 0 {
        None
    } else {
        match header_value(lines[0], name) {
            Some(v) => Some(v),
            None => first_header(lines.drop_first(), name),
        }
    }
}

/// The header lines: all lines after the request line.
pub open spec fn header_lines(head: Seq<char>) -> Seq<Seq<char>> {
    head_lines(head).drop_first()
}

/// The body length the head announces: the last `Content-Length` field, or
/// zero when there is none or it is not a number.
pub open spec fn content_length_spec(head: Seq<char>) -> u64 {
    match last_header(header_lines(head), "content-length"@) {
        Some(v) => match parse_u64_spec(v) {
            Some(n) => n,
            None => 0,
        },
        None => 0,
    }
}

/// One `key=value` cookie, white space round it trimmed (an empty value
/// when it has no `=`).
pub open spec fn cookie_pair(p: Seq<char>) -> (Seq<char>, Seq<char>) {
    let t = trim_spec(p);
    (
        before_char(t, '='),
        match after_char(t, '=') {
            Some(v) => v,
            None => seq![],
        },
    )
}

/// The cookies of a `Cookie` field's value, in order.
pub open spec fn cookie_pairs(v: Seq<char>) -> Seq<(Seq<char>, Seq<char>)> {
    split_spec(v, ';').map_values(|p: Seq<char>| cookie_pair(p))
}

/// The cookies the head sends: those of its first `Cookie` field.
pub open spec fn cookies_spec(head: Seq<char>) -> Seq<(Seq<char>, Seq<char>)> {
    match first_header(header_lines(head), "cookie"@) {
        Some(v) => cookie_pairs(v),
        None => seq![],
    }
}

// ---------------------------------------------------------------------------
// Parsing
// ---------------------------------------------------------------------------

fn strip_cr_chars(l: &Vec<char>) -> (r: Vec<char>)
    ensures
        r@ == strip_cr(l@),
{
    let n: usize = if l.len() > 0 && l[l.len() - 1] == '\r' {
        l.len() - 1
    } else {
        l.len()
    };
    let mut out: Vec<char> = Vec::new();
    let mut i: usize = 0;
    while i < n
        invariant
            n <= l@.len(),
            i <= n,
            out@ == l@.take(i as int),
        decreases n - i,
    {
        out.push(l[i]);
        assert(l@.take(i + 1) == l@.take(i as int).push(l@[i as int]));
        i += 1;
    }
    assert(l@.drop_last() == l@.take(l@.len() - 1));
    assert(l@.take(l@.len() as int) == l@);
    out
}

fn header_value_of(line: &Vec<char>, name: &str) -> (r: Option<Vec<char>>)
    ensures
        match r {
            Some(v) => header_value(line@, name@) == Some(v@),
            None => header_value(line@, name@) is None,
        },
{
    let (key, value) = split_once_char(line, ':');
    match value {
        None => None,
        Some(v) => {
            let k = string_from_chars(&trim_chars(&key));
            if str_eq_ignore_ascii_case(k.as_str(), name) {
                Some(trim_chars(&v))
            } else {
                None
            }
        },
    }
}

fn cookie_list(v: &Vec<char>) -> (r: Vec<(String, String)>)
    ensures
        fields_view(r@) == cookie_pairs(v@),
{
    let pieces = split_chars(v, ';');
    let ghost ps = split_spec(v@, ';');
    let mut out: Vec<(String, String)> = Vec::new();
    let mut i: usize = 0;
    while i < pieces.len()
        invariant
            i <= pieces@.len(),
            pieces@.len() == ps.len(),
            forall|k: int| 0 <= k < pieces@.len() ==> (#[trigger] pieces@[k])@ == ps[k],
            fields_view(out@) == cookie_pairs(v@).take(i as int),
            ps == split_spec(v@, ';'),
        decreases pieces.len() - i,
    {
        let t = trim_chars(&pieces[i]);
        let (k, val) = split_once_char(&t, '=');
        let value = match val {
            Some(x) => string_from_chars(&x),
            None => String::new(),
        };
        let pair = (string_from_chars(&k), value);
        let ghost before = out@;
        out.push(pair);
        assert(cookie_pairs(v@)[i as int] == cookie_pair(ps[i as int]));
        assert(fields_view(out@) =~= fields_view(before).push((pair.0@, pair.1@)));
        assert(cookie_pairs(v@).take(i + 1) =~= cookie_pairs(v@).take(i as int).push(
            cookie_pairs(v@)[i as int],
        ));
        i += 1;
    }
    assert(cookie_pairs(v@).take(pieces@.len() as int) =~= cookie_pairs(v@));
    out
}

/// What the loopback listener reads from a request head.
pub struct RequestHead {
    pub method: String,
    pub path: String,
    pub content_length: u64,
    pub cookies: Vec<(String, String)>,
}

/// Reads a request head (the bytes before its blank line, taken as UTF-8
/// with ill-formed sequences replaced): the method and the path of its
/// request line, its `Content-Length` and the cookies of its `Cookie` field.
pub fn parse_request_head(head: &[u8]) -> (r: RequestHead)
    ensures
        r.method@ == method_spec(lossy_utf8(head@)),
        r.path@ == path_spec(lossy_utf8(head@)),
        r.content_length == content_length_spec(lossy_utf8(head@)),
        fields_view(r.cookies@) == cookies_spec(lossy_utf8(head@)),
{
    let text = utf8_lossy(head);
    let ghost c = lossy_utf8(head@);
    let cs = chars_of(text.as_str());
    let raw = split_chars(&cs, '\n');
    proof {
        lemma_split_nonempty(c, '\n');
    }
    let ghost hl = head_lines(c);
    let mut lines: Vec<Vec<char>> = Vec::new();
    let mut i: usize = 0;
    while i < raw.len()
        invariant
            i <= raw@.len(),
            raw@.len() == split_spec(c, '\n').len(),
            forall|k: int| 0 <= k < raw@.len() ==> (#[trigger] raw@[k])@ == split_spec(c, '\n')[k],
            hl == head_lines(c),
            lines@.len() == i,
            forall|k: int| 0 <= k < i ==> (#[trigger] lines@[k])@ == hl[k],
        decreases raw.len() - i,
    {
        let l = strip_cr_chars(&raw[i]);
        lines.push(l);
        i += 1;
    }
    // The request line.
    let words = split_chars(&lines[0], ' ');
    proof {
        lemma_split_nonempty(hl[0], ' ');
    }
    let method = string_from_chars(&words[0]);
    let empty: Vec<char> = Vec::new();
    let target: &Vec<char> = if words.len() > 1 {
        &words[1]
    } else {
        &empty
    };
    assert(target@ == target_spec(c));
    let parts = split_chars(target, '?');
    proof {
        lemma_split_nonempty(target@, '?');
    }
    let path = string_from_chars(&parts[0]);
    // The header fields.
    let ghost hs = header_lines(c);
    let mut length: Option<Vec<char>> = None;
    let mut cookie: Option<Vec<char>> = None;
    let mut cookie_seen = false;
    let mut j: usize = 1;
    assert(hs.take(0) =~= Seq::<Seq<char>>::empty());
    assert(hs.subrange(0, hs.len() as int) =~= hs);
    while j < lines.len()
        invariant
            1 <= j <= lines@.len(),
            lines@.len() == hl.len(),
            hl.len() >= 1,
            hs == hl.drop_first(),
            forall|k: int| 0 <= k < lines@.len() ==> (#[trigger] lines@[k])@ == hl[k],
            match length {
                Some(v) => last_header(hs.take(j - 1), "content-length"@) == Some(v@),
                None => last_header(hs.take(j - 1), "content-length"@) is None,
            },
            cookie_seen ==> (cookie matches Some(v) && first_header(hs, "cookie"@) == Some(v@)),
            !cookie_seen ==> first_header(hs.subrange(j - 1, hs.len() as int), "cookie"@)
                == first_header(hs, "cookie"@),
        decreases lines.len() - j,
    {
        let ghost k: int = j - 1;
        assert(hs[k] == hl[j as int]);
        assert(hs.take(k + 1).drop_last() =~= hs.take(k));
        assert(hs.take(k + 1).last() == hs[k]);
        if let Some(v) = header_value_of(&lines[j], "content-length") {
            length = Some(v);
        }
        if !cookie_seen {
            let ghost rest = hs.subrange(k, hs.len() as int);
            assert(rest[0] == hs[k]);
            assert(rest.drop_first() =~= hs.subrange(k + 1, hs.len() as int));
            if let Some(v) = header_value_of(&lines[j], "cookie") {
                cookie = Some(v);
                cookie_seen = true;
            }
        }
        j += 1;
    }
    assert(hs.take(hs.len() as int) =~= hs);
    let content_length: u64 = match length {
        Some(v) => match parse_u64(string_from_chars(&v).as_str()) {
            Some(n) => n,
            None => 0,
        },
        None => 0,
    };
    let cookies = if cookie_seen {
        match cookie {
            Some(v) => cookie_list(&v),
            None => Vec::new(),
        }
    } else {
        assert(hs.subrange(hs.len() as int, hs.len() as int) =~= Seq::<Seq<char>>::empty());
        Vec::new()
    };
    assert(cookies@.len() == 0 ==> fields_view(cookies@) =~= Seq::<(Seq<char>, Seq<char>)>::empty());
    RequestHead { method, path, content_length, cookies }
}

impl RequestHead {
    /// The value of the first cookie the head sends under `name`.
    pub fn cookie(&self, name: &str) -> (r: Option<String>)
        ensures
            match r {
                Some(v) => first_cookie(fields_view(self.cookies@), name@) == Some(v@),
                None => first_cookie(fields_view(self.cookies@), name@) is None,
            },
    {
        read_cookie(&self.cookies, name)
    }
}

} // verus!
