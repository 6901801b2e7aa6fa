//! HTTP caching for static responses: entity tags, conditional requests and
//! cache directives.
//!
//! A server that emits no validators can never answer `304 Not Modified`, and
//! one that emits no cache directives leaves the browser to guess how long it
//! may keep a document. This module supplies both halves.

use vstd::prelude::*;
use crate::text::{
    chars_eq, chars_of, contains, decimal, eq_ignore_ascii_case, has_infix, has_prefix, hex_lower,
    matches_at, push_char, push_chars, push_decimal, push_hex, split_chars, split_spec,
    str_eq_ignore_ascii_case, to_owned_str, trim_chars, trim_spec,
};

verus! {

// ---------------------------------------------------------------------------
// Entity tags
// ---------------------------------------------------------------------------

/// The entity tag of a file modified at `modified_secs` (seconds since the
/// epoch) holding `len` bytes: both numbers in lower-case hex, joined by `-`
/// and quoted.
pub open spec fn entity_tag_spec(modified_secs: nat, len: nat) -> Seq<char> {
    seq!['"'] + hex_lower(modified_secs) + seq!['-'] + hex_lower(len) + seq!['"']
}

/// Entity tag for a static file, derived from its modification time and size.
///
/// The pair is what the filesystem already knows, and it changes whenever the
/// file does. A file dated before the epoch is given `modified_secs == 0`.
pub fn entity_tag(modified_secs: u64, len: u64) -> (r: String)
    ensures
        r@ == entity_tag_spec(modified_secs as nat, len as nat),
{
    let mut s = String::new();
    push_char(&mut s, '"');
    push_hex(&mut s, modified_secs);
    push_char(&mut s, '-');
    push_hex(&mut s, len);
    push_char(&mut s, '"');
    assert(s@ =~= entity_tag_spec(modified_secs as nat, len as nat));
    s
}

// ---------------------------------------------------------------------------
// Conditional requests
// ---------------------------------------------------------------------------

/// `given` is the weak form `W/<etag>` of the current tag.
pub open spec fn weak_twin(given: Seq<char>, etag: Seq<char>) -> bool {
    has_prefix(given, "W/"@) && given.subrange("W/"@.len() as int, given.len() as int) == etag
}

/// One listed tag answers for the current entity: the wildcard, the tag
/// itself, or its weak twin.
pub open spec fn tag_answers(given: Seq<char>, etag: Seq<char>) -> bool {
    given == "*"@ || given == etag || weak_twin(given, etag)
}

/// Some comma-separated member of an `If-None-Match` value, once trimmed,
/// answers for `etag`.
pub open spec fn lists_current(value: Seq<char>, etag: Seq<char>) -> bool {
    exists|k: int|
        0 <= k < split_spec(value, ',').len() && tag_answers(
            trim_spec(#[trigger] split_spec(value, ',')[k]),
            etag,
        )
}

/// The characters of `v` from position `from` on.
fn tail_from(v: &Vec<char>, from: usize) -> (r: Vec<char>)
    requires
        from <= v.len(),
    ensures
        r@ == v@.subrange(from as int, v@.len() as int),
{
    let mut out: Vec<char> = Vec::new();
    let mut i: usize = from;
    while i < v.len()
        invariant
            from <= i <= v.len(),
            out@ == v@.subrange(from as int, i as int),
        decreases v.len() - i,
    {
        out.push(v[i]);
        assert(v@.subrange(from as int, i + 1) == v@.subrange(from as int, i as int).push(
            v@[i as int],
        ));
        i += 1;
    }
    out
}

fn answers(given: &Vec<char>, etag: &Vec<char>) -> (r: bool)
    ensures
        r == tag_answers(given@, etag@),
{
    let star = chars_of("*");
    if chars_eq(given, &star) || chars_eq(given, etag) {
        return true;
    }
    let weak = chars_of("W/");
    if matches_at(given, &weak, 0) {
        assert(given@.subrange(0, weak@.len() as int) == weak@);
        let rest = tail_from(given, weak.len());
        chars_eq(&rest, etag)
    } else {
        false
    }
}

/// Does the client already hold this exact entity?
///
/// `if_none_match` is the request's `If-None-Match` field, if it has one. A
/// list naming the current tag, or `*`, means the copy in hand is current; a
/// weak tag is accepted against its strong twin.
pub fn is_current(if_none_match: Option<&str>, etag: &str) -> (r: bool)
    ensures
        r == match if_none_match {
            Some(v) => lists_current(v@, etag@),
            None => false,
        },
{
    match if_none_match {
        None => false,
        Some(v) => {
            let vv = chars_of(v);
            let ev = chars_of(etag);
            let parts = split_chars(&vv, ',');
            let mut i: usize = 0;
            while i < parts.len()
                invariant
                    if_none_match == Some(v),
                    i <= parts.len(),
                    parts@.len() == split_spec(v@, ',').len(),
                    forall|k: int|
                        0 <= k < parts@.len() ==> (#[trigger] parts@[k])@ == split_spec(
                            v@,
                            ',',
                        )[k],
                    ev@ == etag@,
                    forall|k: int|
                        0 <= k < i ==> !tag_answers(
                            trim_spec(#[trigger] split_spec(v@, ',')[k]),
                            etag@,
                        ),
                decreases parts.len() - i,
            {
                let given = trim_chars(&parts[i]);
                if answers(&given, &ev) {
                    assert(parts@[i as int]@ == split_spec(v@, ',')[i as int]);
                    assert(tag_answers(trim_spec(split_spec(v@, ',')[i as int]), etag@));
                    return true;
                }
                i += 1;
            }
            false
        },
    }
}

// ---------------------------------------------------------------------------
// Cache directives
// ---------------------------------------------------------------------------

/// A character that delimits the segments of a file name.
pub open spec fn is_segment_sep(c: char) -> bool {
    c == '.' || c == '-' || c == '_'
}

/// An ASCII hexadecimal digit.
pub open spec fn is_hex_digit(c: char) -> bool {
    ('0' <= c && c <= '9') || ('a' <= c && c <= 'f') || ('A' <= c && c <= 'F')
}

/// An ASCII numeral.
pub open spec fn is_ascii_digit(c: char) -> bool {
    '0' <= c && c <= '9'
}

/// An ASCII letter.
pub open spec fn is_ascii_alpha(c: char) -> bool {
    ('a' <= c && c <= 'z') || ('A' <= c && c <= 'Z')
}

pub open spec fn all_hex(s: Seq<char>, i: int, j: int) -> bool {
    forall|k: int| i <= k < j ==> is_hex_digit(#[trigger] s[k])
}

pub open spec fn some_digit(s: Seq<char>, i: int, j: int) -> bool {
    exists|k: int| i <= k < j && is_ascii_digit(#[trigger] s[k])
}

pub open spec fn some_alpha(s: Seq<char>, i: int, j: int) -> bool {
    exists|k: int| i <= k < j && is_ascii_alpha(#[trigger] s[k])
}

/// `s[i..j]` is a whole segment of the name -- bounded by the ends or by
/// `.`, `-` or `_` -- at least eight characters long, all hex digits, with at
/// least one numeral and at least one letter.
pub open spec fn hash_segment(s: Seq<char>, i: int, j: int) -> bool {
    &&& 0 <= i
    &&& i + 8 <= j
    &&& j <= s.len()
    &&& (i == 0 || is_segment_sep(s[i - 1]))
    &&& (j == s.len() || is_segment_sep(s[j]))
    &&& all_hex(s, i, j)
    &&& some_digit(s, i, j)
    &&& some_alpha(s, i, j)
}

/// The file name carries a content hash.
pub open spec fn carries_hash(name: Seq<char>) -> bool {
    exists|i: int, j: int| hash_segment(name, i, j)
}

/// The directive for a static response, by the three cases in order.
pub open spec fn directive_spec(
    content_type: Seq<char>,
    file_name: Seq<char>,
    max_age_secs: nat,
    fingerprint_secs: nat,
) -> Seq<char> {
    if has_infix(content_type, "text/html"@) {
        "no-cache"@
    } else if fingerprint_secs > 0 && carries_hash(file_name) {
        "public, max-age="@ + decimal(fingerprint_secs) + ", immutable"@
    } else if max_age_secs == 0 {
        "no-cache"@
    } else {
        "public, max-age="@ + decimal(max_age_secs)
    }
}

/// Is this an entry document, rather than an asset it refers to?
pub fn is_document(content_type: &str) -> (r: bool)
    ensures
        r == has_infix(content_type@, "text/html"@),
{
    contains(content_type, "text/html")
}

fn segment_sep(c: char) -> (r: bool)
    ensures
        r == is_segment_sep(c),
{
    c == '.' || c == '-' || c == '_'
}

fn hex_digit(c: char) -> (r: bool)
    ensures
        r == is_hex_digit(c),
{
    ('0' <= c && c <= '9') || ('a' <= c && c <= 'f') || ('A' <= c && c <= 'F')
}

fn ascii_digit(c: char) -> (r: bool)
    ensures
        r == is_ascii_digit(c),
{
    '0' <= c && c <= '9'
}

fn ascii_alpha(c: char) -> (r: bool)
    ensures
        r == is_ascii_alpha(c),
{
    ('a' <= c && c <= 'z') || ('A' <= c && c <= 'Z')
}

/// Extending a run by one character extends each of its three tallies.
proof fn lemma_extend_run(s: Seq<char>, start: int, i: int)
    requires
        0 <= start <= i < s.len(),
    ensures
        all_hex(s, start, i + 1) == (all_hex(s, start, i) && is_hex_digit(s[i])),
        some_digit(s, start, i + 1) == (some_digit(s, start, i) || is_ascii_digit(s[i])),
        some_alpha(s, start, i + 1) == (some_alpha(s, start, i) || is_ascii_alpha(s[i])),
{
    if all_hex(s, start, i + 1) {
        assert(is_hex_digit(s[i]));
    }
    if some_digit(s, start, i + 1) {
        let k = choose|k: int| start <= k < i + 1 && is_ascii_digit(#[trigger] s[k]);
        if k < i {
            assert(some_digit(s, start, i));
        }
    }
    if some_digit(s, start, i) {
        let k = choose|k: int| start <= k < i && is_ascii_digit(#[trigger] s[k]);
        assert(start <= k < i + 1 && is_ascii_digit(s[k]));
    }
    if is_ascii_digit(s[i]) {
        assert(start <= i < i + 1 && is_ascii_digit(s[i]));
    }
    if some_alpha(s, start, i + 1) {
        let k = choose|k: int| start <= k < i + 1 && is_ascii_alpha(#[trigger] s[k]);
        if k < i {
            assert(some_alpha(s, start, i));
        }
    }
    if some_alpha(s, start, i) {
        let k = choose|k: int| start <= k < i && is_ascii_alpha(#[trigger] s[k]);
        assert(start <= k < i + 1 && is_ascii_alpha(s[k]));
    }
    if is_ascii_alpha(s[i]) {
        assert(start <= i < i + 1 && is_ascii_alpha(s[i]));
    }
}

/// A hash segment that ends within the current run is the run itself.
proof fn lemma_only_the_run(s: Seq<char>, start: int, i: int, a: int, b: int)
    requires
        0 <= start <= i <= s.len(),
        start == 0 || is_segment_sep(s[start - 1]),
        forall|k: int| start <= k < i ==> !is_segment_sep(#[trigger] s[k]),
        start <= b <= i,
        hash_segment(s, a, b),
    ensures
        a == start,
        b == i,
{
    if b < i {
        assert(!is_segment_sep(s[b]));
    }
    if a < start {
        assert(is_hex_digit(s[start - 1]));
    }
    if a > start {
        assert(!is_segment_sep(s[a - 1]));
    }
}

/// Does this file name carry a content hash?
///
/// The test is deliberately narrow, since a false positive means a browser
/// holding a stale file for a year: a segment of at least eight hex digits,
/// with at least one numeral and one letter, standing on its own between the
/// ends of the name and `.`, `-` or `_`.
pub fn is_fingerprinted(file_name: &str) -> (r: bool)
    ensures
        r == carries_hash(file_name@),
{
    let s = chars_of(file_name);
    let n = s.len();
    let mut start: usize = 0;
    let mut hex = true;
    let mut digit = false;
    let mut alpha = false;
    let mut i: usize = 0;
    while i < n
        invariant
            n == s@.len(),
            s@ == file_name@,
            start <= i <= n,
            start == 0 || is_segment_sep(s@[start - 1]),
            forall|k: int| start <= k < i ==> !is_segment_sep(#[trigger] s@[k]),
            hex == all_hex(s@, start as int, i as int),
            digit == some_digit(s@, start as int, i as int),
            alpha == some_alpha(s@, start as int, i as int),
            forall|a: int, b: int| b < start ==> !hash_segment(s@, a, b),
        decreases n - i,
    {
        let c = s[i];
        if segment_sep(c) {
            if i - start >= 8 && hex && digit && alpha {
                assert(hash_segment(s@, start as int, i as int));
                return true;
            }
            assert forall|a: int, b: int| b < i + 1 implies !hash_segment(s@, a, b) by {
                if b >= start && hash_segment(s@, a, b) {
                    lemma_only_the_run(s@, start as int, i as int, a, b);
                }
            }
            start = i + 1;
            hex = true;
            digit = false;
            alpha = false;
        } else {
            proof {
                lemma_extend_run(s@, start as int, i as int);
            }
            hex = hex && hex_digit(c);
            digit = digit || ascii_digit(c);
            alpha = alpha || ascii_alpha(c);
        }
        i += 1;
    }
    if n - start >= 8 && hex && digit && alpha {
        assert(hash_segment(s@, start as int, n as int));
        return true;
    }
    assert forall|a: int, b: int| !hash_segment(s@, a, b) by {
        if b >= start && hash_segment(s@, a, b) {
            lemma_only_the_run(s@, start as int, n as int, a, b);
        }
    }
    false
}

/// Cache directive for a static response.
///
/// An entry document is always revalidated, whatever its name says. An asset
/// whose name carries a content hash may be held for `fingerprint_secs` and
/// marked `immutable`, when that is above zero. Every other asset may be held
/// for `max_age_secs`; at zero it is revalidated every time.
pub fn cache_control(
    content_type: &str,
    file_name: &str,
    max_age_secs: u32,
    fingerprint_secs: u32,
) -> (r: String)
    ensures
        r@ == directive_spec(
            content_type@,
            file_name@,
            max_age_secs as nat,
            fingerprint_secs as nat,
        ),
{
    if is_document(content_type) {
        return to_owned_str("no-cache");
    }
    if fingerprint_secs > 0 && is_fingerprinted(file_name) {
        let mut s = to_owned_str("public, max-age=");
        push_decimal(&mut s, fingerprint_secs as u64);
        let tail = chars_of(", immutable");
        push_chars(&mut s, &tail);
        return s;
    }
    if max_age_secs == 0 {
        to_owned_str("no-cache")
    } else {
        let mut s = to_owned_str("public, max-age=");
        push_decimal(&mut s, max_age_secs as u64);
        s
    }
}

// ---------------------------------------------------------------------------
// Responses the server writes itself
// ---------------------------------------------------------------------------

/// Header field name of the cache directive.
pub const CACHE_CONTROL: &'static str = "Cache-Control";
/// Header field name of the entity tag.
pub const ETAG: &'static str = "ETag";
/// Header field name listing what a response varies by.
pub const VARY: &'static str = "Vary";
/// The request field a content coding is chosen by.
pub const ACCEPT_ENCODING: &'static str = "Accept-Encoding";
/// The directive that lets a store keep a response but never use it unasked.
pub const NO_CACHE: &'static str = "no-cache";
/// Status of a response that sends no body because the client's copy is current.
pub const NOT_MODIFIED: u16 = 304;

/// A response the server writes: status, header fields in the order
/// written, and body.
pub struct Response {
    pub status: u16,
    pub fields: Vec<(String, String)>,
    pub body: Vec<u8>,
}

/// The mathematical value of a response.
pub struct ResponseView {
    pub status: u16,
    pub fields: Seq<(Seq<char>, Seq<char>)>,
    pub body: Seq<u8>,
}

/// The character sequences of a list of header fields.
pub open spec fn fields_view(v: Seq<(String, String)>) -> Seq<(Seq<char>, Seq<char>)> {
    Seq::new(v.len(), |i: int| (v[i].0@, v[i].1@))
}

impl View for Response {
    type V = ResponseView;

    open spec fn view(&self) -> ResponseView {
        ResponseView { status: self.status, fields: fields_view(self.fields@), body: self.body@ }
    }
}

/// A field is named `name`, compared without regard to ASCII case.
pub open spec fn is_named(field: (Seq<char>, Seq<char>), name: Seq<char>) -> bool {
    eq_ignore_ascii_case(field.0, name)
}

/// The values of every field named `name`, in order.
pub open spec fn values_named(fields: Seq<(Seq<char>, Seq<char>)>, name: Seq<char>) -> Seq<
    Seq<char>,
>
    decreases fields.len(),
{
    if fields.len() == 0 {
        seq![]
    } else {
        let prev = values_named(fields.drop_last(), name);
        if is_named(fields.last(), name) {
            prev.push(fields.last().1)
        } else {
            prev
        }
    }
}

/// Some field is named `name`.
pub open spec fn has_field(fields: Seq<(Seq<char>, Seq<char>)>, name: Seq<char>) -> bool {
    exists|i: int| 0 <= i < fields.len() && is_named(#[trigger] fields[i], name)
}

/// A response stamped so no store may serve it unasked: unchanged when it
/// already carries a directive, else with `Cache-Control: no-cache` added.
pub open spec fn generated_spec(resp: ResponseView) -> ResponseView {
    if has_field(resp.fields, CACHE_CONTROL@) {
        resp
    } else {
        ResponseView {
            status: resp.status,
            fields: resp.fields.push((CACHE_CONTROL@, NO_CACHE@)),
            body: resp.body,
        }
    }
}

/// A `304 Not Modified` head: the tag, the directive and, for a
/// representation offered in more than one coding, what it varies by.
pub open spec fn not_modified_spec(
    etag: Seq<char>,
    directive: Seq<char>,
    varies_by_encoding: bool,
) -> ResponseView {
    let base = seq![(ETAG@, etag), (CACHE_CONTROL@, directive)];
    ResponseView {
        status: NOT_MODIFIED,
        fields: if varies_by_encoding {
            base.push((VARY@, ACCEPT_ENCODING@))
        } else {
            base
        },
        body: seq![],
    }
}

proof fn lemma_values_named_empty_without_field(
    fields: Seq<(Seq<char>, Seq<char>)>,
    name: Seq<char>,
)
    ensures
        !has_field(fields, name) ==> values_named(fields, name).len() == 0,
        has_field(fields, name) ==> values_named(fields, name).len() > 0,
    decreases fields.len(),
{
    if fields.len() > 0 {
        let prev = fields.drop_last();
        lemma_values_named_empty_without_field(prev, name);
        if has_field(prev, name) {
            let i = choose|i: int| 0 <= i < prev.len() && is_named(#[trigger] prev[i], name);
            assert(fields[i] == prev[i]);
        }
        if has_field(fields, name) && !is_named(fields.last(), name) {
            let i = choose|i: int| 0 <= i < fields.len() && is_named(#[trigger] fields[i], name);
            assert(i < prev.len());
            assert(prev[i] == fields[i]);
        }
        if is_named(fields.last(), name) {
            assert(is_named(fields[fields.len() - 1], name));
        }
    }
}

impl Response {
    /// A response with the given status, no fields and no body.
    pub fn new(status: u16) -> (r: Response)
        ensures
            r@.status == status,
            r@.fields == Seq::<(Seq<char>, Seq<char>)>::empty(),
            r@.body == Seq::<u8>::empty(),
    {
        let r = Response { status, fields: Vec::new(), body: Vec::new() };
        assert(r@.fields =~= Seq::<(Seq<char>, Seq<char>)>::empty());
        r
    }

    /// This response with its body replaced.
    pub fn with_body(self, body: Vec<u8>) -> (r: Response)
        ensures
            r@.status == self@.status,
            r@.fields == self@.fields,
            r@.body == body@,
    {
        let mut r = self;
        r.body = body;
        r
    }

    /// This response with one more field after the others.
    pub fn with_field(self, name: String, value: String) -> (r: Response)
        ensures
            r@.status == self@.status,
            r@.fields == self@.fields.push((name@, value@)),
            r@.body == self@.body,
    {
        let mut r = self;
        let ghost before = r.fields@;
        r.fields.push((name, value));
        assert(fields_view(r.fields@) =~= fields_view(before).push((name@, value@)));
        r
    }

    /// Whether some field is named `name`, ignoring ASCII case.
    pub fn has(&self, name: &str) -> (r: bool)
        ensures
            r == has_field(self@.fields, name@),
    {
        let ghost fv = self@.fields;
        let mut i: usize = 0;
        while i < self.fields.len()
            invariant
                i <= self.fields.len(),
                fv == fields_view(self.fields@),
                forall|k: int| 0 <= k < i ==> !is_named(#[trigger] fv[k], name@),
            decreases self.fields.len() - i,
        {
            if str_eq_ignore_ascii_case(self.fields[i].0.as_str(), name) {
                assert(is_named(fv[i as int], name@));
                return true;
            }
            i += 1;
        }
        false
    }

    /// The values of every field named `name`, in order.
    pub fn field_values(&self, name: &str) -> (r: Vec<String>)
        ensures
            crate::principal::strings_view(r@) == values_named(self@.fields, name@),
    {
        let ghost fv = self@.fields;
        let mut out: Vec<String> = Vec::new();
        let mut i: usize = 0;
        while i < self.fields.len()
            invariant
                i <= self.fields.len(),
                fv == fields_view(self.fields@),
                crate::principal::strings_view(out@) == values_named(fv.take(i as int), name@),
            decreases self.fields.len() - i,
        {
            assert(fv.take(i + 1).drop_last() == fv.take(i as int));
            assert(fv.take(i + 1).last() == fv[i as int]);
            if str_eq_ignore_ascii_case(self.fields[i].0.as_str(), name) {
                let ghost before = out@;
                out.push(self.fields[i].1.clone());
                assert(crate::principal::strings_view(out@) =~= crate::principal::strings_view(
                    before,
                ).push(fv[i as int].1));
            }
            i += 1;
        }
        assert(fv.take(self.fields.len() as int) == fv);
        out
    }

    /// The value of the first field named `name`, if any.
    pub fn field(&self, name: &str) -> (r: Option<String>)
        ensures
            match r {
                Some(v) => values_named(self@.fields, name@).len() > 0 && v@ == values_named(
                    self@.fields,
                    name@,
                )[0],
                None => values_named(self@.fields, name@).len() == 0,
            },
    {
        let all = self.field_values(name);
        if all.len() == 0 {
            None
        } else {
            assert(all@[0]@ == crate::principal::strings_view(all@)[0]);
            Some(all[0].clone())
        }
    }
}

/// Stamp a response the server generated, so no store may serve it unasked.
///
/// A response that already says how long it may be held keeps what it said:
/// `Cache-Control` is a list field, so appending a second directive would
/// leave both in force rather than replacing the first.
pub fn generated(resp: Response) -> (r: Response)
    ensures
        r@ == generated_spec(resp@),
{
    if resp.has(CACHE_CONTROL) {
        return resp;
    }
    resp.with_field(to_owned_str(CACHE_CONTROL), to_owned_str(NO_CACHE))
}

/// A `304 Not Modified`: the validators and directives, and no body.
///
/// `varies_by_encoding` says whether the representation is one the server
/// would have offered a content coding for; a cache updates its stored
/// response from the fields of the `304`, so the `Vary` must be repeated here.
pub fn not_modified(etag: String, directive: String, varies_by_encoding: bool) -> (r: Response)
    ensures
        r@ == not_modified_spec(etag@, directive@, varies_by_encoding),
{
    let msg = Response::new(NOT_MODIFIED).with_field(to_owned_str(ETAG), etag).with_field(
        to_owned_str(CACHE_CONTROL),
        directive,
    );
    let r = if varies_by_encoding {
        msg.with_field(to_owned_str(VARY), to_owned_str(ACCEPT_ENCODING))
    } else {
        msg
    };
    assert(r@.fields =~= not_modified_spec(etag@, directive@, varies_by_encoding).fields);
    r
}

/// Every generated response carries a cache directive, and stamping it again
/// changes nothing: the directive is never repeated.
pub proof fn lemma_generated_is_idempotent(resp: ResponseView)
    ensures
        has_field(generated_spec(resp).fields, CACHE_CONTROL@),
        generated_spec(generated_spec(resp)) == generated_spec(resp),
{
    if !has_field(resp.fields, CACHE_CONTROL@) {
        let f = generated_spec(resp).fields;
        assert(is_named(f[f.len() - 1], CACHE_CONTROL@));
    }
}

/// A response that said nothing of caching ends with exactly one directive,
/// `no-cache`; one that did keeps its own directives untouched.
pub proof fn lemma_generated_directives(resp: ResponseView)
    ensures
        !has_field(resp.fields, CACHE_CONTROL@) ==> values_named(
            generated_spec(resp).fields,
            CACHE_CONTROL@,
        ) == seq![NO_CACHE@],
        has_field(resp.fields, CACHE_CONTROL@) ==> values_named(
            generated_spec(resp).fields,
            CACHE_CONTROL@,
        ) == values_named(resp.fields, CACHE_CONTROL@),
{
    lemma_values_named_empty_without_field(resp.fields, CACHE_CONTROL@);
    if !has_field(resp.fields, CACHE_CONTROL@) {
        let f = generated_spec(resp).fields;
        assert(f.drop_last() == resp.fields);
        assert(is_named(f.last(), CACHE_CONTROL@));
    }
}

/// A `304` always repeats the directive it was given, once, and says it
/// varies by encoding exactly when asked to.
pub proof fn lemma_not_modified_fields(etag: Seq<char>, directive: Seq<char>, varies: bool)
    ensures
        values_named(not_modified_spec(etag, directive, varies).fields, CACHE_CONTROL@) == seq![
            directive,
        ],
        has_field(not_modified_spec(etag, directive, varies).fields, VARY@) == varies,
{
    reveal_strlit("Cache-Control");
    reveal_strlit("ETag");
    reveal_strlit("Vary");
    reveal_strlit("Accept-Encoding");
    reveal_with_fuel(values_named, 4);
    let f = not_modified_spec(etag, directive, varies).fields;
    let base = seq![(ETAG@, etag), (CACHE_CONTROL@, directive)];
    let vary = (VARY@, ACCEPT_ENCODING@);
    assert(crate::text::ascii_lower_seq(ETAG@).len() != crate::text::ascii_lower_seq(
        CACHE_CONTROL@,
    ).len());
    assert(crate::text::ascii_lower_seq(VARY@).len() != crate::text::ascii_lower_seq(
        CACHE_CONTROL@,
    ).len());
    assert(!is_named(base[0], CACHE_CONTROL@));
    assert(is_named(base[1], CACHE_CONTROL@));
    assert(!is_named(base[1], VARY@)) by {
        assert(crate::text::ascii_lower_seq(CACHE_CONTROL@).len()
            != crate::text::ascii_lower_seq(VARY@).len());
    }
    assert(!is_named(base[0], VARY@)) by {
        assert(crate::text::ascii_lower_seq(ETAG@)[0] != crate::text::ascii_lower_seq(VARY@)[0]);
    }
    assert(base.drop_last() =~= seq![(ETAG@, etag)]);
    assert(seq![(ETAG@, etag)].drop_last() =~= Seq::<(Seq<char>, Seq<char>)>::empty());
    if varies {
        assert(f.drop_last() == base);
        assert(!is_named(vary, CACHE_CONTROL@));
        assert(is_named(f[2], VARY@));
    } else {
        assert(f == base);
        assert forall|i: int| 0 <= i < f.len() implies !is_named(#[trigger] f[i], VARY@) by {
            if i == 0 {
            } else {
                assert(f[i] == base[1]);
            }
        }
    }
}

} // verus!
