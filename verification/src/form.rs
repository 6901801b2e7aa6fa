//! What a dashboard request carries besides its path: fields of an
//! `application/x-www-form-urlencoded` body, and cookies by name.

use vstd::prelude::*;
use vstd::utf8::*;
use crate::cache::fields_view;
use crate::text::{split_chars, split_spec, str_eq, string_from_chars, utf8_str, chars_of};

verus! {

broadcast use {encode_utf8_valid_utf8, encode_utf8_decode_utf8};

// ---------------------------------------------------------------------------
// Percent-decoding
// ---------------------------------------------------------------------------

/// The value of one hex digit byte, upper or lower case.
pub open spec fn nibble(b: u8) -> Option<u8> {
    if 48 <= b && b <= 57 {
        Some((b - 48) as u8)
    } else if 97 <= b && b <= 102 {
        Some((b - 87) as u8)
    } else if 65 <= b && b <= 70 {
        Some((b - 55) as u8)
    } else {
        None
    }
}

/// The value of a hex digit byte, if it is one.
pub fn hex_nibble(b: u8) -> (r: Option<u8>)
    ensures
        r == nibble(b),
{
    if 48 <= b && b <= 57 {
        Some(b - 48)
    } else if 97 <= b && b <= 102 {
        Some(b - 87)
    } else if 65 <= b && b <= 70 {
        Some(b - 55)
    } else {
        None
    }
}

/// Form decoding of bytes, front to back: `+` is a space, `%` followed by two
/// hex digits is the byte they spell, and anything else -- a `%` without two
/// hex digits after it included -- stands for itself.
pub open spec fn url_decode_spec(b: Seq<u8>) -> Seq<u8>
    decreases b.len(),
{
    if b.len() == 0 {
        seq![]
    } else if b[0] == 43 {
        seq![32u8] + url_decode_spec(b.drop_first())
    } else if b[0] == 37 && b.len() > 2 && nibble(b[1]) is Some && nibble(b[2]) is Some {
        seq![(nibble(b[1])->0 * 16 + nibble(b[2])->0) as u8] + url_decode_spec(
            b.subrange(3, b.len() as int),
        )
    } else {
        seq![b[0]] + url_decode_spec(b.drop_first())
    }
}

/// Form-decodes a byte string.
pub fn url_decode_bytes(b: &[u8]) -> (r: Vec<u8>)
    ensures
        r@ == url_decode_spec(b@),
{
    let mut out: Vec<u8> = Vec::new();
    let mut i: usize = 0;
    assert(b@.subrange(0, b@.len() as int) == b@);
    while i < b.len()
        invariant
            i <= b.len(),
            out@ + url_decode_spec(b@.subrange(i as int, b@.len() as int)) == url_decode_spec(b@),
        decreases b.len() - i,
    {
        let ghost rest = b@.subrange(i as int, b@.len() as int);
        let ghost before = out@;
        let c = b[i];
        let mut step: usize = 1;
        if c == 43 {
            out.push(32);
        } else if c == 37 && b.len() - i > 2 {
            match (hex_nibble(b[i + 1]), hex_nibble(b[i + 2])) {
                (Some(h), Some(l)) => {
                    out.push(h * 16 + l);
                    step = 3;
                },
                _ => {
                    out.push(c);
                },
            }
        } else {
            out.push(c);
        }
        proof {
            assert(rest[0] == c);
            if step == 3 {
                assert(rest[1] == b@[i + 1]);
                assert(rest[2] == b@[i + 2]);
                assert(rest.subrange(3, rest.len() as int) == b@.subrange(i + 3, b@.len() as int));
            } else {
                assert(rest.drop_first() == b@.subrange(i + 1, b@.len() as int));
                if c == 37 && rest.len() > 2 {
                    assert(rest[1] == b@[i + 1]);
                    assert(rest[2] == b@[i + 2]);
                }
            }
            let x = out@.last();
            assert(out@ == before.push(x));
            assert(before + url_decode_spec(rest) == before + (seq![x] + url_decode_spec(
                b@.subrange(i + step, b@.len() as int),
            )));
            assert(before + (seq![x] + url_decode_spec(b@.subrange(i + step, b@.len() as int)))
                == out@ + url_decode_spec(b@.subrange(i + step, b@.len() as int)));
        }
        i = i + step;
    }
    assert(url_decode_spec(b@.subrange(i as int, b@.len() as int)) == Seq::<u8>::empty());
    assert(out@ + Seq::<u8>::empty() == out@);
    out
}

/// What `String::from_utf8_lossy` makes of a byte string: its characters,
/// with each ill-formed sequence replaced by U+FFFD.
pub uninterp spec fn lossy_utf8(b: Seq<u8>) -> Seq<char>;

/// Trusted: calls `String::from_utf8_lossy`, whose result depends on the
/// bytes alone and which std documents as the bytes' own characters when they
/// are valid UTF-8. How an ill-formed sequence is replaced is not stated.
#[verifier::external_body]
pub(crate) fn utf8_lossy(b: &[u8]) -> (r: String)
    ensures
        r@ == lossy_utf8(b@),
        valid_utf8(b@) ==> r@ == decode_utf8(b@),
{
    String::from_utf8_lossy(b).into_owned()
}

/// The form-decoded text of `c`, taken as UTF-8 bytes.
pub open spec fn form_decode(c: Seq<char>) -> Seq<char> {
    lossy_utf8(url_decode_spec(encode_utf8(c)))
}

/// Decodes an `x-www-form-urlencoded` value: `+` becomes a space and `%XX`
/// the byte it spells; invalid escapes pass through unchanged.
pub fn url_decode(s: &str) -> (r: String)
    ensures
        r@ == form_decode(s@),
        valid_utf8(url_decode_spec(encode_utf8(s@))) ==> r@ == decode_utf8(
            url_decode_spec(encode_utf8(s@)),
        ),
{
    let decoded = url_decode_bytes(s.as_bytes());
    utf8_lossy(decoded.as_slice())
}

// ---------------------------------------------------------------------------
// Form fields
// ---------------------------------------------------------------------------

/// What comes before the first `=` of a `key=value` pair (all of it, when
/// there is no `=`).
pub open spec fn key_of(p: Seq<char>) -> Seq<char>
    decreases p.len(),
{
    if p.len() == 0 {
        p
    } else if p[0] == '=' {
        seq![]
    } else {
        seq![p[0]] + key_of(p.drop_first())
    }
}

/// What comes after the first `=` of a `key=value` pair (nothing, when
/// there is no `=`).
pub open spec fn value_of(p: Seq<char>) -> Seq<char>
    decreases p.len(),
{
    if p.len() == 0 {
        seq![]
    } else if p[0] == '=' {
        p.drop_first()
    } else {
        value_of(p.drop_first())
    }
}

/// The decoded value of the first pair whose decoded key is `key`.
pub open spec fn lookup_pairs(pairs: Seq<Seq<char>>, key: Seq<char>) -> Option<Seq<char>>
    decreases pairs.len(),
{
    if pairs.len() == 0 {
        None
    } else if form_decode(key_of(pairs[0])) == key {
        Some(form_decode(value_of(pairs[0])))
    } else {
        lookup_pairs(pairs.drop_first(), key)
    }
}

/// The field `key` of a form body: none when the body is not UTF-8.
pub open spec fn form_field_spec(body: Seq<u8>, key: Seq<char>) -> Option<Seq<char>> {
    if valid_utf8(body) {
        lookup_pairs(split_spec(decode_utf8(body), '&'), key)
    } else {
        None
    }
}

proof fn lemma_key_value(p: Seq<char>, i: int)
    requires
        0 <= i <= p.len(),
        forall|k: int| 0 <= k < i ==> p[k] != '=',
        i == p.len() || p[i] == '=',
    ensures
        key_of(p) == p.take(i),
        value_of(p) == if i < p.len() {
            p.subrange(i + 1, p.len() as int)
        } else {
            Seq::<char>::empty()
        },
    decreases i,
{
    if i > 0 {
        let t = p.drop_first();
        assert forall|k: int| 0 <= k < i - 1 implies t[k] != '=' by {
            assert(t[k] == p[k + 1]);
        }
        if i < p.len() {
            assert(t[i - 1] == p[i]);
        }
        lemma_key_value(t, i - 1);
        assert(p.take(i) == seq![p[0]] + t.take(i - 1));
        if i < p.len() {
            assert(t.subrange(i, t.len() as int) == p.subrange(i + 1, p.len() as int));
        }
    } else {
        assert(p.take(0) == Seq::<char>::empty());
        if p.len() > 0 {
            assert(p.drop_first() == p.subrange(1, p.len() as int));
        }
    }
}

/// The key and the value of one `key=value` pair.
pub(crate) fn split_pair(p: &Vec<char>) -> (r: (Vec<char>, Vec<char>))
    ensures
        r.0@ == key_of(p@),
        r.1@ == value_of(p@),
{
    let mut key: Vec<char> = Vec::new();
    let mut i: usize = 0;
    while i < p.len() && p[i] != '='
        invariant
            i <= p.len(),
            key@ == p@.take(i as int),
            forall|k: int| 0 <= k < i ==> p@[k] != '=',
        decreases p.len() - i,
    {
        key.push(p[i]);
        assert(p@.take(i + 1) == p@.take(i as int).push(p@[i as int]));
        i += 1;
    }
    let mut value: Vec<char> = Vec::new();
    if i < p.len() {
        let mut j: usize = i + 1;
        while j < p.len()
            invariant
                i + 1 <= j <= p.len(),
                value@ == p@.subrange(i + 1, j as int),
            decreases p.len() - j,
        {
            value.push(p[j]);
            assert(p@.subrange(i + 1, j + 1) == p@.subrange(i + 1, j as int).push(p@[j as int]));
            j += 1;
        }
    } else {
        assert(value@ == Seq::<char>::empty());
    }
    proof {
        lemma_key_value(p@, i as int);
    }
    (key, value)
}

/// Extracts one field from an `application/x-www-form-urlencoded` body: the
/// decoded value of the first pair whose decoded key is `key`, or `None` when
/// no pair has it or the body is not UTF-8.
pub fn extract_form_field(body: &[u8], key: &str) -> (r: Option<String>)
    ensures
        match r {
            Some(v) => form_field_spec(body@, key@) == Some(v@),
            None => form_field_spec(body@, key@) is None,
        },
{
    let s = match utf8_str(body) {
        Some(s) => s,
        None => return None,
    };
    let cs = chars_of(s);
    let pairs = split_chars(&cs, '&');
    let ghost ps = split_spec(s@, '&');
    assert(ps.subrange(0, ps.len() as int) == ps);
    let mut i: usize = 0;
    while i < pairs.len()
        invariant
            i <= pairs.len(),
            valid_utf8(body@),
            ps == split_spec(decode_utf8(body@), '&'),
            pairs@.len() == ps.len(),
            forall|k: int| 0 <= k < pairs@.len() ==> (#[trigger] pairs@[k])@ == ps[k],
            lookup_pairs(ps.subrange(i as int, ps.len() as int), key@) == lookup_pairs(ps, key@),
        decreases pairs.len() - i,
    {
        let ghost rest = ps.subrange(i as int, ps.len() as int);
        let (k, v) = split_pair(&pairs[i]);
        let ks = string_from_chars(&k);
        let kd = url_decode(ks.as_str());
        assert(rest[0] == ps[i as int]);
        if str_eq(kd.as_str(), key) {
            let vs = string_from_chars(&v);
            return Some(url_decode(vs.as_str()));
        }
        assert(rest.drop_first() == ps.subrange(i + 1, ps.len() as int));
        i += 1;
    }
    None
}

// ---------------------------------------------------------------------------
// Cookies
// ---------------------------------------------------------------------------

/// The value of the first cookie whose key is `name`.
pub open spec fn first_cookie(cookies: Seq<(Seq<char>, Seq<char>)>, name: Seq<char>) -> Option<
    Seq<char>,
>
    decreases cookies.len(),
{
    if cookies.len() == 0 {
        None
    } else if cookies[0].0 == name {
        Some(cookies[0].1)
    } else {
        first_cookie(cookies.drop_first(), name)
    }
}

/// The value of the first cookie whose key is exactly `name`, from the
/// `(key, value)` pairs of a request's `Cookie` field.
pub fn read_cookie(cookies: &Vec<(String, String)>, name: &str) -> (r: Option<String>)
    ensures
        match r {
            Some(v) => first_cookie(fields_view(cookies@), name@) == Some(v@),
            None => first_cookie(fields_view(cookies@), name@) is None,
        },
{
    let ghost cv = fields_view(cookies@);
    assert(cv.subrange(0, cv.len() as int) == cv);
    let mut i: usize = 0;
    while i < cookies.len()
        invariant
            i <= cookies.len(),
            cv == fields_view(cookies@),
            first_cookie(cv.subrange(i as int, cv.len() as int), name@) == first_cookie(cv, name@),
        decreases cookies.len() - i,
    {
        let ghost rest = cv.subrange(i as int, cv.len() as int);
        assert(rest[0] == cv[i as int]);
        if str_eq(cookies[i].0.as_str(), name) {
            return Some(cookies[i].1.clone());
        }
        assert(rest.drop_first() == cv.subrange(i + 1, cv.len() as int));
        i += 1;
    }
    None
}

} // verus!
