//! The session cookie of the admin dashboard: the plaintext record that
//! carries a principal, and the versioned cookie string around it.
//!
//! The plaintext record is
//!
//! ```text
//! u16 name_len BE
//! [name_len] bytes   -- admin name UTF-8
//! u8  num_scopes
//! for each scope:
//!     u16 len BE
//!     [len] bytes    -- scope string UTF-8
//! u64 exp BE         -- unix seconds at which the session expires
//! ```
//!
//! and the cookie string is `v1.<blob>`, where the blob is the record sealed
//! under the session key (AES-256-GCM) and written as text (HEMATITE64).
//! The cipher and the text form are the caller's, handed in as a sealing
//! and an opening function; this module frames, seals and opens through
//! them, and checks.

use vstd::prelude::*;
use vstd::utf8::*;
use crate::principal::{AdminPrincipal, PrincipalView, strings_view, clone_strings};
use crate::text::{chars_of, string_from_chars, concat2, utf8_str};

verus! {

broadcast use {encode_utf8_valid_utf8, encode_utf8_decode_utf8};

/// Name of the cookie that carries a signed dashboard session.
pub const SESSION_COOKIE_NAME: &'static str = "steel_admin_sess";

/// Default, sliding, session lifetime.
pub const DEFAULT_SESSION_TTL_SECS: u64 = 1800;

/// Wire-format version prefix.
pub const SESSION_FORMAT_VERSION: &'static str = "v1";

/// Maximum number of scopes a single session may carry.
pub const MAX_SESSION_SCOPES: u8 = 32;

/// Maximum length of a single scope string in the cookie, in bytes.
pub const MAX_SCOPE_LEN: usize = 64;

/// Maximum length of the admin name in the cookie, in bytes.
pub const MAX_NAME_LEN: usize = 64;

/// Why a principal could not be written to, or read from, a session.
#[derive(Debug, PartialEq, Eq, Structural)]
pub enum SessionError {
    /// The admin name is longer than [`MAX_NAME_LEN`] bytes.
    NameTooLong { len: usize },
    /// More scopes than [`MAX_SESSION_SCOPES`].
    TooManyScopes { count: usize },
    /// A scope is longer than [`MAX_SCOPE_LEN`] bytes.
    ScopeTooLong { len: usize },
    /// The record ends before a field it announces, read at byte `at`.
    Truncated { at: usize },
    /// A name or scope is not UTF-8.
    NotUtf8,
    /// Bytes follow the expiry.
    TrailingBytes { count: usize },
    /// The cookie has no `.` between version and blob.
    NoVersion,
    /// The cookie carries a version other than [`SESSION_FORMAT_VERSION`].
    WrongVersion,
    /// The session expired at `expires_at`, which is not after `now`.
    Expired { expires_at: u64, now: u64 },
    /// The blob does not open under the session key: it was altered, or
    /// sealed under another key.
    Unopened,
    /// The sealer refused to seal the record.
    SealFailed,
}

// ---------------------------------------------------------------------------
// Byte-level specification
// ---------------------------------------------------------------------------

/// Two big-endian bytes of `n`.
pub open spec fn be16(n: nat) -> Seq<u8> {
    seq![(n / 256) as u8, (n % 256) as u8]
}

/// The big-endian value of the two bytes at `p`.
pub open spec fn read_be16(b: Seq<u8>, p: int) -> nat {
    (b[p] as nat) * 256 + (b[p + 1] as nat)
}

/// Eight big-endian bytes of `x`.
pub open spec fn be64(x: u64) -> Seq<u8> {
    seq![
        (x >> 56u64) as u8, (x >> 48u64) as u8, (x >> 40u64) as u8, (x >> 32u64) as u8,
        (x >> 24u64) as u8, (x >> 16u64) as u8, (x >> 8u64) as u8, x as u8,
    ]
}

/// The big-endian value of the eight bytes at `p`.
pub open spec fn read_be64(b: Seq<u8>, p: int) -> u64 {
    combine64(b[p], b[p + 1], b[p + 2], b[p + 3], b[p + 4], b[p + 5], b[p + 6], b[p + 7])
}

pub open spec fn combine64(b0: u8, b1: u8, b2: u8, b3: u8, b4: u8, b5: u8, b6: u8, b7: u8) -> u64 {
    ((b0 as u64) << 56u64) | ((b1 as u64) << 48u64) | ((b2 as u64) << 40u64) | ((b3 as u64)
        << 32u64) | ((b4 as u64) << 24u64) | ((b5 as u64) << 16u64) | ((b6 as u64) << 8u64) | (
    b7 as u64)
}

/// The encoded form of the scopes, each length-prefixed, in order.
pub open spec fn scopes_bytes(s: Seq<Seq<char>>) -> Seq<u8>
    decreases s.len(),
{
    if s.len() == 0 {
        seq![]
    } else {
        scopes_bytes(s.drop_last()) + be16(encode_utf8(s.last()).len()) + encode_utf8(s.last())
    }
}

/// The plaintext record of a principal.
pub open spec fn record_bytes(p: PrincipalView) -> Seq<u8> {
    be16(encode_utf8(p.name).len()) + encode_utf8(p.name) + seq![p.scopes.len() as u8]
        + scopes_bytes(p.scopes) + be64(p.expires_at)
}

/// The index of the first scope longer than [`MAX_SCOPE_LEN`] bytes, if any.
pub open spec fn first_long_scope(s: Seq<Seq<char>>) -> Option<int> {
    if exists|i: int| 0 <= i < s.len() && encode_utf8(s[i]).len() > MAX_SCOPE_LEN {
        Some(choose|i: int| 0 <= i < s.len() && encode_utf8(s[i]).len() > MAX_SCOPE_LEN
            && forall|j: int| 0 <= j < i ==> encode_utf8(s[j]).len() <= MAX_SCOPE_LEN)
    } else {
        None
    }
}

/// What encoding a principal gives: its record, or why it has none.
pub open spec fn encode_spec(p: PrincipalView) -> Result<Seq<u8>, SessionError> {
    if encode_utf8(p.name).len() > MAX_NAME_LEN {
        Err(SessionError::NameTooLong { len: encode_utf8(p.name).len() as usize })
    } else if p.scopes.len() > MAX_SESSION_SCOPES {
        Err(SessionError::TooManyScopes { count: p.scopes.len() as usize })
    } else if first_long_scope(p.scopes) is Some {
        Err(SessionError::ScopeTooLong {
            len: encode_utf8(p.scopes[first_long_scope(p.scopes)->0]).len() as usize,
        })
    } else {
        Ok(record_bytes(p))
    }
}

/// Parsing one length-prefixed scope at `q`.
pub open spec fn parse_scope_at(b: Seq<u8>, q: int) -> Result<(Seq<char>, int), SessionError> {
    if q + 2 > b.len() {
        Err(SessionError::Truncated { at: q as usize })
    } else {
        let sl = read_be16(b, q);
        if sl > MAX_SCOPE_LEN {
            Err(SessionError::ScopeTooLong { len: sl as usize })
        } else if q + 2 + sl > b.len() {
            Err(SessionError::Truncated { at: (q + 2) as usize })
        } else if !valid_utf8(b.subrange(q + 2, q + 2 + sl)) {
            Err(SessionError::NotUtf8)
        } else {
            Ok((decode_utf8(b.subrange(q + 2, q + 2 + sl)), q + 2 + sl))
        }
    }
}

/// Parsing `count` scopes from `start`: the scopes and the position after them.
pub open spec fn parse_scopes(b: Seq<u8>, start: int, count: nat) -> Result<
    (Seq<Seq<char>>, int),
    SessionError,
>
    decreases count,
{
    if count == 0 {
        Ok((seq![], start))
    } else {
        match parse_scopes(b, start, (count - 1) as nat) {
            Err(e) => Err(e),
            Ok((s, q)) => match parse_scope_at(b, q) {
                Err(e) => Err(e),
                Ok((c, q2)) => Ok((s.push(c), q2)),
            },
        }
    }
}

/// What reading a plaintext record gives: the principal, or why it has none.
pub open spec fn parse_record(b: Seq<u8>) -> Result<PrincipalView, SessionError> {
    if b.len() < 2 {
        Err(SessionError::Truncated { at: 0 })
    } else {
        let nl: int = read_be16(b, 0) as int;
        if nl > MAX_NAME_LEN {
            Err(SessionError::NameTooLong { len: nl as usize })
        } else if 2 + nl > b.len() {
            Err(SessionError::Truncated { at: 2 })
        } else if !valid_utf8(b.subrange(2, 2 + nl)) {
            Err(SessionError::NotUtf8)
        } else {
            let p: int = 2 + nl;
            if p >= b.len() {
                Err(SessionError::Truncated { at: p as usize })
            } else if b[p] > MAX_SESSION_SCOPES {
                Err(SessionError::TooManyScopes { count: b[p] as usize })
            } else {
                match parse_scopes(b, p + 1, b[p] as nat) {
                    Err(e) => Err(e),
                    Ok((scopes, q)) => if q + 8 > b.len() {
                        Err(SessionError::Truncated { at: q as usize })
                    } else if q + 8 != b.len() {
                        Err(SessionError::TrailingBytes { count: (b.len() - (q + 8)) as usize })
                    } else {
                        Ok(
                            PrincipalView {
                                name: decode_utf8(b.subrange(2, 2 + nl)),
                                scopes,
                                expires_at: read_be64(b, q),
                            },
                        )
                    },
                }
            }
        }
    }
}

/// A scope that fails to parse fails every longer parse the same way.
proof fn lemma_parse_scopes_err_persists(b: Seq<u8>, start: int, c: nat, d: nat)
    requires
        c <= d,
        parse_scopes(b, start, c) is Err,
    ensures
        parse_scopes(b, start, d) == parse_scopes(b, start, c),
    decreases d - c,
{
    if c < d {
        lemma_parse_scopes_err_persists(b, start, c, (d - 1) as nat);
    }
}

// ---------------------------------------------------------------------------
// Writing
// ---------------------------------------------------------------------------

fn push_bytes(out: &mut Vec<u8>, src: &[u8])
    ensures
        final(out)@ == old(out)@ + src@,
{
    let ghost start = out@;
    let mut i: usize = 0;
    while i < src.len()
        invariant
            i <= src.len(),
            out@ == start + src@.take(i as int),
        decreases src.len() - i,
    {
        out.push(src[i]);
        assert(src@.take(i + 1) == src@.take(i as int).push(src@[i as int]));
        i += 1;
    }
    assert(src@.take(src.len() as int) == src@);
}

fn push_be16(out: &mut Vec<u8>, n: usize)
    requires
        n < 65536,
    ensures
        final(out)@ == old(out)@ + be16(n as nat),
{
    let hi: u8 = (n / 256) as u8;
    let lo: u8 = (n % 256) as u8;
    out.push(hi);
    out.push(lo);
    assert(old(out)@.push(hi).push(lo) == old(out)@ + be16(n as nat));
}

fn push_be64(out: &mut Vec<u8>, x: u64)
    ensures
        final(out)@ == old(out)@ + be64(x),
{
    out.push((x >> 56u64) as u8);
    out.push((x >> 48u64) as u8);
    out.push((x >> 40u64) as u8);
    out.push((x >> 32u64) as u8);
    out.push((x >> 24u64) as u8);
    out.push((x >> 16u64) as u8);
    out.push((x >> 8u64) as u8);
    out.push(x as u8);
    assert(final(out)@ =~= old(out)@ + be64(x));
}

/// Serialises a principal to the plaintext record.
#[verifier::loop_isolation(false)]
pub fn encode_record(p: &AdminPrincipal) -> (r: Result<Vec<u8>, SessionError>)
    ensures
        match r {
            Ok(v) => encode_spec(p@) == Ok::<Seq<u8>, SessionError>(v@),
            Err(e) => encode_spec(p@) == Err::<Seq<u8>, SessionError>(e),
        },
{
    let name_bytes = p.name.as_str().as_bytes();
    if name_bytes.len() > MAX_NAME_LEN {
        return Err(SessionError::NameTooLong { len: name_bytes.len() });
    }
    if p.scopes.len() > MAX_SESSION_SCOPES as usize {
        return Err(SessionError::TooManyScopes { count: p.scopes.len() });
    }
    let ghost sv = strings_view(p.scopes@);
    let mut out: Vec<u8> = Vec::new();
    push_be16(&mut out, name_bytes.len());
    push_bytes(&mut out, name_bytes);
    out.push(p.scopes.len() as u8);
    let ghost head = out@;
    let mut i: usize = 0;
    while i < p.scopes.len()
        invariant
            i <= p.scopes.len(),
            sv == strings_view(p.scopes@),
            out@ == head + scopes_bytes(sv.take(i as int)),
            forall|j: int| 0 <= j < i ==> encode_utf8(#[trigger] sv[j]).len() <= MAX_SCOPE_LEN,
        decreases p.scopes.len() - i,
    {
        let sb = p.scopes[i].as_str().as_bytes();
        assert(sv[i as int] == p.scopes@[i as int]@);
        if sb.len() > MAX_SCOPE_LEN {
            proof {
                let k = first_long_scope(sv);
                assert(encode_utf8(sv[i as int]).len() > MAX_SCOPE_LEN);
                assert(k is Some);
                let kk = k->0;
                if kk < i {
                    assert(encode_utf8(sv[kk]).len() <= MAX_SCOPE_LEN);
                }
                if kk > i {
                    assert(encode_utf8(sv[i as int]).len() <= MAX_SCOPE_LEN);
                }
                assert(kk == i);
            }
            return Err(SessionError::ScopeTooLong { len: sb.len() });
        }
        let ghost before = out@;
        push_be16(&mut out, sb.len());
        push_bytes(&mut out, sb);
        proof {
            assert(sv.take(i + 1).drop_last() == sv.take(i as int));
            assert(sv.take(i + 1).last() == sv[i as int]);
            assert(out@ == before + be16(sb@.len() as nat) + sb@);
            assert(out@ =~= head + scopes_bytes(sv.take(i + 1)));
        }
        i += 1;
    }
    proof {
        assert(sv.take(p.scopes.len() as int) == sv);
        assert(first_long_scope(sv) is None);
    }
    push_be64(&mut out, p.expires_at);
    proof {
        assert(out@ =~= record_bytes(p@));
    }
    Ok(out)
}

// ---------------------------------------------------------------------------
// Reading
// ---------------------------------------------------------------------------

/// Reads one byte at `*p`, advancing past it.
fn read_u8(bytes: &[u8], p: &mut usize) -> (r: Result<u8, SessionError>)
    ensures
        match r {
            Ok(v) => old(p) < bytes@.len() && v == bytes@[*old(p) as int] && *final(p) == *old(p) + 1,
            Err(e) => *old(p) >= bytes@.len() && e == SessionError::Truncated { at: *old(p) },
        },
{
    if *p >= bytes.len() {
        return Err(SessionError::Truncated { at: *p });
    }
    let v = bytes[*p];
    *p = *p + 1;
    Ok(v)
}

/// Reads a big-endian `u16` at `*p`, advancing past it.
fn read_u16(bytes: &[u8], p: &mut usize) -> (r: Result<u16, SessionError>)
    ensures
        match r {
            Ok(v) => *old(p) + 2 <= bytes@.len() && v as nat == read_be16(bytes@, *old(p) as int)
                && *final(p) == *old(p) + 2,
            Err(e) => *old(p) + 2 > bytes@.len() && e == SessionError::Truncated { at: *old(p) },
        },
{
    if *p > bytes.len() || bytes.len() - *p < 2 {
        return Err(SessionError::Truncated { at: *p });
    }
    let v: u16 = (bytes[*p] as u16) * 256 + (bytes[*p + 1] as u16);
    *p = *p + 2;
    Ok(v)
}

/// Reads `n` bytes at `*p`, advancing past them.
fn read_slice<'a>(bytes: &'a [u8], p: &mut usize, n: usize) -> (r: Result<&'a [u8], SessionError>)
    ensures
        match r {
            Ok(s) => *old(p) + n <= bytes@.len() && s@ == bytes@.subrange(
                *old(p) as int,
                *old(p) + n,
            ) && *final(p) == *old(p) + n,
            Err(e) => *old(p) + n > bytes@.len() && e == SessionError::Truncated { at: *old(p) },
        },
{
    if *p > bytes.len() || bytes.len() - *p < n {
        return Err(SessionError::Truncated { at: *p });
    }
    let s = &bytes[*p..*p + n];
    *p = *p + n;
    Ok(s)
}

/// Parses the plaintext record into a principal.
#[verifier::loop_isolation(false)]
pub fn decode_record(bytes: &[u8]) -> (r: Result<AdminPrincipal, SessionError>)
    ensures
        match r {
            Ok(p) => parse_record(bytes@) == Ok::<PrincipalView, SessionError>(p@),
            Err(e) => parse_record(bytes@) == Err::<PrincipalView, SessionError>(e),
        },
{
    let ghost b = bytes@;
    let mut p: usize = 0;
    let name_len = match read_u16(bytes, &mut p) {
        Ok(v) => v as usize,
        Err(e) => return Err(e),
    };
    if name_len > MAX_NAME_LEN {
        return Err(SessionError::NameTooLong { len: name_len });
    }
    let name_bytes = match read_slice(bytes, &mut p, name_len) {
        Ok(s) => s,
        Err(e) => return Err(e),
    };
    let name = match utf8_str(name_bytes) {
        Some(s) => s.to_owned(),
        None => return Err(SessionError::NotUtf8),
    };
    let num_scopes = match read_u8(bytes, &mut p) {
        Ok(v) => v,
        Err(e) => return Err(e),
    };
    if num_scopes > MAX_SESSION_SCOPES {
        return Err(SessionError::TooManyScopes { count: num_scopes as usize });
    }
    let ghost start: int = p as int;
    let mut scopes: Vec<String> = Vec::new();
    assert(strings_view(scopes@) =~= seq![]);
    let mut k: u8 = 0;
    while k < num_scopes
        invariant
            k <= num_scopes,
            b == bytes@,
            start <= p <= b.len(),
            parse_scopes(b, start, k as nat) == Ok::<(Seq<Seq<char>>, int), SessionError>(
                (strings_view(scopes@), p as int),
            ),
        decreases num_scopes - k,
    {
        let ghost q = p as int;
        let slen = match read_u16(bytes, &mut p) {
            Ok(v) => v as usize,
            Err(e) => {
                assert(parse_scope_at(b, q) == Err::<(Seq<char>, int), SessionError>(e));
                proof {
                    lemma_parse_scopes_err_persists(b, start, (k + 1) as nat, num_scopes as nat);
                }
                return Err(e);
            },
        };
        if slen > MAX_SCOPE_LEN {
            proof {
                lemma_parse_scopes_err_persists(b, start, (k + 1) as nat, num_scopes as nat);
            }
            return Err(SessionError::ScopeTooLong { len: slen });
        }
        let sb = match read_slice(bytes, &mut p, slen) {
            Ok(s) => s,
            Err(e) => {
                proof {
                    lemma_parse_scopes_err_persists(b, start, (k + 1) as nat, num_scopes as nat);
                }
                return Err(e);
            },
        };
        let s = match utf8_str(sb) {
            Some(s) => s.to_owned(),
            None => {
                proof {
                    lemma_parse_scopes_err_persists(b, start, (k + 1) as nat, num_scopes as nat);
                }
                return Err(SessionError::NotUtf8);
            },
        };
        let ghost before = strings_view(scopes@);
        scopes.push(s);
        assert(strings_view(scopes@) =~= before.push(decode_utf8(b.subrange(q + 2, q + 2 + slen))));
        k += 1;
    }
    let exp_bytes = match read_slice(bytes, &mut p, 8) {
        Ok(s) => s,
        Err(e) => return Err(e),
    };
    let expires_at = (exp_bytes[0] as u64) << 56u64 | (exp_bytes[1] as u64) << 48u64 | (
    exp_bytes[2] as u64) << 40u64 | (exp_bytes[3] as u64) << 32u64 | (exp_bytes[4] as u64) << 24u64
        | (exp_bytes[5] as u64) << 16u64 | (exp_bytes[6] as u64) << 8u64 | (exp_bytes[7] as u64);
    if p != bytes.len() {
        return Err(SessionError::TrailingBytes { count: bytes.len() - p });
    }
    Ok(AdminPrincipal { name, scopes, expires_at })
}

// ---------------------------------------------------------------------------
// Round trip
// ---------------------------------------------------------------------------

proof fn lemma_be16_roundtrip(n: nat)
    requires
        n < 65536,
    ensures
        be16(n).len() == 2,
        read_be16(be16(n), 0) == n,
{
}

proof fn lemma_be64_roundtrip(x: u64)
    ensures
        be64(x).len() == 8,
        read_be64(be64(x), 0) == x,
{
    let b = be64(x);
    assert(combine64(
        (x >> 56u64) as u8,
        (x >> 48u64) as u8,
        (x >> 40u64) as u8,
        (x >> 32u64) as u8,
        (x >> 24u64) as u8,
        (x >> 16u64) as u8,
        (x >> 8u64) as u8,
        x as u8,
    ) == x) by (bit_vector);
}

/// Reading `pre + scopes_bytes(s) + post` from just after `pre` gives the
/// scopes back, and stops just after them.
proof fn lemma_parse_scopes_roundtrip(pre: Seq<u8>, s: Seq<Seq<char>>, post: Seq<u8>)
    requires
        forall|i: int| 0 <= i < s.len() ==> encode_utf8(#[trigger] s[i]).len() <= MAX_SCOPE_LEN,
    ensures
        parse_scopes(pre + scopes_bytes(s) + post, pre.len() as int, s.len()) == Ok::<
            (Seq<Seq<char>>, int),
            SessionError,
        >((s, pre.len() + scopes_bytes(s).len() as int)),
    decreases s.len(),
{
    if s.len() == 0 {
        assert(s =~= seq![]);
    } else {
        let init = s.drop_last();
        let c = s.last();
        let u = encode_utf8(c);
        assert(encode_utf8(s[s.len() - 1]).len() <= MAX_SCOPE_LEN);
        let rest = be16(u.len()) + u + post;
        assert forall|i: int| 0 <= i < init.len() implies encode_utf8(#[trigger] init[i]).len()
            <= MAX_SCOPE_LEN by {
            assert(init[i] == s[i]);
        }
        lemma_parse_scopes_roundtrip(pre, init, rest);
        let b = pre + scopes_bytes(s) + post;
        assert(b =~= pre + scopes_bytes(init) + rest);
        let q: int = pre.len() + scopes_bytes(init).len() as int;
        assert(b[q] == be16(u.len())[0]);
        assert(b[q + 1] == be16(u.len())[1]);
        lemma_be16_roundtrip(u.len());
        assert(read_be16(b, q) == u.len());
        assert(b.subrange(q + 2, q + 2 + u.len() as int) =~= u);
        assert(init.push(c) =~= s);
    }
}

/// The law of the record: a principal that fits the record's limits is read
/// back, exactly, from the bytes it is written to.
pub proof fn lemma_record_roundtrip(p: PrincipalView)
    requires
        encode_spec(p) is Ok,
    ensures
        encode_spec(p) == Ok::<Seq<u8>, SessionError>(record_bytes(p)),
        parse_record(record_bytes(p)) == Ok::<PrincipalView, SessionError>(p),
{
    let n = encode_utf8(p.name);
    let b = record_bytes(p);
    assert(first_long_scope(p.scopes) is None);
    assert forall|i: int| 0 <= i < p.scopes.len() implies encode_utf8(#[trigger] p.scopes[i]).len()
        <= MAX_SCOPE_LEN by {}
    lemma_be16_roundtrip(n.len());
    let pre = be16(n.len()) + n + seq![p.scopes.len() as u8];
    let sb = scopes_bytes(p.scopes);
    lemma_parse_scopes_roundtrip(pre, p.scopes, be64(p.expires_at));
    assert(b =~= pre + sb + be64(p.expires_at));
    assert(b[0] == be16(n.len())[0]);
    assert(b[1] == be16(n.len())[1]);
    assert(read_be16(b, 0) == n.len());
    assert(b.subrange(2, 2 + n.len() as int) =~= n);
    assert(b[2 + n.len() as int] == p.scopes.len() as u8);
    let q: int = pre.len() + sb.len() as int;
    lemma_be64_roundtrip(p.expires_at);
    assert(b.subrange(q, q + 8) =~= be64(p.expires_at));
    assert(read_be64(b, q) == read_be64(be64(p.expires_at), 0));
}

// ---------------------------------------------------------------------------
// Cookie framing and expiry
// ---------------------------------------------------------------------------

/// The cookie string for a sealed record: `v1.<blob>`.
pub fn format_cookie(blob: &str) -> (r: String)
    ensures
        r@ == SESSION_FORMAT_VERSION@ + seq!['.'] + blob@,
{
    let v = concat2(SESSION_FORMAT_VERSION, ".");
    let out = concat2(v.as_str(), blob);
    proof {
        reveal_strlit(".");
    }
    out
}

/// The index of the first `'.'` in `s`, if any.
pub open spec fn first_dot(s: Seq<char>) -> Option<int> {
    if exists|i: int| 0 <= i < s.len() && s[i] == '.' {
        Some(choose|i: int| 0 <= i < s.len() && s[i] == '.' && forall|j: int| 0 <= j < i ==> s[j] != '.')
    } else {
        None
    }
}

/// What framing check a cookie string gets: its blob, or why it has none.
pub open spec fn cookie_blob_spec(c: Seq<char>) -> Result<Seq<char>, SessionError> {
    match first_dot(c) {
        None => Err(SessionError::NoVersion),
        Some(i) => if c.subrange(0, i) != SESSION_FORMAT_VERSION@ {
            Err(SessionError::WrongVersion)
        } else {
            Ok(c.subrange(i + 1, c.len() as int))
        },
    }
}

/// Splits a cookie at its first `.` and checks the version before it,
/// returning the blob after it.
#[verifier::loop_isolation(false)]
pub fn cookie_blob(cookie: &str) -> (r: Result<String, SessionError>)
    ensures
        match r {
            Ok(s) => cookie_blob_spec(cookie@) == Ok::<Seq<char>, SessionError>(s@),
            Err(e) => cookie_blob_spec(cookie@) == Err::<Seq<char>, SessionError>(e),
        },
{
    let cs = chars_of(cookie);
    let mut i: usize = 0;
    while i < cs.len()
        invariant
            i <= cs.len(),
            cs@ == cookie@,
            forall|j: int| 0 <= j < i ==> cs@[j] != '.',
        decreases cs.len() - i,
    {
        if cs[i] == '.' {
            break;
        }
        i += 1;
    }
    if i == cs.len() {
        assert(first_dot(cookie@) is None);
        return Err(SessionError::NoVersion);
    }
    assert(cs@[i as int] == '.');
    assert(first_dot(cookie@) == Some(i as int)) by {
        let k = first_dot(cookie@)->0;
        if k < i {
        }
        if k > i {
        }
    }
    let mut ver: Vec<char> = Vec::new();
    let mut j: usize = 0;
    while j < i
        invariant
            j <= i < cs.len(),
            ver@ == cs@.subrange(0, j as int),
        decreases i - j,
    {
        ver.push(cs[j]);
        assert(cs@.subrange(0, j + 1) == cs@.subrange(0, j as int).push(cs@[j as int]));
        j += 1;
    }
    let vs = string_from_chars(&ver);
    if !crate::text::str_eq(vs.as_str(), SESSION_FORMAT_VERSION) {
        return Err(SessionError::WrongVersion);
    }
    let mut blob: Vec<char> = Vec::new();
    let mut m: usize = i + 1;
    while m < cs.len()
        invariant
            i + 1 <= m <= cs.len(),
            blob@ == cs@.subrange(i + 1, m as int),
        decreases cs.len() - m,
    {
        blob.push(cs[m]);
        assert(cs@.subrange(i + 1, m + 1) == cs@.subrange(i + 1, m as int).push(cs@[m as int]));
        m += 1;
    }
    Ok(string_from_chars(&blob))
}

/// The framing of a cookie gives back the blob it was formatted from,
/// whatever the blob holds.
pub proof fn lemma_cookie_roundtrip(blob: Seq<char>)
    ensures
        cookie_blob_spec(SESSION_FORMAT_VERSION@ + seq!['.'] + blob) == Ok::<Seq<char>, SessionError>(
            blob,
        ),
{
    reveal_strlit("v1");
    let c = SESSION_FORMAT_VERSION@ + seq!['.'] + blob;
    assert(c[2] == '.');
    assert(c[0] != '.' && c[1] != '.');
    let i = first_dot(c)->0;
    assert(first_dot(c) is Some);
    assert(i == 2) by {
        if i < 2 {
            assert(c[i] != '.');
        }
        if i > 2 {
            assert(c[2] != '.');
        }
    }
    assert(c.subrange(0, 2) =~= SESSION_FORMAT_VERSION@);
    assert(c.subrange(3, c.len() as int) =~= blob);
}

/// A decoded principal is accepted only while its expiry is after `now`.
pub fn check_expiry(p: AdminPrincipal, now: u64) -> (r: Result<AdminPrincipal, SessionError>)
    ensures
        p.expires_at <= now ==> r == Err::<AdminPrincipal, SessionError>(
            SessionError::Expired { expires_at: p.expires_at, now },
        ),
        p.expires_at > now ==> (r matches Ok(q) && q@ == p@),
{
    if p.expires_at <= now {
        return Err(SessionError::Expired { expires_at: p.expires_at, now });
    }
    Ok(p)
}

/// What a session's opened record comes to at `now`: the principal it
/// holds while that is still unexpired, or why not.
pub open spec fn open_record_spec(plain: Seq<u8>, now: u64) -> Result<PrincipalView, SessionError> {
    match parse_record(plain) {
        Ok(p) => if p.expires_at <= now {
            Err(SessionError::Expired { expires_at: p.expires_at, now })
        } else {
            Ok(p)
        },
        Err(e) => Err(e),
    }
}

/// The last steps of reading a session cookie, once its blob is opened:
/// parse the record, then refuse it if it has expired by `now`.
pub fn open_record(plain: &[u8], now: u64) -> (r: Result<AdminPrincipal, SessionError>)
    ensures
        match r {
            Ok(p) => open_record_spec(plain@, now) == Ok::<PrincipalView, SessionError>(p@),
            Err(e) => open_record_spec(plain@, now) == Err::<PrincipalView, SessionError>(e),
        },
{
    match decode_record(plain) {
        Ok(p) => check_expiry(p, now),
        Err(e) => Err(e),
    }
}

/// A copy of `principal` whose expiry is `now + DEFAULT_SESSION_TTL_SECS`,
/// saturating: the sliding expiry applied on every authenticated request.
pub fn refresh_principal_at(principal: &AdminPrincipal, now: u64) -> (r: AdminPrincipal)
    ensures
        r@.name == principal@.name,
        r@.scopes == principal@.scopes,
        r@.expires_at == if now + DEFAULT_SESSION_TTL_SECS > u64::MAX {
            u64::MAX
        } else {
            (now + DEFAULT_SESSION_TTL_SECS) as u64
        },
{
    AdminPrincipal {
        name: principal.name.clone(),
        scopes: clone_strings(&principal.scopes),
        expires_at: now.saturating_add(DEFAULT_SESSION_TTL_SECS),
    }
}

// ---------------------------------------------------------------------------
// Sealed sessions
// ---------------------------------------------------------------------------

/// What follows opening a session blob: the opener's answer `o` for the
/// blob, then the record parsed and its expiry checked at `now`; a blob
/// that does not open is refused.
pub open spec fn after_open(o: Option<Vec<u8>>, now: u64) -> Result<PrincipalView, SessionError> {
    match o {
        None => Err(SessionError::Unopened),
        Some(plain) => open_record_spec(plain@, now),
    }
}

/// The opener, asked about a text equal to `blob`, answered `o`, and the
/// cookie came to `r` after it.
pub open spec fn opened_then<F: Fn(&str) -> Option<Vec<u8>>>(
    open: F,
    blob: Seq<char>,
    now: u64,
    r: Result<PrincipalView, SessionError>,
) -> bool {
    exists|b: &str, o: Option<Vec<u8>>|
        b@ == blob && #[trigger] open.ensures((b,), o) && r == after_open(o, now)
}

/// The result of reading a session, as the specs see it.
pub open spec fn session_view(r: Result<AdminPrincipal, SessionError>) -> Result<PrincipalView, SessionError> {
    match r {
        Ok(p) => Ok(p@),
        Err(e) => Err(e),
    }
}

/// Read the principal a session cookie carries at `now`: the version and
/// the blob, the blob opened by `open` (which reads the text and decrypts
/// it under the session key, `None` when it does not open), the record
/// parsed and the expiry checked, in that order.
pub fn decode_session<F: Fn(&str) -> Option<Vec<u8>>>(open: F, cookie: &str, now: u64) -> (r: Result<
    AdminPrincipal,
    SessionError,
>)
    requires
        forall|b: &str| open.requires((b,)),
    ensures
        match cookie_blob_spec(cookie@) {
            Err(e) => r == Err::<AdminPrincipal, SessionError>(e),
            Ok(blob) => opened_then(open, blob, now, session_view(r)),
        },
{
    let blob = match cookie_blob(cookie) {
        Ok(b) => b,
        Err(e) => return Err(e),
    };
    let bs = blob.as_str();
    let o = open(bs);
    let r = match &o {
        None => Err(SessionError::Unopened),
        Some(plain) => open_record(plain.as_slice(), now),
    };
    assert(opened_then(open, blob@, now, session_view(r))) by {
        assert(open.ensures((bs,), o));
    }
    r
}

/// The sealer, asked about bytes equal to `plain`, answered `s`, and the
/// cookie came to `r` after it: a refusal to seal is
/// [`SessionError::SealFailed`]; a sealed text `t` becomes `v1.<t>`.
pub open spec fn sealed_then<G: Fn(&[u8]) -> Result<String, String>>(
    seal: G,
    plain: Seq<u8>,
    r: Result<String, SessionError>,
) -> bool {
    exists|a: &[u8], s: Result<String, String>|
        a@ == plain && #[trigger] seal.ensures((a,), s) && match s {
            Err(_) => r == Err::<String, SessionError>(SessionError::SealFailed),
            Ok(t) => r matches Ok(c) && c@ == SESSION_FORMAT_VERSION@ + seq!['.'] + t@,
        }
}

/// Seal a principal into a session cookie with `seal` (which encrypts
/// under the session key and writes the ciphertext as text). A principal
/// the record cannot hold is refused as [`encode_record`] refuses it.
pub fn encode_session<G: Fn(&[u8]) -> Result<String, String>>(seal: G, p: &AdminPrincipal) -> (r: Result<
    String,
    SessionError,
>)
    requires
        forall|a: &[u8]| seal.requires((a,)),
    ensures
        match encode_spec(p@) {
            Err(e) => r == Err::<String, SessionError>(e),
            Ok(plain) => sealed_then(seal, plain, r),
        },
{
    let plain = match encode_record(p) {
        Ok(v) => v,
        Err(e) => return Err(e),
    };
    let ps = plain.as_slice();
    let s = seal(ps);
    let r = match &s {
        Err(_) => Err(SessionError::SealFailed),
        Ok(t) => Ok(format_cookie(t.as_str())),
    };
    assert(sealed_then(seal, plain@, r)) by {
        assert(seal.ensures((ps,), s));
    }
    r
}

/// A cookie made from a principal reads back as that principal, while it
/// has not expired, whenever the opener gives back for the sealed text the
/// record that was sealed: the framing, the record and the expiry check
/// lose nothing.
pub proof fn lemma_session_roundtrip(p: PrincipalView, sealed: Seq<char>, now: u64)
    requires
        encode_spec(p) is Ok,
        p.expires_at > now,
    ensures
        encode_spec(p) == Ok::<Seq<u8>, SessionError>(record_bytes(p)),
        cookie_blob_spec(SESSION_FORMAT_VERSION@ + seq!['.'] + sealed) == Ok::<Seq<char>, SessionError>(
            sealed,
        ),
        open_record_spec(record_bytes(p), now) == Ok::<PrincipalView, SessionError>(p),
{
    lemma_record_roundtrip(p);
    lemma_cookie_roundtrip(sealed);
}

} // verus!
