//! The mail handler's decisions: whether a recipient belongs to a local
//! domain, and which recipients of a submission are delivered locally and
//! which go out through the spool.

use vstd::prelude::*;
use crate::calendar::{civil_date, lemma_one_date_per_day, names_date, unix_to_civil, SECS_PER_DAY};
use crate::clock::now_secs;
use crate::principal::strings_view;
use crate::text::{
    chars_of, decimal, eq_ignore_ascii_case, push_char, push_decimal_padded,
    str_eq_ignore_ascii_case, string_from_chars, to_owned_str, zero_pad,
};
use crate::tls::{lowercase, to_lowercase};

verus! {

/// The position of the last `@` of an address, if any.
pub open spec fn last_at(a: Seq<char>) -> Option<int> {
    if exists|i: int| 0 <= i < a.len() && a[i] == '@' {
        Some(
            choose|i: int|
                0 <= i < a.len() && a[i] == '@' && forall|j: int| i < j < a.len() ==> a[j] != '@',
        )
    } else {
        None
    }
}

/// The domain of an address: what follows its last `@`, lowered; none
/// without an `@`.
pub open spec fn domain_spec(a: Seq<char>) -> Option<Seq<char>> {
    match last_at(a) {
        Some(i) => Some(lowercase(a.subrange(i + 1, a.len() as int))),
        None => None,
    }
}

/// The domain of an address, lowered.
pub fn domain_of(address: &str) -> (r: Option<String>)
    ensures
        match r {
            Some(d) => domain_spec(address@) == Some(d@),
            None => domain_spec(address@) is None,
        },
{
    let cs = chars_of(address);
    let mut i: usize = cs.len();
    while i > 0
        invariant
            i <= cs.len(),
            cs@ == address@,
            forall|j: int| i <= j < cs@.len() ==> cs@[j] != '@',
        decreases i,
    {
        if cs[i - 1] == '@' {
            let at = i - 1;
            proof {
                let k = last_at(address@)->0;
                assert(cs@[at as int] == '@');
                if k < at {
                }
                if k > at {
                }
            }
            let mut rest: Vec<char> = Vec::new();
            let mut m: usize = at + 1;
            while m < cs.len()
                invariant
                    at + 1 <= m <= cs.len(),
                    rest@ == cs@.subrange(at + 1, m as int),
                decreases cs.len() - m,
            {
                rest.push(cs[m]);
                assert(cs@.subrange(at + 1, m + 1) == cs@.subrange(at + 1, m as int).push(
                    cs@[m as int],
                ));
                m += 1;
            }
            let r = string_from_chars(&rest);
            return Some(to_lowercase(r.as_str()));
        }
        i -= 1;
    }
    None
}

/// Whether a domain is one of the local ones, ignoring ASCII case.
pub open spec fn is_local_spec(domains: Seq<Seq<char>>, d: Seq<char>) -> bool {
    exists|i: int| 0 <= i < domains.len() && eq_ignore_ascii_case(domains[i], d)
}

fn is_local(domains: &Vec<String>, d: &str) -> (r: bool)
    ensures
        r == is_local_spec(strings_view(domains@), d@),
{
    let ghost dv = strings_view(domains@);
    let mut i: usize = 0;
    while i < domains.len()
        invariant
            i <= domains.len(),
            dv == strings_view(domains@),
            forall|k: int| 0 <= k < i ==> !eq_ignore_ascii_case(dv[k], d@),
        decreases domains.len() - i,
    {
        if str_eq_ignore_ascii_case(domains[i].as_str(), d) {
            assert(eq_ignore_ascii_case(dv[i as int], d@));
            return true;
        }
        i += 1;
    }
    false
}

/// Whether a recipient is delivered locally: it has an `@` and its domain
/// is a local one. An address without an `@` goes out through the spool.
pub open spec fn delivered_locally(domains: Seq<Seq<char>>, rcpt: Seq<char>) -> bool {
    match domain_spec(rcpt) {
        Some(d) => is_local_spec(domains, d),
        None => false,
    }
}

/// Decide whether a recipient's domain is local; `None` when the address
/// has no `@` at all.
pub fn recipient_domain_is_local(domains: &Vec<String>, address: &str) -> (r: Option<bool>)
    ensures
        match domain_spec(address@) {
            Some(d) => r == Some(is_local_spec(strings_view(domains@), d)),
            None => r is None,
        },
{
    match domain_of(address) {
        Some(d) => Some(is_local(domains, d.as_str())),
        None => None,
    }
}

/// The recipients delivered locally, in order.
pub open spec fn local_rcpts(domains: Seq<Seq<char>>, rcpts: Seq<Seq<char>>) -> Seq<Seq<char>>
    decreases rcpts.len(),
{
    if rcpts.len() == 0 {
        seq![]
    } else {
        let rest = local_rcpts(domains, rcpts.drop_last());
        if delivered_locally(domains, rcpts.last()) {
            rest.push(rcpts.last())
        } else {
            rest
        }
    }
}

/// The recipients sent out through the spool, in order.
pub open spec fn remote_rcpts(domains: Seq<Seq<char>>, rcpts: Seq<Seq<char>>) -> Seq<Seq<char>>
    decreases rcpts.len(),
{
    if rcpts.len() == 0 {
        seq![]
    } else {
        let rest = remote_rcpts(domains, rcpts.drop_last());
        if delivered_locally(domains, rcpts.last()) {
            rest
        } else {
            rest.push(rcpts.last())
        }
    }
}

/// Split a submission's recipients into those delivered straight into a
/// local mailbox and those enqueued for outbound delivery, each list in
/// the order given. This keeps intra-domain mail off the public MX.
pub fn split_recipients(rcpts: &Vec<String>, local_domains: &Vec<String>) -> (r: (
    Vec<String>,
    Vec<String>,
))
    ensures
        strings_view(r.0@) == local_rcpts(strings_view(local_domains@), strings_view(rcpts@)),
        strings_view(r.1@) == remote_rcpts(strings_view(local_domains@), strings_view(rcpts@)),
{
    let ghost dv = strings_view(local_domains@);
    let ghost rv = strings_view(rcpts@);
    let mut local: Vec<String> = Vec::new();
    let mut remote: Vec<String> = Vec::new();
    let mut i: usize = 0;
    assert(strings_view(local@) =~= Seq::<Seq<char>>::empty());
    assert(strings_view(remote@) =~= Seq::<Seq<char>>::empty());
    while i < rcpts.len()
        invariant
            i <= rcpts.len(),
            dv == strings_view(local_domains@),
            rv == strings_view(rcpts@),
            strings_view(local@) == local_rcpts(dv, rv.take(i as int)),
            strings_view(remote@) == remote_rcpts(dv, rv.take(i as int)),
        decreases rcpts.len() - i,
    {
        let r = &rcpts[i];
        assert(rv.take(i + 1).drop_last() == rv.take(i as int));
        assert(rv.take(i + 1).last() == r@);
        let here = match recipient_domain_is_local(local_domains, r.as_str()) {
            Some(b) => b,
            None => false,
        };
        if here {
            let ghost before = local@;
            local.push(r.clone());
            assert(strings_view(local@) =~= strings_view(before).push(r@));
        } else {
            let ghost before = remote@;
            remote.push(r.clone());
            assert(strings_view(remote@) =~= strings_view(before).push(r@));
        }
        i += 1;
    }
    assert(rv.take(rcpts.len() as int) == rv);
    (local, remote)
}

/// Every recipient goes exactly one way: together the two lists hold each
/// recipient once, the local ones all local and the others all not.
pub proof fn lemma_split_partitions(domains: Seq<Seq<char>>, rcpts: Seq<Seq<char>>)
    ensures
        local_rcpts(domains, rcpts).len() + remote_rcpts(domains, rcpts).len() == rcpts.len(),
        forall|i: int|
            0 <= i < local_rcpts(domains, rcpts).len() ==> delivered_locally(
                domains,
                #[trigger] local_rcpts(domains, rcpts)[i],
            ),
        forall|i: int|
            0 <= i < remote_rcpts(domains, rcpts).len() ==> !delivered_locally(
                domains,
                #[trigger] remote_rcpts(domains, rcpts)[i],
            ),
    decreases rcpts.len(),
{
    if rcpts.len() > 0 {
        lemma_split_partitions(domains, rcpts.drop_last());
        let l = local_rcpts(domains, rcpts.drop_last());
        let m = remote_rcpts(domains, rcpts.drop_last());
        let x = rcpts.last();
        if delivered_locally(domains, x) {
            assert forall|i: int| 0 <= i < l.push(x).len() implies delivered_locally(
                domains,
                #[trigger] l.push(x)[i],
            ) by {
                if i < l.len() {
                    assert(l.push(x)[i] == l[i]);
                }
            }
        } else {
            assert forall|i: int| 0 <= i < m.push(x).len() implies !delivered_locally(
                domains,
                #[trigger] m.push(x)[i],
            ) by {
                if i < m.len() {
                    assert(m.push(x)[i] == m[i]);
                }
            }
        }
    }
}

/// Whether an address is acceptable at RCPT by its domain alone: local
/// domains are; an address without `@` is not. Any other address is for
/// the user store to decide.
pub fn rcpt_domain_acceptable(local_domains: &Vec<String>, address: &str) -> (r: Option<bool>)
    ensures
        match domain_spec(address@) {
            None => r == Some(false),
            Some(d) => if is_local_spec(strings_view(local_domains@), d) {
                r == Some(true)
            } else {
                r is None
            },
        },
{
    match recipient_domain_is_local(local_domains, address) {
        None => Some(false),
        Some(true) => Some(true),
        Some(false) => None,
    }
}

// ---------------------------------------------------------------------------
// The trace header of delivered mail
// ---------------------------------------------------------------------------

/// The day of the week `days` days after 1970-01-01, which was a Thursday:
/// 0 is Monday, 6 is Sunday.
pub open spec fn weekday(days: int) -> int {
    (days + 3) % 7
}

/// The abbreviation of a day of the week, 0 being Monday.
pub open spec fn weekday_name(w: int) -> Seq<char> {
    if w == 0 {
        "Mon"@
    } else if w == 1 {
        "Tue"@
    } else if w == 2 {
        "Wed"@
    } else if w == 3 {
        "Thu"@
    } else if w == 4 {
        "Fri"@
    } else if w == 5 {
        "Sat"@
    } else {
        "Sun"@
    }
}

/// The abbreviation of month `m`, 1 being January.
pub open spec fn month_name(m: int) -> Seq<char> {
    if m <= 1 {
        "Jan"@
    } else if m == 2 {
        "Feb"@
    } else if m == 3 {
        "Mar"@
    } else if m == 4 {
        "Apr"@
    } else if m == 5 {
        "May"@
    } else if m == 6 {
        "Jun"@
    } else if m == 7 {
        "Jul"@
    } else if m == 8 {
        "Aug"@
    } else if m == 9 {
        "Sep"@
    } else if m == 10 {
        "Oct"@
    } else if m == 11 {
        "Nov"@
    } else {
        "Dec"@
    }
}

/// The English abbreviations of the months, January first, three letters
/// each.
pub open spec fn month_abbreviations() -> Seq<char> {
    "JanFebMarAprMayJunJulAugSepOctNovDec"@
}

/// Month `m` of the civil calendar is called by the `m`-th three letters of
/// the year's abbreviations, so no two months share a name.
pub proof fn lemma_month_names_follow_the_calendar(m: int, n: int)
    requires
        1 <= m <= 12,
        1 <= n <= 12,
    ensures
        month_name(m) == month_abbreviations().subrange(3 * (m - 1), 3 * m),
        m != n ==> month_name(m) != month_name(n),
{
    reveal_strlit("JanFebMarAprMayJunJulAugSepOctNovDec");
    reveal_strlit("Jan");
    reveal_strlit("Feb");
    reveal_strlit("Mar");
    reveal_strlit("Apr");
    reveal_strlit("May");
    reveal_strlit("Jun");
    reveal_strlit("Jul");
    reveal_strlit("Aug");
    reveal_strlit("Sep");
    reveal_strlit("Oct");
    reveal_strlit("Nov");
    reveal_strlit("Dec");
    let a = month_abbreviations();
    assert(month_name(m) =~= a.subrange(3 * (m - 1), 3 * m));
    if m != n {
        assert(month_name(n) =~= a.subrange(3 * (n - 1), 3 * n));
        assert(month_name(m)[0] != month_name(n)[0] || month_name(m)[1] != month_name(n)[1]
            || month_name(m)[2] != month_name(n)[2]);
    }
}

proof fn lemma_prefix_kept(a: Seq<char>, b: Seq<char>, n: int)
    requires
        0 <= n <= a.len(),
    ensures
        (a + b).subrange(0, n) == a.subrange(0, n),
{
    assert((a + b).subrange(0, n) =~= a.subrange(0, n));
}

/// The month field of a date's text (its ninth to eleventh characters)
/// is the abbreviation of the civil month the moment falls in.
pub proof fn lemma_date_text_names_its_month(secs: int, y: int, m: int, d: int)
    requires
        secs >= 0,
        names_date(secs / (SECS_PER_DAY as int), y, m, d),
    ensures
        rfc5322_date(secs).subrange(8, 11) == month_abbreviations().subrange(3 * (m - 1), 3 * m),
{
    let days = secs / (SECS_PER_DAY as int);
    let w = (y, m, d);
    assert(names_date(days, w.0, w.1, w.2));
    let c = civil_date(days);
    assert(names_date(days, c.0, c.1, c.2));
    lemma_one_date_per_day(days, c.0, c.1, c.2, y, m, d);
    lemma_month_names_follow_the_calendar(m, m);
    reveal_strlit("JanFebMarAprMayJunJulAugSepOctNovDec");
    assert(month_name(m).len() == 3);
    reveal_strlit("Mon");
    reveal_strlit("Tue");
    reveal_strlit("Wed");
    reveal_strlit("Thu");
    reveal_strlit("Fri");
    reveal_strlit("Sat");
    reveal_strlit("Sun");
    reveal_strlit(", ");
    reveal_strlit(" ");
    assert(weekday_name(weekday(days)).len() == 3);
    assert(1 <= d <= 31);
    reveal_with_fuel(decimal, 3);
    assert(decimal(d as nat).len() == 1 || decimal(d as nat).len() == 2);
    assert(two_digits(d).len() == 2);
    let head = weekday_name(weekday(days)) + ", "@ + two_digits(d) + " "@;
    assert(head.len() == 8);
    let t = secs % (SECS_PER_DAY as int);
    let p0 = head + month_name(m);
    let p2 = p0 + " "@ + year_text(#[verifier::truncate] (y as i32));
    let p4 = p2 + " "@ + two_digits(t / 3600);
    let p6 = p4 + ":"@ + two_digits(t / 60 % 60);
    let p8 = p6 + ":"@ + two_digits(t % 60);
    assert(rfc5322_date(secs) == p8 + " +0000"@);
    lemma_prefix_kept(p0, " "@, 11);
    lemma_prefix_kept(p0 + " "@, year_text(#[verifier::truncate] (y as i32)), 11);
    lemma_prefix_kept(p2, " "@, 11);
    lemma_prefix_kept(p2 + " "@, two_digits(t / 3600), 11);
    lemma_prefix_kept(p4, ":"@, 11);
    lemma_prefix_kept(p4 + ":"@, two_digits(t / 60 % 60), 11);
    lemma_prefix_kept(p6, ":"@, 11);
    lemma_prefix_kept(p6 + ":"@, two_digits(t % 60), 11);
    lemma_prefix_kept(p8, " +0000"@, 11);
    assert(p0.subrange(0, 11) =~= p0);
    assert(p0.subrange(8, 11) =~= month_name(m));
    assert(rfc5322_date(secs).subrange(8, 11) =~= p0.subrange(8, 11));
}

/// A number in at least two digits.
pub open spec fn two_digits(n: int) -> Seq<char> {
    zero_pad(decimal(n as nat), 2)
}

/// A year in at least four characters, a minus sign counting as one.
pub open spec fn year_text(y: i32) -> Seq<char> {
    if y < 0 {
        "-"@ + zero_pad(decimal((-y) as nat), 3)
    } else {
        zero_pad(decimal(y as nat), 4)
    }
}

/// The RFC 5322 date of `secs` seconds after the Unix epoch, in UTC, such
/// as `Thu, 01 Jan 1970 00:00:00 +0000`.
pub open spec fn rfc5322_date(secs: int) -> Seq<char> {
    let days = secs / (SECS_PER_DAY as int);
    let c = civil_date(days);
    let t = secs % (SECS_PER_DAY as int);
    weekday_name(weekday(days)) + ", "@ + two_digits(c.2) + " "@ + month_name(c.1) + " "@
        + year_text(#[verifier::truncate] (c.0 as i32)) + " "@ + two_digits(t / 3600) + ":"@
        + two_digits(t / 60 % 60) + ":"@ + two_digits(t % 60) + " +0000"@
}

fn weekday_str(w: u64) -> (r: &'static str)
    ensures
        r@ == weekday_name(w as int),
{
    if w == 0 {
        "Mon"
    } else if w == 1 {
        "Tue"
    } else if w == 2 {
        "Wed"
    } else if w == 3 {
        "Thu"
    } else if w == 4 {
        "Fri"
    } else if w == 5 {
        "Sat"
    } else {
        "Sun"
    }
}

fn month_str(m: u32) -> (r: &'static str)
    ensures
        r@ == month_name(m as int),
{
    if m <= 1 {
        "Jan"
    } else if m == 2 {
        "Feb"
    } else if m == 3 {
        "Mar"
    } else if m == 4 {
        "Apr"
    } else if m == 5 {
        "May"
    } else if m == 6 {
        "Jun"
    } else if m == 7 {
        "Jul"
    } else if m == 8 {
        "Aug"
    } else if m == 9 {
        "Sep"
    } else if m == 10 {
        "Oct"
    } else if m == 11 {
        "Nov"
    } else {
        "Dec"
    }
}

/// The RFC 5322 date of `secs` seconds after the Unix epoch, in UTC.
pub fn format_rfc5322(secs: u64) -> (r: String)
    ensures
        r@ == rfc5322_date(secs as int),
{
    let (y, mo, d, h, mi, sec) = unix_to_civil(secs);
    let days = secs / SECS_PER_DAY;
    let mut s = to_owned_str(weekday_str((days + 3) % 7));
    s.append(", ");
    push_decimal_padded(&mut s, d as u64, 2);
    s.append(" ");
    s.append(month_str(mo));
    s.append(" ");
    let ghost before_year = s@;
    if y < 0 {
        push_char(&mut s, '-');
        let mag = (0 - (y as i64)) as u64;
        push_decimal_padded(&mut s, mag, 3);
        assert(s@ == before_year + year_text(y)) by {
            reveal_strlit("-");
            assert(seq!['-'] == "-"@);
        }
    } else {
        push_decimal_padded(&mut s, y as u64, 4);
    }
    s.append(" ");
    push_decimal_padded(&mut s, h as u64, 2);
    s.append(":");
    push_decimal_padded(&mut s, mi as u64, 2);
    s.append(":");
    push_decimal_padded(&mut s, sec as u64, 2);
    s.append(" +0000");
    s
}

/// The RFC 5322 date of the present moment.
pub fn format_now_rfc5322() -> (r: String)
    ensures
        exists|t: u64| r@ == rfc5322_date(t as int),
{
    let t = now_secs();
    format_rfc5322(t)
}

/// The `Received:` trace field a delivered message is prefixed with, for a
/// peer that said `helo_domain` from `peer_ip`, at `secs`.
pub open spec fn received_spec(helo_domain: Seq<char>, peer_ip: Seq<char>, secs: int) -> Seq<
    char,
> {
    "Received: from "@ + helo_domain + " (["@ + peer_ip + "])\r\n\tby Hematite Steel; "@
        + rfc5322_date(secs) + "\r\n"@
}

/// The `Received:` trace field for a delivery at `secs`.
pub fn received_header_at(helo_domain: &str, peer_ip: &str, secs: u64) -> (r: String)
    ensures
        r@ == received_spec(helo_domain@, peer_ip@, secs as int),
{
    let mut s = to_owned_str("Received: from ");
    s.append(helo_domain);
    s.append(" ([");
    s.append(peer_ip);
    s.append("])\r\n\tby Hematite Steel; ");
    let date = format_rfc5322(secs);
    s.append(date.as_str());
    s.append("\r\n");
    s
}

/// The `Received:` trace field for a delivery now.
pub fn build_received_header(helo_domain: &str, peer_ip: &str) -> (r: String)
    ensures
        exists|t: u64| r@ == received_spec(helo_domain@, peer_ip@, t as int),
{
    let t = now_secs();
    received_header_at(helo_domain, peer_ip, t)
}

/// The default sender of the newsletter: `news@` the DKIM domain, or the
/// mail hostname when no DKIM domain is set. There is none without a
/// hostname to greet with or a DKIM key to sign with.
pub open spec fn newsletter_from_spec(hostname: Seq<char>, dkim_domain: Seq<char>, has_dkim_key: bool) -> Option<
    Seq<char>,
> {
    if hostname.len() == 0 || !has_dkim_key {
        None
    } else if dkim_domain.len() == 0 {
        Some("news@"@ + hostname)
    } else {
        Some("news@"@ + dkim_domain)
    }
}

/// Decide the newsletter's default sender from the mail settings.
pub fn newsletter_from(hostname: &str, dkim_domain: &str, has_dkim_key: bool) -> (r: Option<String>)
    ensures
        match r {
            Some(f) => newsletter_from_spec(hostname@, dkim_domain@, has_dkim_key) == Some(f@),
            None => newsletter_from_spec(hostname@, dkim_domain@, has_dkim_key) is None,
        },
{
    if hostname.is_empty() || !has_dkim_key {
        return None;
    }
    let domain = if dkim_domain.is_empty() {
        hostname
    } else {
        dkim_domain
    };
    let mut f = to_owned_str("news@");
    f.append(domain);
    Some(f)
}

} // verus!
