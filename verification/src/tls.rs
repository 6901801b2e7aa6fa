//! Which certificate a TLS handshake is answered with, which names an ACME
//! order certifies, when a cached certificate must be reissued, and reading
//! a PEM certificate chain.
//!
//! Certificates themselves are held by the caller; the table here refers to
//! each by the number the caller filed it under.

use vstd::prelude::*;
use crate::assoc::{assoc, keys_unique, lemma_assoc_dom, lemma_assoc_index, lemma_assoc_push, lemma_assoc_update};
use crate::principal::strings_view;
use crate::text::{ascii_lower_seq, eq_ignore_ascii_case, str_eq_ignore_ascii_case};

verus! {

// ---------------------------------------------------------------------------
// Host names
// ---------------------------------------------------------------------------

/// The lower-case form `str::to_lowercase` gives a string.
pub uninterp spec fn lowercase(s: Seq<char>) -> Seq<char>;

/// Trusted: calls `str::to_lowercase`, whose result depends on the text
/// alone and which std documents as the lowercase equivalent of the string;
/// for ASCII text that is the ASCII lower-case form. How other scripts are
/// lowered is not stated.
#[verifier::external_body]
pub(crate) fn to_lowercase(s: &str) -> (r: String)
    ensures
        r@ == lowercase(s@),
        crate::text::is_ascii_seq(s@) ==> r@ == ascii_lower_seq(s@),
{
    s.to_lowercase()
}

/// Host names are matched as their lower-case forms.
pub open spec fn host_key(name: Seq<char>) -> Seq<char> {
    lowercase(name)
}

// ---------------------------------------------------------------------------
// The certificate table
// ---------------------------------------------------------------------------

/// The protocol a certificate authority offers, alone, when it connects to
/// validate a `tls-alpn-01` challenge.
pub open spec fn acme_tls_alpn() -> Seq<u8> {
    seq![97u8, 99u8, 109u8, 101u8, 45u8, 116u8, 108u8, 115u8, 47u8, 49u8]
}

/// Certificates by host name, the default served when a name matches none,
/// and the challenge certificates served to a certificate authority.
pub struct CertTable {
    by_hostname: Vec<(String, usize)>,
    default_cert: Option<usize>,
    challenge: Vec<(String, usize)>,
}

/// The mathematical value of the table.
pub struct TableView {
    pub by_hostname: Map<Seq<char>, usize>,
    pub default_cert: Option<usize>,
    pub challenge: Map<Seq<char>, usize>,
}

/// A keyed list read by the characters of its keys.
pub open spec fn keyed_view(v: Seq<(String, usize)>) -> Seq<(Seq<char>, usize)> {
    Seq::new(v.len(), |i: int| (v[i].0@, v[i].1))
}

/// Each name of `names`, lowered, filed under `cert`, later names winning.
pub open spec fn file_names(m: Map<Seq<char>, usize>, names: Seq<Seq<char>>, cert: usize) -> Map<
    Seq<char>,
    usize,
>
    decreases names.len(),
{
    if names.len() == 0 {
        m
    } else {
        file_names(m, names.drop_last(), cert).insert(host_key(names.last()), cert)
    }
}

/// Whether the client offered exactly the ACME challenge protocol.
pub open spec fn is_acme_challenge(alpn: Seq<Seq<u8>>) -> bool {
    alpn.len() == 1 && alpn[0] == acme_tls_alpn()
}

/// The certificate a handshake gets: on an ACME challenge the challenge
/// certificate for its server name, if any; otherwise the certificate for
/// its server name, falling back to the default.
pub open spec fn resolve_spec(t: TableView, alpn: Seq<Seq<u8>>, sni: Option<Seq<char>>) -> Option<
    usize,
> {
    if is_acme_challenge(alpn) {
        match sni {
            None => None,
            Some(n) => if t.challenge.contains_key(host_key(n)) {
                Some(t.challenge[host_key(n)])
            } else {
                None
            },
        }
    } else {
        match sni {
            Some(n) => if t.by_hostname.contains_key(host_key(n)) {
                Some(t.by_hostname[host_key(n)])
            } else {
                t.default_cert
            },
            None => t.default_cert,
        }
    }
}

fn find_key(v: &Vec<(String, usize)>, k: &str) -> (r: Option<usize>)
    ensures
        match r {
            Some(i) => i < v@.len() && v@[i as int].0@ == k@,
            None => forall|i: int| 0 <= i < v@.len() ==> v@[i].0@ != k@,
        },
{
    let mut i: usize = 0;
    while i < v.len()
        invariant
            i <= v.len(),
            forall|j: int| 0 <= j < i ==> v@[j].0@ != k@,
        decreases v.len() - i,
    {
        if crate::text::str_eq(v[i].0.as_str(), k) {
            return Some(i);
        }
        i += 1;
    }
    None
}

/// Files `id` under `k`, replacing whatever was filed there.
fn put(v: &mut Vec<(String, usize)>, k: String, id: usize)
    requires
        keys_unique(keyed_view(old(v)@)),
    ensures
        keys_unique(keyed_view(final(v)@)),
        assoc(keyed_view(final(v)@)) == assoc(keyed_view(old(v)@)).insert(k@, id),
{
    let ghost kv = keyed_view(v@);
    match find_key(v, k.as_str()) {
        Some(i) => {
            proof {
                lemma_assoc_index(kv, i as int);
                lemma_assoc_update(kv, i as int, id);
            }
            v.set(i, (k, id));
            assert(keyed_view(v@) =~= kv.update(i as int, (kv[i as int].0, id)));
        },
        None => {
            proof {
                lemma_assoc_dom(kv, k@);
                lemma_assoc_push(kv, k@, id);
            }
            let ghost kk = k@;
            v.push((k, id));
            assert(keyed_view(v@) =~= kv.push((kk, id)));
        },
    }
}

/// Removes whatever is filed under `k`.
fn take_out(v: &mut Vec<(String, usize)>, k: &str)
    requires
        keys_unique(keyed_view(old(v)@)),
    ensures
        keys_unique(keyed_view(final(v)@)),
        assoc(keyed_view(final(v)@)) == assoc(keyed_view(old(v)@)).remove(k@),
{
    let ghost kv = keyed_view(v@);
    match find_key(v, k) {
        Some(i) => {
            proof {
                lemma_assoc_remove(kv, i as int);
            }
            v.remove(i);
            assert(keyed_view(v@) =~= kv.remove(i as int));
        },
        None => {
            proof {
                lemma_assoc_dom(kv, k@);
                assert(assoc(kv).remove(k@) =~= assoc(kv));
            }
        },
    }
}

/// Removing the entry at `i` from a list with distinct keys removes its key
/// from the map it stands for.
proof fn lemma_assoc_remove(s: Seq<(Seq<char>, usize)>, i: int)
    requires
        keys_unique(s),
        0 <= i < s.len(),
    ensures
        keys_unique(s.remove(i)),
        assoc(s.remove(i)) == assoc(s).remove(s[i].0),
{
    let t = s.remove(i);
    assert forall|a: int, b: int| 0 <= a < t.len() && 0 <= b < t.len() && a != b implies t[a].0
        != t[b].0 by {
        let aa = if a < i { a } else { a + 1 };
        let bb = if b < i { b } else { b + 1 };
        assert(t[a] == s[aa] && t[b] == s[bb]);
    }
    assert forall|k: Seq<char>| #[trigger] assoc(t).contains_key(k) == assoc(s).remove(
        s[i].0,
    ).contains_key(k) by {
        lemma_assoc_dom(t, k);
        lemma_assoc_dom(s, k);
        if assoc(t).contains_key(k) {
            let a = choose|a: int| 0 <= a < t.len() && t[a].0 == k;
            let aa = if a < i { a } else { a + 1 };
            assert(t[a] == s[aa]);
        }
        if assoc(s).contains_key(k) && k != s[i].0 {
            let a = choose|a: int| 0 <= a < s.len() && s[a].0 == k;
            assert(a != i);
            let aa = if a < i { a } else { a - 1 };
            assert(t[aa] == s[a]);
        }
    }
    assert forall|k: Seq<char>| #[trigger] assoc(t).contains_key(k) implies assoc(t)[k] == assoc(
        s,
    ).remove(s[i].0)[k] by {
        lemma_assoc_dom(t, k);
        let a = choose|a: int| 0 <= a < t.len() && t[a].0 == k;
        let aa = if a < i { a } else { a + 1 };
        assert(t[a] == s[aa]);
        lemma_assoc_index(t, a);
        lemma_assoc_index(s, aa);
    }
    assert(assoc(t) =~= assoc(s).remove(s[i].0));
}

impl View for CertTable {
    type V = TableView;

    closed spec fn view(&self) -> TableView {
        TableView {
            by_hostname: assoc(keyed_view(self.by_hostname@)),
            default_cert: self.default_cert,
            challenge: assoc(keyed_view(self.challenge@)),
        }
    }
}

impl CertTable {
    /// The table's own invariant: no name is filed twice.
    pub closed spec fn wf(&self) -> bool {
        &&& keys_unique(keyed_view(self.by_hostname@))
        &&& keys_unique(keyed_view(self.challenge@))
    }

    /// An empty table.
    pub fn new() -> (r: CertTable)
        ensures
            r.wf(),
            r@.by_hostname == Map::<Seq<char>, usize>::empty(),
            r@.default_cert is None,
            r@.challenge == Map::<Seq<char>, usize>::empty(),
    {
        let r = CertTable { by_hostname: Vec::new(), default_cert: None, challenge: Vec::new() };
        assert(keyed_view(r.by_hostname@) =~= Seq::<(Seq<char>, usize)>::empty());
        assert(keyed_view(r.challenge@) =~= Seq::<(Seq<char>, usize)>::empty());
        assert(assoc(Seq::<(Seq<char>, usize)>::empty()) == Map::<Seq<char>, usize>::empty());
        r
    }

    /// File certificate `cert` under each of `hostnames`, lowered. The first
    /// certificate ever filed becomes the default.
    pub fn insert_vhost_cert(&mut self, hostnames: &Vec<String>, cert: usize)
        requires
            old(self).wf(),
        ensures
            final(self).wf(),
            final(self)@.default_cert == match old(self)@.default_cert {
                Some(d) => Some(d),
                None => Some(cert),
            },
            final(self)@.by_hostname == file_names(
                old(self)@.by_hostname,
                strings_view(hostnames@),
                cert,
            ),
            final(self)@.challenge == old(self)@.challenge,
    {
        if self.default_cert.is_none() {
            self.default_cert = Some(cert);
        }
        let ghost start = assoc(keyed_view(self.by_hostname@));
        let ghost names = strings_view(hostnames@);
        let ghost d0 = self.default_cert;
        let ghost ch = self.challenge@;
        let mut i: usize = 0;
        while i < hostnames.len()
            invariant
                i <= hostnames.len(),
                self.default_cert == d0,
                self.challenge@ == ch,
                keys_unique(keyed_view(ch)),
                names == strings_view(hostnames@),
                keys_unique(keyed_view(self.by_hostname@)),
                assoc(keyed_view(self.by_hostname@)) == file_names(start, names.take(i as int), cert),
            decreases hostnames.len() - i,
        {
            let key = to_lowercase(hostnames[i].as_str());
            put(&mut self.by_hostname, key, cert);
            assert(names.take(i + 1).drop_last() == names.take(i as int));
            assert(names.take(i + 1).last() == hostnames@[i as int]@);
            i += 1;
        }
        assert(names.take(hostnames.len() as int) == names);
    }

    /// Serve `cert` to a certificate authority validating `hostname`.
    pub fn install_challenge(&mut self, hostname: &str, cert: usize)
        requires
            old(self).wf(),
        ensures
            final(self).wf(),
            final(self)@.challenge == old(self)@.challenge.insert(host_key(hostname@), cert),
            final(self)@.by_hostname == old(self)@.by_hostname,
            final(self)@.default_cert == old(self)@.default_cert,
    {
        let key = to_lowercase(hostname);
        put(&mut self.challenge, key, cert);
    }

    /// Stop serving a challenge certificate for `hostname`.
    pub fn remove_challenge(&mut self, hostname: &str)
        requires
            old(self).wf(),
        ensures
            final(self).wf(),
            final(self)@.challenge == old(self)@.challenge.remove(host_key(hostname@)),
            final(self)@.by_hostname == old(self)@.by_hostname,
            final(self)@.default_cert == old(self)@.default_cert,
    {
        let key = to_lowercase(hostname);
        take_out(&mut self.challenge, key.as_str());
    }

    /// The certificate to answer a handshake with, from the protocols the
    /// client offered (none when it offered none) and its server name.
    pub fn resolve(&self, alpn: &Vec<Vec<u8>>, sni: Option<&str>) -> (r: Option<usize>)
        requires
            self.wf(),
        ensures
            r == resolve_spec(
                self@,
                Seq::new(alpn@.len(), |i: int| alpn@[i]@),
                match sni {
                    Some(n) => Some(n@),
                    None => None,
                },
            ),
    {
        let ghost av = Seq::new(alpn@.len(), |i: int| alpn@[i]@);
        let acme: Vec<u8> = vec![97u8, 99u8, 109u8, 101u8, 45u8, 116u8, 108u8, 115u8, 47u8, 49u8];
        assert(acme@ == acme_tls_alpn());
        let challenge = alpn.len() == 1 && bytes_equal(&alpn[0], &acme);
        assert(challenge == is_acme_challenge(av)) by {
            if alpn.len() == 1 {
                assert(av[0] == alpn@[0]@);
            }
        }
        if challenge {
            match sni {
                None => None,
                Some(n) => {
                    let key = to_lowercase(n);
                    lookup(&self.challenge, key.as_str())
                },
            }
        } else {
            match sni {
                Some(n) => {
                    let key = to_lowercase(n);
                    match lookup(&self.by_hostname, key.as_str()) {
                        Some(c) => Some(c),
                        None => self.default_cert,
                    }
                },
                None => self.default_cert,
            }
        }
    }
}

fn bytes_equal(a: &Vec<u8>, b: &Vec<u8>) -> (r: bool)
    ensures
        r == (a@ == b@),
{
    if a.len() != b.len() {
        return false;
    }
    let mut i: usize = 0;
    while i < a.len()
        invariant
            i <= a.len(),
            a.len() == b.len(),
            forall|k: int| 0 <= k < i ==> a@[k] == b@[k],
        decreases a.len() - i,
    {
        if a[i] != b[i] {
            return false;
        }
        i += 1;
    }
    assert(a@ =~= b@);
    true
}

fn lookup(v: &Vec<(String, usize)>, k: &str) -> (r: Option<usize>)
    requires
        keys_unique(keyed_view(v@)),
    ensures
        r == (if assoc(keyed_view(v@)).contains_key(k@) {
            Some(assoc(keyed_view(v@))[k@])
        } else {
            None::<usize>
        }),
{
    let ghost kv = keyed_view(v@);
    proof {
        lemma_assoc_dom(kv, k@);
    }
    match find_key(v, k) {
        Some(i) => {
            proof {
                lemma_assoc_index(kv, i as int);
            }
            Some(v[i].1)
        },
        None => {
            assert(forall|j: int| 0 <= j < kv.len() ==> kv[j].0 != k@);
            None
        },
    }
}

/// A name filed for a certificate resolves to it on an ordinary handshake.
pub proof fn lemma_filed_name_resolves(
    t: TableView,
    names: Seq<Seq<char>>,
    cert: usize,
    k: int,
    alpn: Seq<Seq<u8>>,
)
    requires
        0 <= k < names.len(),
        !is_acme_challenge(alpn),
        forall|j: int| k < j < names.len() ==> host_key(#[trigger] names[j]) != host_key(names[k]),
    ensures
        resolve_spec(
            TableView {
                by_hostname: file_names(t.by_hostname, names, cert),
                default_cert: t.default_cert,
                challenge: t.challenge,
            },
            alpn,
            Some(names[k]),
        ) == Some(cert),
    decreases names.len(),
{
    if k < names.len() - 1 {
        let p = names.drop_last();
        assert forall|j: int| k < j < p.len() implies host_key(#[trigger] p[j]) != host_key(
            p[k],
        ) by {
            assert(p[j] == names[j]);
        }
        lemma_filed_name_resolves(t, p, cert, k, alpn);
        assert(p[k] == names[k]);
    }
}

// ---------------------------------------------------------------------------
// Names an ACME order certifies
// ---------------------------------------------------------------------------

/// Adds `h` unless it is empty or already listed, ignoring ASCII case.
pub open spec fn add_name(out: Seq<Seq<char>>, h: Seq<char>) -> Seq<Seq<char>> {
    if h.len() == 0 || exists|i: int| 0 <= i < out.len() && eq_ignore_ascii_case(out[i], h) {
        out
    } else {
        out.push(h)
    }
}

/// Every name of `hs` added in order.
pub open spec fn add_names(out: Seq<Seq<char>>, hs: Seq<Seq<char>>) -> Seq<Seq<char>>
    decreases hs.len(),
{
    if hs.len() == 0 {
        out
    } else {
        add_name(add_names(out, hs.drop_last()), hs.last())
    }
}

/// What an ACME order is refused for.
#[derive(Debug, PartialEq, Eq, Structural)]
pub enum AcmeNamesError {
    /// `acme.enabled` is on with no contact address.
    NoContactEmail,
    /// No host name was configured to certify.
    NoHostnames,
}

/// The names to certify: every vhost's host names, then the mail host name
/// when mail is on, then the extra domains -- in that order, each once
/// ignoring case, empty names skipped.
pub open spec fn acme_names_spec(
    contact_email: Seq<char>,
    vhost_names: Seq<Seq<char>>,
    mail_host: Option<Seq<char>>,
    extra: Seq<Seq<char>>,
) -> Result<Seq<Seq<char>>, AcmeNamesError> {
    if contact_email.len() == 0 {
        Err(AcmeNamesError::NoContactEmail)
    } else {
        let with_mail = match mail_host {
            Some(m) => add_name(add_names(seq![], vhost_names), m),
            None => add_names(seq![], vhost_names),
        };
        let all = add_names(with_mail, extra);
        if all.len() == 0 {
            Err(AcmeNamesError::NoHostnames)
        } else {
            Ok(all)
        }
    }
}

fn add_exec(out: &mut Vec<String>, h: &String)
    ensures
        strings_view(final(out)@) == add_name(strings_view(old(out)@), h@),
{
    let ghost ov = strings_view(out@);
    if h.as_str().is_empty() {
        return;
    }
    let mut i: usize = 0;
    while i < out.len()
        invariant
            i <= out.len(),
            ov == strings_view(out@),
            forall|j: int| 0 <= j < i ==> !eq_ignore_ascii_case(ov[j], h@),
        decreases out.len() - i,
    {
        if str_eq_ignore_ascii_case(out[i].as_str(), h.as_str()) {
            assert(eq_ignore_ascii_case(ov[i as int], h@));
            return;
        }
        i += 1;
    }
    out.push(h.clone());
    assert(strings_view(out@) =~= ov.push(h@));
}

fn add_all(out: &mut Vec<String>, hs: &Vec<String>)
    ensures
        strings_view(final(out)@) == add_names(strings_view(old(out)@), strings_view(hs@)),
{
    let ghost start = strings_view(out@);
    let ghost hv = strings_view(hs@);
    let mut i: usize = 0;
    while i < hs.len()
        invariant
            i <= hs.len(),
            hv == strings_view(hs@),
            strings_view(out@) == add_names(start, hv.take(i as int)),
        decreases hs.len() - i,
    {
        add_exec(out, &hs[i]);
        assert(hv.take(i + 1).drop_last() == hv.take(i as int));
        assert(hv.take(i + 1).last() == hs@[i as int]@);
        i += 1;
    }
    assert(hv.take(hs.len() as int) == hv);
}

/// Collect the names to certify, preserving order and ignoring duplicates
/// (a mail host name is commonly also a vhost's). `vhost_names` is every
/// vhost's host names in order; `mail_host` is the mail listeners' greeting
/// name when mail is on, since they share the certificate.
pub fn acme_hostnames(
    contact_email: &str,
    vhost_names: &Vec<String>,
    mail_host: Option<&String>,
    extra_domains: &Vec<String>,
) -> (r: Result<Vec<String>, AcmeNamesError>)
    ensures
        match r {
            Ok(v) => acme_names_spec(
                contact_email@,
                strings_view(vhost_names@),
                match mail_host {
                    Some(m) => Some(m@),
                    None => None,
                },
                strings_view(extra_domains@),
            ) == Ok::<Seq<Seq<char>>, AcmeNamesError>(strings_view(v@)),
            Err(e) => acme_names_spec(
                contact_email@,
                strings_view(vhost_names@),
                match mail_host {
                    Some(m) => Some(m@),
                    None => None,
                },
                strings_view(extra_domains@),
            ) == Err::<Seq<Seq<char>>, AcmeNamesError>(e),
        },
{
    if contact_email.is_empty() {
        return Err(AcmeNamesError::NoContactEmail);
    }
    let mut all: Vec<String> = Vec::new();
    assert(strings_view(all@) =~= Seq::<Seq<char>>::empty());
    add_all(&mut all, vhost_names);
    match mail_host {
        Some(m) => add_exec(&mut all, m),
        None => {},
    }
    add_all(&mut all, extra_domains);
    if all.len() == 0 {
        return Err(AcmeNamesError::NoHostnames);
    }
    Ok(all)
}

/// No two names of an order are the same name in different case, and none
/// is empty.
pub proof fn lemma_names_distinct(out: Seq<Seq<char>>, hs: Seq<Seq<char>>)
    requires
        forall|i: int, j: int|
            0 <= i < j < out.len() ==> !eq_ignore_ascii_case(#[trigger] out[i], #[trigger] out[j]),
        forall|i: int| 0 <= i < out.len() ==> (#[trigger] out[i]).len() > 0,
    ensures
        forall|i: int, j: int|
            0 <= i < j < add_names(out, hs).len() ==> !eq_ignore_ascii_case(
                #[trigger] add_names(out, hs)[i],
                #[trigger] add_names(out, hs)[j],
            ),
        forall|i: int| 0 <= i < add_names(out, hs).len() ==> (#[trigger] add_names(out, hs)[i]).len()
            > 0,
    decreases hs.len(),
{
    if hs.len() > 0 {
        lemma_names_distinct(out, hs.drop_last());
        let p = add_names(out, hs.drop_last());
        let h = hs.last();
        if !(h.len() == 0 || exists|i: int| 0 <= i < p.len() && eq_ignore_ascii_case(p[i], h)) {
            let q = p.push(h);
            assert forall|i: int, j: int| 0 <= i < j < q.len() implies !eq_ignore_ascii_case(
                #[trigger] q[i],
                #[trigger] q[j],
            ) by {
                if j == q.len() - 1 {
                    assert(q[j] == h);
                    assert(q[i] == p[i]);
                    if eq_ignore_ascii_case(q[i], q[j]) {
                        assert(eq_ignore_ascii_case(p[i], h));
                    }
                } else {
                    assert(q[i] == p[i] && q[j] == p[j]);
                }
            }
            assert forall|i: int| 0 <= i < q.len() implies (#[trigger] q[i]).len() > 0 by {
                if i < p.len() {
                    assert(q[i] == p[i]);
                }
            }
        }
    }
}

// ---------------------------------------------------------------------------
// Renewal
// ---------------------------------------------------------------------------

/// The wanted names a certificate's own names do not cover, ignoring case.
pub open spec fn uncovered_spec(wanted: Seq<Seq<char>>, covered: Seq<Seq<char>>) -> Seq<Seq<char>>
    decreases wanted.len(),
{
    if wanted.len() == 0 {
        seq![]
    } else {
        let rest = uncovered_spec(wanted.drop_last(), covered);
        if exists|i: int| 0 <= i < covered.len() && eq_ignore_ascii_case(covered[i], wanted.last()) {
            rest
        } else {
            rest.push(wanted.last())
        }
    }
}

/// The names an order wants that the cached certificate does not carry.
pub fn uncovered(wanted: &Vec<String>, covered: &Vec<String>) -> (r: Vec<String>)
    ensures
        strings_view(r@) == uncovered_spec(strings_view(wanted@), strings_view(covered@)),
{
    let ghost wv = strings_view(wanted@);
    let ghost cv = strings_view(covered@);
    let mut out: Vec<String> = Vec::new();
    let mut i: usize = 0;
    assert(strings_view(out@) =~= Seq::<Seq<char>>::empty());
    while i < wanted.len()
        invariant
            i <= wanted.len(),
            wv == strings_view(wanted@),
            cv == strings_view(covered@),
            strings_view(out@) == uncovered_spec(wv.take(i as int), cv),
        decreases wanted.len() - i,
    {
        let w = &wanted[i];
        let mut found = false;
        let mut j: usize = 0;
        while j < covered.len()
            invariant
                j <= covered.len(),
                cv == strings_view(covered@),
                found == exists|k: int| 0 <= k < j && eq_ignore_ascii_case(cv[k], w@),
            decreases covered.len() - j,
        {
            if str_eq_ignore_ascii_case(covered[j].as_str(), w.as_str()) {
                assert(eq_ignore_ascii_case(cv[j as int], w@));
                found = true;
            }
            j += 1;
        }
        assert(wv.take(i + 1).drop_last() == wv.take(i as int));
        assert(wv.take(i + 1).last() == w@);
        if !found {
            let ghost before = out@;
            out.push(w.clone());
            assert(strings_view(out@) =~= strings_view(before).push(w@));
        }
        i += 1;
    }
    assert(wv.take(wanted.len() as int) == wv);
    out
}

/// What reading the cached certificate found.
pub enum CachedCert {
    /// There is no cached certificate.
    Missing,
    /// It is there but could not be read, or its names could not be parsed.
    Unreadable,
    /// It expires within the renewal lead.
    ExpiresSoon,
    /// It is current and carries these names.
    Current(Vec<String>),
}

/// Whether an order must be issued now: no usable certificate, one about
/// to expire, or one that leaves a wanted name uncovered.
pub open spec fn needs_renewal_spec(cached: CachedCert, wanted: Seq<Seq<char>>) -> bool {
    match cached {
        CachedCert::Current(names) => uncovered_spec(wanted, strings_view(names@)).len() > 0,
        _ => true,
    }
}

/// Decide whether the cached certificate must be reissued.
pub fn needs_renewal(cached: &CachedCert, wanted: &Vec<String>) -> (r: bool)
    ensures
        r == needs_renewal_spec(*cached, strings_view(wanted@)),
{
    match cached {
        CachedCert::Current(names) => uncovered(wanted, names).len() > 0,
        _ => true,
    }
}

proof fn lemma_uncovered_empty(wanted: Seq<Seq<char>>, covered: Seq<Seq<char>>)
    ensures
        uncovered_spec(wanted, covered).len() == 0 <==> forall|k: int|
            0 <= k < wanted.len() ==> exists|i: int|
                0 <= i < covered.len() && eq_ignore_ascii_case(covered[i], #[trigger] wanted[k]),
    decreases wanted.len(),
{
    if wanted.len() > 0 {
        let w = wanted.drop_last();
        lemma_uncovered_empty(w, covered);
        if uncovered_spec(wanted, covered).len() == 0 {
            assert forall|k: int| 0 <= k < wanted.len() implies exists|i: int|
                0 <= i < covered.len() && eq_ignore_ascii_case(covered[i], #[trigger] wanted[k]) by {
                if k < w.len() {
                    assert(wanted[k] == w[k]);
                }
            }
        } else {
            let rest = uncovered_spec(w, covered);
            if rest.len() == 0 {
                assert(forall|k: int| 0 <= k < w.len() ==> exists|i: int|
                    0 <= i < covered.len() && eq_ignore_ascii_case(covered[i], #[trigger] w[k]));
                assert(!exists|i: int|
                    0 <= i < covered.len() && eq_ignore_ascii_case(covered[i], wanted.last()));
                assert(wanted[wanted.len() - 1] == wanted.last());
            } else {
                let k0 = choose|k: int| 0 <= k < w.len() && !exists|i: int|
                    0 <= i < covered.len() && eq_ignore_ascii_case(covered[i], #[trigger] w[k]);
                assert(wanted[k0] == w[k0]);
            }
        }
    }
}

/// No order is issued only for a cached certificate that is current and
/// carries every wanted name (names compared regardless of ASCII case); a
/// missing, unreadable or expiring certificate is always renewed.
pub proof fn lemma_renewal_spares_only_a_covering_current_cert(
    cached: CachedCert,
    wanted: Seq<Seq<char>>,
)
    ensures
        !needs_renewal_spec(cached, wanted) <==> (cached matches CachedCert::Current(names)
            && forall|k: int|
            0 <= k < wanted.len() ==> exists|i: int|
                0 <= i < names@.len() && eq_ignore_ascii_case(
                    names@[i]@,
                    #[trigger] wanted[k],
                )),
{
    if let CachedCert::Current(names) = cached {
        lemma_uncovered_empty(wanted, strings_view(names@));
        let sv = strings_view(names@);
        assert forall|k: int| 0 <= k < wanted.len() implies ((exists|i: int|
            0 <= i < sv.len() && eq_ignore_ascii_case(sv[i], #[trigger] wanted[k])) <==> (exists|
            i: int|
            0 <= i < names@.len() && eq_ignore_ascii_case(names@[i]@, wanted[k]))) by {
            if exists|i: int| 0 <= i < sv.len() && eq_ignore_ascii_case(sv[i], wanted[k]) {
                let i = choose|i: int| 0 <= i < sv.len() && eq_ignore_ascii_case(sv[i], wanted[k]);
                assert(sv[i] == names@[i]@);
            }
            if exists|i: int| 0 <= i < names@.len() && eq_ignore_ascii_case(names@[i]@, wanted[k]) {
                let i = choose|i: int|
                    0 <= i < names@.len() && eq_ignore_ascii_case(names@[i]@, wanted[k]);
                assert(sv[i] == names@[i]@);
            }
        }
    }
}

/// Seconds before expiry at which a certificate is renewed.
pub const RENEWAL_LEAD_SECS: i64 = 2592000;
/// Seconds between renewal checks.
pub const RENEWAL_POLL_SECS: u64 = 86400;

/// The protocols the TLS listener advertises: HTTP/1.1 always, and the ACME
/// challenge protocol when certificates are issued by ACME.
pub fn alpn_protocols(acme: bool) -> (r: Vec<Vec<u8>>)
    ensures
        r@.len() == if acme {
            2int
        } else {
            1int
        },
        r@[0]@ == seq![104u8, 116u8, 116u8, 112u8, 47u8, 49u8, 46u8, 49u8],
        acme ==> r@[1]@ == acme_tls_alpn(),
{
    let mut v: Vec<Vec<u8>> = Vec::new();
    v.push(vec![104u8, 116u8, 116u8, 112u8, 47u8, 49u8, 46u8, 49u8]);
    if acme {
        v.push(vec![97u8, 99u8, 109u8, 101u8, 45u8, 116u8, 108u8, 115u8, 47u8, 49u8]);
    }
    v
}

// ---------------------------------------------------------------------------
// PEM
// ---------------------------------------------------------------------------

/// The DER certificates `rustls_pemfile::certs` reads from PEM bytes, in
/// order, or none when it meets an error.
pub uninterp spec fn pem_certificates_of(pem: Seq<u8>) -> Option<Seq<Seq<u8>>>;

/// Trusted: calls `rustls_pemfile::certs` over the bytes and collects what
/// it yields, stopping at the first error. The certificates depend on the
/// bytes alone; which sections are certificates and how each is decoded is
/// not stated.
#[verifier::external_body]
fn pem_certificates(pem: &[u8]) -> (r: Option<Vec<Vec<u8>>>)
    ensures
        match r {
            Some(v) => pem_certificates_of(pem@) == Some(Seq::new(v@.len(), |i: int| v@[i]@)),
            None => pem_certificates_of(pem@) is None,
        },
{
    let mut rd: &[u8] = pem;
    rustls_pemfile::certs(&mut rd).map(|c| c.map(|d| d.to_vec())).collect::<Result<
        Vec<Vec<u8>>,
        std::io::Error,
    >>().ok()
}

/// Why a certificate chain could not be read.
#[derive(Debug, PartialEq, Eq, Structural)]
pub enum PemError {
    /// A section of the PEM text would not decode.
    Unparsable,
    /// The text held no certificate.
    NoCertificates,
}

/// The DER certificates of an issued chain, in order: refused when the PEM
/// will not parse or holds none.
pub fn pem_to_cert_chain(cert_pem: &[u8]) -> (r: Result<Vec<Vec<u8>>, PemError>)
    ensures
        match pem_certificates_of(cert_pem@) {
            None => r == Err::<Vec<Vec<u8>>, PemError>(PemError::Unparsable),
            Some(c) => if c.len() == 0 {
                r == Err::<Vec<Vec<u8>>, PemError>(PemError::NoCertificates)
            } else {
                r matches Ok(v) && Seq::new(v@.len(), |i: int| v@[i]@) == c
            },
        },
{
    match pem_certificates(cert_pem) {
        None => Err(PemError::Unparsable),
        Some(v) => {
            if v.len() == 0 {
                Err(PemError::NoCertificates)
            } else {
                Ok(v)
            }
        },
    }
}

} // verus!
