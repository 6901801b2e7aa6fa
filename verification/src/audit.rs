//! The admin audit log's line format.
//!
//! One entry per line:
//!
//! ```text
//! <unix_seconds> <admin> <verb> <result> <detail>
//! ```
//!
//! `admin` is the actor's name, or `(anon)` when no identity was
//! established; `verb` is a dotted action name; `result` is `ok` or `err`;
//! `detail` is free-form `key=value` content. Writing the line to the file is
//! the caller's, and a failure to write never fails the action audited.

use vstd::prelude::*;
use crate::text::{decimal, push_char, push_decimal, to_owned_str};

verus! {

/// File name of the admin audit log, relative to the working directory.
pub const ADMIN_AUDIT_LOG_NAME: &'static str = "admin-audit.log";
/// Verb of a dashboard sign-in, by passphrase or by signed command.
pub const VERB_DASHBOARD_LOGIN: &'static str = "dashboard.login";
/// Verb of a dashboard sign-out.
pub const VERB_DASHBOARD_LOGOUT: &'static str = "dashboard.logout";
/// Actor recorded when no identity was established.
pub const ADMIN_ANON: &'static str = "(anon)";
/// Result of an action that succeeded.
pub const RESULT_OK: &'static str = "ok";
/// Result of an action that failed.
pub const RESULT_ERR: &'static str = "err";

/// One audit entry, before it is stamped with the time.
pub struct AuditEntry {
    pub admin: String,
    pub verb: String,
    pub result: String,
    pub detail: String,
}

/// The mathematical value of an audit entry.
pub struct EntryView {
    pub admin: Seq<char>,
    pub verb: Seq<char>,
    pub result: Seq<char>,
    pub detail: Seq<char>,
}

impl View for AuditEntry {
    type V = EntryView;

    open spec fn view(&self) -> EntryView {
        EntryView {
            admin: self.admin@,
            verb: self.verb@,
            result: self.result@,
            detail: self.detail@,
        }
    }
}

/// The line recording `e` at `secs`, newline included.
pub open spec fn audit_line_spec(secs: nat, e: EntryView) -> Seq<char> {
    decimal(secs) + seq![' '] + e.admin + seq![' '] + e.verb + seq![' '] + e.result + seq![' ']
        + e.detail + seq!['\n']
}

impl AuditEntry {
    /// An entry from its four parts.
    pub fn new(admin: &str, verb: &str, result: &str, detail: &str) -> (r: AuditEntry)
        ensures
            r@ == (EntryView { admin: admin@, verb: verb@, result: result@, detail: detail@ }),
    {
        AuditEntry {
            admin: to_owned_str(admin),
            verb: to_owned_str(verb),
            result: to_owned_str(result),
            detail: to_owned_str(detail),
        }
    }

    /// The log line for this entry at `secs` seconds since the epoch.
    pub fn line(&self, secs: u64) -> (r: String)
        ensures
            r@ == audit_line_spec(secs as nat, self@),
    {
        let mut s = String::new();
        push_decimal(&mut s, secs);
        push_char(&mut s, ' ');
        s.append(self.admin.as_str());
        push_char(&mut s, ' ');
        s.append(self.verb.as_str());
        push_char(&mut s, ' ');
        s.append(self.result.as_str());
        push_char(&mut s, ' ');
        s.append(self.detail.as_str());
        push_char(&mut s, '\n');
        assert(s@ =~= audit_line_spec(secs as nat, self@));
        s
    }
}

/// A line holds exactly one newline, at its end, whenever none of the
/// entry's parts holds one.
pub proof fn lemma_one_entry_per_line(secs: nat, e: EntryView)
    requires
        !e.admin.contains('\n'),
        !e.verb.contains('\n'),
        !e.result.contains('\n'),
        !e.detail.contains('\n'),
    ensures
        audit_line_spec(secs, e).last() == '\n',
        !audit_line_spec(secs, e).drop_last().contains('\n'),
{
    let d = decimal(secs);
    crate::text::lemma_decimal_digits(secs);
    let body = d + seq![' '] + e.admin + seq![' '] + e.verb + seq![' '] + e.result + seq![' ']
        + e.detail;
    assert(audit_line_spec(secs, e) == body.push('\n'));
    assert(audit_line_spec(secs, e).drop_last() == body);
    if body.contains('\n') {
        let k = choose|k: int| 0 <= k < body.len() && body[k] == '\n';
        let a = d.len() as int;
        let b = a + 1 + e.admin.len();
        let c = b + 1 + e.verb.len();
        let f = c + 1 + e.result.len();
        if k < a {
            assert(d[k] == body[k]);
        } else if k == a || k == b || k == c || k == f {
        } else if k < b {
            assert(e.admin[k - a - 1] == body[k]);
        } else if k < c {
            assert(e.verb[k - b - 1] == body[k]);
        } else if k < f {
            assert(e.result[k - c - 1] == body[k]);
        } else {
            assert(e.detail[k - f - 1] == body[k]);
        }
    }
}

} // verus!
