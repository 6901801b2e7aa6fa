//! The decisions of the operator's shell: which command a word names, what
//! an `admin` subcommand asks for, who may enrol admins, how the admin list
//! prints, how a new passphrase is confirmed, and where the app root is.

use vstd::prelude::*;
use crate::alert::{join, join_spec};
use crate::audit::{AuditEntry, EntryView, RESULT_ERR, RESULT_OK};
use crate::principal::{grants, scopes_grant, strings_view, SCOPE_ADMIN};
use crate::text::{
    chars_of, decimal, has_prefix, push_char, push_decimal, split_chars, split_spec,
    starts_with, str_eq, string_from_chars, to_owned_str, trim_chars, trim_spec,
};

verus! {

// ---------------------------------------------------------------------------
// Commands
// ---------------------------------------------------------------------------

/// A shell command.
#[derive(Debug, PartialEq, Eq, Structural, Clone, Copy)]
pub enum ShellCommand {
    Help,
    Exit,
    Server,
    Shell,
    Cert,
    Acme,
    Cd,
    Ls,
    Pwd,
    Unseal,
    Secrets,
    Wallet,
    Admin,
    Mailpass,
    /// Not built in: offered to the app's extension.
    Extension,
}

/// The command a word names.
pub open spec fn shell_command_spec(word: Seq<char>) -> ShellCommand {
    if word == "help"@ {
        ShellCommand::Help
    } else if word == "exit"@ {
        ShellCommand::Exit
    } else if word == "server"@ {
        ShellCommand::Server
    } else if word == "shell"@ {
        ShellCommand::Shell
    } else if word == "cert"@ {
        ShellCommand::Cert
    } else if word == "acme"@ {
        ShellCommand::Acme
    } else if word == "cd"@ {
        ShellCommand::Cd
    } else if word == "ls"@ {
        ShellCommand::Ls
    } else if word == "pwd"@ {
        ShellCommand::Pwd
    } else if word == "unseal"@ {
        ShellCommand::Unseal
    } else if word == "secrets"@ {
        ShellCommand::Secrets
    } else if word == "wallet"@ {
        ShellCommand::Wallet
    } else if word == "admin"@ {
        ShellCommand::Admin
    } else if word == "mailpass"@ {
        ShellCommand::Mailpass
    } else {
        ShellCommand::Extension
    }
}

/// Decide which command a word names.
pub fn shell_command(word: &str) -> (r: ShellCommand)
    ensures
        r == shell_command_spec(word@),
{
    if str_eq(word, "help") {
        ShellCommand::Help
    } else if str_eq(word, "exit") {
        ShellCommand::Exit
    } else if str_eq(word, "server") {
        ShellCommand::Server
    } else if str_eq(word, "shell") {
        ShellCommand::Shell
    } else if str_eq(word, "cert") {
        ShellCommand::Cert
    } else if str_eq(word, "acme") {
        ShellCommand::Acme
    } else if str_eq(word, "cd") {
        ShellCommand::Cd
    } else if str_eq(word, "ls") {
        ShellCommand::Ls
    } else if str_eq(word, "pwd") {
        ShellCommand::Pwd
    } else if str_eq(word, "unseal") {
        ShellCommand::Unseal
    } else if str_eq(word, "secrets") {
        ShellCommand::Secrets
    } else if str_eq(word, "wallet") {
        ShellCommand::Wallet
    } else if str_eq(word, "admin") {
        ShellCommand::Admin
    } else if str_eq(word, "mailpass") {
        ShellCommand::Mailpass
    } else {
        ShellCommand::Extension
    }
}

// ---------------------------------------------------------------------------
// Admin subcommands
// ---------------------------------------------------------------------------

/// The scopes of `admin --add ... --scopes a,b`: each comma-separated
/// piece trimmed, none dropped.
pub open spec fn cli_scopes_spec(raw: Seq<char>) -> Seq<Seq<char>> {
    Seq::new(split_spec(raw, ',').len(), |i: int| trim_spec(split_spec(raw, ',')[i]))
}

/// Read the `--scopes` argument of `admin --add`.
pub fn cli_scopes(raw: &str) -> (r: Vec<String>)
    ensures
        strings_view(r@) == cli_scopes_spec(raw@),
{
    let cs = chars_of(raw);
    let pieces = split_chars(&cs, ',');
    let ghost want = cli_scopes_spec(raw@);
    let mut out: Vec<String> = Vec::new();
    let mut i: usize = 0;
    while i < pieces.len()
        invariant
            i <= pieces.len(),
            pieces@.len() == split_spec(raw@, ',').len(),
            forall|k: int| 0 <= k < pieces@.len() ==> (#[trigger] pieces@[k])@ == split_spec(
                raw@,
                ',',
            )[k],
            want == cli_scopes_spec(raw@),
            strings_view(out@) == want.take(i as int),
        decreases pieces.len() - i,
    {
        let t = trim_chars(&pieces[i]);
        let ghost before = out@;
        out.push(string_from_chars(&t));
        assert(strings_view(out@) =~= strings_view(before).push(want[i as int]));
        assert(want.take(i + 1) == want.take(i as int).push(want[i as int]));
        i += 1;
    }
    assert(want.take(pieces.len() as int) == want);
    out
}

/// The expiry of an enrolment `expires_in` seconds after `now`: never for
/// zero, and saturating.
pub fn expiry_at(expires_in: u64, now: u64) -> (r: u64)
    ensures
        r == if expires_in == 0 {
            0
        } else if now + expires_in > u64::MAX {
            u64::MAX
        } else {
            (now + expires_in) as u64
        },
{
    if expires_in == 0 {
        0
    } else {
        now.saturating_add(expires_in)
    }
}

/// Whether the admin who unlocked the wallet may enrol and remove admins:
/// it holds `admin` or the wildcard.
pub fn unlocked_has_admin_scope(scopes: &Vec<String>) -> (r: bool)
    ensures
        r == grants(strings_view(scopes@), SCOPE_ADMIN@),
{
    scopes_grant(scopes, SCOPE_ADMIN)
}

/// `text` left-aligned in a field `width` wide, as `{:<width}` pads it.
pub open spec fn pad_right(text: Seq<char>, width: nat) -> Seq<char> {
    if text.len() >= width {
        text
    } else {
        text + Seq::new((width - text.len()) as nat, |_i: int| ' ')
    }
}

fn push_padded(s: &mut String, text: &str, width: usize)
    ensures
        final(s)@ == old(s)@ + pad_right(text@, width as nat),
{
    let cs = chars_of(text);
    s.append(text);
    if cs.len() < width {
        let ghost after = s@;
        let fill = width - cs.len();
        let mut i: usize = 0;
        while i < fill
            invariant
                i <= fill,
                s@ == after + Seq::new(i as nat, |_j: int| ' '),
            decreases fill - i,
        {
            push_char(s, ' ');
            assert(Seq::new((i + 1) as nat, |_j: int| ' ') == Seq::new(i as nat, |_j: int| ' ').push(
                ' ',
            ));
            i += 1;
        }
        assert(after + Seq::new(fill as nat, |_j: int| ' ') == old(s)@ + pad_right(
            text@,
            width as nat,
        ));
    }
}

/// One line of the admin list: name, expiry (`never` for zero) and scopes.
pub open spec fn admin_line(name: Seq<char>, expires_at: u64, scopes: Seq<Seq<char>>) -> Seq<char> {
    pad_right(name, 24) + seq![' '] + pad_right(
        if expires_at == 0 {
            "never"@
        } else {
            decimal(expires_at as nat)
        },
        12,
    ) + seq![' '] + join_spec(scopes, ","@)
}

/// The admin list: a header line, then one line per admin.
pub open spec fn admin_list_spec(admins: Seq<(Seq<char>, u64, Seq<Seq<char>>)>) -> Seq<char> {
    join_spec(
        seq![pad_right("name"@, 24) + seq![' '] + pad_right("expires_at"@, 12) + seq![' ']
            + "scopes"@] + Seq::new(admins.len(), |i: int| admin_line(admins[i].0, admins[i].1, admins[i].2)),
        "\n"@,
    )
}

/// An admin as the list shows it.
pub struct AdminRow {
    pub name: String,
    pub expires_at: u64,
    pub scopes: Vec<String>,
}

/// Format `admin --list`.
pub fn admin_list(admins: &Vec<AdminRow>) -> (r: String)
    ensures
        r@ == admin_list_spec(
            Seq::new(
                admins@.len(),
                |i: int| (admins@[i].name@, admins@[i].expires_at, strings_view(admins@[i].scopes@)),
            ),
        ),
{
    let ghost av = Seq::new(
        admins@.len(),
        |i: int| (admins@[i].name@, admins@[i].expires_at, strings_view(admins@[i].scopes@)),
    );
    let ghost want = seq![pad_right("name"@, 24) + seq![' '] + pad_right("expires_at"@, 12) + seq![' ']
        + "scopes"@] + Seq::new(av.len(), |i: int| admin_line(av[i].0, av[i].1, av[i].2));
    let mut lines: Vec<String> = Vec::new();
    let mut head = String::new();
    push_padded(&mut head, "name", 24);
    push_char(&mut head, ' ');
    push_padded(&mut head, "expires_at", 12);
    push_char(&mut head, ' ');
    head.append("scopes");
    assert(head@ =~= want[0]);
    lines.push(head);
    let mut i: usize = 0;
    assert(strings_view(lines@) =~= want.take(1));
    while i < admins.len()
        invariant
            i <= admins.len(),
            av.len() == admins@.len(),
            forall|k: int| 0 <= k < av.len() ==> #[trigger] av[k] == (admins@[k].name@, admins@[k].expires_at, strings_view(admins@[k].scopes@)),
            want.len() == av.len() + 1,
            forall|k: int| 0 <= k < av.len() ==> #[trigger] want[k + 1] == admin_line(av[k].0, av[k].1, av[k].2),
            strings_view(lines@) == want.take(i + 1),
        decreases admins.len() - i,
    {
        let a = &admins[i];
        let mut line = String::new();
        push_padded(&mut line, a.name.as_str(), 24);
        push_char(&mut line, ' ');
        if a.expires_at == 0 {
            push_padded(&mut line, "never", 12);
        } else {
            let e = crate::text::fmt_u64(a.expires_at);
            push_padded(&mut line, e.as_str(), 12);
        }
        push_char(&mut line, ' ');
        let j = join(&a.scopes, ",");
        line.append(j.as_str());
        let ghost before = lines@;
        assert(av[i as int] == (a.name@, a.expires_at, strings_view(a.scopes@)));
        assert(line@ == admin_line(av[i as int].0, av[i as int].1, av[i as int].2));
        lines.push(line);
        assert(strings_view(lines@) =~= strings_view(before).push(want[i + 1]));
        assert(want.take(i + 2) == want.take(i + 1).push(want[i + 1]));
        i += 1;
    }
    assert(want.take(admins.len() + 1) == want);
    join(&lines, "\n")
}

/// The audit entry of a CLI admin action: `verb` is `admin.add`,
/// `admin.remove`, and so on, the actor the admin who unlocked the wallet.
pub fn cli_entry(caller: &str, verb: &str, ok: bool, detail: &str) -> (r: AuditEntry)
    ensures
        r@ == (EntryView {
            admin: caller@,
            verb: verb@,
            result: if ok {
                RESULT_OK@
            } else {
                RESULT_ERR@
            },
            detail: detail@,
        }),
{
    AuditEntry::new(caller, verb, if ok {
        RESULT_OK
    } else {
        RESULT_ERR
    }, detail)
}

// ---------------------------------------------------------------------------
// Confirming a new passphrase
// ---------------------------------------------------------------------------

/// What follows one attempt at typing a new passphrase twice.
#[derive(Debug, PartialEq, Eq, Structural)]
pub enum PassStep {
    /// The two agree: take it.
    Accept,
    /// They differ: ask again, this many failures in.
    Retry(usize),
    /// Too many failures.
    GiveUp,
}

/// Decide after an attempt, `failures` earlier attempts having failed:
/// matching passphrases are taken; a mismatch is retried until more than
/// `max_attempts` have failed.
pub fn confirm_step(matched: bool, failures: usize, max_attempts: usize) -> (r: PassStep)
    requires
        failures < usize::MAX,
    ensures
        matched ==> r == PassStep::Accept,
        !matched && failures + 1 > max_attempts ==> r == PassStep::GiveUp,
        !matched && failures + 1 <= max_attempts ==> r == PassStep::Retry((failures + 1) as usize),
{
    if matched {
        return PassStep::Accept;
    }
    let count = failures + 1;
    if count > max_attempts {
        PassStep::GiveUp
    } else {
        PassStep::Retry(count)
    }
}

// ---------------------------------------------------------------------------
// The app root
// ---------------------------------------------------------------------------

/// Where the configured `app_root` says the app lives.
#[derive(Debug)]
pub enum AppRootSource {
    /// The current directory: `current`, `here`, `auto` or `.`.
    CurrentDir,
    /// The `STEEL_APP_ROOT` environment variable: `env`.
    Env,
    /// Under the home directory: `~/...`, with the part after `~`.
    Home(String),
    /// Under the current directory: `./...`, with the part after `./`.
    UnderCurrent(String),
    /// The path as written.
    Literal(String),
}

/// Read the `app_root` setting.
pub fn app_root_source(root: &str) -> (r: AppRootSource)
    ensures
        root@ == "current"@ || root@ == "here"@ || root@ == "auto"@ || root@ == "."@ ==> r
            == AppRootSource::CurrentDir,
        !(root@ == "current"@ || root@ == "here"@ || root@ == "auto"@ || root@ == "."@) && root@
            == "env"@ ==> r == AppRootSource::Env,
        !(root@ == "current"@ || root@ == "here"@ || root@ == "auto"@ || root@ == "."@ || root@
            == "env"@) && has_prefix(root@, "~/"@) ==> (r matches AppRootSource::Home(rest) && rest@
            == root@.subrange(1, root@.len() as int)),
        !(root@ == "current"@ || root@ == "here"@ || root@ == "auto"@ || root@ == "."@ || root@
            == "env"@) && !has_prefix(root@, "~/"@) && has_prefix(root@, "./"@) ==> (
        r matches AppRootSource::UnderCurrent(rest) && rest@ == root@.subrange(
            2,
            root@.len() as int,
        )),
        !(root@ == "current"@ || root@ == "here"@ || root@ == "auto"@ || root@ == "."@ || root@
            == "env"@) && !has_prefix(root@, "~/"@) && !has_prefix(root@, "./"@) ==> (
        r matches AppRootSource::Literal(p) && p@ == root@),
{
    if str_eq(root, "current") || str_eq(root, "here") || str_eq(root, "auto") || str_eq(root, ".") {
        return AppRootSource::CurrentDir;
    }
    if str_eq(root, "env") {
        return AppRootSource::Env;
    }
    let cs = chars_of(root);
    if starts_with(root, "~/") {
        proof {
            reveal_strlit("~/");
        }
        let rest = tail_chars(&cs, 1);
        return AppRootSource::Home(string_from_chars(&rest));
    }
    if starts_with(root, "./") {
        proof {
            reveal_strlit("./");
        }
        let rest = tail_chars(&cs, 2);
        return AppRootSource::UnderCurrent(string_from_chars(&rest));
    }
    AppRootSource::Literal(to_owned_str(root))
}

fn tail_chars(v: &Vec<char>, from: usize) -> (r: Vec<char>)
    requires
        from <= v.len(),
    ensures
        r@ == v@.subrange(from as int, v@.len() as int),
{
    let mut out: Vec<char> = Vec::new();
    let mut i: usize = from;
    while i < v.len()
        invariant
            from <= i <= v.len(),
            out@ == v@.subrange(from as int, i as int),
        decreases v.len() - i,
    {
        out.push(v[i]);
        assert(v@.subrange(from as int, i + 1) == v@.subrange(from as int, i as int).push(v@[i as int]));
        i += 1;
    }
    out
}

/// A `~/...` root under `home`: the home directory followed by the part
/// after the `~`.
pub fn expand_home(home: &str, rest: &str) -> (r: String)
    ensures
        r@ == home@ + rest@,
{
    crate::text::concat2(home, rest)
}

} // verus!
