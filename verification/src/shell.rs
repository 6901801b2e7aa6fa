//! The operator shell's syntax: each built-in command with its help line
//! and category, and each of its arguments with its short and long
//! forms, the values it takes, whether it is required, and its help.
//!
//! The shell parser that reads a line against this syntax, and the
//! `help` and file-system commands it adds of its own, are the syntax
//! crate's.

use vstd::prelude::*;
use crate::cli::{shell_command_spec, ShellCommand};

verus! {

/// The kind of value an argument takes.
#[derive(Debug, PartialEq, Eq, Structural, Clone, Copy)]
pub enum ValueKind {
    Str,
    U64,
}

/// One argument of a command.
pub struct ArgDef {
    pub name: &'static str,
    /// The one-letter form, after a single hyphen.
    pub short: &'static str,
    /// The long form, after two hyphens, when it has one.
    pub long: Option<&'static str>,
    /// The values it takes, each with its kind and a word on it.
    pub values: Vec<(ValueKind, &'static str)>,
    pub required: bool,
    pub help: &'static str,
}

/// One command of the shell.
pub struct CommandDef {
    pub name: &'static str,
    pub help: &'static str,
    pub category: &'static str,
    pub args: Vec<ArgDef>,
}

/// An argument as the specs see it: name, short form, long form, values,
/// whether required, help.
pub type ArgView = (Seq<char>, Seq<char>, Option<Seq<char>>, Seq<(ValueKind, Seq<char>)>, bool, Seq<char>);

/// A command as the specs see it: name, help, category, arguments.
pub type CommandView = (Seq<char>, Seq<char>, Seq<char>, Seq<ArgView>);

/// The view of an argument.
pub open spec fn arg_view(a: ArgDef) -> ArgView {
    (
        a.name@,
        a.short@,
        match a.long {
            Some(l) => Some(l@),
            None => None,
        },
        Seq::new(a.values@.len(), |i: int| (a.values@[i].0, a.values@[i].1@)),
        a.required,
        a.help@,
    )
}

/// The view of a command.
pub open spec fn command_view(c: CommandDef) -> CommandView {
    (c.name@, c.help@, c.category@, Seq::new(c.args@.len(), |i: int| arg_view(c.args@[i])))
}

/// The view of a list of commands.
pub open spec fn syntax_view(s: Seq<CommandDef>) -> Seq<CommandView> {
    Seq::new(s.len(), |i: int| command_view(s[i]))
}

/// The `exit` command.
pub open spec fn command_exit_spec() -> CommandView {
    (
        "exit"@,
        "Shutdown the app and exit, or use Ctrl+C, Ctrl+D"@,
        "Control"@,
        Seq::<ArgView>::empty(),
    )
}

/// The `shell` command.
pub open spec fn command_shell_spec() -> CommandView {
    (
        "shell"@,
        "Start the app shell"@,
        "Control"@,
        Seq::<ArgView>::empty(),
    )
}

/// The `server` command.
pub open spec fn command_server_spec() -> CommandView {
    (
        "server"@,
        "Start the app HTTPS server"@,
        "Control"@,
        seq![("dev"@, "d"@, None::<Seq<char>>, Seq::<(ValueKind, Seq<char>)>::empty(), false, "Run server in developer mode."@)],
    )
}

/// The `cert` command.
pub open spec fn command_cert_spec() -> CommandView {
    (
        "cert"@,
        "Manage TLS certificates"@,
        "TLS"@,
        seq![("create-dev"@, "d"@, None::<Seq<char>>, Seq::<(ValueKind, Seq<char>)>::empty(), false, "Create self-signed certificates for development."@)],
    )
}

/// The `acme` command.
pub open spec fn command_acme_spec() -> CommandView {
    (
        "acme"@,
        "Manage ACME (Let's Encrypt) certificate state"@,
        "TLS"@,
        seq![("status"@, "s"@, None::<Seq<char>>, Seq::<(ValueKind, Seq<char>)>::empty(), false, "Print the configured ACME state and vhost hostnames."@),
            ("renew"@, "r"@, None::<Seq<char>>, Seq::<(ValueKind, Seq<char>)>::empty(), false, "Clear the ACME cache so certs are re-issued on next start-up."@)],
    )
}

/// The `secrets` command.
pub open spec fn command_secrets_spec() -> CommandView {
    (
        "secrets"@,
        "Manage wallet encrypted secrets."@,
        "Wallet"@,
        seq![("create"@, "c"@, None::<Seq<char>>, seq![(ValueKind::Str, "Name of secret for indexing"@)], false, "Interactively create a new encrypted secret."@),
            ("recover"@, "r"@, None::<Seq<char>>, seq![(ValueKind::Str, "Name of secret for indexing"@)], false, "Interactively recover an encrypted secret."@)],
    )
}

/// The `wallet` command.
pub open spec fn command_wallet_spec() -> CommandView {
    (
        "wallet"@,
        "Manage the wallet file."@,
        "Wallet"@,
        seq![("migrate"@, "m"@, Some("migrate"@), Seq::<(ValueKind, Seq<char>)>::empty(), false, "One-shot migrate a pre-admin-user wallet (the legacy app_hashes / wallet_pass_hashes layout) into the multi-admin layout, preserving the existing master key so no Ozone re-encryption is required."@)],
    )
}

/// The `admin` command.
pub open spec fn command_admin_spec() -> CommandView {
    (
        "admin"@,
        "Manage wallet admin entries (add, remove, list)."@,
        "Wallet"@,
        seq![("add"@, "a"@, Some("add"@), seq![(ValueKind::Str, "New admin name"@)], false, "Add a new admin entry wrapping the wallet master key under a freshly prompted password. The running session must have been unlocked by an admin holding the 'admin' scope."@),
            ("remove"@, "r"@, Some("remove"@), seq![(ValueKind::Str, "Admin name to remove"@)], false, "Remove an existing admin entry by name. The last remaining admin cannot be removed."@),
            ("list"@, "l"@, Some("list"@), Seq::<(ValueKind, Seq<char>)>::empty(), false, "List the names, scopes and expiry of every admin entry in the wallet."@),
            ("scopes"@, "s"@, Some("scopes"@), seq![(ValueKind::Str, "Comma-separated verb list"@)], false, "Scopes for a new admin, comma-separated (e.g. 'restart,log,probe'). Use '*' for operator-level access. Defaults to an empty scope list, which can unlock the wallet but cannot invoke any verb."@),
            ("expires-in"@, "e"@, Some("expires-in"@), seq![(ValueKind::U64, "Seconds until expiry"@)], false, "Expire the new admin after N seconds from now. A value of 0 (the default) means 'never expires'."@),
            ("passwd"@, "p"@, Some("passwd"@), Seq::<(ValueKind, Seq<char>)>::empty(), false, "Change the caller's own admin password in place. The caller is whichever admin unlocked the wallet at start-up. Scopes and expiry are preserved; only the wrap is replaced. Prompts for the new password twice."@)],
    )
}

/// The `mailpass` command.
pub open spec fn command_mailpass_spec() -> CommandView {
    (
        "mailpass"@,
        "Hash an interactively-prompted password with Argon2id, ready to paste into the mail users file."@,
        "Mail"@,
        seq![("address"@, "a"@, None::<Seq<char>>, seq![(ValueKind::Str, "Email address"@)], true, "Email address (local@domain) the password belongs to."@),
            ("delivery-dir"@, "d"@, None::<Seq<char>>, seq![(ValueKind::Str, "Relative directory under maildir_root"@)], true, "Per-user mailbox directory, relative to maildir_root."@)],
    )
}

/// The `vars` command.
pub open spec fn command_vars_spec() -> CommandView {
    (
        "vars"@,
        "Display variable names and values"@,
        "Workspace"@,
        Seq::<ArgView>::empty(),
    )
}

/// The built-in commands, in the order the shell lists them.
pub open spec fn shell_syntax_spec() -> Seq<CommandView> {
    seq![command_exit_spec(), command_shell_spec(), command_server_spec(), command_cert_spec(), command_acme_spec(), command_secrets_spec(), command_wallet_spec(), command_admin_spec(), command_mailpass_spec(), command_vars_spec()]
}

fn arg(
    name: &'static str,
    short: &'static str,
    long: Option<&'static str>,
    values: Vec<(ValueKind, &'static str)>,
    required: bool,
    help: &'static str,
) -> (r: ArgDef)
    ensures
        r.name == name,
        r.short == short,
        r.long == long,
        r.values == values,
        r.required == required,
        r.help == help,
{
    ArgDef { name, short, long, values, required, help }
}

fn command_exit() -> (r: CommandDef)
    ensures
        command_view(r) == command_exit_spec(),
{

    let r = CommandDef { name: "exit", help: "Shutdown the app and exit, or use Ctrl+C, Ctrl+D", category: "Control", args: vec![] };
    assert(command_view(r) =~= command_exit_spec());
    r
}

fn command_shell() -> (r: CommandDef)
    ensures
        command_view(r) == command_shell_spec(),
{

    let r = CommandDef { name: "shell", help: "Start the app shell", category: "Control", args: vec![] };
    assert(command_view(r) =~= command_shell_spec());
    r
}

fn command_server() -> (r: CommandDef)
    ensures
        command_view(r) == command_server_spec(),
{
    let a0 = arg("dev", "d", None, vec![], false, "Run server in developer mode.");
    let r = CommandDef { name: "server", help: "Start the app HTTPS server", category: "Control", args: vec![a0] };
    assert(arg_view(a0).3 =~= Seq::<(ValueKind, Seq<char>)>::empty());
    assert(arg_view(a0) == ("dev"@, "d"@, None::<Seq<char>>, Seq::<(ValueKind, Seq<char>)>::empty(), false, "Run server in developer mode."@));
    assert(command_view(r).3 =~= seq![arg_view(a0)]);
    assert(command_view(r) =~= command_server_spec());
    r
}

fn command_cert() -> (r: CommandDef)
    ensures
        command_view(r) == command_cert_spec(),
{
    let a0 = arg("create-dev", "d", None, vec![], false, "Create self-signed certificates for development.");
    let r = CommandDef { name: "cert", help: "Manage TLS certificates", category: "TLS", args: vec![a0] };
    assert(arg_view(a0).3 =~= Seq::<(ValueKind, Seq<char>)>::empty());
    assert(arg_view(a0) == ("create-dev"@, "d"@, None::<Seq<char>>, Seq::<(ValueKind, Seq<char>)>::empty(), false, "Create self-signed certificates for development."@));
    assert(command_view(r).3 =~= seq![arg_view(a0)]);
    assert(command_view(r) =~= command_cert_spec());
    r
}

fn command_acme() -> (r: CommandDef)
    ensures
        command_view(r) == command_acme_spec(),
{
    let a0 = arg("status", "s", None, vec![], false, "Print the configured ACME state and vhost hostnames.");
    let a1 = arg("renew", "r", None, vec![], false, "Clear the ACME cache so certs are re-issued on next start-up.");
    let r = CommandDef { name: "acme", help: "Manage ACME (Let's Encrypt) certificate state", category: "TLS", args: vec![a0, a1] };
    assert(arg_view(a0).3 =~= Seq::<(ValueKind, Seq<char>)>::empty());
    assert(arg_view(a0) == ("status"@, "s"@, None::<Seq<char>>, Seq::<(ValueKind, Seq<char>)>::empty(), false, "Print the configured ACME state and vhost hostnames."@));
    assert(arg_view(a1).3 =~= Seq::<(ValueKind, Seq<char>)>::empty());
    assert(arg_view(a1) == ("renew"@, "r"@, None::<Seq<char>>, Seq::<(ValueKind, Seq<char>)>::empty(), false, "Clear the ACME cache so certs are re-issued on next start-up."@));
    assert(command_view(r).3 =~= seq![arg_view(a0), arg_view(a1)]);
    assert(command_view(r) =~= command_acme_spec());
    r
}

fn command_secrets() -> (r: CommandDef)
    ensures
        command_view(r) == command_secrets_spec(),
{
    let a0 = arg("create", "c", None, vec![(ValueKind::Str, "Name of secret for indexing")], false, "Interactively create a new encrypted secret.");
    let a1 = arg("recover", "r", None, vec![(ValueKind::Str, "Name of secret for indexing")], false, "Interactively recover an encrypted secret.");
    let r = CommandDef { name: "secrets", help: "Manage wallet encrypted secrets.", category: "Wallet", args: vec![a0, a1] };
    assert(arg_view(a0).3 =~= seq![(ValueKind::Str, "Name of secret for indexing"@)]);
    assert(arg_view(a0) == ("create"@, "c"@, None::<Seq<char>>, seq![(ValueKind::Str, "Name of secret for indexing"@)], false, "Interactively create a new encrypted secret."@));
    assert(arg_view(a1).3 =~= seq![(ValueKind::Str, "Name of secret for indexing"@)]);
    assert(arg_view(a1) == ("recover"@, "r"@, None::<Seq<char>>, seq![(ValueKind::Str, "Name of secret for indexing"@)], false, "Interactively recover an encrypted secret."@));
    assert(command_view(r).3 =~= seq![arg_view(a0), arg_view(a1)]);
    assert(command_view(r) =~= command_secrets_spec());
    r
}

fn command_wallet() -> (r: CommandDef)
    ensures
        command_view(r) == command_wallet_spec(),
{
    let a0 = arg("migrate", "m", Some("migrate"), vec![], false, "One-shot migrate a pre-admin-user wallet (the legacy app_hashes / wallet_pass_hashes layout) into the multi-admin layout, preserving the existing master key so no Ozone re-encryption is required.");
    let r = CommandDef { name: "wallet", help: "Manage the wallet file.", category: "Wallet", args: vec![a0] };
    assert(arg_view(a0).3 =~= Seq::<(ValueKind, Seq<char>)>::empty());
    assert(arg_view(a0) == ("migrate"@, "m"@, Some("migrate"@), Seq::<(ValueKind, Seq<char>)>::empty(), false, "One-shot migrate a pre-admin-user wallet (the legacy app_hashes / wallet_pass_hashes layout) into the multi-admin layout, preserving the existing master key so no Ozone re-encryption is required."@));
    assert(command_view(r).3 =~= seq![arg_view(a0)]);
    assert(command_view(r) =~= command_wallet_spec());
    r
}

fn command_admin() -> (r: CommandDef)
    ensures
        command_view(r) == command_admin_spec(),
{
    let a0 = arg("add", "a", Some("add"), vec![(ValueKind::Str, "New admin name")], false, "Add a new admin entry wrapping the wallet master key under a freshly prompted password. The running session must have been unlocked by an admin holding the 'admin' scope.");
    let a1 = arg("remove", "r", Some("remove"), vec![(ValueKind::Str, "Admin name to remove")], false, "Remove an existing admin entry by name. The last remaining admin cannot be removed.");
    let a2 = arg("list", "l", Some("list"), vec![], false, "List the names, scopes and expiry of every admin entry in the wallet.");
    let a3 = arg("scopes", "s", Some("scopes"), vec![(ValueKind::Str, "Comma-separated verb list")], false, "Scopes for a new admin, comma-separated (e.g. 'restart,log,probe'). Use '*' for operator-level access. Defaults to an empty scope list, which can unlock the wallet but cannot invoke any verb.");
    let a4 = arg("expires-in", "e", Some("expires-in"), vec![(ValueKind::U64, "Seconds until expiry")], false, "Expire the new admin after N seconds from now. A value of 0 (the default) means 'never expires'.");
    let a5 = arg("passwd", "p", Some("passwd"), vec![], false, "Change the caller's own admin password in place. The caller is whichever admin unlocked the wallet at start-up. Scopes and expiry are preserved; only the wrap is replaced. Prompts for the new password twice.");
    let r = CommandDef { name: "admin", help: "Manage wallet admin entries (add, remove, list).", category: "Wallet", args: vec![a0, a1, a2, a3, a4, a5] };
    assert(arg_view(a0).3 =~= seq![(ValueKind::Str, "New admin name"@)]);
    assert(arg_view(a0) == ("add"@, "a"@, Some("add"@), seq![(ValueKind::Str, "New admin name"@)], false, "Add a new admin entry wrapping the wallet master key under a freshly prompted password. The running session must have been unlocked by an admin holding the 'admin' scope."@));
    assert(arg_view(a1).3 =~= seq![(ValueKind::Str, "Admin name to remove"@)]);
    assert(arg_view(a1) == ("remove"@, "r"@, Some("remove"@), seq![(ValueKind::Str, "Admin name to remove"@)], false, "Remove an existing admin entry by name. The last remaining admin cannot be removed."@));
    assert(arg_view(a2).3 =~= Seq::<(ValueKind, Seq<char>)>::empty());
    assert(arg_view(a2) == ("list"@, "l"@, Some("list"@), Seq::<(ValueKind, Seq<char>)>::empty(), false, "List the names, scopes and expiry of every admin entry in the wallet."@));
    assert(arg_view(a3).3 =~= seq![(ValueKind::Str, "Comma-separated verb list"@)]);
    assert(arg_view(a3) == ("scopes"@, "s"@, Some("scopes"@), seq![(ValueKind::Str, "Comma-separated verb list"@)], false, "Scopes for a new admin, comma-separated (e.g. 'restart,log,probe'). Use '*' for operator-level access. Defaults to an empty scope list, which can unlock the wallet but cannot invoke any verb."@));
    assert(arg_view(a4).3 =~= seq![(ValueKind::U64, "Seconds until expiry"@)]);
    assert(arg_view(a4) == ("expires-in"@, "e"@, Some("expires-in"@), seq![(ValueKind::U64, "Seconds until expiry"@)], false, "Expire the new admin after N seconds from now. A value of 0 (the default) means 'never expires'."@));
    assert(arg_view(a5).3 =~= Seq::<(ValueKind, Seq<char>)>::empty());
    assert(arg_view(a5) == ("passwd"@, "p"@, Some("passwd"@), Seq::<(ValueKind, Seq<char>)>::empty(), false, "Change the caller's own admin password in place. The caller is whichever admin unlocked the wallet at start-up. Scopes and expiry are preserved; only the wrap is replaced. Prompts for the new password twice."@));
    assert(command_view(r).3 =~= seq![arg_view(a0), arg_view(a1), arg_view(a2), arg_view(a3), arg_view(a4), arg_view(a5)]);
    assert(command_view(r) =~= command_admin_spec());
    r
}

fn command_mailpass() -> (r: CommandDef)
    ensures
        command_view(r) == command_mailpass_spec(),
{
    let a0 = arg("address", "a", None, vec![(ValueKind::Str, "Email address")], true, "Email address (local@domain) the password belongs to.");
    let a1 = arg("delivery-dir", "d", None, vec![(ValueKind::Str, "Relative directory under maildir_root")], true, "Per-user mailbox directory, relative to maildir_root.");
    let r = CommandDef { name: "mailpass", help: "Hash an interactively-prompted password with Argon2id, ready to paste into the mail users file.", category: "Mail", args: vec![a0, a1] };
    assert(arg_view(a0).3 =~= seq![(ValueKind::Str, "Email address"@)]);
    assert(arg_view(a0) == ("address"@, "a"@, None::<Seq<char>>, seq![(ValueKind::Str, "Email address"@)], true, "Email address (local@domain) the password belongs to."@));
    assert(arg_view(a1).3 =~= seq![(ValueKind::Str, "Relative directory under maildir_root"@)]);
    assert(arg_view(a1) == ("delivery-dir"@, "d"@, None::<Seq<char>>, seq![(ValueKind::Str, "Relative directory under maildir_root"@)], true, "Per-user mailbox directory, relative to maildir_root."@));
    assert(command_view(r).3 =~= seq![arg_view(a0), arg_view(a1)]);
    assert(command_view(r) =~= command_mailpass_spec());
    r
}

fn command_vars() -> (r: CommandDef)
    ensures
        command_view(r) == command_vars_spec(),
{

    let r = CommandDef { name: "vars", help: "Display variable names and values", category: "Workspace", args: vec![] };
    assert(command_view(r) =~= command_vars_spec());
    r
}

/// The shell's built-in commands with their arguments.
pub fn shell_syntax() -> (r: Vec<CommandDef>)
    ensures
        syntax_view(r@) == shell_syntax_spec(),
{
    let r = vec![command_exit(), command_shell(), command_server(), command_cert(), command_acme(), command_secrets(), command_wallet(), command_admin(), command_mailpass(), command_vars()];
    assert(syntax_view(r@) =~= shell_syntax_spec());
    r
}

/// Each built-in command is defined once, and every one but `vars`, which
/// the app's extension answers, is one the shell dispatches itself.
pub proof fn lemma_defined_commands_dispatch()
    ensures
        forall|i: int, j: int|
            0 <= i < j < shell_syntax_spec().len() ==> (#[trigger] shell_syntax_spec()[i]).0
                != (#[trigger] shell_syntax_spec()[j]).0,
        forall|i: int|
            0 <= i < shell_syntax_spec().len() && (#[trigger] shell_syntax_spec()[i]).0 != "vars"@
                ==> shell_command_spec(shell_syntax_spec()[i].0) != ShellCommand::Extension,
{
    reveal_strlit("exit");
    reveal_strlit("shell");
    reveal_strlit("server");
    reveal_strlit("cert");
    reveal_strlit("acme");
    reveal_strlit("secrets");
    reveal_strlit("wallet");
    reveal_strlit("admin");
    reveal_strlit("mailpass");
    reveal_strlit("vars");
    reveal_strlit("help");
    reveal_strlit("cd");
    reveal_strlit("ls");
    reveal_strlit("pwd");
    reveal_strlit("unseal");
    let sp = shell_syntax_spec();
    assert forall|i: int, j: int| 0 <= i < j < sp.len() implies (#[trigger] sp[i]).0 != (
    #[trigger] sp[j]).0 by {
        assert(sp[0].0 == "exit"@);
        assert(sp[1].0 == "shell"@);
        assert(sp[2].0 == "server"@);
        assert(sp[3].0 == "cert"@);
        assert(sp[4].0 == "acme"@);
        assert(sp[5].0 == "secrets"@);
        assert(sp[6].0 == "wallet"@);
        assert(sp[7].0 == "admin"@);
        assert(sp[8].0 == "mailpass"@);
        assert(sp[9].0 == "vars"@);
        assert(sp[i].0[0] != sp[j].0[0] || sp[i].0.len() != sp[j].0.len() || sp[i].0[1] != sp[j].0[1]);
    }
}

} // verus!
