//! The decisions of the wallet commands: which stage of a legacy wallet
//! migration stops it and what the operator is told, which slot of the
//! legacy passphrase ring is the current one, the name a migrated admin
//! gets, and the confirmations of the `secrets` command.
//!
//! Reading the wallet text, the key derivations and the ciphers are the
//! wallet's; this module decides from what they report.

use vstd::prelude::*;
use crate::text::{chars_of, string_from_chars, to_owned_str, trim_chars, trim_spec};
use crate::tls::{lowercase, to_lowercase};
use vstd::utf8::*;

verus! {

/// The name a migrated admin gets when the operator gives none.
pub const DEFAULT_ADMIN_NAME: &'static str = "operator";

/// The admin name typed at the migration prompt, trimmed; the default when
/// nothing but white space was typed.
pub open spec fn admin_name_spec(typed: Seq<char>) -> Seq<char> {
    if trim_spec(typed).len() == 0 {
        DEFAULT_ADMIN_NAME@
    } else {
        trim_spec(typed)
    }
}

/// Read the admin name typed at the migration prompt.
pub fn migrated_admin_name(typed: &str) -> (r: String)
    ensures
        r@ == admin_name_spec(typed@),
{
    let t = trim_chars(&chars_of(typed));
    if t.len() == 0 {
        to_owned_str(DEFAULT_ADMIN_NAME)
    } else {
        string_from_chars(&t)
    }
}

/// Why the current slot of a legacy passphrase ring cannot be read.
#[derive(Debug, PartialEq, Eq, Structural)]
pub enum RingError {
    /// The ring's index points past its slots.
    OutOfRange { index: u64 },
    /// The slot the index points at is empty.
    EmptySlot,
}

/// The current entry of a legacy passphrase ring: the slot its index
/// names, which must hold an entry.
pub fn current_slot<T>(slots: Vec<Option<T>>, index: u64) -> (r: Result<T, RingError>)
    ensures
        index >= slots@.len() ==> r == Err::<T, RingError>(RingError::OutOfRange { index }),
        index < slots@.len() ==> match slots@[index as int] {
            Some(t) => r == Ok::<T, RingError>(t),
            None => r == Err::<T, RingError>(RingError::EmptySlot),
        },
{
    if index >= slots.len() as u64 {
        return Err(RingError::OutOfRange { index });
    }
    let mut slots = slots;
    match slots.remove(index as usize) {
        Some(t) => Ok(t),
        None => Err(RingError::EmptySlot),
    }
}

/// Where a legacy wallet migration stops before it writes anything.
#[derive(Debug, PartialEq, Eq, Structural, Clone, Copy)]
pub enum MigrateStop {
    /// There is no wallet file.
    NoWallet,
    /// The wallet text is not a map.
    NotAMap,
    /// The wallet already holds admin entries.
    AlreadyMigrated,
    /// The passphrase does not verify against the current ring entry.
    PassphraseRejected,
}

/// The first stage at which a migration stops, in the order they are
/// checked: the file, its shape, the layout, then the passphrase (`None`
/// while it has not been asked).
pub open spec fn migrate_stop_spec(
    file_exists: bool,
    is_map: bool,
    has_admins: bool,
    passphrase_ok: Option<bool>,
) -> Option<MigrateStop> {
    if !file_exists {
        Some(MigrateStop::NoWallet)
    } else if !is_map {
        Some(MigrateStop::NotAMap)
    } else if has_admins {
        Some(MigrateStop::AlreadyMigrated)
    } else {
        match passphrase_ok {
            Some(false) => Some(MigrateStop::PassphraseRejected),
            _ => None,
        }
    }
}

/// Decide whether a migration stops, from what the checks so far found.
pub fn migrate_stop(file_exists: bool, is_map: bool, has_admins: bool, passphrase_ok: Option<bool>) -> (r:
    Option<MigrateStop>)
    ensures
        r == migrate_stop_spec(file_exists, is_map, has_admins, passphrase_ok),
{
    if !file_exists {
        Some(MigrateStop::NoWallet)
    } else if !is_map {
        Some(MigrateStop::NotAMap)
    } else if has_admins {
        Some(MigrateStop::AlreadyMigrated)
    } else {
        match passphrase_ok {
            Some(false) => Some(MigrateStop::PassphraseRejected),
            _ => None,
        }
    }
}

/// What the operator is told when a migration stops; `path` is the wallet
/// file as shown and `kind` the kind of value its text held.
pub open spec fn stop_message_spec(stop: MigrateStop, path: Seq<char>, kind: Seq<char>) -> Seq<char> {
    match stop {
        MigrateStop::NoWallet => "No wallet file to migrate at "@ + path + "."@,
        MigrateStop::NotAMap => "Legacy wallet file at "@ + path + " is not a map (kind="@ + kind
            + ")."@,
        MigrateStop::AlreadyMigrated => "Wallet at "@ + path + " is already in the admin-user layout."@,
        MigrateStop::PassphraseRejected => "Passphrase rejected -- nothing migrated."@,
    }
}

/// Word the stop of a migration.
pub fn stop_message(stop: MigrateStop, path: &str, kind: &str) -> (r: String)
    ensures
        r@ == stop_message_spec(stop, path@, kind@),
{
    match stop {
        MigrateStop::NoWallet => {
            let mut m = to_owned_str("No wallet file to migrate at ");
            m.append(path);
            m.append(".");
            m
        },
        MigrateStop::NotAMap => {
            let mut m = to_owned_str("Legacy wallet file at ");
            m.append(path);
            m.append(" is not a map (kind=");
            m.append(kind);
            m.append(").");
            m
        },
        MigrateStop::AlreadyMigrated => {
            let mut m = to_owned_str("Wallet at ");
            m.append(path);
            m.append(" is already in the admin-user layout.");
            m
        },
        MigrateStop::PassphraseRejected => to_owned_str("Passphrase rejected -- nothing migrated."),
    }
}

/// An answer to "replace?" confirms only when it lowers to `y`.
pub fn replace_confirmed(answer: &str) -> (r: bool)
    ensures
        r == (lowercase(answer@) == "y"@),
{
    let l = to_lowercase(answer);
    crate::text::str_eq(l.as_str(), "y")
}

/// The answer when `secrets --create` names a secret the wallet holds and
/// the operator does not confirm replacing it.
pub const CREATE_ABORTED: &'static str = "Creation of encrypted secret aborted.";

/// The answer when `secrets --recover` names a secret the wallet lacks.
pub fn secret_not_found(name: &str) -> (r: String)
    ensures
        r@ == "Secret '"@ + name@ + "' not found in wallet."@,
{
    let mut m = to_owned_str("Secret '");
    m.append(name);
    m.append("' not found in wallet.");
    m
}

/// Why a wallet secret could not be recovered.
#[derive(Debug, PartialEq, Eq, Structural)]
pub enum SecretError {
    /// The sealed secret does not open under the key the passphrase gave:
    /// a wrong passphrase, or an altered secret.
    Unopened,
    /// It opened to bytes that are not text.
    NotUtf8,
}

/// Seal a secret's text with `seal`, which encrypts under the key the
/// passphrase gave and writes the ciphertext as text: the secret's UTF-8
/// bytes are what it seals, and its answer is returned as it is.
pub fn seal_secret<G: Fn(&[u8]) -> Result<String, String>>(seal: G, secret: &str) -> (r: Result<
    String,
    String,
>)
    requires
        forall|a: &[u8]| seal.requires((a,)),
    ensures
        exists|a: &[u8]| a@ == encode_utf8(secret@) && #[trigger] seal.ensures((a,), r),
{
    let sb = secret.as_bytes();
    let r = seal(sb);
    assert(seal.ensures((sb,), r));
    r
}

/// What recovering a secret comes to from what the opener gave back.
pub open spec fn secret_spec(o: Option<Vec<u8>>) -> Result<Seq<char>, SecretError> {
    match o {
        None => Err(SecretError::Unopened),
        Some(b) => if valid_utf8(b@) {
            Ok(decode_utf8(b@))
        } else {
            Err(SecretError::NotUtf8)
        },
    }
}

/// The result of recovering a secret, as the specs see it.
pub open spec fn secret_view(r: Result<String, SecretError>) -> Result<Seq<char>, SecretError> {
    match r {
        Ok(t) => Ok(t@),
        Err(e) => Err(e),
    }
}

/// Recover a sealed secret's text with `open`, which reads the text and
/// decrypts it under the key the passphrase gave (`None` when it does not
/// open: a wrong passphrase, or an altered secret).
pub fn open_secret<F: Fn(&str) -> Option<Vec<u8>>>(open: F, blob: &str) -> (r: Result<String, SecretError>)
    requires
        forall|b: &str| open.requires((b,)),
    ensures
        exists|o: Option<Vec<u8>>| #[trigger] open.ensures((blob,), o) && secret_view(r) == secret_spec(o),
{
    let o = open(blob);
    let r = match &o {
        None => Err(SecretError::Unopened),
        Some(b) => match crate::text::utf8_str(b.as_slice()) {
            Some(t) => Ok(to_owned_str(t)),
            None => Err(SecretError::NotUtf8),
        },
    };
    assert(open.ensures((blob,), o));
    r
}

/// A secret sealed whole is recovered whole: when the opener gives back
/// the bytes that were sealed, the text comes back unchanged.
pub proof fn lemma_secret_roundtrip(secret: Seq<char>, b: Vec<u8>)
    requires
        b@ == encode_utf8(secret),
    ensures
        secret_spec(Some(b)) == Ok::<Seq<char>, SecretError>(secret),
{
    encode_utf8_valid_utf8(secret);
    encode_utf8_decode_utf8(secret);
}

} // verus!
