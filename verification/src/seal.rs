//! The seal: whether the wallet master key is known.
//!
//! Steel starts sealed. The wallet file is readable without a passphrase --
//! it holds each admin's password-wrapped copy of the master key -- so the
//! process can serve its static sites and renew certificates while the key
//! is unknown and the databases are shut. An admin's passphrase unwraps the
//! key and lifts the seal; a later unseal re-verifies a passphrase and leaves
//! the key in place, so a second admin signing in cannot swap it out from
//! under the running databases.

use vstd::prelude::*;

verus! {

/// What the wallet gives back when a passphrase unwraps an admin entry.
pub struct Unlocked {
    pub name: String,
    pub scopes: Vec<String>,
    pub master_key: Vec<u8>,
}

/// Result of a successful unseal: whose passphrase it was, what it may do,
/// and whether this is what lifted the seal.
pub struct Unsealed {
    pub name: String,
    pub scopes: Vec<String>,
    pub lifted: bool,
}

/// The master key, when known, and how many databases wait on it.
pub struct Seal {
    master_key: Option<Vec<u8>>,
    db_count: usize,
}

/// Why the master key cannot be had.
#[derive(Debug, PartialEq, Eq, Structural)]
pub enum SealError {
    /// No admin has unsealed yet.
    Sealed,
}

impl Seal {
    /// The key, when known.
    pub closed spec fn key(&self) -> Option<Seq<u8>> {
        match self.master_key {
            Some(k) => Some(k@),
            None => None,
        }
    }

    /// How many databases the seal holds shut while it stands.
    pub closed spec fn databases(&self) -> nat {
        self.db_count as nat
    }

    /// A seal around `master_key`: sealed when there is none, unsealed when
    /// the operator supplied the passphrase before the listeners bound.
    pub fn new(master_key: Option<Vec<u8>>, db_count: usize) -> (r: Seal)
        ensures
            r.key() == match master_key {
                Some(k) => Some(k@),
                None => None::<Seq<u8>>,
            },
            r.databases() == db_count,
    {
        Seal { master_key, db_count }
    }

    /// True while no master key is known, so the databases are shut and
    /// the routes that need them must refuse.
    pub fn is_sealed(&self) -> (r: bool)
        ensures
            r == self.key() is None,
    {
        self.master_key.is_none()
    }

    /// How many databases are configured.
    pub fn db_count(&self) -> (r: usize)
        ensures
            r == self.databases(),
    {
        self.db_count
    }

    /// Whether the seal is holding something shut: no master key, and at
    /// least one database that needs it. A deployment with no database at
    /// all has nothing waiting on the key.
    pub fn seal_withholds_data(&self) -> (r: bool)
        ensures
            r == (self.key() is None && self.databases() > 0),
    {
        self.master_key.is_none() && self.db_count > 0
    }

    /// The master key; refused while sealed.
    pub fn master_key(&self) -> (r: Result<Vec<u8>, SealError>)
        ensures
            match self.key() {
                Some(k) => r matches Ok(v) && v@ == k,
                None => r == Err::<Vec<u8>, SealError>(SealError::Sealed),
            },
    {
        match &self.master_key {
            Some(k) => Ok(k.clone()),
            None => Err(SealError::Sealed),
        }
    }

    /// Installs the key a passphrase unwrapped, lifting the seal if it still
    /// stands; an unsealed process keeps the key it has.
    pub fn unseal(&mut self, unlocked: Unlocked) -> (r: Unsealed)
        ensures
            r.lifted == old(self).key() is None,
            r.name@ == unlocked.name@,
            r.scopes@ == unlocked.scopes@,
            final(self).key() == unseal_step(old(self).key(), unlocked.master_key@),
            final(self).databases() == old(self).databases(),
    {
        let lifted = self.master_key.is_none();
        if lifted {
            self.master_key = Some(unlocked.master_key);
        }
        Unsealed { name: unlocked.name, scopes: unlocked.scopes, lifted }
    }

    /// The number of databases the health body reports as held shut.
    pub fn sealed_dbs(&self) -> (r: usize)
        ensures
            r == if self.key() is None && self.databases() > 0 {
                self.databases()
            } else {
                0
            },
    {
        if self.seal_withholds_data() {
            self.db_count
        } else {
            0
        }
    }
}

/// The key after an unseal offering `offered`: the one already installed,
/// else the one offered.
pub open spec fn unseal_step(key: Option<Seq<u8>>, offered: Seq<u8>) -> Option<Seq<u8>> {
    match key {
        Some(k) => Some(k),
        None => Some(offered),
    }
}

/// The key after a run of unseals offering `offers` in turn.
pub open spec fn key_after(key: Option<Seq<u8>>, offers: Seq<Seq<u8>>) -> Option<Seq<u8>>
    decreases offers.len(),
{
    if offers.len() == 0 {
        key
    } else {
        unseal_step(key_after(key, offers.drop_last()), offers.last())
    }
}

/// However many admins unseal, one after another, the key that stays
/// installed is the first ever installed: the one the process started
/// with, or else the first one offered.
pub proof fn lemma_first_key_stays(key: Option<Seq<u8>>, offers: Seq<Seq<u8>>)
    requires
        offers.len() > 0,
    ensures
        key_after(key, offers) == match key {
            Some(k) => Some(k),
            None => Some(offers[0]),
        },
    decreases offers.len(),
{
    if offers.len() > 1 {
        lemma_first_key_stays(key, offers.drop_last());
        assert(offers.drop_last()[0] == offers[0]);
    } else {
        assert(offers.drop_last().len() == 0);
        assert(key_after(key, offers.drop_last()) == key);
        assert(offers.last() == offers[0]);
    }
}

} // verus!
