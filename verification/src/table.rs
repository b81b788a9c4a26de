//! The credential table.

use vstd::prelude::*;
use vstd::string::*;
use indexmap::IndexMap;
use crate::algo::Algo;
use crate::crypt_format::{
    bcrypt_form, is_printable, lemma_sha512_form_printable, BCRYPT_DEFAULT_COST,
};
use crate::entries::{
    clone_map, empty_map, entries_of, entry_at, entry_count, find_hash, insert_entry,
    lemma_unique_place, lemma_upsert, lookup, names, upsert,
};
use crate::errors::HtpasswdError;
use crate::hashing::{
    bcrypt_accepts, hash_password, matches_sha512_crypt, sha512_crypt_accepts,
};
use crate::render::{line, render};

verus! {

/// An ordered table of user names and their password hashes. A user keeps
/// the place at which the name was first set, also when the password is
/// set again.
#[derive(Debug)]
pub struct Htpasswd {
    // Username and encrypted password
    entries: IndexMap<String, String>,
}

impl View for Htpasswd {
    type V = Seq<(Seq<char>, Seq<char>)>;

    /// The entries in order, each a user name and a hash.
    closed spec fn view(&self) -> Seq<(Seq<char>, Seq<char>)> {
        entries_of(self.entries)
    }
}

/// Whether `password` is verified against what the entries hold for
/// `name`: the name is present and its hash is a SHA-512-crypt hash string
/// of the password.
pub open spec fn verifies(
    entries: Seq<(Seq<char>, Seq<char>)>,
    name: Seq<char>,
    password: Seq<char>,
) -> bool {
    match lookup(entries, name) {
        Some(hash) => is_printable(hash) && sha512_crypt_accepts(password, hash),
        None => false,
    }
}

/// Whether the entries hold for `name` a bcrypt hash string of `password`.
pub open spec fn holds_bcrypt_of(
    entries: Seq<(Seq<char>, Seq<char>)>,
    name: Seq<char>,
    password: Seq<char>,
) -> bool {
    match lookup(entries, name) {
        Some(hash) => bcrypt_accepts(password, hash),
        None => false,
    }
}

/// No password is verified for a user that the table does not hold.
pub proof fn lemma_unknown_user_not_verified(
    entries: Seq<(Seq<char>, Seq<char>)>,
    name: Seq<char>,
    password: Seq<char>,
)
    requires
        !names(entries).contains(name),
    ensures
        !verifies(entries, name, password),
{
}

impl Htpasswd {
    /// No user name occurs twice.
    pub open spec fn wf(&self) -> bool {
        names(self@).no_duplicates()
    }

    /// An empty table.
    pub fn new() -> (table: Self)
        ensures
            table@ == Seq::<(Seq<char>, Seq<char>)>::empty(),
            table.wf(),
    {
        Htpasswd { entries: empty_map() }
    }

    /// Hashes the password with bcrypt at the default cost and stores it
    /// under the user name: afterwards the table holds for the user a hash
    /// string that bcrypt accepts for the password. On an error the table
    /// stays as it was.
    pub fn set(&mut self, username: &str, password: &str) -> (r: Result<(), HtpasswdError>)
        requires
            old(self).wf(),
        ensures
            final(self).wf(),
            r is Err ==> final(self)@ == old(self)@ && r.unwrap_err() is BCrypt,
            r is Ok ==> exists|h: Seq<char>|
                bcrypt_form(h, BCRYPT_DEFAULT_COST) && final(self)@ == #[trigger] upsert(
                    old(self)@,
                    username@,
                    h,
                ),
            r is Ok ==> holds_bcrypt_of(final(self)@, username@, password@),
    {
        self.set_with(Algo::BCryptDefault, username, password)
    }

    /// Hashes the password as `algo` asks and stores the hash under the
    /// user name: a user that is present keeps its place and gets the new
    /// hash, a new user goes to the end. A work factor outside the range of
    /// its family gives an error, and on an error the table stays as it
    /// was. The hash that is stored is one that the primitive of the family
    /// accepts for the password, so a password stored with SHA-512-crypt is
    /// verified afterwards.
    pub fn set_with(&mut self, algo: Algo, username: &str, password: &str) -> (r: Result<
        (),
        HtpasswdError,
    >)
        requires
            old(self).wf(),
        ensures
            final(self).wf(),
            algo.is_rejected() ==> r is Err,
            r is Err ==> final(self)@ == old(self)@,
            r is Err ==> (r.unwrap_err() is BCrypt <==> algo.is_bcrypt()),
            r is Err ==> (r.unwrap_err() is PwHash <==> algo.is_sha512()),
            r is Ok ==> exists|h: Seq<char>|
                algo.hash_form(h) && final(self)@ == #[trigger] upsert(old(self)@, username@, h),
            r is Ok && algo.is_bcrypt() ==> holds_bcrypt_of(final(self)@, username@, password@),
            r is Ok && algo.is_sha512() ==> verifies(final(self)@, username@, password@),
    {
        let outcome = hash_password(algo, password);
        proof {
            if outcome is Ok {
                let h = outcome.unwrap();
                lemma_upsert(self@, username@, h@);
                if algo.is_sha512() {
                    lemma_sha512_form_printable(
                        h@,
                        match algo.resolved() {
                            Algo::Sha512 { rounds } => Some(rounds),
                            _ => None,
                        },
                    );
                }
            }
        }
        self.record(username, outcome)
    }

    /// Takes the outcome of hashing a password for a user: a hash is stored
    /// under the user name, an error is handed back and the table stays as
    /// it was.
    pub fn record(&mut self, username: &str, outcome: Result<String, HtpasswdError>) -> (r: Result<
        (),
        HtpasswdError,
    >)
        requires
            old(self).wf(),
        ensures
            final(self).wf(),
            outcome is Ok ==> r is Ok && final(self)@ == upsert(
                old(self)@,
                username@,
                outcome.unwrap()@,
            ),
            outcome is Err ==> r is Err && r.unwrap_err() == outcome.unwrap_err() && final(self)@
                == old(self)@,
    {
        match outcome {
            Ok(hash) => {
                let ghost before = self@;
                let ghost h = hash@;
                let name = username.to_owned();
                let prev = insert_entry(&mut self.entries, name, hash);
                proof {
                    lemma_upsert(before, username@, h);
                    if names(before).contains(username@) {
                        let i = choose|i: int|
                            0 <= i < before.len() && #[trigger] before[i] == (
                                username@,
                                prev.unwrap()@,
                            ) && self@ == before.update(i, (username@, h));
                        lemma_unique_place(before, username@, i);
                    }
                }
                Ok(())
            },
            Err(e) => Err(e),
        }
    }

    /// Whether the password is the one stored for the user. Only passwords
    /// stored with SHA-512-crypt are verified: for a user that is not
    /// present, a bcrypt entry or another password the answer is `false`.
    pub fn verify(&self, username: &str, password: &str) -> (ok: bool)
        requires
            self.wf(),
        ensures
            ok == verifies(self@, username@, password@),
    {
        match find_hash(&self.entries, username) {
            Some(hashed) => {
                proof {
                    let i = choose|i: int|
                        0 <= i < self@.len() && #[trigger] self@[i] == (username@, hashed@);
                    lemma_unique_place(self@, username@, i);
                }
                matches_sha512_crypt(password, hashed.as_str())
            },
            None => false,
        }
    }

    /// The table as htpasswd text: for each entry in order the user name, a
    /// colon, the hash and a newline. Nothing is escaped.
    pub fn to_string(&self) -> (text: String)
        ensures
            text@ == render(self@),
    {
        let n: usize = entry_count(&self.entries);
        let mut text = String::new();
        let mut i: usize = 0;
        while i < n
            invariant
                n == self@.len(),
                i <= n,
                text@ == render(self@.take(i as int)),
            decreases n - i,
        {
            let (u, p) = entry_at(&self.entries, i).unwrap();
            proof {
                reveal_strlit(":");
                reveal_strlit("\n");
                let next = self@.take(i + 1);
                assert(next.drop_last() =~= self@.take(i as int));
                assert(next.last() == self@[i as int]);
                assert(":"@ =~= seq![':']);
                assert("\n"@ =~= seq!['\n']);
            }
            text.append(u.as_str());
            text.append(":");
            text.append(p.as_str());
            text.append("\n");
            i += 1;
        }
        proof {
            assert(self@.take(n as int) =~= self@);
        }
        text
    }
}

impl Clone for Htpasswd {
    /// A table of its own with the same entries in the same order.
    fn clone(&self) -> (copy: Self)
        ensures
            copy@ == self@,
    {
        Htpasswd { entries: clone_map(&self.entries) }
    }
}

impl Default for Htpasswd {
    /// An empty table.
    fn default() -> (table: Self)
        ensures
            table@ == Seq::<(Seq<char>, Seq<char>)>::empty(),
            table.wf(),
    {
        Htpasswd::new()
    }
}

} // verus!
