//! The verification store: one-time codes keyed by normalized identity.
//!
//! Persistence goes through a `sled` tree. The tree itself is trusted —
//! its contents are named by `tree_entries` and each method the logic
//! calls has a wrapper whose contract states what the call does to the
//! contents — while every decision made over the stored bytes is
//! verified.
//!
//! The contracts model a tree handle held exclusively by one `AppDb`;
//! open the `verifications` keyspace of one database once.

use vstd::prelude::*;
use vstd::string::StringSliceAdditionalSpecFns;
use crate::record::record_value;
use crate::record::record_matches;
use crate::record::split_record;
use crate::record::stored_expiry;
use crate::record::lemma_record_round_trip;
use crate::record::find_single_colon;
use crate::record::bytes_eq_range;
use crate::record::encode_record;
use crate::numerals::parse_i64_range;

verus! {

#[verifier::external_type_specification]
#[verifier::external_body]
pub struct ExSledTree(sled::Tree);

#[verifier::external_type_specification]
#[verifier::external_body]
pub struct ExSledDb(sled::Db);

#[verifier::external_type_specification]
#[verifier::external_body]
pub struct ExSledError(sled::Error);

/// The key-value pairs a tree currently holds.
pub uninterp spec fn tree_entries(t: sled::Tree) -> Map<Seq<u8>, Seq<u8>>;

/// Relies on sled::Db::open_tree: opens or creates the named keyspace.
/// What it holds on disk is unknown, so nothing is promised of the
/// tree's contents.
#[verifier::external_body]
pub(crate) fn open_tree(db: &sled::Db, name: &str) -> (r: Result<sled::Tree, sled::Error>) {
    db.open_tree(name)
}

/// Relies on sled::Tree::get: returns the value stored at `key`, if any.
#[verifier::external_body]
pub(crate) fn tree_get(t: &sled::Tree, key: &[u8]) -> (r: Result<Option<Vec<u8>>, sled::Error>)
    ensures
        r matches Ok(o) ==> match o {
            Some(val) => tree_entries(*t).contains_key(key@) && val@ == tree_entries(*t)[key@],
            None => !tree_entries(*t).contains_key(key@),
        },
{
    match t.get(key) {
        Ok(Some(iv)) => Ok(Some(iv.to_vec())),
        Ok(None) => Ok(None),
        Err(e) => Err(e),
    }
}

/// Relies on sled::Tree::insert: maps `key` to `value`; the prior value,
/// which it returns, is dropped here.
#[verifier::external_body]
pub(crate) fn tree_insert(t: &mut sled::Tree, key: &[u8], value: &[u8]) -> (r: Result<(), sled::Error>)
    ensures
        r is Ok ==> tree_entries(*final(t)) == tree_entries(*old(t)).insert(key@, value@),
{
    match t.insert(key, value) {
        Ok(_) => Ok(()),
        Err(e) => Err(e),
    }
}

/// Relies on sled::Tree::remove: deletes `key`, returning the prior value.
#[verifier::external_body]
pub(crate) fn tree_remove(t: &mut sled::Tree, key: &[u8]) -> (r: Result<Option<Vec<u8>>, sled::Error>)
    ensures
        r is Ok ==> tree_entries(*final(t)) == tree_entries(*old(t)).remove(key@),
        r matches Ok(o) ==> match o {
            Some(val) => tree_entries(*old(t)).contains_key(key@) && val@ == tree_entries(*old(
                t,
            ))[key@],
            None => !tree_entries(*old(t)).contains_key(key@),
        },
{
    match t.remove(key) {
        Ok(Some(iv)) => Ok(Some(iv.to_vec())),
        Ok(None) => Ok(None),
        Err(e) => Err(e),
    }
}

/// Whether presenting `code` at time `now` hits a live record under
/// `key`: the key is present, its value splits as a record, the code
/// matches exactly and the expiry lies strictly in the future.
pub open spec fn verify_hit(
    entries: Map<Seq<u8>, Seq<u8>>,
    key: Seq<u8>,
    code: Seq<u8>,
    now: int,
) -> bool {
    entries.contains_key(key) && record_matches(entries[key], code, now)
}

/// Handle on the keyspace that holds verification records.
pub struct AppDb {
    verifications: sled::Tree,
}

impl AppDb {
    /// The records the store currently holds: raw stored value keyed by
    /// identity bytes.
    pub closed spec fn entries(&self) -> Map<Seq<u8>, Seq<u8>> {
        tree_entries(self.verifications)
    }

    /// Opens the verification keyspace of `conn`. What the keyspace
    /// already holds is unknown, so nothing is promised of `entries`.
    pub fn new(conn: &sled::Db) -> (r: Result<AppDb, sled::Error>) {
        match open_tree(conn, "verifications") {
            Ok(t) => Ok(AppDb { verifications: t }),
            Err(e) => Err(e),
        }
    }

    /// Stores a verification record for `phone`, overwriting any prior
    /// record under the same key — at most one live code per identity.
    pub fn store_verification(&mut self, phone: &str, code: &str, expiry: i64) -> (r: Result<
        (),
        sled::Error,
    >)
        ensures
            r is Ok ==> final(self).entries() == old(self).entries().insert(
                phone.spec_bytes(),
                record_value(code.spec_bytes(), expiry as int),
            ),
    {
        let value = encode_record(code.as_bytes(), expiry);
        match tree_insert(&mut self.verifications, phone.as_bytes(), value.as_slice()) {
            Ok(()) => Ok(()),
            Err(e) => Err(e),
        }
    }

    /// Checks `code` against the record stored for `phone` at time
    /// `now`. A hit deletes the record (codes are single-use) and
    /// returns `true`; a missing record, wrong code or past expiry
    /// returns `false` and leaves the store unchanged.
    pub fn verify_code_at(&mut self, phone: &str, code: &str, now: i64) -> (r: Result<
        bool,
        sled::Error,
    >)
        ensures
            r matches Ok(b) ==> b == verify_hit(
                old(self).entries(),
                phone.spec_bytes(),
                code.spec_bytes(),
                now as int,
            ),
            r == Ok::<bool, sled::Error>(true) ==> final(self).entries() == old(
                self,
            ).entries().remove(phone.spec_bytes()),
            r == Ok::<bool, sled::Error>(false) ==> final(self).entries() == old(self).entries(),
    {
        let stored = match tree_get(&self.verifications, phone.as_bytes()) {
            Ok(o) => o,
            Err(e) => {
                return Err(e);
            },
        };
        let v = match stored {
            Some(v) => v,
            None => {
                return Ok(false);
            },
        };
        let ci = match find_single_colon(v.as_slice()) {
            Some(ci) => ci,
            None => {
                return Ok(false);
            },
        };
        proof {
            assert(split_record(v@) == Some((v@.take(ci as int), v@.skip(ci as int + 1))));
        }
        let code_ok = bytes_eq_range(code.as_bytes(), v.as_slice(), 0, ci);
        proof {
            assert(v@.subrange(0, ci as int) =~= v@.take(ci as int));
        }
        let expiry = match parse_i64_range(v.as_slice(), ci + 1, v.len()) {
            Some(x) => x,
            None => 0,
        };
        proof {
            assert(v@.subrange(ci as int + 1, v@.len() as int) =~= v@.skip(ci as int + 1));
            assert(expiry as int == stored_expiry(v@.skip(ci as int + 1)));
        }
        if code_ok && now < expiry {
            match tree_remove(&mut self.verifications, phone.as_bytes()) {
                Ok(_) => Ok(true),
                Err(e) => Err(e),
            }
        } else {
            Ok(false)
        }
    }

    /// Checks `code` against the record stored for `phone` at the
    /// present moment. The exact decision is that of `verify_code_at`
    /// for some instant chosen by the system clock.
    pub fn verify_code(&mut self, phone: &str, code: &str) -> (r: Result<bool, sled::Error>)
        ensures
            r == Ok::<bool, sled::Error>(true) ==> final(self).entries() == old(
                self,
            ).entries().remove(phone.spec_bytes()) && exists|now: int|
                verify_hit(old(self).entries(), phone.spec_bytes(), code.spec_bytes(), now),
            r == Ok::<bool, sled::Error>(false) ==> final(self).entries() == old(self).entries(),
    {
        let now = crate::clock::now_ts();
        self.verify_code_at(phone, code, now)
    }
}

/// Issuing a new code supersedes the old one: once a fresh record is
/// stored under a key, a presented code other than the fresh one no
/// longer verifies there, however far its own expiry lay in the future.
pub proof fn lemma_issue_supersedes(
    entries: Map<Seq<u8>, Seq<u8>>,
    key: Seq<u8>,
    old_code: Seq<u8>,
    new_code: Seq<u8>,
    expiry: int,
    now: int,
)
    requires
        old_code != new_code,
        forall|i: int| 0 <= i < new_code.len() ==> new_code[i] != 58,
        i64::MIN <= expiry <= i64::MAX,
    ensures
        !verify_hit(entries.insert(key, record_value(new_code, expiry)), key, old_code, now),
{
    lemma_record_round_trip(new_code, expiry);
}

/// A code verified once cannot be verified again: after the record
/// under a key is removed, no attempt with any code hits that key.
pub proof fn lemma_single_use(
    entries: Map<Seq<u8>, Seq<u8>>,
    key: Seq<u8>,
    code: Seq<u8>,
    now: int,
)
    ensures
        !verify_hit(entries.remove(key), key, code, now),
{
}

/// A code presented at or after its expiry never verifies, even when it
/// is otherwise correct.
pub proof fn lemma_expired_rejected(
    entries: Map<Seq<u8>, Seq<u8>>,
    key: Seq<u8>,
    code: Seq<u8>,
    expiry: int,
    now: int,
)
    requires
        entries.contains_key(key),
        entries[key] == record_value(code, expiry),
        forall|i: int| 0 <= i < code.len() ==> code[i] != 58,
        i64::MIN <= expiry <= i64::MAX,
        now >= expiry,
    ensures
        !verify_hit(entries, key, code, now),
{
    lemma_record_round_trip(code, expiry);
}

} // verus!
