//! Server-held sessions for the OAuth variant.
//!
//! A session binds the external-provider user to their tokens and an
//! expiry instant. The store keeps serialized session bytes keyed by
//! session id in a `sled` keyspace; turning a session into bytes and
//! back is the caller's business, the store's bookkeeping is verified
//! against the tree wrappers.

use vstd::prelude::*;
use vstd::string::StringSliceAdditionalSpecFns;
use crate::store::tree_entries;
use crate::store::tree_get;
use crate::store::tree_insert;
use crate::store::tree_remove;

verus! {

/// The external provider's view of a user.
#[derive(Debug, Clone)]
pub struct RedditUser {
    pub name: String,
    pub id: String,
}

/// One user's session: who they are, the tokens that speak for them,
/// and when the session lapses, in epoch seconds.
#[derive(Debug, Clone)]
pub struct UserSession {
    pub reddit_user: RedditUser,
    pub reddit_access_token: String,
    pub reddit_refresh_token: Option<String>,
    pub expires_at: i64,
}

impl UserSession {
    /// Builds the session a token exchange earned: it expires
    /// `expires_in` seconds from `now`.
    pub fn from_token(
        reddit_user: RedditUser,
        reddit_access_token: String,
        reddit_refresh_token: Option<String>,
        now: i64,
        expires_in: u64,
    ) -> (r: UserSession)
        requires
            expires_in <= i64::MAX,
            now + expires_in <= i64::MAX,
        ensures
            r.reddit_user == reddit_user,
            r.reddit_access_token == reddit_access_token,
            r.reddit_refresh_token == reddit_refresh_token,
            r.expires_at == now + expires_in,
    {
        let expires_at: i64 = now + expires_in as i64;
        UserSession { reddit_user, reddit_access_token, reddit_refresh_token, expires_at }
    }
}

/// Relies on sled::open and Db's default keyspace: opens (or creates)
/// the store at `path`. What it already holds is unknown.
#[verifier::external_body]
fn open_default_tree(path: &str) -> (r: Result<sled::Tree, sled::Error>) {
    match sled::open(path) {
        Ok(db) => Ok((*db).clone()),
        Err(e) => Err(e),
    }
}

/// Relies on sled::Tree::flush: blocks until prior writes reach disk.
/// Durability is outside what these contracts model, so nothing is
/// promised beyond the byte count it reports.
#[verifier::external_body]
fn tree_flush(t: &sled::Tree) -> (r: Result<usize, sled::Error>) {
    t.flush()
}

/// Handle on the keyspace that holds serialized sessions.
pub struct SessionStore {
    db: sled::Tree,
}

impl SessionStore {
    /// The serialized sessions the store holds, keyed by session id.
    pub closed spec fn sessions(&self) -> Map<Seq<u8>, Seq<u8>> {
        tree_entries(self.db)
    }

    /// Opens the session store at `path`. What it already holds is
    /// unknown, so nothing is promised of `sessions`.
    pub fn new(path: &str) -> (r: Result<SessionStore, sled::Error>) {
        match open_default_tree(path) {
            Ok(t) => Ok(SessionStore { db: t }),
            Err(e) => Err(e),
        }
    }

    /// Saves serialized session bytes under `session_id`, replacing any
    /// session stored there, and flushes.
    pub fn save_session(&mut self, session_id: &str, data: &[u8]) -> (r: Result<(), sled::Error>)
        ensures
            r is Ok ==> final(self).sessions() == old(self).sessions().insert(
                session_id.spec_bytes(),
                data@,
            ),
    {
        match tree_insert(&mut self.db, session_id.as_bytes(), data) {
            Ok(()) => {},
            Err(e) => {
                return Err(e);
            },
        }
        match tree_flush(&self.db) {
            Ok(_) => Ok(()),
            Err(e) => Err(e),
        }
    }

    /// The serialized session stored under `session_id`, if any.
    pub fn get_session(&self, session_id: &str) -> (r: Result<Option<Vec<u8>>, sled::Error>)
        ensures
            r matches Ok(o) ==> match o {
                Some(data) => self.sessions().contains_key(session_id.spec_bytes()) && data@
                    == self.sessions()[session_id.spec_bytes()],
                None => !self.sessions().contains_key(session_id.spec_bytes()),
            },
    {
        tree_get(&self.db, session_id.as_bytes())
    }

    /// Deletes the session stored under `session_id`, if any, and
    /// flushes.
    pub fn delete_session(&mut self, session_id: &str) -> (r: Result<(), sled::Error>)
        ensures
            r is Ok ==> final(self).sessions() == old(self).sessions().remove(
                session_id.spec_bytes(),
            ),
    {
        match tree_remove(&mut self.db, session_id.as_bytes()) {
            Ok(_) => {},
            Err(e) => {
                return Err(e);
            },
        }
        match tree_flush(&self.db) {
            Ok(_) => Ok(()),
            Err(e) => Err(e),
        }
    }
}

} // verus!
