//! Session tracking: an in-memory, concurrency-safe table mapping opaque
//! session tokens to authenticated-identity snapshots.
//!
//! `SessionTable` is the verified heart: an association list with unique
//! keys whose view is a `Map` from token text to record, with exact
//! contracts on insertion, lookup and removal. `SessionStore` shares one
//! table across concurrent callers behind a reader/writer lock, so any
//! number of lookups proceed together and mutations exclude everything
//! else; the lock's invariant keeps the table well formed.

use vstd::prelude::*;

verus! {

use vstd::rwlock::{RwLock, RwLockPredicate};

/// A lightweight snapshot of an identity, taken at session-creation time;
/// not a live reference to the stored identity.
#[derive(Clone, Debug)]
pub struct UserSession {
    pub username: String,
    pub email: String,
}

/// Mathematical image of a [`UserSession`]: the two character sequences.
pub struct UserSessionV {
    pub username: Seq<char>,
    pub email: Seq<char>,
}

impl View for UserSession {
    type V = UserSessionV;

    open spec fn view(&self) -> UserSessionV {
        UserSessionV { username: self.username@, email: self.email@ }
    }
}

struct Entry {
    token: String,
    user: UserSession,
}

/// The session mapping itself: token to record, keys unique, insertion
/// order irrelevant. Its view is the corresponding `Map`.
pub struct SessionTable {
    entries: Vec<Entry>,
}

spec fn map_of(entries: Seq<Entry>) -> Map<Seq<char>, UserSessionV>
    decreases entries.len(),
{
    if entries.len() == 0 {
        Map::empty()
    } else {
        map_of(entries.drop_last()).insert(entries.last().token@, entries.last().user@)
    }
}

spec fn tokens_unique(entries: Seq<Entry>) -> bool {
    forall|i: int, j: int|
        0 <= i < j < entries.len() ==> entries[i].token@ != entries[j].token@
}

proof fn lemma_map_of_contains(entries: Seq<Entry>, k: Seq<char>)
    ensures
        map_of(entries).contains_key(k) <==> exists|i: int|
            0 <= i < entries.len() && entries[i].token@ == k,
    decreases entries.len(),
{
    if entries.len() > 0 {
        lemma_map_of_contains(entries.drop_last(), k);
        if map_of(entries).contains_key(k) {
            if entries.last().token@ == k {
                assert(entries[entries.len() - 1].token@ == k);
            }
        }
        if exists|i: int| 0 <= i < entries.len() && entries[i].token@ == k {
            let i = choose|i: int| 0 <= i < entries.len() && entries[i].token@ == k;
            if i < entries.len() - 1 {
                assert(entries.drop_last()[i].token@ == k);
            }
        }
    }
}

proof fn lemma_map_of_get(entries: Seq<Entry>, i: int)
    requires
        tokens_unique(entries),
        0 <= i < entries.len(),
    ensures
        map_of(entries).contains_key(entries[i].token@),
        map_of(entries)[entries[i].token@] == entries[i].user@,
    decreases entries.len(),
{
    if i == entries.len() - 1 {
    } else {
        lemma_map_of_get(entries.drop_last(), i);
        assert(entries[i].token@ != entries.last().token@);
    }
}

proof fn lemma_map_of_remove(entries: Seq<Entry>, i: int)
    requires
        tokens_unique(entries),
        0 <= i < entries.len(),
    ensures
        map_of(entries.remove(i)) == map_of(entries).remove(entries[i].token@),
    decreases entries.len(),
{
    let k = entries[i].token@;
    if i == entries.len() - 1 {
        assert(entries.remove(i) =~= entries.drop_last());
        lemma_map_of_contains(entries.drop_last(), k);
        assert(!map_of(entries.drop_last()).contains_key(k));
        assert(map_of(entries.drop_last()).insert(k, entries[i].user@).remove(k)
            =~= map_of(entries.drop_last()));
    } else {
        let shorter = entries.drop_last();
        lemma_map_of_remove(shorter, i);
        assert(entries.remove(i).drop_last() =~= shorter.remove(i));
        assert(entries.remove(i).last() == entries.last());
        assert(map_of(entries.remove(i)) == map_of(shorter.remove(i)).insert(
            entries.last().token@,
            entries.last().user@,
        ));
        assert(entries.last().token@ != k);
        assert(map_of(shorter).remove(k).insert(entries.last().token@, entries.last().user@)
            =~= map_of(shorter).insert(entries.last().token@, entries.last().user@).remove(k));
    }
}

impl View for SessionTable {
    type V = Map<Seq<char>, UserSessionV>;

    closed spec fn view(&self) -> Map<Seq<char>, UserSessionV> {
        map_of(self.entries@)
    }
}

impl SessionTable {
    /// Tokens are unique, so the view loses no entry.
    pub closed spec fn wf(&self) -> bool {
        tokens_unique(self.entries@)
    }

    pub fn new() -> (r: SessionTable)
        ensures
            r.wf(),
            r@ == Map::<Seq<char>, UserSessionV>::empty(),
    {
        SessionTable { entries: Vec::new() }
    }

    fn find_index(&self, token: &str) -> (r: Option<usize>)
        ensures
            r matches Some(i) ==> i < self.entries@.len() && self.entries@[i as int].token@
                == token@,
            r is None ==> forall|i: int|
                0 <= i < self.entries@.len() ==> self.entries@[i].token@ != token@,
    {
        let key: String = token.to_owned();
        let mut i: usize = 0;
        while i < self.entries.len()
            invariant
                i <= self.entries@.len(),
                key@ == token@,
                forall|j: int| 0 <= j < i ==> self.entries@[j].token@ != token@,
            decreases self.entries@.len() - i,
        {
            if self.entries[i].token == key {
                return Some(i);
            }
            i = i + 1;
        }
        None
    }

    /// Bind the record to the token, replacing any record the token already
    /// had.
    pub fn insert(&mut self, token: String, user: UserSession)
        requires
            old(self).wf(),
        ensures
            final(self).wf(),
            final(self)@ == old(self)@.insert(token@, user@),
    {
        let found = self.find_index(token.as_str());
        match found {
            Some(i) => {
                proof {
                    lemma_map_of_remove(self.entries@, i as int);
                }
                let ghost before = self.entries@;
                self.entries.remove(i);
                assert forall|a: int, b: int|
                    0 <= a < b < self.entries@.len() implies self.entries@[a].token@
                    != self.entries@[b].token@ by {
                    assert(self.entries@[a] == if a < i as int {
                        before[a]
                    } else {
                        before[a + 1]
                    });
                }
                assert forall|a: int| 0 <= a < self.entries@.len() implies self.entries@[a].token@
                    != token@ by {
                    assert(self.entries@[a] == if a < i as int {
                        before[a]
                    } else {
                        before[a + 1]
                    });
                }
                let ghost mid = self.entries@;
                self.entries.push(Entry { token, user });
                assert(self.entries@.drop_last() =~= mid);
                assert(old(self)@.remove(self.entries@.last().token@).insert(
                    self.entries@.last().token@,
                    user@,
                ) =~= old(self)@.insert(self.entries@.last().token@, user@));
            },
            None => {
                let ghost mid = self.entries@;
                self.entries.push(Entry { token, user });
                assert(self.entries@.drop_last() =~= mid);
            },
        }
    }

    /// A copy of the record bound to the token, if the token is live.
    pub fn lookup(&self, token: &str) -> (r: Option<UserSession>)
        requires
            self.wf(),
        ensures
            r matches Some(u) ==> self@.contains_key(token@) && u@ == self@[token@],
            r is None ==> !self@.contains_key(token@),
    {
        let found = self.find_index(token);
        match found {
            Some(i) => {
                proof {
                    lemma_map_of_get(self.entries@, i as int);
                }
                let e = &self.entries[i];
                Some(UserSession { username: e.user.username.clone(), email: e.user.email.clone() })
            },
            None => {
                proof {
                    lemma_map_of_contains(self.entries@, token@);
                }
                None
            },
        }
    }

    /// Delete the token's entry if present; removing an absent token is a
    /// no-op, not an error.
    pub fn remove(&mut self, token: &str)
        requires
            old(self).wf(),
        ensures
            final(self).wf(),
            final(self)@ == old(self)@.remove(token@),
    {
        let found = self.find_index(token);
        match found {
            Some(i) => {
                proof {
                    lemma_map_of_remove(self.entries@, i as int);
                }
                let ghost before = self.entries@;
                self.entries.remove(i);
                assert forall|a: int, b: int|
                    0 <= a < b < self.entries@.len() implies self.entries@[a].token@
                    != self.entries@[b].token@ by {
                    assert(self.entries@[a] == if a < i as int {
                        before[a]
                    } else {
                        before[a + 1]
                    });
                }
            },
            None => {
                proof {
                    lemma_map_of_contains(self.entries@, token@);
                    assert(old(self)@.remove(token@) =~= old(self)@);
                }
            },
        }
    }
}

/// Law: a lookup right after a session is created for a token observes
/// exactly the record given at creation, and removing that token ends it.
pub proof fn lemma_create_then_resolve(
    m: Map<Seq<char>, UserSessionV>,
    t: Seq<char>,
    u: UserSessionV,
)
    ensures
        m.insert(t, u).contains_key(t),
        m.insert(t, u)[t] == u,
        !m.insert(t, u).remove(t).contains_key(t),
{
}

/// Law: ending a session is idempotent — removing a token twice leaves the
/// same state as removing it once, and removing an absent token changes
/// nothing.
pub proof fn lemma_end_session_idempotent(m: Map<Seq<char>, UserSessionV>, t: Seq<char>)
    ensures
        m.remove(t).remove(t) == m.remove(t),
        !m.contains_key(t) ==> m.remove(t) == m,
{
    assert(m.remove(t).remove(t) =~= m.remove(t));
    if !m.contains_key(t) {
        assert(m.remove(t) =~= m);
    }
}

/// Relies on uuid::Uuid::new_v4 and its canonical hyphenated rendering: a
/// 36-character string carrying 122 random bits from the operating system's
/// cryptographically secure source. Nothing is promised of the value; two
/// calls may return anything.
#[verifier::external_body]
fn fresh_token() -> (r: String)
    ensures
        r@.len() == 36,
{
    uuid::Uuid::new_v4().to_string()
}

/// Lock invariant for the shared session table.
pub struct TableInv {}

impl RwLockPredicate<SessionTable> for TableInv {
    open spec fn inv(self, t: SessionTable) -> bool {
        t.wf()
    }
}

/// One logical session store per running process, shared by all concurrent
/// request handlers. Lookups take the read side of the lock and proceed in
/// parallel; creation and removal take the write side and exclude all other
/// operations for the duration of the single table mutation. Contents are
/// not persisted: a restart invalidates every session.
pub struct SessionStore {
    sessions: RwLock<SessionTable, TableInv>,
}

impl SessionStore {
    pub fn new() -> (r: SessionStore) {
        SessionStore { sessions: RwLock::new(SessionTable::new(), Ghost(TableInv {  })) }
    }

    /// Generate a fresh random token, bind the record to it, and return it.
    /// With 122 bits of randomness a collision with a live token is treated
    /// as negligible; if one occurs the older record is replaced, as
    /// [`SessionTable::insert`] states.
    pub fn create_session(&self, user: UserSession) -> (token: String)
        ensures
            token@.len() == 36,
    {
        let token = fresh_token();
        let copy = token.clone();
        let (mut table, handle) = self.sessions.acquire_write();
        table.insert(copy, user);
        handle.release_write(table);
        token
    }

    /// A copy of the record bound to the token at the moment the read lock
    /// is held, if the token is live then.
    pub fn get_user(&self, session_id: &str) -> (r: Option<UserSession>) {
        let handle = self.sessions.acquire_read();
        let r = handle.borrow().lookup(session_id);
        handle.release_read();
        r
    }

    /// End the token's session; ending an absent token is a no-op.
    pub fn remove_session(&self, session_id: &str) {
        let (mut table, handle) = self.sessions.acquire_write();
        table.remove(session_id);
        handle.release_write(table);
    }
}

} // verus!
