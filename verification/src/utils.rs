//! Chat sessions and the conversation store: an ordered list of
//! sessions addressed by identifier. Reading and writing the store's
//! file is the surrounding program's business; the store's logic —
//! find, update-or-add, enumerate — lives here.
use vstd::prelude::*;

use vstd::string::StringExecFns;

verus! {

/// One utterance of a conversation. The timestamp is a wall-clock
/// reading in milliseconds.
pub struct ChatMessage {
    pub role: String,
    pub content: String,
    pub timestamp: i64,
}

/// A conversation: its identifier and its messages in order.
pub struct ChatSession {
    pub id: String,
    pub messages: Vec<ChatMessage>,
    pub created_at: i64,
    pub updated_at: i64,
}

/// Every known session, in insertion order.
pub struct ConversationStore {
    pub sessions: Vec<ChatSession>,
}

/// `i` is the first position of `sessions` whose session is called `id`.
pub open spec fn first_match_at(sessions: Seq<ChatSession>, id: Seq<char>, i: int) -> bool {
    &&& 0 <= i < sessions.len()
    &&& sessions[i].id@ == id
    &&& forall|j: int| 0 <= j < i ==> sessions[j].id@ != id
}

/// No session of `sessions` is called `id`.
pub open spec fn no_match(sessions: Seq<ChatSession>, id: Seq<char>) -> bool {
    forall|j: int| 0 <= j < sessions.len() ==> sessions[j].id@ != id
}

impl ConversationStore {
    pub fn new() -> (r: ConversationStore)
        ensures
            r.sessions@.len() == 0,
    {
        ConversationStore { sessions: Vec::new() }
    }

    /// The first session called `id`, if any.
    pub fn get_session(&self, id: &str) -> (r: Option<&ChatSession>)
        ensures
            match r {
                Some(s) => exists|i: int|
                    first_match_at(self.sessions@, id@, i) && s == self.sessions@[i],
                None => no_match(self.sessions@, id@),
            },
    {
        let id_owned: String = id.to_owned();
        let mut i: usize = 0;
        while i < self.sessions.len()
            invariant
                id_owned@ == id@,
                i <= self.sessions@.len(),
                forall|j: int| 0 <= j < i ==> self.sessions@[j].id@ != id@,
            decreases self.sessions@.len() - i,
        {
            if self.sessions[i].id == id_owned {
                proof {
                    assert(first_match_at(self.sessions@, id@, i as int));
                }
                return Some(&self.sessions[i]);
            }
            i += 1;
        }
        None
    }

    /// Replace the first session with `session`'s identifier, or append
    /// `session` when none is called that. Saving the changed store is
    /// the caller's business.
    pub fn add_or_update_session(&mut self, session: ChatSession)
        ensures
            no_match(old(self).sessions@, session.id@) ==> final(self).sessions@ == old(
                self,
            ).sessions@.push(session),
            (exists|i: int| first_match_at(old(self).sessions@, session.id@, i)) ==> (exists|i: int|
                first_match_at(old(self).sessions@, session.id@, i) && final(self).sessions@
                    == old(self).sessions@.update(i, session)),
    {
        let mut i: usize = 0;
        while i < self.sessions.len()
            invariant
                i <= self.sessions@.len(),
                self.sessions@ == old(self).sessions@,
                forall|j: int| 0 <= j < i ==> self.sessions@[j].id@ != session.id@,
            decreases self.sessions@.len() - i,
        {
            if self.sessions[i].id == session.id {
                proof {
                    assert(first_match_at(self.sessions@, session.id@, i as int));
                }
                self.sessions.set(i, session);
                return ;
            }
            i += 1;
        }
        self.sessions.push(session);
    }

    /// The identifiers of every session, in the store's order.
    pub fn session_ids(&self) -> (r: Vec<String>)
        ensures
            r@.len() == self.sessions@.len(),
            forall|i: int|
                0 <= i < r@.len() ==> #[trigger] r@[i]@ == self.sessions@[i].id@,
    {
        let mut r: Vec<String> = Vec::new();
        let mut i: usize = 0;
        while i < self.sessions.len()
            invariant
                i <= self.sessions@.len(),
                r@.len() == i,
                forall|j: int| 0 <= j < i ==> #[trigger] r@[j]@ == self.sessions@[j].id@,
            decreases self.sessions@.len() - i,
        {
            r.push(self.sessions[i].id.clone());
            i += 1;
        }
        r
    }
}

impl ChatSession {
    /// Record one exchange: the user's message, then the assistant's
    /// reply, both stamped `now`, and the session touched at `now`.
    pub fn record_exchange(&mut self, user_content: String, assistant_content: String, now: i64)
        ensures
            final(self).id == old(self).id,
            final(self).created_at == old(self).created_at,
            final(self).updated_at == now,
            final(self).messages@.len() == old(self).messages@.len() + 2,
            final(self).messages@.take(old(self).messages@.len() as int) == old(self).messages@,
            final(self).messages@[final(self).messages@.len() - 2].role@ == "user"@,
            final(self).messages@[final(self).messages@.len() - 2].content@ == user_content@,
            final(self).messages@[final(self).messages@.len() - 2].timestamp == now,
            final(self).messages@[final(self).messages@.len() - 1].role@ == "assistant"@,
            final(self).messages@[final(self).messages@.len() - 1].content@
                == assistant_content@,
            final(self).messages@[final(self).messages@.len() - 1].timestamp == now,
    {
        let user_role = "user".to_owned();
        let assistant_role = "assistant".to_owned();
        self.messages.push(
            ChatMessage { role: user_role, content: user_content, timestamp: now },
        );
        self.messages.push(
            ChatMessage { role: assistant_role, content: assistant_content, timestamp: now },
        );
        self.updated_at = now;
        proof {
            assert(self.messages@.take(old(self).messages@.len() as int) =~= old(self).messages@);
        }
    }
}

/// Relies on uuid::Uuid::new_v4 and its hyphenated display form: a
/// fresh random identifier rendered as 36 characters. Nothing more is
/// promised of a random value.
#[verifier::external_body]
fn fresh_session_id() -> (r: String)
    ensures
        r@.len() == 36,
{
    uuid::Uuid::new_v4().to_string()
}

/// Relies on chrono::Utc::now, read as milliseconds since the epoch.
/// A clock reading: nothing is promised of it.
#[verifier::external_body]
fn current_timestamp() -> i64 {
    chrono::Utc::now().timestamp_millis()
}

/// A fresh, empty session: a newly drawn identifier, created and
/// touched at the same instant.
pub fn create_new_session() -> (r: ChatSession)
    ensures
        r.messages@.len() == 0,
        r.created_at == r.updated_at,
        r.id@.len() == 36,
{
    let id = fresh_session_id();
    let now = current_timestamp();
    ChatSession { id, messages: Vec::new(), created_at: now, updated_at: now }
}

} // verus!
