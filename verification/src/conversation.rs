//! In-process conversation metadata and message history.

use vstd::prelude::*;
use crate::text::str_eq;
use crate::endpoint_client::string_clone;

verus! {

/// What is known of one conversation.
#[derive(Debug, Clone)]
pub struct ConversationMetadata {
    pub id: String,
    pub email: String,
    pub created_at: String,
    pub last_activity: String,
    pub message_count: u32,
    pub api_url: Option<String>,
}

/// One recorded turn of a conversation.
#[derive(Debug, Clone)]
pub struct ConversationMessage {
    pub id: String,
    pub conversation_id: String,
    pub timestamp: String,
    pub input: String,
    pub endpoint_id: Option<String>,
    pub parameters: Option<String>,
}

/// The in-process registry of conversations and their messages.
#[derive(Debug)]
pub struct ConversationManager {
    pub conversations: Vec<ConversationMetadata>,
    pub messages: Vec<ConversationMessage>,
}

/// A fresh random conversation identifier.
///
/// Relies on `uuid::Uuid::new_v4` and its `Display` form: a version-4 UUID
/// rendered in the hyphenated format, which is 36 characters long.  The
/// value itself is random, so nothing more is promised of it.
#[verifier::external_body]
pub fn new_conversation_id() -> (r: String)
    ensures
        r@.len() == 36,
{
    uuid::Uuid::new_v4().to_string()
}

pub open spec fn has_conversation(cs: Seq<ConversationMetadata>, id: Seq<char>) -> bool {
    exists|i: int| 0 <= i < cs.len() && cs[i].id@ == id
}

impl ConversationManager {
    /// An empty registry.
    pub fn new() -> (r: ConversationManager)
        ensures
            r.conversations@.len() == 0,
            r.messages@.len() == 0,
    {
        ConversationManager { conversations: Vec::new(), messages: Vec::new() }
    }

    /// Starts a conversation under a fresh identifier and returns it; the
    /// registry gains one metadata entry with no messages yet.
    pub fn start_conversation(&mut self, email: String, api_url: Option<String>, now: &str) -> (r:
        String)
        ensures
            r@.len() == 36,
            final(self).conversations@.len() == old(self).conversations@.len() + 1,
            final(self).conversations@.last().id@ == r@,
            final(self).conversations@.last().email@ == email@,
            final(self).conversations@.last().message_count == 0,
            final(self).messages@ == old(self).messages@,
    {
        let conversation_id = new_conversation_id();
        let metadata = ConversationMetadata {
            id: string_clone(&conversation_id),
            email,
            created_at: now.to_owned(),
            last_activity: now.to_owned(),
            message_count: 0,
            api_url,
        };
        self.conversations.push(metadata);
        conversation_id
    }

    /// Records one turn of a known conversation, bumping its activity and
    /// message count; an unknown conversation is refused.
    pub fn add_message(
        &mut self,
        conversation_id: &str,
        input: String,
        endpoint_id: Option<String>,
        parameters: Option<String>,
        now: &str,
    ) -> (r: Result<(), ()>)
        ensures
            r is Ok <==> has_conversation(old(self).conversations@, conversation_id@),
            r is Ok ==> final(self).messages@.len() == old(self).messages@.len() + 1,
            r is Err ==> final(self).messages@ == old(self).messages@,
    {
        let ghost cv0 = self.conversations@;
        let n = self.conversations.len();
        let mut i: usize = 0;
        while i < n
            invariant
                n == self.conversations@.len(),
                self.conversations@ == cv0,
                cv0 == old(self).conversations@,
                self.messages@ == old(self).messages@,
                0 <= i <= n,
                forall|j: int| 0 <= j < i ==> cv0[j].id@ != conversation_id@,
            decreases n - i,
        {
            if str_eq(self.conversations[i].id.as_str(), conversation_id) {
                let old_meta = self.conversations.remove(i);
                let count = if old_meta.message_count == u32::MAX {
                    u32::MAX
                } else {
                    old_meta.message_count + 1
                };
                let updated = ConversationMetadata {
                    id: old_meta.id,
                    email: old_meta.email,
                    created_at: old_meta.created_at,
                    last_activity: now.to_owned(),
                    message_count: count,
                    api_url: old_meta.api_url,
                };
                self.conversations.insert(i, updated);
                let message = ConversationMessage {
                    id: new_conversation_id(),
                    conversation_id: conversation_id.to_owned(),
                    timestamp: now.to_owned(),
                    input,
                    endpoint_id,
                    parameters,
                };
                self.messages.push(message);
                return Ok(());
            }
            i = i + 1;
        }
        Err(())
    }
}

} // verus!
