//! Flat in-memory store for conversations and settings.
//!
//! A key-value store behind save/load operations with no invariant beyond
//! last-write-wins; it is specified only at this boundary.

use vstd::prelude::*;

verus! {

/// One chat message of a stored conversation.
#[derive(Debug, Clone, PartialEq, Eq)]
pub struct Message {
    pub id: String,
    pub role: String,
    pub content: String,
    pub timestamp: u64,
    pub model: Option<String>,
}

/// A stored conversation: an ordered list of messages plus bookkeeping.
#[derive(Debug, Clone, PartialEq, Eq)]
pub struct Conversation {
    pub id: String,
    pub title: String,
    pub messages: Vec<Message>,
    pub created_at: u64,
    pub updated_at: u64,
    pub model: String,
}

/// User settings.
#[derive(Debug, Clone, PartialEq, Eq)]
pub struct Settings {
    pub api_key: Option<String>,
    pub selected_model: String,
}

/// The whole store: the saved conversations and the saved settings.
pub struct StorageState {
    pub conversations: Vec<Conversation>,
    pub settings: Option<Settings>,
}

impl StorageState {
    /// An empty store: no conversations, no settings.
    pub fn new() -> (s: Self)
        ensures
            s.conversations@ == Seq::<Conversation>::empty(),
            s.settings is None,
    {
        StorageState { conversations: Vec::new(), settings: None }
    }

    /// Replaces the stored conversations wholesale (last write wins).
    pub fn save_conversations(&mut self, conversations: Vec<Conversation>)
        ensures
            final(self).conversations == conversations,
            final(self).settings == old(self).settings,
    {
        self.conversations = conversations;
    }

    /// Hands back the stored conversations.
    pub fn load_conversations(&self) -> (r: &Vec<Conversation>)
        ensures
            r == &self.conversations,
    {
        &self.conversations
    }

    /// Replaces the stored settings wholesale (last write wins).
    pub fn save_settings(&mut self, settings: Settings)
        ensures
            final(self).settings == Some(settings),
            final(self).conversations == old(self).conversations,
    {
        self.settings = Some(settings);
    }

    /// Hands back the stored settings, absent if none were ever saved.
    pub fn load_settings(&self) -> (r: &Option<Settings>)
        ensures
            r == &self.settings,
    {
        &self.settings
    }

    /// Forgets everything: no conversations, no settings.
    pub fn clear_all_data(&mut self)
        ensures
            final(self).conversations@ == Seq::<Conversation>::empty(),
            final(self).settings is None,
    {
        self.conversations = Vec::new();
        self.settings = None;
    }
}

impl Default for StorageState {
    /// The empty store.
    fn default() -> (s: Self)
        ensures
            s.conversations@ == Seq::<Conversation>::empty(),
            s.settings is None,
    {
        StorageState::new()
    }
}

} // verus!
