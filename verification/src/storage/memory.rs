//! State in memory: lost at the end of the process.

use crate::storage;
use crate::storage::shelf::Shelf;
use crate::storage::{BusinessLink, ChatScope, ChatState, ChatStatePatch, Storage};
use vstd::prelude::*;

verus! {

/// State in memory.
pub struct MemoryStorage {
    conversations: Shelf<String>,
    states: Shelf<ChatState>,
    business: Shelf<BusinessLink>,
}

impl MemoryStorage {
    /// An empty store.
    pub fn new() -> (r: MemoryStorage)
        ensures
            r.inv(),
            r.contents() == (storage::StoreView {
                conversations: Map::empty(),
                states: Map::empty(),
                business: Map::empty(),
            }),
    {
        MemoryStorage {
            conversations: Shelf::new(),
            states: Shelf::new(),
            business: Shelf::new(),
        }
    }
}

impl Storage for MemoryStorage {
    closed spec fn contents(&self) -> storage::StoreView {
        storage::StoreView {
            conversations: self.conversations.map(),
            states: self.states.map(),
            business: self.business.map(),
        }
    }

    closed spec fn inv(&self) -> bool {
        self.conversations.inv() && self.states.inv() && self.business.inv()
    }

    fn get_conversation(&self, scope: &ChatScope, agent: &str) -> (r: Option<String>) {
        let key = scope.key();
        match self.conversations.get(key.as_str(), agent) {
            Some(id) => Some(id.as_str().to_string()),
            None => None,
        }
    }

    fn set_conversation(&mut self, scope: &ChatScope, agent: &str, conversation_id: &str) {
        let key = scope.key();
        self.conversations.insert(key.as_str(), agent, conversation_id.to_string());
    }

    fn clear_conversation(&mut self, scope: &ChatScope, agent: &str) {
        let key = scope.key();
        let _gone = self.conversations.remove(key.as_str(), agent);
    }

    fn get_chat_state(&self, scope: &ChatScope) -> (r: ChatState) {
        let key = scope.key();
        proof {
            reveal_strlit("");
            assert(""@ =~= Seq::<char>::empty());
        }
        match self.states.get(key.as_str(), "") {
            Some(state) => state.clone(),
            None => ChatState::default(),
        }
    }

    fn update_chat_state(&mut self, scope: &ChatScope, patch: ChatStatePatch) {
        let key = scope.key();
        let mut state = self.get_chat_state(scope);
        patch.apply(&mut state);
        proof {
            reveal_strlit("");
            assert(""@ =~= Seq::<char>::empty());
        }
        self.states.insert(key.as_str(), "", state);
    }

    fn get_business_link(&self, bot: &str, id: &str) -> (r: Option<BusinessLink>) {
        match self.business.get(bot, id) {
            Some(link) => Some(link.clone()),
            None => None,
        }
    }

    fn set_business_link(&mut self, bot: &str, link: &BusinessLink) {
        self.business.insert(bot, link.id.as_str(), link.clone());
    }

    fn name(&self) -> &'static str {
        "memory"
    }
}

}
