use docsgpt_telegram::storage::adoption::{DbReply, DbStep, Search};
use docsgpt_telegram::storage::memory::MemoryStorage;
use docsgpt_telegram::storage::mongo::{
    adopt_legacy, biz_key, chat_key, connection_uri, conv_key, legacy_name, legacy_user, lookup,
    LegacyChat, LegacyId, LegacyUser, Lookup,
};
use docsgpt_telegram::storage::{
    BusinessLink, ChatScope, ChatState, ChatStatePatch, Storage, UserInfo,
};

#[test]
fn memory_contract() {
    let mut s = MemoryStorage::new();
    let scope = ChatScope::new("bot", 42, None);
    assert_eq!(s.get_conversation(&scope, "a"), None);
    s.set_conversation(&scope, "a", "conv-1");
    s.set_conversation(&scope, "b", "conv-2");
    assert_eq!(s.get_conversation(&scope, "a").as_deref(), Some("conv-1"));
    assert_eq!(s.get_conversation(&scope, "b").as_deref(), Some("conv-2"));
    let topic = ChatScope::new("bot", 42, Some(7));
    assert_eq!(s.get_conversation(&topic, "a"), None);
    s.set_conversation(&scope, "a", "conv-3");
    assert_eq!(s.get_conversation(&scope, "a").as_deref(), Some("conv-3"));
    s.clear_conversation(&scope, "a");
    assert_eq!(s.get_conversation(&scope, "a"), None);
    assert_eq!(s.get_conversation(&scope, "b").as_deref(), Some("conv-2"));

    let st = s.get_chat_state(&scope);
    assert_eq!(st, ChatState::default());
    s.update_chat_state(&scope, ChatStatePatch::active_agent(Some("b")));
    s.update_chat_state(
        &scope,
        ChatStatePatch {
            last_question: Some("hi".into()),
            user: Some(UserInfo {
                id: 1,
                first_name: "A".into(),
                last_name: None,
                username: None,
                language_code: None,
            }),
            ..Default::default()
        },
    );
    let st = s.get_chat_state(&scope);
    assert_eq!(st.active_agent.as_deref(), Some("b"));
    assert_eq!(st.last_question.as_deref(), Some("hi"));
    assert_eq!(st.user.as_ref().map(|u| u.id), Some(1));
    s.update_chat_state(&scope, ChatStatePatch::active_agent(None));
    assert_eq!(s.get_chat_state(&scope).active_agent, None);

    assert!(s.get_business_link("bot", "c1").is_none());
    let link = BusinessLink {
        id: "c1".into(),
        user_id: 9,
        user_chat_id: 9,
        is_enabled: true,
        can_reply: true,
    };
    s.set_business_link("bot", &link);
    assert_eq!(s.get_business_link("bot", "c1"), Some(link.clone()));
    let link2 = BusinessLink {
        is_enabled: false,
        ..link
    };
    s.set_business_link("bot", &link2);
    assert_eq!(s.get_business_link("bot", "c1"), Some(link2));
    assert!(s.get_business_link("other", "c1").is_none());
    assert_eq!(s.name(), "memory");
}

#[test]
fn scopes_have_distinct_keys() {
    assert_eq!(ChatScope::new("bot", -100, Some(3)).key(), "bot:-100:3");
    assert_eq!(ChatScope::business("bot", 5, "c1").key(), "bot:biz:c1:5:0");
    assert_eq!(ChatScope::guest("bot", 5, 9).key(), "bot:guest:9:5:0");
    assert!(ChatScope::new("bot", 5, None).is_legacy_shape());
    assert!(!ChatScope::new("bot", 5, Some(1)).is_legacy_shape());
    assert!(!ChatScope::guest("bot", 5, 9).is_legacy_shape());
}

#[test]
fn documents_are_found_by_their_keys() {
    let scope = ChatScope::new("bot", 42, None);
    assert_eq!(conv_key(&scope, "b"), "conv:bot:42:0:b");
    assert_eq!(chat_key(&scope), "chat:bot:42:0");
    assert_eq!(biz_key("bot", "c1"), "biz:bot:c1");
}

fn old_user(id: LegacyId) -> LegacyUser {
    LegacyUser {
        id,
        first_name: Some("Ann".to_string()),
        last_name: None,
        username: Some("ann".to_string()),
        language_code: Some("en".to_string()),
    }
}

#[test]
fn old_chats_are_adopted_once() {
    let chat = Some(LegacyChat {
        migrated: false,
        conversation_id: Some("legacy-conv".to_string()),
        user: Some(old_user(LegacyId::Int(777))),
    });
    let a = adopt_legacy(&chat).unwrap();
    assert_eq!(a.conversation_id, "legacy-conv");
    assert_eq!(a.user.unwrap().id, 777);
    let again = Some(LegacyChat {
        migrated: true,
        conversation_id: Some("legacy-conv".to_string()),
        user: None,
    });
    assert!(adopt_legacy(&again).is_none());
    assert!(adopt_legacy(&None).is_none());
    let never = Some(LegacyChat { migrated: false, conversation_id: None, user: None });
    assert!(adopt_legacy(&never).is_none());
    assert!(legacy_user(&old_user(LegacyId::Other)).is_none());
    assert_eq!(legacy_user(&old_user(LegacyId::Whole(31))).unwrap().id, 31);
}

#[test]
fn only_plain_chats_have_an_old_document() {
    let plain = ChatScope::new("bot", 5, None);
    let topic = ChatScope::new("bot", 5, Some(3));
    assert!(matches!(lookup(&None, &plain), Lookup::TryLegacy));
    assert!(matches!(lookup(&None, &topic), Lookup::Nothing));
    match lookup(&Some(Some("c".to_string())), &topic) {
        Lookup::Stored(Some(c)) => assert_eq!(c, "c"),
        _ => panic!("the stored conversation is lost"),
    }
    assert_eq!(connection_uri(&None), None);
    assert_eq!(connection_uri(&Some(" ".to_string())), None);
    assert_eq!(connection_uri(&Some("mongodb://h".to_string())).as_deref(), Some("mongodb://h"));
    assert_eq!(legacy_name("chat_histories", "state").as_deref(), Some("chat_histories"));
    assert_eq!(legacy_name("state", "state"), None);
}

/// Both collections, held in memory: the conversations by their key, and one old
/// document with the key that took it over.
struct Held {
    conversations: Vec<(String, String)>,
    old: Option<(String, String, Option<String>)>,
    users: Vec<u64>,
}

impl Held {
    fn get(&mut self, scope: &ChatScope, agent: &str) -> Option<String> {
        let mut search = Search::new(scope, agent, self.old.is_some());
        loop {
            let reply = match search.step() {
                DbStep::ReadConversation(key) => {
                    let found = self.conversations.iter().find(|(k, _)| *k == key);
                    DbReply::Conversation(found.map(|(_, id)| Some(id.clone())))
                }
                DbStep::ReadOld(id) => DbReply::Old(match &self.old {
                    Some((old, conversation, to)) if *old == id => Some(LegacyChat {
                        migrated: to.is_some(),
                        conversation_id: Some(conversation.clone()),
                        user: Some(old_user(LegacyId::Int(777))),
                    }),
                    _ => None,
                }),
                DbStep::WriteConversation(key, id) => {
                    self.conversations.push((key, id));
                    DbReply::Done
                }
                DbStep::RememberUser(user) => {
                    self.users.push(user.id);
                    DbReply::Done
                }
                DbStep::MarkOld(_, key) => {
                    self.old.as_mut().unwrap().2 = Some(key);
                    DbReply::Done
                }
                DbStep::Finished(found) => return found,
                DbStep::Fail => panic!("nothing fails here"),
            };
            search.on_reply(&reply);
        }
    }
}

#[test]
fn adopted_conversations_are_read_until_they_are_cleared() {
    let mut db = Held {
        conversations: vec![],
        old: Some(("12345".to_string(), "legacy-conv".to_string(), None)),
        users: vec![],
    };
    let s = ChatScope::new("bot", 12345, None);
    assert_eq!(db.get(&s, "default").as_deref(), Some("legacy-conv"));
    assert_eq!(db.get(&s, "default").as_deref(), Some("legacy-conv"));
    assert_eq!(db.users, vec![777]);
    assert_eq!(db.get(&s, "other"), None);
    assert_eq!(db.get(&ChatScope::new("bot", 12345, Some(3)), "default"), None);
    db.conversations.clear();
    assert_eq!(db.get(&s, "default"), None);
    let (_, kept, to) = db.old.unwrap();
    assert_eq!(kept, "legacy-conv");
    assert_eq!(to.as_deref(), Some("conv:bot:12345:0:default"));
}

#[test]
fn failures_after_the_write_hide_nothing() {
    let s = ChatScope::new("bot", 5, None);
    let old = |id: &str| {
        DbReply::Old(Some(LegacyChat {
            migrated: false,
            conversation_id: Some(id.to_string()),
            user: Some(old_user(LegacyId::Int(1))),
        }))
    };
    let mut a = Search::new(&s, "x", true);
    a.on_reply(&DbReply::Conversation(None));
    a.on_reply(&old(" c "));
    assert!(matches!(a.step(), DbStep::WriteConversation(ref k, ref c) if k == "conv:bot:5:0:x" && c == "c"));
    a.on_reply(&DbReply::Done);
    a.on_reply(&DbReply::Failed);
    a.on_reply(&DbReply::Failed);
    assert!(matches!(a.step(), DbStep::Finished(Some(ref c)) if c == "c"));
    let mut b = Search::new(&s, "x", true);
    b.on_reply(&DbReply::Conversation(None));
    b.on_reply(&old("c"));
    b.on_reply(&DbReply::Failed);
    assert!(matches!(b.step(), DbStep::Finished(None)));
    let mut c = Search::new(&s, "x", true);
    c.on_reply(&DbReply::Failed);
    assert!(matches!(c.step(), DbStep::Fail));
    let mut d = Search::new(&s, "x", false);
    d.on_reply(&DbReply::Conversation(None));
    assert!(matches!(d.step(), DbStep::Finished(None)));
}
