use docsgpt_telegram::config::{
    config_source, default_api_base, default_bind, default_collection, default_db_name,
    default_legacy_collection, default_max_file_mb, default_sqlite_path, env_var, expand_env,
    from_env, normalize, AgentConfig, Backend, BotConfig, Config, ConfigError, ConfigSource,
    GroupMode, Mode, ServerConfig, StorageConfig,
};

fn env(list: &[(&str, &str)]) -> Vec<(String, String)> {
    list.iter().map(|(k, v)| (k.to_string(), v.to_string())).collect()
}

fn text_at(t: &toml::Table, key: &str) -> Option<String> {
    t.get(key).and_then(|v| v.as_str()).map(|s| s.to_string())
}

fn agent_from_toml(t: &toml::Table) -> AgentConfig {
    AgentConfig {
        name: text_at(t, "name").unwrap(),
        api_key: text_at(t, "api_key").unwrap(),
        description: text_at(t, "description"),
        default: t.get("default").and_then(|v| v.as_bool()).unwrap_or(false),
    }
}

fn bot_from_toml(t: &toml::Table) -> BotConfig {
    let agents = match t.get("agents").and_then(|v| v.as_array()) {
        Some(list) => list.iter().map(|a| agent_from_toml(a.as_table().unwrap())).collect(),
        None => vec![],
    };
    BotConfig {
        name: text_at(t, "name").unwrap(),
        token: text_at(t, "token").unwrap(),
        mode: match text_at(t, "mode").as_deref() {
            Some("webhook") => Mode::Webhook,
            _ => Mode::Polling,
        },
        groups: match text_at(t, "groups").as_deref() {
            Some("all") => GroupMode::All,
            Some("off") => GroupMode::Off,
            _ => GroupMode::Mention,
        },
        streaming: t.get("streaming").and_then(|v| v.as_bool()).unwrap_or(true),
        reactions: true,
        attachments: true,
        voice_replies: false,
        business: true,
        guest: true,
        inline: true,
        allowed_chats: vec![],
        welcome: None,
        description: None,
        short_description: None,
        menu_button_url: None,
        max_file_mb: default_max_file_mb(),
        api_base: None,
        agents,
    }
}

fn config_from_toml(text: &str) -> Config {
    let t: toml::Table = text.parse().unwrap();
    let bots = match t.get("bots").and_then(|v| v.as_array()) {
        Some(list) => list.iter().map(|b| bot_from_toml(b.as_table().unwrap())).collect(),
        None => vec![],
    };
    let mut storage = StorageConfig::default();
    if let Some(s) = t.get("storage").and_then(|v| v.as_table()) {
        storage.backend = match text_at(s, "backend").as_deref() {
            Some("memory") => Backend::Memory,
            Some("mongodb") => Backend::Mongodb,
            _ => Backend::Sqlite,
        };
    }
    Config {
        api_base: text_at(&t, "api_base").unwrap_or_else(default_api_base),
        storage,
        server: ServerConfig::default(),
        bots,
    }
}

fn one_bot() -> Config {
    config_from_toml(
        r#"
            [[bots]]
            name = "a"
            token = "t"
            [[bots.agents]]
            name = "x"
            api_key = "k"
        "#,
    )
}

#[test]
fn expands_env_with_defaults() {
    let e = env(&[("DOCSGPT_TG_TEST_VAR", "abc")]);
    assert_eq!(expand_env("x ${DOCSGPT_TG_TEST_VAR} y", &e).unwrap(), "x abc y");
    assert_eq!(expand_env("${DOCSGPT_TG_MISSING:-fallback}", &e).unwrap(), "fallback");
    assert!(expand_env("${DOCSGPT_TG_MISSING_NO_DEFAULT}", &e).is_err());
}

#[test]
fn expansion_names_every_missing_variable() {
    let e = env(&[("B", "")]);
    let r = expand_env("${A}-${B}-${C:-}-${D}", &e);
    assert_eq!(
        r,
        Err(ConfigError::MissingVariables(vec!["A".to_string(), "D".to_string()]))
    );
    assert_eq!(
        r.err().unwrap().message(),
        "missing environment variables referenced in config: A, D"
    );
    assert_eq!(expand_env("no $references {here}", &e).unwrap(), "no $references {here}");
    assert_eq!(expand_env("[${B}${B}]", &e).unwrap(), "[]");
}

#[test]
fn parses_multi_bot_toml() {
    let toml = r#"
            api_base = "https://example.com/"
            [storage]
            backend = "memory"
            [[bots]]
            name = "Support"
            token = "1:a"
            [[bots.agents]]
            name = "support"
            api_key = "k1"
            default = true
            [[bots.agents]]
            name = "Sales"
            api_key = "k2"
            [[bots]]
            name = "docs"
            token = "2:b"
            groups = "all"
            [[bots.agents]]
            name = "docs"
            api_key = "k3"
        "#;
    let mut cfg: Config = config_from_toml(toml);
    normalize(&mut cfg).unwrap();
    assert_eq!(cfg.api_base, "https://example.com");
    assert_eq!(cfg.bots.len(), 2);
    assert_eq!(cfg.bots[0].name, "support");
    assert_eq!(cfg.bots[0].agents[1].name, "sales");
    assert_eq!(cfg.bots[0].default_agent().name, "support");
    assert_eq!(cfg.bots[1].default_agent().name, "docs");
    assert_eq!(cfg.bots[1].groups, GroupMode::All);
    assert!(cfg.bots[1].streaming);
}

#[test]
fn rejects_duplicate_agents() {
    let toml = r#"
            [[bots]]
            name = "a"
            token = "t"
            [[bots.agents]]
            name = "x"
            api_key = "k"
            [[bots.agents]]
            name = "X"
            api_key = "k2"
        "#;
    let mut cfg: Config = config_from_toml(toml);
    assert!(normalize(&mut cfg).is_err());
}

#[test]
fn every_refusal_has_its_words() {
    let mut c = one_bot();
    c.bots.clear();
    assert_eq!(normalize(&mut c).err().unwrap().message(), "no bots configured");

    let mut c = one_bot();
    c.bots[0].name = "a b".to_string();
    assert_eq!(
        normalize(&mut c).err().unwrap().message(),
        "bot name \"a b\" must be alphanumeric with '-' or '_'"
    );
    assert_eq!(c.bots[0].name, "a b");

    let mut c = one_bot();
    c.bots.push(one_bot().bots.remove(0));
    assert_eq!(normalize(&mut c).err().unwrap().message(), "duplicate bot name \"a\"");

    let mut c = one_bot();
    c.bots[0].token = "  ".to_string();
    assert_eq!(normalize(&mut c).err().unwrap().message(), "bot \"a\": token is empty");

    let mut c = one_bot();
    c.bots[0].agents.clear();
    assert_eq!(
        normalize(&mut c).err().unwrap().message(),
        "bot \"a\": at least one agent is required"
    );

    let mut c = one_bot();
    c.bots[0].agents[0].name = "".to_string();
    assert_eq!(
        normalize(&mut c).err().unwrap().message(),
        "bot \"a\": agent name \"\" must be alphanumeric with '-' or '_'"
    );

    let mut c = one_bot();
    c.bots[0].agents.push(one_bot().bots[0].agents.remove(0));
    assert_eq!(normalize(&mut c).err().unwrap().message(), "bot \"a\": duplicate agent \"x\"");

    let mut c = one_bot();
    c.bots[0].agents[0].api_key = " ".to_string();
    assert_eq!(
        normalize(&mut c).err().unwrap().message(),
        "bot \"a\": agent \"x\" has an empty api_key"
    );

    let mut c = one_bot();
    c.bots[0].agents[0].default = true;
    c.bots[0].agents.push(AgentConfig {
        name: "y".to_string(),
        api_key: "k".to_string(),
        description: None,
        default: true,
    });
    assert_eq!(
        normalize(&mut c).err().unwrap().message(),
        "bot \"a\": more than one default agent"
    );

    let mut c = one_bot();
    c.bots[0].mode = Mode::Webhook;
    assert_eq!(
        normalize(&mut c).err().unwrap().message(),
        "bot \"a\" uses webhook mode but server.public_url is not set"
    );

    let mut c = one_bot();
    c.storage.backend = Backend::Mongodb;
    c.storage.uri = Some(" ".to_string());
    assert_eq!(
        normalize(&mut c).err().unwrap().message(),
        "storage.backend = mongodb requires storage.uri (or MONGODB_URI)"
    );
    assert_eq!(
        from_env(&env(&[])).err().unwrap().message(),
        "TELEGRAM_BOT_TOKEN is not set and no config file was found"
    );
    assert_eq!(
        from_env(&env(&[("TELEGRAM_BOT_TOKEN", "t")])).err().unwrap().message(),
        "API_KEY (or API_KEY_<NAME>) is not set"
    );
}

#[test]
fn refused_configurations_are_left_half_ordered() {
    let mut c = one_bot();
    c.bots[0].name = " First ".to_string();
    c.bots[0].agents[0].name = " X ".to_string();
    c.bots[0].agents[0].default = false;
    c.bots[0].mode = Mode::Webhook;
    c.server.public_url = Some("https://p".to_string());
    c.api_base = "https://x//".to_string();
    let agent = |name: &str, key: &str| AgentConfig {
        name: name.to_string(),
        api_key: key.to_string(),
        description: None,
        default: false,
    };
    let mut second = one_bot().bots.remove(0);
    second.name = " Second".to_string();
    second.agents = vec![agent("A ", "k"), agent(" B", " "), agent(" C", "k")];
    c.bots.push(second);
    let mut third = one_bot().bots.remove(0);
    third.name = " Third".to_string();
    c.bots.push(third);
    assert_eq!(
        normalize(&mut c).err().unwrap().message(),
        "bot \"second\": agent \"b\" has an empty api_key"
    );
    let names: Vec<&str> = c.bots.iter().map(|b| b.name.as_str()).collect();
    assert_eq!(names, vec!["first", "second", " Third"]);
    assert_eq!(c.bots[0].agents[0].name, "x");
    assert!(c.bots[0].agents[0].default);
    let agents: Vec<&str> = c.bots[1].agents.iter().map(|a| a.name.as_str()).collect();
    assert_eq!(agents, vec!["a", "b", " C"]);
    assert!(c.bots[1].agents.iter().all(|a| !a.default));
    assert!(c.server.enabled);
    assert_eq!(c.api_base, "https://x//");

    let mut c = one_bot();
    c.bots[0].mode = Mode::Webhook;
    c.bots[0].agents[0].default = false;
    assert!(normalize(&mut c).is_err());
    assert!(c.server.enabled);
    assert!(c.bots[0].agents[0].default);

    let mut c = one_bot();
    c.bots[0].name = "A".to_string();
    c.storage.backend = Backend::Mongodb;
    c.storage.uri = None;
    c.api_base = "https://x/".to_string();
    assert!(normalize(&mut c).is_err());
    assert_eq!(c.bots[0].name, "a");
    assert_eq!(c.api_base, "https://x/");
}

#[test]
fn normalizing_twice_changes_nothing() {
    let mut c = one_bot();
    c.bots[0].name = " Support ".to_string();
    c.bots[0].mode = Mode::Webhook;
    c.server.public_url = Some("https://p".to_string());
    c.api_base = "https://x//".to_string();
    normalize(&mut c).unwrap();
    let once = format!("{c:?}");
    assert_eq!(c.bots[0].name, "support");
    assert!(c.server.enabled);
    assert!(c.bots[0].agents[0].default);
    assert_eq!(c.api_base, "https://x");
    normalize(&mut c).unwrap();
    assert_eq!(format!("{c:?}"), once);
}

#[test]
fn environment_layout() {
    let c = from_env(&env(&[
        ("TELEGRAM_BOT_TOKEN", "1:t"),
        ("API_KEY_SALES", "k2"),
        ("API_KEY_DOCS", "k3"),
        ("API_KEY_", "ignored"),
        ("STORAGE_TYPE", "Memory"),
        ("GROUPS_MODE", "ALL"),
        ("STREAMING", "false"),
        ("VOICE_REPLIES", "1"),
    ]))
    .unwrap();
    let b = &c.bots[0];
    assert_eq!(b.name, "bot");
    assert_eq!(b.agents.len(), 2);
    assert_eq!(b.agents[0].name, "docs");
    assert!(b.agents[0].default);
    assert_eq!(b.agents[1].name, "sales");
    assert!(!b.agents[1].default);
    assert_eq!(c.storage.backend, Backend::Memory);
    assert_eq!(b.groups, GroupMode::All);
    assert!(!b.streaming);
    assert!(b.voice_replies);
    assert_eq!(b.mode, Mode::Polling);
    assert!(!c.server.enabled);
    assert_eq!(c.api_base, "https://gptcloud.arc53.com");

    let c = from_env(&env(&[
        ("TELEGRAM_BOT_TOKEN", "1:t"),
        ("API_KEY", "k"),
        ("API_KEY_A", "k2"),
        ("STORAGE_TYPE", "mongo"),
        ("MONGODB_URI", "mongodb://h"),
        ("WEBHOOK_PUBLIC_URL", "https://p"),
    ]))
    .unwrap();
    assert_eq!(c.bots[0].agents[0].name, "default");
    assert!(c.bots[0].agents[0].default);
    assert_eq!(c.storage.backend, Backend::Mongodb);
    assert_eq!(c.storage.uri.as_deref(), Some("mongodb://h"));
    assert_eq!(c.storage.legacy_collection, "chat_histories");
    assert_eq!(c.bots[0].mode, Mode::Webhook);
    assert!(c.server.enabled);
}

#[test]
fn agents_are_found_whatever_their_case() {
    let mut c = one_bot();
    c.bots[0].agents[0].name = "Sales".to_string();
    normalize(&mut c).unwrap();
    assert_eq!(c.bots[0].agent("SALES").unwrap().api_key, "k");
    assert!(c.bots[0].agent("other").is_none());
    assert_eq!(c.bots[0].api_base("g"), "g");
    c.bots[0].api_base = Some("own".to_string());
    assert_eq!(c.bots[0].api_base("g"), "own");
}

#[test]
fn defaults_and_sources() {
    assert_eq!(default_sqlite_path(), "data/docsgpt-telegram.db");
    assert_eq!(default_db_name(), "telegram_bot_memory");
    assert_eq!(default_collection(), "telegram_bot_state");
    assert_eq!(default_legacy_collection(), "chat_histories");
    assert_eq!(default_bind(), "0.0.0.0:8080");
    assert_eq!(env_var(&env(&[("A", "1"), ("A", "2")]), "A").as_deref(), Some("1"));
    assert_eq!(env_var(&env(&[("A", "1")]), "a"), None);
    assert_eq!(config_source(true, true, true), ConfigSource::Explicit);
    assert_ne!(config_source(false, true, true), ConfigSource::Explicit);
    assert_ne!(
        config_source(false, false, false),
        config_source(false, false, true)
    );
}
