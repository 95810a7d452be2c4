//! Configuration: a TOML file with `${ENV}` references, or a plain
//! environment-variable layout (TELEGRAM_BOT_TOKEN / API_KEY / API_KEY_*).

use crate::pattern;
use crate::pattern::Found;
use crate::text;
use vstd::prelude::*;

verus! {

/// The whole configuration.
#[derive(Debug)]
pub struct Config {
    /// DocsGPT base URL (cloud by default).
    pub api_base: String,
    pub storage: StorageConfig,
    pub server: ServerConfig,
    pub bots: Vec<BotConfig>,
}

/// Where state is kept.
#[derive(Debug, Clone, Copy, PartialEq, Eq, Structural)]
pub enum Backend {
    Memory,
    Sqlite,
    Mongodb,
}

/// How state is kept.
#[derive(Debug)]
pub struct StorageConfig {
    pub backend: Backend,
    /// SQLite file path.
    pub path: String,
    /// MongoDB connection string.
    pub uri: Option<String>,
    pub db_name: String,
    /// Collection used for chat state and conversation ids.
    pub collection: String,
    /// Collection written by older deployments; read once for migration.
    pub legacy_collection: String,
}

/// The HTTP server.
#[derive(Debug)]
pub struct ServerConfig {
    /// Start the HTTP server (`/healthz`, webhooks). Auto-enabled when a bot uses webhook mode.
    pub enabled: bool,
    pub bind: String,
    /// Public HTTPS base URL Telegram can reach, e.g. `https://bots.example.com`.
    pub public_url: Option<String>,
    /// Secret sent by Telegram in `X-Telegram-Bot-Api-Secret-Token`. Generated if absent.
    pub webhook_secret: Option<String>,
}

/// How updates arrive.
#[derive(Debug, Clone, Copy, PartialEq, Eq, Structural)]
pub enum Mode {
    Polling,
    Webhook,
}

/// What a bot does in groups.
#[derive(Debug, Clone, Copy, PartialEq, Eq, Structural)]
pub enum GroupMode {
    /// Answer only when mentioned or replied to.
    Mention,
    /// Answer every message (requires privacy mode off in BotFather).
    All,
    /// Ignore groups entirely.
    Off,
}

/// One bot.
#[derive(Debug)]
pub struct BotConfig {
    /// Short identifier used in storage keys and webhook paths.
    pub name: String,
    pub token: String,
    pub mode: Mode,
    pub groups: GroupMode,
    /// Stream answers as live drafts in private chats.
    pub streaming: bool,
    /// React 👀 while working.
    pub reactions: bool,
    /// Accept photos, documents, voice notes.
    pub attachments: bool,
    /// Reply to voice notes with a generated voice note as well.
    pub voice_replies: bool,
    /// Answer customers in connected Telegram Business chats.
    pub business: bool,
    /// Answer guest mentions in chats the bot is not a member of.
    pub guest: bool,
    /// Answer inline queries (`@bot question?`).
    pub inline: bool,
    /// Restrict the bot to these chat ids (empty = everyone).
    pub allowed_chats: Vec<i64>,
    /// Text for /start. `{agents}` expands to the agent list.
    pub welcome: Option<String>,
    /// Pushed with setMyDescription at startup.
    pub description: Option<String>,
    /// Pushed with setMyShortDescription at startup.
    pub short_description: Option<String>,
    /// Menu button opening a Mini App (for example the DocsGPT web widget).
    pub menu_button_url: Option<String>,
    pub max_file_mb: u64,
    /// Override the global DocsGPT base URL for this bot.
    pub api_base: Option<String>,
    pub agents: Vec<AgentConfig>,
}

/// One agent of a bot.
#[derive(Debug)]
pub struct AgentConfig {
    pub name: String,
    pub api_key: String,
    pub description: Option<String>,
    pub default: bool,
}

/// An agent as mathematical values.
pub ghost struct AgentView {
    pub name: Seq<char>,
    pub api_key: Seq<char>,
    pub description: Option<Seq<char>>,
    pub default: bool,
}

impl View for AgentConfig {
    type V = AgentView;

    open spec fn view(&self) -> AgentView {
        AgentView {
            name: self.name@,
            api_key: self.api_key@,
            description: text::opt_view(self.description),
            default: self.default,
        }
    }
}

impl Clone for AgentConfig {
    fn clone(&self) -> (r: AgentConfig)
        ensures
            r@ == self@,
    {
        AgentConfig {
            name: self.name.as_str().to_string(),
            api_key: self.api_key.as_str().to_string(),
            description: text::copy_opt(&self.description),
            default: self.default,
        }
    }
}

/// The values of a list of agents.
pub open spec fn agent_views(list: Seq<AgentConfig>) -> Seq<AgentView> {
    list.map_values(|a: AgentConfig| a@)
}

/// A bot as mathematical values.
pub ghost struct BotView {
    pub name: Seq<char>,
    pub token: Seq<char>,
    pub mode: Mode,
    pub groups: GroupMode,
    pub streaming: bool,
    pub reactions: bool,
    pub attachments: bool,
    pub voice_replies: bool,
    pub business: bool,
    pub guest: bool,
    pub inline: bool,
    pub allowed_chats: Seq<i64>,
    pub welcome: Option<Seq<char>>,
    pub description: Option<Seq<char>>,
    pub short_description: Option<Seq<char>>,
    pub menu_button_url: Option<Seq<char>>,
    pub max_file_mb: u64,
    pub api_base: Option<Seq<char>>,
    pub agents: Seq<AgentView>,
}

impl View for BotConfig {
    type V = BotView;

    open spec fn view(&self) -> BotView {
        BotView {
            name: self.name@,
            token: self.token@,
            mode: self.mode,
            groups: self.groups,
            streaming: self.streaming,
            reactions: self.reactions,
            attachments: self.attachments,
            voice_replies: self.voice_replies,
            business: self.business,
            guest: self.guest,
            inline: self.inline,
            allowed_chats: self.allowed_chats@,
            welcome: text::opt_view(self.welcome),
            description: text::opt_view(self.description),
            short_description: text::opt_view(self.short_description),
            menu_button_url: text::opt_view(self.menu_button_url),
            max_file_mb: self.max_file_mb,
            api_base: text::opt_view(self.api_base),
            agents: agent_views(self.agents@),
        }
    }
}

/// The values of a list of bots.
pub open spec fn bot_views(list: Seq<BotConfig>) -> Seq<BotView> {
    list.map_values(|b: BotConfig| b@)
}

/// Storage settings as mathematical values.
pub ghost struct StorageConfigView {
    pub backend: Backend,
    pub path: Seq<char>,
    pub uri: Option<Seq<char>>,
    pub db_name: Seq<char>,
    pub collection: Seq<char>,
    pub legacy_collection: Seq<char>,
}

impl View for StorageConfig {
    type V = StorageConfigView;

    open spec fn view(&self) -> StorageConfigView {
        StorageConfigView {
            backend: self.backend,
            path: self.path@,
            uri: text::opt_view(self.uri),
            db_name: self.db_name@,
            collection: self.collection@,
            legacy_collection: self.legacy_collection@,
        }
    }
}

/// Server settings as mathematical values.
pub ghost struct ServerView {
    pub enabled: bool,
    pub bind: Seq<char>,
    pub public_url: Option<Seq<char>>,
    pub webhook_secret: Option<Seq<char>>,
}

impl View for ServerConfig {
    type V = ServerView;

    open spec fn view(&self) -> ServerView {
        ServerView {
            enabled: self.enabled,
            bind: self.bind@,
            public_url: text::opt_view(self.public_url),
            webhook_secret: text::opt_view(self.webhook_secret),
        }
    }
}

/// The configuration as mathematical values.
pub ghost struct ConfigView {
    pub api_base: Seq<char>,
    pub storage: StorageConfigView,
    pub server: ServerView,
    pub bots: Seq<BotView>,
}

impl View for Config {
    type V = ConfigView;

    open spec fn view(&self) -> ConfigView {
        ConfigView {
            api_base: self.api_base@,
            storage: self.storage@,
            server: self.server@,
            bots: bot_views(self.bots@),
        }
    }
}

/// The DocsGPT base URL where none is given.
pub fn default_api_base() -> (r: String)
    ensures
        r@ == "https://gptcloud.arc53.com"@,
{
    "https://gptcloud.arc53.com".to_string()
}

/// Where state is kept where nothing is said of it.
pub fn default_backend() -> (r: Backend)
    ensures
        r == Backend::Sqlite,
{
    Backend::Sqlite
}

/// The SQLite file where none is given.
pub fn default_sqlite_path() -> (r: String)
    ensures
        r@ == "data/docsgpt-telegram.db"@,
{
    "data/docsgpt-telegram.db".to_string()
}

/// The MongoDB database where none is given.
pub fn default_db_name() -> (r: String)
    ensures
        r@ == "telegram_bot_memory"@,
{
    "telegram_bot_memory".to_string()
}

/// The MongoDB collection where none is given.
pub fn default_collection() -> (r: String)
    ensures
        r@ == "telegram_bot_state"@,
{
    "telegram_bot_state".to_string()
}

/// The older MongoDB collection where none is given.
pub fn default_legacy_collection() -> (r: String)
    ensures
        r@ == "chat_histories"@,
{
    "chat_histories".to_string()
}

/// The address of the HTTP server where none is given.
pub fn default_bind() -> (r: String)
    ensures
        r@ == "0.0.0.0:8080"@,
{
    "0.0.0.0:8080".to_string()
}

/// How updates arrive where nothing is said of it.
pub fn default_mode() -> (r: Mode)
    ensures
        r == Mode::Polling,
{
    Mode::Polling
}

/// What a bot does in groups where nothing is said of it.
pub fn default_group_mode() -> (r: GroupMode)
    ensures
        r == GroupMode::Mention,
{
    GroupMode::Mention
}

/// A switch that is on where nothing is said of it.
pub fn default_true() -> (r: bool)
    ensures
        r,
{
    true
}

/// The largest file, in megabytes, where nothing is said of it.
pub fn default_max_file_mb() -> (r: u64)
    ensures
        r == 20,
{
    20
}

/// Storage settings where nothing is said of them.
pub open spec fn default_storage() -> StorageConfigView {
    StorageConfigView {
        backend: Backend::Sqlite,
        path: "data/docsgpt-telegram.db"@,
        uri: None,
        db_name: "telegram_bot_memory"@,
        collection: "telegram_bot_state"@,
        legacy_collection: "chat_histories"@,
    }
}

impl Default for StorageConfig {
    fn default() -> (r: StorageConfig)
        ensures
            r@ == default_storage(),
    {
        StorageConfig {
            backend: default_backend(),
            path: default_sqlite_path(),
            uri: None,
            db_name: default_db_name(),
            collection: default_collection(),
            legacy_collection: default_legacy_collection(),
        }
    }
}

impl Default for ServerConfig {
    fn default() -> (r: ServerConfig)
        ensures
            r@ == (ServerView {
                enabled: false,
                bind: "0.0.0.0:8080"@,
                public_url: None,
                webhook_secret: None,
            }),
    {
        ServerConfig {
            enabled: false,
            bind: default_bind(),
            public_url: None,
            webhook_secret: None,
        }
    }
}

/// The first agent from `i` on that is the default.
pub open spec fn default_from(agents: Seq<AgentView>, i: int) -> Option<int>
    decreases agents.len() - i,
{
    if 0 <= i < agents.len() {
        if agents[i].default {
            Some(i)
        } else {
            default_from(agents, i + 1)
        }
    } else {
        None
    }
}

/// The agent that answers where none was chosen: the default one, or failing
/// that the first.
pub open spec fn default_index(agents: Seq<AgentView>) -> int {
    match default_from(agents, 0) {
        Some(i) => i,
        None => 0,
    }
}

/// The first agent from `i` on of that name.
pub open spec fn agent_from(agents: Seq<AgentView>, name: Seq<char>, i: int) -> Option<int>
    decreases agents.len() - i,
{
    if 0 <= i < agents.len() {
        if agents[i].name == name {
            Some(i)
        } else {
            agent_from(agents, name, i + 1)
        }
    } else {
        None
    }
}

impl BotConfig {
    /// The agent that answers where none was chosen.
    pub fn default_agent(&self) -> (r: &AgentConfig)
        requires
            self@.agents.len() > 0,
        ensures
            0 <= default_index(self@.agents) < self@.agents.len(),
            r@ == self@.agents[default_index(self@.agents)],
            *r == self.agents@[default_index(self@.agents)],
    {
        let mut i: usize = 0;
        while i < self.agents.len()
            invariant
                i <= self.agents@.len(),
                self@.agents.len() == self.agents@.len(),
                default_from(self@.agents, 0) == default_from(self@.agents, i as int),
            decreases self.agents@.len() - i,
        {
            assert(self@.agents[i as int] == self.agents@[i as int]@);
            if self.agents[i].default {
                return &self.agents[i];
            }
            i = i + 1;
        }
        assert(self@.agents[0] == self.agents@[0]@);
        &self.agents[0]
    }

    /// The agent of that name, in small letters.
    pub fn agent(&self, name: &str) -> (r: Option<&AgentConfig>)
        ensures
            match agent_from(self@.agents, text::lower(name@), 0) {
                Some(i) => r matches Some(a) && 0 <= i < self@.agents.len() && a@
                    == self@.agents[i] && *a == self.agents@[i],
                None => r is None,
            },
    {
        let wanted = text::lowered(name);
        let mut i: usize = 0;
        while i < self.agents.len()
            invariant
                i <= self.agents@.len(),
                self@.agents.len() == self.agents@.len(),
                wanted@ == text::lower(name@),
                agent_from(self@.agents, wanted@, 0) == agent_from(
                    self@.agents,
                    wanted@,
                    i as int,
                ),
            decreases self.agents@.len() - i,
        {
            assert(self@.agents[i as int] == self.agents@[i as int]@);
            if text::same(self.agents[i].name.as_str(), wanted.as_str()) {
                return Some(&self.agents[i]);
            }
            i = i + 1;
        }
        None
    }

    /// The DocsGPT base URL of this bot.
    pub fn api_base<'a>(&'a self, global: &'a str) -> (r: &'a str)
        ensures
            r@ == (match self@.api_base {
                Some(b) => b,
                None => global@,
            }),
    {
        match &self.api_base {
            Some(b) => b.as_str(),
            None => global,
        }
    }
}

/// Environment variables, each with its value.
pub open spec fn env_views(env: Seq<(String, String)>) -> Seq<(Seq<char>, Seq<char>)> {
    env.map_values(|e: (String, String)| (e.0@, e.1@))
}

/// The value of the first variable of that name.
pub open spec fn env_value(env: Seq<(Seq<char>, Seq<char>)>, name: Seq<char>) -> Option<Seq<char>>
    decreases env.len(),
{
    if env.len() == 0 {
        None
    } else if env[0].0 == name {
        Some(env[0].1)
    } else {
        env_value(env.skip(1), name)
    }
}

/// The value of a variable.
pub fn env_var(env: &Vec<(String, String)>, name: &str) -> (r: Option<String>)
    ensures
        text::opt_view(r) == env_value(env_views(env@), name@),
{
    let ghost vs = env_views(env@);
    let mut i: usize = 0;
    assert(vs.skip(0) =~= vs);
    while i < env.len()
        invariant
            i <= env@.len(),
            vs == env_views(env@),
            env_value(vs, name@) == env_value(vs.skip(i as int), name@),
        decreases env@.len() - i,
    {
        assert(vs.skip(i as int)[0] == vs[i as int]);
        if text::same(env[i].0.as_str(), name) {
            return Some(env[i].1.as_str().to_string());
        }
        assert(vs.skip(i as int).skip(1) =~= vs.skip(i + 1));
        i = i + 1;
    }
    None
}

/// The pattern of an environment reference; its groups are the variable and
/// the default.
pub const REFERENCE: &'static str = r"\$\{([A-Za-z_][A-Za-z0-9_]*)(?::-([^}]*))?\}";

/// Why a configuration cannot be used.
#[derive(Debug, PartialEq, Eq)]
pub enum ConfigError {
    /// These variables are referred to, have no value and no default.
    MissingVariables(Vec<String>),
    NoToken,
    NoApiKey,
    NoBots,
    BadBotName(String),
    DuplicateBot(String),
    EmptyToken(String),
    NoAgents(String),
    BadAgentName(String, String),
    DuplicateAgent(String, String),
    EmptyApiKey(String, String),
    ManyDefaults(String),
    NoPublicUrl(String),
    NoMongoUri,
}

/// A configuration error as mathematical values.
pub ghost enum ConfigErrorView {
    MissingVariables(Seq<Seq<char>>),
    NoToken,
    NoApiKey,
    NoBots,
    BadBotName(Seq<char>),
    DuplicateBot(Seq<char>),
    EmptyToken(Seq<char>),
    NoAgents(Seq<char>),
    BadAgentName(Seq<char>, Seq<char>),
    DuplicateAgent(Seq<char>, Seq<char>),
    EmptyApiKey(Seq<char>, Seq<char>),
    ManyDefaults(Seq<char>),
    NoPublicUrl(Seq<char>),
    NoMongoUri,
}

impl View for ConfigError {
    type V = ConfigErrorView;

    open spec fn view(&self) -> ConfigErrorView {
        match self {
            ConfigError::MissingVariables(v) => ConfigErrorView::MissingVariables(text::views(v@)),
            ConfigError::NoToken => ConfigErrorView::NoToken,
            ConfigError::NoApiKey => ConfigErrorView::NoApiKey,
            ConfigError::NoBots => ConfigErrorView::NoBots,
            ConfigError::BadBotName(b) => ConfigErrorView::BadBotName(b@),
            ConfigError::DuplicateBot(b) => ConfigErrorView::DuplicateBot(b@),
            ConfigError::EmptyToken(b) => ConfigErrorView::EmptyToken(b@),
            ConfigError::NoAgents(b) => ConfigErrorView::NoAgents(b@),
            ConfigError::BadAgentName(b, a) => ConfigErrorView::BadAgentName(b@, a@),
            ConfigError::DuplicateAgent(b, a) => ConfigErrorView::DuplicateAgent(b@, a@),
            ConfigError::EmptyApiKey(b, a) => ConfigErrorView::EmptyApiKey(b@, a@),
            ConfigError::ManyDefaults(b) => ConfigErrorView::ManyDefaults(b@),
            ConfigError::NoPublicUrl(b) => ConfigErrorView::NoPublicUrl(b@),
            ConfigError::NoMongoUri => ConfigErrorView::NoMongoUri,
        }
    }
}

/// The text that a reference is replaced by: the variable's value, or the
/// default; none where there is neither.
pub open spec fn reference_value(
    found: pattern::FoundView,
    env: Seq<(Seq<char>, Seq<char>)>,
    i: int,
) -> Option<Seq<char>> {
    match env_value(env, reference_name(found, i)) {
        Some(v) => Some(v),
        None => found.group(i, 2),
    }
}

/// The variable that a reference names.
pub open spec fn reference_name(found: pattern::FoundView, i: int) -> Seq<char> {
    match found.group(i, 1) {
        Some(n) => n,
        None => Seq::empty(),
    }
}

/// What the first `n` references are replaced by.
pub open spec fn reference_fills(
    found: pattern::FoundView,
    env: Seq<(Seq<char>, Seq<char>)>,
    n: nat,
) -> Seq<Seq<char>> {
    Seq::new(
        n,
        |i: int|
            match reference_value(found, env, i) {
                Some(v) => v,
                None => Seq::empty(),
            },
    )
}

/// The variables without value and default among the first `n` references.
pub open spec fn missing_names(
    found: pattern::FoundView,
    env: Seq<(Seq<char>, Seq<char>)>,
    n: nat,
) -> Seq<Seq<char>>
    decreases n,
{
    if n == 0 {
        Seq::empty()
    } else {
        let before = missing_names(found, env, (n - 1) as nat);
        if reference_value(found, env, n - 1) is None {
            before.push(reference_name(found, n - 1))
        } else {
            before
        }
    }
}

/// A text with its references replaced.
pub open spec fn expanded(
    found: pattern::FoundView,
    env: Seq<(Seq<char>, Seq<char>)>,
) -> Result<Seq<char>, ConfigErrorView> {
    let n = found.groups.len();
    if missing_names(found, env, n).len() > 0 {
        Err(ConfigErrorView::MissingVariables(missing_names(found, env, n)))
    } else {
        Ok(pattern::woven(found.pieces, reference_fills(found, env, n), n))
    }
}

/// Replaces the references that were found.
pub fn expand_found(found: &Found, env: &Vec<(String, String)>) -> (r: Result<
    String,
    ConfigError,
>)
    requires
        found@.wf(),
    ensures
        (match r {
            Ok(s) => Ok(s@),
            Err(e) => Err(e@),
        }) == expanded(found@, env_views(env@)),
{
    let ghost vs = env_views(env@);
    let mut fills: Vec<String> = Vec::new();
    let mut missing: Vec<String> = Vec::new();
    let mut i: usize = 0;
    assert(text::views(fills@) =~= reference_fills(found@, vs, 0));
    assert(text::views(missing@) =~= Seq::<Seq<char>>::empty());
    while i < found.groups.len()
        invariant
            i <= found.groups@.len(),
            vs == env_views(env@),
            text::views(fills@) == reference_fills(found@, vs, i as nat),
            text::views(missing@) == missing_names(found@, vs, i as nat),
        decreases found.groups@.len() - i,
    {
        let name: String = match found.group_text(i, 1) {
            Some(n) => n,
            None => String::new(),
        };
        let value = match env_var(env, name.as_str()) {
            Some(v) => Some(v),
            None => found.group_text(i, 2),
        };
        assert(text::opt_view(value) == reference_value(found@, vs, i as int));
        let fill: String = match value {
            Some(v) => v,
            None => {
                proof {
                    text::lemma_views_push(missing@, name);
                }
                missing.push(name);
                String::new()
            },
        };
        proof {
            let more = reference_fills(found@, vs, (i + 1) as nat);
            assert(fill@ =~= more[i as int]);
            text::lemma_views_push(fills@, fill);
            assert(more =~= reference_fills(found@, vs, i as nat).push(fill@));
        }
        fills.push(fill);
        i = i + 1;
    }
    if missing.len() > 0 {
        return Err(ConfigError::MissingVariables(missing));
    }
    Ok(pattern::weave(&found.pieces, &fills))
}

/// Expand `${VAR}` and `${VAR:-default}` references from the given environment.
pub fn expand_env(input: &str, env: &Vec<(String, String)>) -> (r: Result<String, ConfigError>)
    ensures
        (match r {
            Ok(s) => Ok(s@),
            Err(e) => Err(e@),
        }) == expanded(pattern::found_in(REFERENCE@, input@), env_views(env@)),
{
    let found = pattern::search(REFERENCE, input);
    expand_found(&found, env)
}

/// Where the configuration comes from.
#[derive(Debug, Clone, Copy, PartialEq, Eq, Structural)]
pub enum ConfigSource {
    /// The file that was asked for.
    Explicit,
    /// The file that `DOCSGPT_TG_CONFIG` names.
    Variable,
    /// `docsgpt-tg.toml` in the working directory.
    WorkingDirectory,
    /// The environment alone.
    Environment,
}

/// Load order: explicit path → `DOCSGPT_TG_CONFIG` → `docsgpt-tg.toml` in the
/// working directory → environment variables.
pub fn config_source(explicit: bool, variable: bool, file: bool) -> (r: ConfigSource)
    ensures
        r == (if explicit {
            ConfigSource::Explicit
        } else if variable {
            ConfigSource::Variable
        } else if file {
            ConfigSource::WorkingDirectory
        } else {
            ConfigSource::Environment
        }),
{
    if explicit {
        ConfigSource::Explicit
    } else if variable {
        ConfigSource::Variable
    } else if file {
        ConfigSource::WorkingDirectory
    } else {
        ConfigSource::Environment
    }
}

/// Alphabetical order by character code.
pub open spec fn lex_le(a: Seq<char>, b: Seq<char>) -> bool
    decreases a.len(),
{
    a.len() == 0 || (b.len() > 0 && (a[0] < b[0] || (a[0] == b[0] && lex_le(a.skip(1), b.skip(1)))))
}

/// The order of pairs: by the first text, then by the second.
pub open spec fn pair_le(p: (Seq<char>, Seq<char>), q: (Seq<char>, Seq<char>)) -> bool {
    if p.0 == q.0 {
        lex_le(p.1, q.1)
    } else {
        lex_le(p.0, q.0)
    }
}

/// A list in order with one more pair in its place.
pub open spec fn insert_pair(
    list: Seq<(Seq<char>, Seq<char>)>,
    p: (Seq<char>, Seq<char>),
) -> Seq<(Seq<char>, Seq<char>)>
    decreases list.len(),
{
    if list.len() == 0 || pair_le(p, list[0]) {
        seq![p] + list
    } else {
        seq![list[0]] + insert_pair(list.skip(1), p)
    }
}

/// Whether a variable names an agent of its own.
pub open spec fn names_agent(name: Seq<char>) -> bool {
    "API_KEY_"@.is_prefix_of(name) && name.len() > 8
}

/// The agents that the first `n` variables name, in order, each with its key.
pub open spec fn named_agents(env: Seq<(Seq<char>, Seq<char>)>, n: nat) -> Seq<
    (Seq<char>, Seq<char>),
>
    decreases n,
{
    if n == 0 {
        Seq::empty()
    } else {
        let before = named_agents(env, (n - 1) as nat);
        let e = env[n - 1];
        if names_agent(e.0) {
            insert_pair(before, (text::lower(e.0.skip(8)), e.1))
        } else {
            before
        }
    }
}

/// An agent known by its name and key alone.
pub open spec fn plain_agent(p: (Seq<char>, Seq<char>), default: bool) -> AgentView {
    AgentView { name: p.0, api_key: p.1, description: None, default }
}

/// The agents that the environment names: that of `API_KEY` first, and the
/// default; else the first of the others.
pub open spec fn env_agents(env: Seq<(Seq<char>, Seq<char>)>) -> Seq<AgentView> {
    let others = named_agents(env, env.len());
    match env_value(env, "API_KEY"@) {
        Some(key) => if !text::blank(key) {
            seq![plain_agent(("default"@, key), true)] + others.map_values(
                |p: (Seq<char>, Seq<char>)| plain_agent(p, false),
            )
        } else {
            first_default(others)
        },
        None => first_default(others),
    }
}

/// Agents of which the first is the default.
pub open spec fn first_default(list: Seq<(Seq<char>, Seq<char>)>) -> Seq<AgentView> {
    list.map(|i: int, p: (Seq<char>, Seq<char>)| plain_agent(p, i == 0))
}

/// A variable's value, or a text in its place.
pub open spec fn env_or(
    env: Seq<(Seq<char>, Seq<char>)>,
    name: Seq<char>,
    otherwise: Seq<char>,
) -> Seq<char> {
    match env_value(env, name) {
        Some(v) => v,
        None => otherwise,
    }
}

/// Storage settings from the environment.
pub open spec fn env_storage(env: Seq<(Seq<char>, Seq<char>)>) -> StorageConfigView {
    let kind = text::lower(env_or(env, "STORAGE_TYPE"@, Seq::empty()));
    if kind == "mongodb"@ || kind == "mongo"@ {
        StorageConfigView {
            backend: Backend::Mongodb,
            uri: env_value(env, "MONGODB_URI"@),
            db_name: env_or(env, "MONGODB_DB_NAME"@, "telegram_bot_memory"@),
            legacy_collection: env_or(env, "MONGODB_COLLECTION_NAME"@, "chat_histories"@),
            ..default_storage()
        }
    } else if kind == "memory"@ {
        StorageConfigView { backend: Backend::Memory, ..default_storage() }
    } else {
        StorageConfigView {
            backend: Backend::Sqlite,
            path: env_or(env, "SQLITE_PATH"@, "data/docsgpt-telegram.db"@),
            ..default_storage()
        }
    }
}

/// What a bot does in groups, from the environment.
pub open spec fn env_groups(env: Seq<(Seq<char>, Seq<char>)>) -> GroupMode {
    let mode = text::lower(env_or(env, "GROUPS_MODE"@, Seq::empty()));
    if mode == "all"@ {
        GroupMode::All
    } else if mode == "off"@ {
        GroupMode::Off
    } else {
        GroupMode::Mention
    }
}

/// The configuration that the environment gives.
pub open spec fn env_config(env: Seq<(Seq<char>, Seq<char>)>) -> Result<
    ConfigView,
    ConfigErrorView,
> {
    let token = env_value(env, "TELEGRAM_BOT_TOKEN"@);
    let agents = env_agents(env);
    let public_url = env_value(env, "WEBHOOK_PUBLIC_URL"@);
    let bind = env_value(env, "HTTP_BIND"@);
    let streaming = env_value(env, "STREAMING"@);
    let voice = env_value(env, "VOICE_REPLIES"@);
    let mode = if public_url is Some {
        Mode::Webhook
    } else {
        Mode::Polling
    };
    if token is None || text::blank(token->0) {
        Err(ConfigErrorView::NoToken)
    } else if agents.len() == 0 {
        Err(ConfigErrorView::NoApiKey)
    } else {
        Ok(
            ConfigView {
                api_base: env_or(env, "API_BASE"@, "https://gptcloud.arc53.com"@),
                storage: env_storage(env),
                server: ServerView {
                    enabled: bind is Some || public_url is Some,
                    bind: env_or(env, "HTTP_BIND"@, "0.0.0.0:8080"@),
                    public_url,
                    webhook_secret: env_value(env, "WEBHOOK_SECRET"@),
                },
                bots: seq![
                    BotView {
                        name: env_or(env, "BOT_NAME"@, "bot"@),
                        token: token->0,
                        mode,
                        groups: env_groups(env),
                        streaming: streaming is None || (streaming->0 != "0"@ && streaming->0
                            != "false"@),
                        reactions: true,
                        attachments: true,
                        voice_replies: voice is Some && (voice->0 == "1"@ || voice->0 == "true"@),
                        business: true,
                        guest: true,
                        inline: true,
                        allowed_chats: Seq::empty(),
                        welcome: env_value(env, "WELCOME_TEXT"@),
                        description: None,
                        short_description: None,
                        menu_button_url: env_value(env, "MENU_BUTTON_URL"@),
                        max_file_mb: 20,
                        api_base: None,
                        agents,
                    },
                ],
            },
        )
    }
}

/// Whether `a` comes before `b`, or is `b`.
fn text_le(a: &str, b: &str) -> (r: bool)
    ensures
        r == lex_le(a@, b@),
{
    let x = text::chars_of(a);
    let y = text::chars_of(b);
    let mut i: usize = 0;
    assert(x@.skip(0) =~= x@);
    assert(y@.skip(0) =~= y@);
    while i < x.len()
        invariant
            x@ == a@,
            y@ == b@,
            i <= x@.len(),
            i <= y@.len(),
            lex_le(a@, b@) == lex_le(x@.skip(i as int), y@.skip(i as int)),
        decreases x@.len() - i,
    {
        let ghost p = x@.skip(i as int);
        let ghost q = y@.skip(i as int);
        assert(p[0] == x@[i as int]);
        if i >= y.len() {
            return false;
        }
        assert(q[0] == y@[i as int]);
        if x[i] != y[i] {
            return x[i] < y[i];
        }
        assert(p.skip(1) =~= x@.skip(i + 1));
        assert(q.skip(1) =~= y@.skip(i + 1));
        i = i + 1;
    }
    true
}

fn entry_le(p: &(String, String), q: &(String, String)) -> (r: bool)
    ensures
        r == pair_le((p.0@, p.1@), (q.0@, q.1@)),
{
    if text::same(p.0.as_str(), q.0.as_str()) {
        text_le(p.1.as_str(), q.1.as_str())
    } else {
        text_le(p.0.as_str(), q.0.as_str())
    }
}

proof fn lemma_insert_pair(
    list: Seq<(Seq<char>, Seq<char>)>,
    p: (Seq<char>, Seq<char>),
    i: int,
)
    requires
        0 <= i <= list.len(),
        forall|j: int| 0 <= j < i ==> !pair_le(p, #[trigger] list[j]),
        i < list.len() ==> pair_le(p, list[i]),
    ensures
        insert_pair(list, p) == list.insert(i, p),
    decreases list.len(),
{
    if i == 0 {
        assert(seq![p] + list =~= list.insert(0, p));
    } else {
        assert(!pair_le(p, list[0]));
        let t = list.skip(1);
        assert forall|j: int| 0 <= j < i - 1 implies !pair_le(p, #[trigger] t[j]) by {
            assert(!pair_le(p, list[j + 1]));
        }
        lemma_insert_pair(t, p, i - 1);
        assert(seq![list[0]] + t.insert(i - 1, p) =~= list.insert(i, p));
    }
}

fn place_entry(list: &mut Vec<(String, String)>, p: (String, String))
    ensures
        env_views(final(list)@) == insert_pair(env_views(old(list)@), (p.0@, p.1@)),
{
    let ghost vs = env_views(list@);
    let ghost pv = (p.0@, p.1@);
    let mut i: usize = 0;
    while i < list.len() && !entry_le(&p, &list[i])
        invariant
            i <= list@.len(),
            vs == env_views(list@),
            pv == (p.0@, p.1@),
            forall|j: int| 0 <= j < i ==> !pair_le(pv, #[trigger] vs[j]),
        decreases list@.len() - i,
    {
        i = i + 1;
    }
    let ghost before = list@;
    list.insert(i, p);
    proof {
        lemma_insert_pair(vs, pv, i as int);
        assert(env_views(list@) =~= vs.insert(i as int, pv));
    }
}

fn collect_agents(env: &Vec<(String, String)>) -> (r: Vec<(String, String)>)
    ensures
        env_views(r@) == named_agents(env_views(env@), env@.len()),
{
    let ghost vs = env_views(env@);
    let mut out: Vec<(String, String)> = Vec::new();
    let mut i: usize = 0;
    assert(env_views(out@) =~= Seq::<(Seq<char>, Seq<char>)>::empty());
    while i < env.len()
        invariant
            i <= env@.len(),
            vs == env_views(env@),
            env_views(out@) == named_agents(vs, i as nat),
        decreases env@.len() - i,
    {
        assert(vs[i as int] == (env@[i as int].0@, env@[i as int].1@));
        let name = env[i].0.as_str();
        if text::starts_with(name, "API_KEY_") && text::char_count(name) > 8 {
            let rest = text::skip_chars(name, 8);
            place_entry(
                &mut out,
                (text::lowered(rest.as_str()), env[i].1.as_str().to_string()),
            );
        }
        i = i + 1;
    }
    out
}

fn make_agents(env: &Vec<(String, String)>) -> (r: Vec<AgentConfig>)
    ensures
        agent_views(r@) == env_agents(env_views(env@)),
{
    let mut out: Vec<AgentConfig> = Vec::new();
    match env_var(env, "API_KEY") {
        Some(key) => {
            if !text::is_blank(key.as_str()) {
                out.push(
                    AgentConfig {
                        name: "default".to_string(),
                        api_key: key,
                        description: None,
                        default: true,
                    },
                );
            }
        },
        None => {},
    }
    let others = collect_agents(env);
    let ghost first = agent_views(out@);
    let ghost os = env_views(others@);
    let ghost lead = out@.len() as int;
    let mut i: usize = 0;
    while i < others.len()
        invariant
            i <= others@.len(),
            os == env_views(others@),
            first.len() == lead,
            lead == 0 || lead == 1,
            out@.len() == lead + i,
            forall|k: int| 0 <= k < lead ==> #[trigger] agent_views(out@)[k] == first[k],
            forall|k: int|
                0 <= k < i ==> #[trigger] agent_views(out@)[lead + k] == plain_agent(
                    os[k],
                    lead == 0 && k == 0,
                ),
        decreases others@.len() - i,
    {
        let a = AgentConfig {
            name: others[i].0.as_str().to_string(),
            api_key: others[i].1.as_str().to_string(),
            description: None,
            default: out.len() == 0,
        };
        let ghost before = agent_views(out@);
        assert(agent_views(out@.push(a)) =~= before.push(a@));
        assert(a@ == plain_agent(os[i as int], lead == 0 && i == 0));
        out.push(a);
        i = i + 1;
    }
    proof {
        let want = env_agents(env_views(env@));
        let have = agent_views(out@);
        assert forall|k: int| 0 <= k < have.len() implies #[trigger] have[k] == want[k] by {
            if k >= lead {
                assert(have[lead + (k - lead)] == plain_agent(os[k - lead], lead == 0 && k == 0));
            } else {
                assert(have[k] == first[k]);
            }
        }
        assert(have =~= want);
    }
    out
}

fn var_or(env: &Vec<(String, String)>, name: &str, otherwise: &str) -> (r: String)
    ensures
        r@ == env_or(env_views(env@), name@, otherwise@),
{
    match env_var(env, name) {
        Some(v) => v,
        None => otherwise.to_string(),
    }
}

fn make_storage(env: &Vec<(String, String)>) -> (r: StorageConfig)
    ensures
        r@ == env_storage(env_views(env@)),
{
    proof {
        reveal_strlit("");
        assert(""@ =~= Seq::<char>::empty());
    }
    let kind = var_or(env, "STORAGE_TYPE", "");
    let kind = text::lowered(kind.as_str());
    if text::same(kind.as_str(), "mongodb") || text::same(kind.as_str(), "mongo") {
        StorageConfig {
            backend: Backend::Mongodb,
            path: default_sqlite_path(),
            uri: env_var(env, "MONGODB_URI"),
            db_name: var_or(env, "MONGODB_DB_NAME", "telegram_bot_memory"),
            collection: default_collection(),
            legacy_collection: var_or(env, "MONGODB_COLLECTION_NAME", "chat_histories"),
        }
    } else if text::same(kind.as_str(), "memory") {
        StorageConfig {
            backend: Backend::Memory,
            path: default_sqlite_path(),
            uri: None,
            db_name: default_db_name(),
            collection: default_collection(),
            legacy_collection: default_legacy_collection(),
        }
    } else {
        StorageConfig {
            backend: Backend::Sqlite,
            path: var_or(env, "SQLITE_PATH", "data/docsgpt-telegram.db"),
            uri: None,
            db_name: default_db_name(),
            collection: default_collection(),
            legacy_collection: default_legacy_collection(),
        }
    }
}

fn make_groups(env: &Vec<(String, String)>) -> (r: GroupMode)
    ensures
        r == env_groups(env_views(env@)),
{
    proof {
        reveal_strlit("");
        assert(""@ =~= Seq::<char>::empty());
    }
    let mode = var_or(env, "GROUPS_MODE", "");
    let mode = text::lowered(mode.as_str());
    if text::same(mode.as_str(), "all") {
        GroupMode::All
    } else if text::same(mode.as_str(), "off") {
        GroupMode::Off
    } else {
        GroupMode::Mention
    }
}

/// Build a single-bot config from environment variables alone.
pub fn from_env(env: &Vec<(String, String)>) -> (r: Result<Config, ConfigError>)
    ensures
        (match r {
            Ok(c) => Ok(c@),
            Err(e) => Err(e@),
        }) == env_config(env_views(env@)),
{
    let token = match env_var(env, "TELEGRAM_BOT_TOKEN") {
        Some(t) => {
            if text::is_blank(t.as_str()) {
                return Err(ConfigError::NoToken);
            }
            t
        },
        None => {
            return Err(ConfigError::NoToken);
        },
    };
    let agents = make_agents(env);
    if agents.len() == 0 {
        return Err(ConfigError::NoApiKey);
    }
    let public_url = env_var(env, "WEBHOOK_PUBLIC_URL");
    let mode = if public_url.is_some() {
        Mode::Webhook
    } else {
        Mode::Polling
    };
    let streaming = match env_var(env, "STREAMING") {
        Some(v) => !text::same(v.as_str(), "0") && !text::same(v.as_str(), "false"),
        None => true,
    };
    let voice_replies = match env_var(env, "VOICE_REPLIES") {
        Some(v) => text::same(v.as_str(), "1") || text::same(v.as_str(), "true"),
        None => false,
    };
    let bot = BotConfig {
        name: var_or(env, "BOT_NAME", "bot"),
        token,
        mode,
        groups: make_groups(env),
        streaming,
        reactions: true,
        attachments: true,
        voice_replies,
        business: true,
        guest: true,
        inline: true,
        allowed_chats: Vec::new(),
        welcome: env_var(env, "WELCOME_TEXT"),
        description: None,
        short_description: None,
        menu_button_url: env_var(env, "MENU_BUTTON_URL"),
        max_file_mb: default_max_file_mb(),
        api_base: None,
        agents,
    };
    let server = ServerConfig {
        enabled: env_var(env, "HTTP_BIND").is_some() || public_url.is_some(),
        bind: var_or(env, "HTTP_BIND", "0.0.0.0:8080"),
        public_url,
        webhook_secret: env_var(env, "WEBHOOK_SECRET"),
    };
    let ghost bv = bot@;
    let mut bots: Vec<BotConfig> = Vec::new();
    bots.push(bot);
    let r = Config {
        api_base: var_or(env, "API_BASE", "https://gptcloud.arc53.com"),
        storage: make_storage(env),
        server,
        bots,
    };
    proof {
        let want = env_config(env_views(env@))->Ok_0;
        assert(bv.allowed_chats =~= Seq::<i64>::empty());
        assert(r@.bots =~= want.bots);
    }
    Ok(r)
}

/// A character that the name of a bot or an agent may hold.
pub open spec fn is_name_char(c: char) -> bool {
    text::is_ascii_word(c) || c == '-' || c == '_'
}

/// A name of a bot or an agent.
pub open spec fn is_name(s: Seq<char>) -> bool {
    s.len() > 0 && forall|i: int| 0 <= i < s.len() ==> is_name_char(#[trigger] s[i])
}

/// A name as it is kept: trimmed, in small letters.
pub open spec fn kept_name(s: Seq<char>) -> Seq<char> {
    text::lower(text::trim(s))
}

/// Whether an agent of that name is in the list.
pub open spec fn has_agent(list: Seq<AgentView>, name: Seq<char>) -> bool {
    exists|i: int| 0 <= i < list.len() && (#[trigger] list[i]).name == name
}

/// Whether a bot of that name is in the list.
pub open spec fn has_bot(list: Seq<BotView>, name: Seq<char>) -> bool {
    exists|i: int| 0 <= i < list.len() && (#[trigger] list[i]).name == name
}

/// One agent of a bot in order, behind those that are.
pub open spec fn normal_agent(bot: Seq<char>, done: Seq<AgentView>, a: AgentView) -> Result<
    AgentView,
    ConfigErrorView,
> {
    let name = kept_name(a.name);
    if !is_name(name) {
        Err(ConfigErrorView::BadAgentName(bot, name))
    } else if has_agent(done, name) {
        Err(ConfigErrorView::DuplicateAgent(bot, name))
    } else if text::blank(a.api_key) {
        Err(ConfigErrorView::EmptyApiKey(bot, name))
    } else {
        Ok(AgentView { name, ..a })
    }
}

/// The first `n` agents of a bot in order.
pub open spec fn normal_agents(bot: Seq<char>, agents: Seq<AgentView>, n: nat) -> Result<
    Seq<AgentView>,
    ConfigErrorView,
>
    decreases n,
{
    if n == 0 {
        Ok(Seq::empty())
    } else {
        match normal_agents(bot, agents, (n - 1) as nat) {
            Err(e) => Err(e),
            Ok(done) => match normal_agent(bot, done, agents[n - 1]) {
                Err(e) => Err(e),
                Ok(a) => Ok(done.push(a)),
            },
        }
    }
}

/// How many agents are the default.
pub open spec fn default_count(agents: Seq<AgentView>) -> nat
    decreases agents.len(),
{
    if agents.len() == 0 {
        0
    } else {
        default_count(agents.drop_last()) + (if agents.last().default {
            1nat
        } else {
            0nat
        })
    }
}

/// The agents with the first as the default where none is.
pub open spec fn with_default(agents: Seq<AgentView>) -> Seq<AgentView> {
    if default_count(agents) == 0 && agents.len() > 0 {
        agents.update(0, AgentView { default: true, ..agents[0] })
    } else {
        agents
    }
}

/// One bot in order, behind those that are.
pub open spec fn normal_bot(
    done: Seq<BotView>,
    public_url: Option<Seq<char>>,
    bot: BotView,
) -> Result<BotView, ConfigErrorView> {
    let name = kept_name(bot.name);
    if !is_name(name) {
        Err(ConfigErrorView::BadBotName(name))
    } else if has_bot(done, name) {
        Err(ConfigErrorView::DuplicateBot(name))
    } else if text::blank(bot.token) {
        Err(ConfigErrorView::EmptyToken(name))
    } else if bot.agents.len() == 0 {
        Err(ConfigErrorView::NoAgents(name))
    } else {
        match normal_agents(name, bot.agents, bot.agents.len()) {
            Err(e) => Err(e),
            Ok(agents) => if default_count(agents) > 1 {
                Err(ConfigErrorView::ManyDefaults(name))
            } else if bot.mode == Mode::Webhook && public_url is None {
                Err(ConfigErrorView::NoPublicUrl(name))
            } else {
                Ok(BotView { name, agents: with_default(agents), ..bot })
            },
        }
    }
}

/// The first `n` bots in order.
pub open spec fn normal_bots(bots: Seq<BotView>, public_url: Option<Seq<char>>, n: nat) -> Result<
    Seq<BotView>,
    ConfigErrorView,
>
    decreases n,
{
    if n == 0 {
        Ok(Seq::empty())
    } else {
        match normal_bots(bots, public_url, (n - 1) as nat) {
            Err(e) => Err(e),
            Ok(done) => match normal_bot(done, public_url, bots[n - 1]) {
                Err(e) => Err(e),
                Ok(b) => Ok(done.push(b)),
            },
        }
    }
}

/// Whether a bot gets its updates by webhook.
pub open spec fn any_webhook(bots: Seq<BotView>) -> bool {
    exists|i: int| 0 <= i < bots.len() && (#[trigger] bots[i]).mode == Mode::Webhook
}

/// A configuration in order, or what is wrong with it first.
pub open spec fn normalized(cfg: ConfigView) -> Result<ConfigView, ConfigErrorView> {
    if cfg.bots.len() == 0 {
        Err(ConfigErrorView::NoBots)
    } else {
        match normal_bots(cfg.bots, cfg.server.public_url, cfg.bots.len()) {
            Err(e) => Err(e),
            Ok(bots) => if cfg.storage.backend == Backend::Mongodb && (cfg.storage.uri is None
                || text::blank(cfg.storage.uri->0)) {
                Err(ConfigErrorView::NoMongoUri)
            } else {
                Ok(
                    ConfigView {
                        api_base: text::drop_back(cfg.api_base, '/'),
                        server: ServerView {
                            enabled: cfg.server.enabled || any_webhook(cfg.bots),
                            ..cfg.server
                        },
                        bots,
                        ..cfg
                    },
                )
            },
        }
    }
}

/// The first `n` agents of a bot as ordering them leaves them: those that were looked
/// at have the names they are kept under.
pub open spec fn left_agents(bot: Seq<char>, agents: Seq<AgentView>, n: nat) -> Seq<AgentView>
    decreases n,
{
    if n == 0 {
        Seq::empty()
    } else {
        let a = agents[n - 1];
        left_agents(bot, agents, (n - 1) as nat).push(
            if normal_agents(bot, agents, (n - 1) as nat) is Ok {
                AgentView { name: kept_name(a.name), ..a }
            } else {
                a
            },
        )
    }
}

/// A bot as ordering it leaves it, behind those that are in order: it is changed as far
/// as nothing wrong was found.
pub open spec fn left_bot(done: Seq<BotView>, bot: BotView) -> BotView {
    let name = kept_name(bot.name);
    if !is_name(name) || has_bot(done, name) || text::blank(bot.token) || bot.agents.len() == 0 {
        BotView { name, ..bot }
    } else {
        match normal_agents(name, bot.agents, bot.agents.len()) {
            Err(_) => BotView {
                name,
                agents: left_agents(name, bot.agents, bot.agents.len()),
                ..bot
            },
            Ok(agents) => if default_count(agents) > 1 {
                BotView { name, agents, ..bot }
            } else {
                BotView { name, agents: with_default(agents), ..bot }
            },
        }
    }
}

/// The first `n` bots as ordering them leaves them: those behind a wrong one are not
/// looked at.
pub open spec fn left_bots(bots: Seq<BotView>, public_url: Option<Seq<char>>, n: nat) -> Seq<
    BotView,
>
    decreases n,
{
    if n == 0 {
        Seq::empty()
    } else {
        left_bots(bots, public_url, (n - 1) as nat).push(
            match normal_bots(bots, public_url, (n - 1) as nat) {
                Ok(done) => left_bot(done, bots[n - 1]),
                Err(_) => bots[n - 1],
            },
        )
    }
}

/// Whether a bot with webhooks turns the server on: once nothing is wrong with it, or
/// nothing but that the server's address is not known.
pub open spec fn turns_on(done: Seq<BotView>, public_url: Option<Seq<char>>, bot: BotView) -> bool {
    bot.mode == Mode::Webhook && match normal_bot(done, public_url, bot) {
        Ok(_) => true,
        Err(ConfigErrorView::NoPublicUrl(_)) => true,
        Err(_) => false,
    }
}

/// Whether one of the first `n` bots turns the server on.
pub open spec fn turned_on(bots: Seq<BotView>, public_url: Option<Seq<char>>, n: nat) -> bool
    decreases n,
{
    if n == 0 {
        false
    } else {
        turned_on(bots, public_url, (n - 1) as nat) || match normal_bots(
            bots,
            public_url,
            (n - 1) as nat,
        ) {
            Ok(done) => turns_on(done, public_url, bots[n - 1]),
            Err(_) => false,
        }
    }
}

/// What ordering leaves of a configuration that it refuses.
pub open spec fn left_over(cfg: ConfigView) -> ConfigView {
    let url = cfg.server.public_url;
    ConfigView {
        server: ServerView {
            enabled: cfg.server.enabled || turned_on(cfg.bots, url, cfg.bots.len()),
            ..cfg.server
        },
        bots: left_bots(cfg.bots, url, cfg.bots.len()),
        ..cfg
    }
}

fn check_name(s: &str) -> (r: bool)
    ensures
        r == is_name(s@),
{
    let v = text::chars_of(s);
    let mut i: usize = 0;
    while i < v.len()
        invariant
            v@ == s@,
            i <= v@.len(),
            forall|j: int| 0 <= j < i ==> is_name_char(#[trigger] v@[j]),
        decreases v@.len() - i,
    {
        let c = v[i];
        if !(('A' <= c && c <= 'Z') || ('a' <= c && c <= 'z') || ('0' <= c && c <= '9') || c == '-'
            || c == '_') {
            assert(!is_name_char(s@[i as int]));
            return false;
        }
        i = i + 1;
    }
    v.len() > 0
}

fn keep_name(s: &str) -> (r: String)
    ensures
        r@ == kept_name(s@),
{
    let t = text::trimmed(s);
    text::lowered(t.as_str())
}

fn agent_known(list: &Vec<AgentConfig>, n: usize, name: &str) -> (r: bool)
    requires
        n <= list@.len(),
    ensures
        r == has_agent(agent_views(list@).take(n as int), name@),
{
    let ghost vs = agent_views(list@).take(n as int);
    let mut i: usize = 0;
    while i < n
        invariant
            i <= n <= list@.len(),
            vs == agent_views(list@).take(n as int),
            forall|j: int| 0 <= j < i ==> (#[trigger] vs[j]).name != name@,
        decreases n - i,
    {
        if text::same(list[i].name.as_str(), name) {
            assert(vs[i as int].name == name@);
            return true;
        }
        i = i + 1;
    }
    false
}

fn bot_known(list: &Vec<BotConfig>, n: usize, name: &str) -> (r: bool)
    requires
        n <= list@.len(),
    ensures
        r == has_bot(bot_views(list@).take(n as int), name@),
{
    let ghost vs = bot_views(list@).take(n as int);
    let mut i: usize = 0;
    while i < n
        invariant
            i <= n <= list@.len(),
            vs == bot_views(list@).take(n as int),
            forall|j: int| 0 <= j < i ==> (#[trigger] vs[j]).name != name@,
        decreases n - i,
    {
        if text::same(list[i].name.as_str(), name) {
            assert(vs[i as int].name == name@);
            return true;
        }
        i = i + 1;
    }
    false
}

proof fn lemma_agents_fail(bot: Seq<char>, agents: Seq<AgentView>, i: nat, n: nat)
    requires
        i <= n <= agents.len(),
        normal_agents(bot, agents, i) is Err,
    ensures
        normal_agents(bot, agents, n) == normal_agents(bot, agents, i),
        left_agents(bot, agents, n) == left_agents(bot, agents, i) + agents.subrange(
            i as int,
            n as int,
        ),
    decreases n,
{
    if i < n {
        lemma_agents_fail(bot, agents, i, (n - 1) as nat);
        let before = agents.subrange(i as int, n - 1);
        assert(before.push(agents[n - 1]) =~= agents.subrange(i as int, n as int));
        assert((left_agents(bot, agents, i) + before).push(agents[n - 1]) =~= left_agents(
            bot,
            agents,
            i,
        ) + before.push(agents[n - 1]));
    } else {
        assert(left_agents(bot, agents, i) + agents.subrange(i as int, n as int) =~= left_agents(
            bot,
            agents,
            i,
        ));
    }
}

proof fn lemma_agents_left(bot: Seq<char>, agents: Seq<AgentView>, n: nat)
    requires
        n <= agents.len(),
    ensures
        normal_agents(bot, agents, n) matches Ok(done) ==> left_agents(bot, agents, n) == done
            && done.len() == n,
    decreases n,
{
    if n > 0 {
        lemma_agents_left(bot, agents, (n - 1) as nat);
    }
}

/// What is wrong with agent `i` of a list, the first `i` of which are in order.
fn check_agent(bot: &str, agents: &Vec<AgentConfig>, i: usize, name: &str) -> (r: Option<
    ConfigError,
>)
    requires
        i < agents@.len(),
        name@ == kept_name(agents@[i as int]@.name),
    ensures
        match r {
            Some(e) => normal_agent(
                bot@,
                agent_views(agents@).take(i as int),
                agents@[i as int]@,
            ) == Err::<AgentView, ConfigErrorView>(e@),
            None => normal_agent(bot@, agent_views(agents@).take(i as int), agents@[i as int]@)
                == Ok::<AgentView, ConfigErrorView>(
                AgentView { name: name@, ..agents@[i as int]@ },
            ),
        },
{
    if !check_name(name) {
        Some(ConfigError::BadAgentName(bot.to_string(), name.to_string()))
    } else if agent_known(agents, i, name) {
        Some(ConfigError::DuplicateAgent(bot.to_string(), name.to_string()))
    } else if text::is_blank(agents[i].api_key.as_str()) {
        Some(ConfigError::EmptyApiKey(bot.to_string(), name.to_string()))
    } else {
        None
    }
}

/// Puts the agents of a bot in order, as far as nothing wrong is found; tells what is.
fn order_agents(bot: &str, agents: &mut Vec<AgentConfig>) -> (r: Option<ConfigError>)
    ensures
        final(agents)@.len() == old(agents)@.len(),
        match r {
            None => normal_agents(bot@, agent_views(old(agents)@), old(agents)@.len()) == Ok::<
                Seq<AgentView>,
                ConfigErrorView,
            >(agent_views(final(agents)@)),
            Some(e) => normal_agents(bot@, agent_views(old(agents)@), old(agents)@.len()) == Err::<
                Seq<AgentView>,
                ConfigErrorView,
            >(e@) && agent_views(final(agents)@) == left_agents(
                bot@,
                agent_views(old(agents)@),
                old(agents)@.len(),
            ),
        },
{
    let ghost vs = agent_views(agents@);
    let mut i: usize = 0;
    assert(agent_views(agents@).take(0) =~= Seq::<AgentView>::empty());
    while i < agents.len()
        invariant
            i <= agents@.len(),
            agents@.len() == vs.len(),
            vs == agent_views(old(agents)@),
            agent_views(agents@).skip(i as int) == vs.skip(i as int),
            normal_agents(bot@, vs, i as nat) == Ok::<Seq<AgentView>, ConfigErrorView>(
                agent_views(agents@).take(i as int),
            ),
        decreases agents@.len() - i,
    {
        let ghost before = agent_views(agents@);
        let ghost done = before.take(i as int);
        assert(before.skip(i as int)[0] == vs.skip(i as int)[0]);
        assert(vs[i as int] == agents@[i as int]@);
        let name = keep_name(agents[i].name.as_str());
        let wrong = check_agent(bot, agents, i, name.as_str());
        let kept = AgentConfig {
            name,
            api_key: agents[i].api_key.as_str().to_string(),
            description: text::copy_opt(&agents[i].description),
            default: agents[i].default,
        };
        let ghost kv = kept@;
        agents.set(i, kept);
        proof {
            assert(agent_views(agents@) =~= before.update(i as int, kv));
            assert(agent_views(agents@).take(i + 1) =~= done.push(kv));
            assert(agent_views(agents@).skip(i + 1) =~= before.skip(i as int).skip(1));
            assert(vs.skip(i as int).skip(1) =~= vs.skip(i + 1));
        }
        match wrong {
            Some(e) => {
                proof {
                    lemma_agents_left(bot@, vs, i as nat);
                    lemma_agents_fail(bot@, vs, (i + 1) as nat, vs.len());
                    assert(left_agents(bot@, vs, (i + 1) as nat) == done.push(kv));
                    assert(vs.skip(i + 1) =~= vs.subrange(i + 1, vs.len() as int));
                    assert(agent_views(agents@) =~= agent_views(agents@).take(i + 1) + agent_views(
                        agents@,
                    ).skip(i + 1));
                }
                return Some(e);
            },
            None => {},
        }
        i = i + 1;
    }
    assert(agent_views(agents@).take(i as int) =~= agent_views(agents@));
    None
}

fn copy_agents(list: &Vec<AgentConfig>) -> (r: Vec<AgentConfig>)
    ensures
        agent_views(r@) == agent_views(list@),
{
    let ghost vs = agent_views(list@);
    let mut r: Vec<AgentConfig> = Vec::new();
    let mut i: usize = 0;
    assert(agent_views(r@) =~= vs.take(0));
    while i < list.len()
        invariant
            i <= list@.len(),
            vs == agent_views(list@),
            agent_views(r@) == vs.take(i as int),
        decreases list@.len() - i,
    {
        let a = list[i].clone();
        assert(agent_views(r@.push(a)) =~= agent_views(r@).push(a@));
        assert(vs.take(i + 1) =~= vs.take(i as int).push(a@));
        r.push(a);
        i = i + 1;
    }
    assert(vs.take(i as int) =~= vs);
    r
}

fn count_defaults(agents: &Vec<AgentConfig>) -> (r: usize)
    ensures
        r == default_count(agent_views(agents@)),
{
    let ghost vs = agent_views(agents@);
    let mut n: usize = 0;
    let mut i: usize = 0;
    while i < agents.len()
        invariant
            i <= agents@.len(),
            n <= i,
            vs == agent_views(agents@),
            n == default_count(vs.take(i as int)),
        decreases agents@.len() - i,
    {
        assert(vs.take(i + 1).drop_last() =~= vs.take(i as int));
        if agents[i].default {
            n = n + 1;
        }
        i = i + 1;
    }
    assert(vs.take(i as int) =~= vs);
    n
}

fn ensure_default(agents: &mut Vec<AgentConfig>)
    ensures
        agent_views(final(agents)@) == with_default(agent_views(old(agents)@)),
{
    if agents.len() > 0 && count_defaults(agents) == 0 {
        let ghost before = agent_views(agents@);
        let first = AgentConfig {
            name: agents[0].name.as_str().to_string(),
            api_key: agents[0].api_key.as_str().to_string(),
            description: text::copy_opt(&agents[0].description),
            default: true,
        };
        let ghost fv = first@;
        agents.set(0, first);
        assert(agent_views(agents@) =~= before.update(0, fv));
    }
}

fn copy_chats(list: &Vec<i64>) -> (r: Vec<i64>)
    ensures
        r@ == list@,
{
    let mut r: Vec<i64> = Vec::new();
    let mut i: usize = 0;
    while i < list.len()
        invariant
            i <= list@.len(),
            r@ == list@.take(i as int),
        decreases list@.len() - i,
    {
        r.push(list[i]);
        i = i + 1;
    }
    assert(list@.take(i as int) =~= list@);
    r
}

/// A bot with another name and other agents.
fn bot_with(bot: &BotConfig, name: String, agents: Vec<AgentConfig>) -> (r: BotConfig)
    ensures
        r@ == (BotView { name: name@, agents: agent_views(agents@), ..bot@ }),
{
    BotConfig {
        name,
        token: bot.token.as_str().to_string(),
        mode: bot.mode,
        groups: bot.groups,
        streaming: bot.streaming,
        reactions: bot.reactions,
        attachments: bot.attachments,
        voice_replies: bot.voice_replies,
        business: bot.business,
        guest: bot.guest,
        inline: bot.inline,
        allowed_chats: copy_chats(&bot.allowed_chats),
        welcome: text::copy_opt(&bot.welcome),
        description: text::copy_opt(&bot.description),
        short_description: text::copy_opt(&bot.short_description),
        menu_button_url: text::copy_opt(&bot.menu_button_url),
        max_file_mb: bot.max_file_mb,
        api_base: text::copy_opt(&bot.api_base),
        agents,
    }
}

/// Puts bot `i` of a list, the first `i` of which are in order, in order as well, as far
/// as nothing wrong is found; tells what is.
fn order_bot(bots: &Vec<BotConfig>, i: usize, has_url: bool) -> (r: (
    BotConfig,
    Option<ConfigError>,
))
    requires
        i < bots@.len(),
    ensures
        r.0@ == left_bot(bot_views(bots@).take(i as int), bots@[i as int]@),
        forall|url: Option<Seq<char>>|
            url is Some == has_url ==> (match r.1 {
                None => Ok(r.0@),
                Some(e) => Err(e@),
            }) == #[trigger] normal_bot(bot_views(bots@).take(i as int), url, bots@[i as int]@),
{
    let bot = &bots[i];
    let name = keep_name(bot.name.as_str());
    let early: Option<ConfigError> = if !check_name(name.as_str()) {
        Some(ConfigError::BadBotName(name.as_str().to_string()))
    } else if bot_known(bots, i, name.as_str()) {
        Some(ConfigError::DuplicateBot(name.as_str().to_string()))
    } else if text::is_blank(bot.token.as_str()) {
        Some(ConfigError::EmptyToken(name.as_str().to_string()))
    } else if bot.agents.len() == 0 {
        Some(ConfigError::NoAgents(name.as_str().to_string()))
    } else {
        None
    };
    let mut agents = copy_agents(&bot.agents);
    if early.is_some() {
        return (bot_with(bot, name, agents), early);
    }
    assert(agents@.len() == agent_views(agents@).len());
    assert(agents@.len() == bot@.agents.len());
    let wrong = order_agents(name.as_str(), &mut agents);
    if wrong.is_some() {
        return (bot_with(bot, name, agents), wrong);
    }
    if count_defaults(&agents) > 1 {
        let e = ConfigError::ManyDefaults(name.as_str().to_string());
        return (bot_with(bot, name, agents), Some(e));
    }
    ensure_default(&mut agents);
    let late: Option<ConfigError> = if bot.mode == Mode::Webhook && !has_url {
        Some(ConfigError::NoPublicUrl(name.as_str().to_string()))
    } else {
        None
    };
    (bot_with(bot, name, agents), late)
}

proof fn lemma_bots_fail(bots: Seq<BotView>, url: Option<Seq<char>>, i: nat, n: nat)
    requires
        i <= n <= bots.len(),
        normal_bots(bots, url, i) is Err,
    ensures
        normal_bots(bots, url, n) == normal_bots(bots, url, i),
        left_bots(bots, url, n) == left_bots(bots, url, i) + bots.subrange(i as int, n as int),
        turned_on(bots, url, n) == turned_on(bots, url, i),
    decreases n,
{
    if i < n {
        lemma_bots_fail(bots, url, i, (n - 1) as nat);
        let before = bots.subrange(i as int, n - 1);
        assert(before.push(bots[n - 1]) =~= bots.subrange(i as int, n as int));
        assert((left_bots(bots, url, i) + before).push(bots[n - 1]) =~= left_bots(bots, url, i)
            + before.push(bots[n - 1]));
    } else {
        assert(left_bots(bots, url, i) + bots.subrange(i as int, n as int) =~= left_bots(
            bots,
            url,
            i,
        ));
    }
}

proof fn lemma_bots_left(bots: Seq<BotView>, url: Option<Seq<char>>, n: nat)
    requires
        n <= bots.len(),
    ensures
        normal_bots(bots, url, n) matches Ok(done) ==> left_bots(bots, url, n) == done
            && done.len() == n && turned_on(bots, url, n) == any_webhook(bots.take(n as int)),
    decreases n,
{
    if n > 0 {
        let m = (n - 1) as nat;
        lemma_bots_left(bots, url, m);
        let a = bots.take(m as int);
        let b = bots.take(n as int);
        if any_webhook(a) {
            let k = choose|k: int| 0 <= k < a.len() && (#[trigger] a[k]).mode == Mode::Webhook;
            assert(b[k].mode == Mode::Webhook);
        }
        if bots[m as int].mode == Mode::Webhook {
            assert(b[m as int].mode == Mode::Webhook);
        }
        if any_webhook(b) && !any_webhook(a) {
            let k = choose|k: int| 0 <= k < b.len() && (#[trigger] b[k]).mode == Mode::Webhook;
            if k < m {
                assert(a[k].mode == Mode::Webhook);
            }
        }
    }
}

/// Puts a configuration in order: names trimmed and in small letters, one
/// default agent for each bot, the server on where a bot needs it. A
/// configuration that is refused is left in order as far as nothing wrong was
/// found.
pub fn normalize(cfg: &mut Config) -> (r: Result<(), ConfigError>)
    ensures
        match normalized(old(cfg)@) {
            Ok(c) => r is Ok && final(cfg)@ == c,
            Err(e) => (r matches Err(x) && x@ == e) && final(cfg)@ == left_over(old(cfg)@),
        },
{
    let ghost was = cfg@;
    let ghost vs = was.bots;
    let ghost url = was.server.public_url;
    if cfg.bots.len() == 0 {
        assert(left_over(was).bots =~= was.bots);
        return Err(ConfigError::NoBots);
    }
    let has_url = cfg.server.public_url.is_some();
    let mut i: usize = 0;
    assert(vs.take(0) =~= Seq::<BotView>::empty());
    while i < cfg.bots.len()
        invariant
            was == old(cfg)@,
            vs == was.bots,
            vs.len() > 0,
            url == was.server.public_url,
            has_url == url is Some,
            i <= cfg.bots@.len(),
            cfg.bots@.len() == vs.len(),
            cfg@ == (ConfigView {
                server: ServerView {
                    enabled: was.server.enabled || turned_on(vs, url, i as nat),
                    ..was.server
                },
                bots: bot_views(cfg.bots@),
                ..was
            }),
            bot_views(cfg.bots@).skip(i as int) == vs.skip(i as int),
            normal_bots(vs, url, i as nat) == Ok::<Seq<BotView>, ConfigErrorView>(
                bot_views(cfg.bots@).take(i as int),
            ),
        decreases cfg.bots@.len() - i,
    {
        let ghost before = bot_views(cfg.bots@);
        let ghost done = before.take(i as int);
        assert(before.skip(i as int)[0] == vs.skip(i as int)[0]);
        assert(vs[i as int] == cfg.bots@[i as int]@);
        let (bot, wrong) = order_bot(&cfg.bots, i, has_url);
        let on: bool = bot.mode == Mode::Webhook && match &wrong {
            None => true,
            Some(ConfigError::NoPublicUrl(_)) => true,
            Some(_) => false,
        };
        let ghost bv = bot@;
        assert(normal_bot(done, url, vs[i as int]) == (match wrong {
            None => Ok(bv),
            Some(e) => Err(e@),
        }));
        cfg.bots.set(i, bot);
        if on {
            cfg.server.enabled = true;
        }
        proof {
            assert(bot_views(cfg.bots@) =~= before.update(i as int, bv));
            assert(bot_views(cfg.bots@).take(i + 1) =~= done.push(bv));
            assert(bot_views(cfg.bots@).skip(i + 1) =~= before.skip(i as int).skip(1));
            assert(vs.skip(i as int).skip(1) =~= vs.skip(i + 1));
            assert(on == turns_on(done, url, vs[i as int]));
        }
        match wrong {
            Some(e) => {
                proof {
                    lemma_bots_left(vs, url, i as nat);
                    lemma_bots_fail(vs, url, (i + 1) as nat, vs.len());
                    assert(vs.skip(i + 1) =~= vs.subrange(i + 1, vs.len() as int));
                    assert(bot_views(cfg.bots@) =~= bot_views(cfg.bots@).take(i + 1) + bot_views(
                        cfg.bots@,
                    ).skip(i + 1));
                }
                return Err(e);
            },
            None => {},
        }
        i = i + 1;
    }
    proof {
        lemma_bots_left(vs, url, vs.len());
        assert(vs.take(i as int) =~= vs);
        assert(bot_views(cfg.bots@).take(i as int) =~= bot_views(cfg.bots@));
    }
    let no_uri = match &cfg.storage.uri {
        Some(u) => text::is_blank(u.as_str()),
        None => true,
    };
    if cfg.storage.backend == Backend::Mongodb && no_uri {
        return Err(ConfigError::NoMongoUri);
    }
    cfg.api_base = text::dropped_back(cfg.api_base.as_str(), '/');
    Ok(())
}

/// A text between quotes, as `Debug` writes it.
pub uninterp spec fn debug_text(s: Seq<char>) -> Seq<char>;

/// `<str as std::fmt::Debug>::fmt`: the text between quotes, with escapes.
#[verifier::external_body]
pub(crate) fn debug_of(s: &str) -> (r: String)
    ensures
        r@ == debug_text(s@),
{
    format!("{:?}", s)
}

/// The words for a configuration error.
pub open spec fn config_error_words(e: ConfigErrorView) -> Seq<char> {
    match e {
        ConfigErrorView::MissingVariables(names) =>
            "missing environment variables referenced in config: "@ + text::join(names, ", "@),
        ConfigErrorView::NoToken =>
            "TELEGRAM_BOT_TOKEN is not set and no config file was found"@,
        ConfigErrorView::NoApiKey => "API_KEY (or API_KEY_<NAME>) is not set"@,
        ConfigErrorView::NoBots => "no bots configured"@,
        ConfigErrorView::BadBotName(b) => "bot name "@ + debug_text(b)
            + " must be alphanumeric with '-' or '_'"@,
        ConfigErrorView::DuplicateBot(b) => "duplicate bot name "@ + debug_text(b),
        ConfigErrorView::EmptyToken(b) => "bot "@ + debug_text(b) + ": token is empty"@,
        ConfigErrorView::NoAgents(b) => "bot "@ + debug_text(b)
            + ": at least one agent is required"@,
        ConfigErrorView::BadAgentName(b, a) => "bot "@ + debug_text(b) + ": agent name "@
            + debug_text(a) + " must be alphanumeric with '-' or '_'"@,
        ConfigErrorView::DuplicateAgent(b, a) => "bot "@ + debug_text(b) + ": duplicate agent "@
            + debug_text(a),
        ConfigErrorView::EmptyApiKey(b, a) => "bot "@ + debug_text(b) + ": agent "@ + debug_text(a)
            + " has an empty api_key"@,
        ConfigErrorView::ManyDefaults(b) => "bot "@ + debug_text(b)
            + ": more than one default agent"@,
        ConfigErrorView::NoPublicUrl(b) => "bot "@ + debug_text(b)
            + " uses webhook mode but server.public_url is not set"@,
        ConfigErrorView::NoMongoUri =>
            "storage.backend = mongodb requires storage.uri (or MONGODB_URI)"@,
    }
}

fn bot_words(lead: &str, bot: &str, tail: &str) -> (r: String)
    ensures
        r@ == lead@ + debug_text(bot@) + tail@,
{
    let mut r: String = lead.to_string();
    r.append(debug_of(bot).as_str());
    r.append(tail);
    r
}

fn agent_words(bot: &str, middle: &str, agent: &str, tail: &str) -> (r: String)
    ensures
        r@ == "bot "@ + debug_text(bot@) + middle@ + debug_text(agent@) + tail@,
{
    let mut r: String = "bot ".to_string();
    r.append(debug_of(bot).as_str());
    r.append(middle);
    r.append(debug_of(agent).as_str());
    r.append(tail);
    r
}

impl ConfigError {
    /// The error in words.
    pub fn message(&self) -> (r: String)
        ensures
            r@ == config_error_words(self@),
    {
        proof {
            reveal_strlit("");
        }
        match self {
            ConfigError::MissingVariables(names) => {
                let mut r: String =
                    "missing environment variables referenced in config: ".to_string();
                r.append(text::join_list(names, ", ").as_str());
                r
            },
            ConfigError::NoToken =>
                "TELEGRAM_BOT_TOKEN is not set and no config file was found".to_string(),
            ConfigError::NoApiKey => "API_KEY (or API_KEY_<NAME>) is not set".to_string(),
            ConfigError::NoBots => "no bots configured".to_string(),
            ConfigError::BadBotName(b) => bot_words(
                "bot name ",
                b.as_str(),
                " must be alphanumeric with '-' or '_'",
            ),
            ConfigError::DuplicateBot(b) => {
                let r = bot_words("duplicate bot name ", b.as_str(), "");
                assert(r@ =~= "duplicate bot name "@ + debug_text(b@));
                r
            },
            ConfigError::EmptyToken(b) => bot_words("bot ", b.as_str(), ": token is empty"),
            ConfigError::NoAgents(b) => bot_words(
                "bot ",
                b.as_str(),
                ": at least one agent is required",
            ),
            ConfigError::BadAgentName(b, a) => agent_words(
                b.as_str(),
                ": agent name ",
                a.as_str(),
                " must be alphanumeric with '-' or '_'",
            ),
            ConfigError::DuplicateAgent(b, a) => {
                let r = agent_words(b.as_str(), ": duplicate agent ", a.as_str(), "");
                assert(r@ =~= "bot "@ + debug_text(b@) + ": duplicate agent "@ + debug_text(a@));
                r
            },
            ConfigError::EmptyApiKey(b, a) => agent_words(
                b.as_str(),
                ": agent ",
                a.as_str(),
                " has an empty api_key",
            ),
            ConfigError::ManyDefaults(b) => bot_words(
                "bot ",
                b.as_str(),
                ": more than one default agent",
            ),
            ConfigError::NoPublicUrl(b) => bot_words(
                "bot ",
                b.as_str(),
                " uses webhook mode but server.public_url is not set",
            ),
            ConfigError::NoMongoUri =>
                "storage.backend = mongodb requires storage.uri (or MONGODB_URI)".to_string(),
        }
    }
}

}
