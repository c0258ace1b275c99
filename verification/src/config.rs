//! Configuration.
//!
//! ADE merges a global config (`~/.config/ade/config.toml`) with an optional
//! per-project config (`./.ade/config.toml`). The project config wins on any
//! overlap; provider and MCP lists are concatenated (project entries appended), and
//! a provider is found by name from the front.
use vstd::prelude::*;

use crate::error::{outcome, Error, ErrorModel};
use crate::paths::{join, joined};
use crate::text::{cat3, lemma_views_add, opt_view, pair_views, same, views};

verus! {

/// Which wire protocol an adapter speaks. This is the only thing that needs
/// code: every concrete model is just a [`ProviderConfig`] entry pointing at one
/// of these kinds.
#[derive(Debug, Clone, Copy, PartialEq, Eq, Structural)]
pub enum ProviderKind {
    /// OpenAI-compatible `chat/completions`. Covers Deepseek, Mimo, local
    /// servers, and most OSS endpoints.
    Openai,
    /// Anthropic Messages API.
    Anthropic,
    /// Google Gemini `generateContent`.
    Gemini,
}

impl ProviderKind {
    /// The kind as it is written in a config file.
    pub open spec fn label(self) -> Seq<char> {
        match self {
            ProviderKind::Openai => "openai"@,
            ProviderKind::Anthropic => "anthropic"@,
            ProviderKind::Gemini => "gemini"@,
        }
    }

    /// The kind as it is written in a config file.
    pub fn name(self) -> (r: &'static str)
        ensures
            r@ == self.label(),
    {
        match self {
            ProviderKind::Openai => "openai",
            ProviderKind::Anthropic => "anthropic",
            ProviderKind::Gemini => "gemini",
        }
    }
}

/// A single configured model/endpoint.
#[derive(Debug, Clone)]
pub struct ProviderConfig {
    /// Local handle used with `-m/--model` and `/model`.
    pub name: String,
    pub kind: ProviderKind,
    /// API base URL. Optional: adapters supply a sensible default per kind.
    pub base_url: Option<String>,
    /// The model identifier sent to the provider.
    pub model: String,
    /// Key reference: `env:VAR`, `keyring:service`, or a literal value.
    /// Optional for keyless/local endpoints.
    pub api_key: Option<String>,
}

/// The model of a [`ProviderConfig`].
#[verifier::ext_equal]
pub struct ProviderConfigModel {
    pub name: Seq<char>,
    pub kind: ProviderKind,
    pub base_url: Option<Seq<char>>,
    pub model: Seq<char>,
    pub api_key: Option<Seq<char>>,
}

impl View for ProviderConfig {
    type V = ProviderConfigModel;

    open spec fn view(&self) -> ProviderConfigModel {
        ProviderConfigModel {
            name: self.name@,
            kind: self.kind,
            base_url: opt_view(self.base_url),
            model: self.model@,
            api_key: opt_view(self.api_key),
        }
    }
}

/// MCP transport.
#[derive(Debug, Clone, Copy, PartialEq, Eq, Structural)]
pub enum McpTransport {
    Stdio,
    Sse,
}

/// One shared MCP server. Spawned once and shared across every agent.
#[derive(Debug, Clone)]
pub struct McpConfig {
    pub name: String,
    pub transport: McpTransport,
    /// stdio: process to launch.
    pub command: Option<String>,
    pub args: Vec<String>,
    /// Extra env for the spawned server, by name. Values may be key references.
    pub env: Vec<(String, String)>,
    /// sse: endpoint URL.
    pub url: Option<String>,
}

/// The model of an [`McpConfig`].
#[verifier::ext_equal]
pub struct McpConfigModel {
    pub name: Seq<char>,
    pub transport: McpTransport,
    pub command: Option<Seq<char>>,
    pub args: Seq<Seq<char>>,
    pub env: Seq<(Seq<char>, Seq<char>)>,
    pub url: Option<Seq<char>>,
}

impl View for McpConfig {
    type V = McpConfigModel;

    open spec fn view(&self) -> McpConfigModel {
        McpConfigModel {
            name: self.name@,
            transport: self.transport,
            command: opt_view(self.command),
            args: views(self.args@),
            env: pair_views(self.env@),
            url: opt_view(self.url),
        }
    }
}

/// Permission policy for tool execution.
#[derive(Debug, Clone)]
pub struct PermissionConfig {
    /// Commands/tools that never prompt (e.g. `"cargo build"`).
    pub allow: Vec<String>,
}

/// The fully merged configuration.
#[derive(Debug, Clone)]
pub struct Config {
    /// Name of the provider used when `-m` is not given.
    pub default_model: Option<String>,
    pub providers: Vec<ProviderConfig>,
    pub mcp: Vec<McpConfig>,
    pub permission: PermissionConfig,
}

/// The model of a [`Config`].
#[verifier::ext_equal]
pub struct ConfigModel {
    pub default_model: Option<Seq<char>>,
    pub providers: Seq<ProviderConfigModel>,
    pub mcp: Seq<McpConfigModel>,
    pub allow: Seq<Seq<char>>,
}

impl View for Config {
    type V = ConfigModel;

    open spec fn view(&self) -> ConfigModel {
        ConfigModel {
            default_model: opt_view(self.default_model),
            providers: views(self.providers@),
            mcp: views(self.mcp@),
            allow: views(self.permission.allow@),
        }
    }
}

impl ConfigModel {
    /// Nothing configured.
    pub open spec fn empty() -> ConfigModel {
        ConfigModel {
            default_model: None,
            providers: Seq::empty(),
            mcp: Seq::empty(),
            allow: Seq::empty(),
        }
    }

    /// `over` laid onto `self`.
    pub open spec fn merged(self, over: ConfigModel) -> ConfigModel {
        ConfigModel {
            default_model: if over.default_model is Some {
                over.default_model
            } else {
                self.default_model
            },
            providers: self.providers + over.providers,
            mcp: self.mcp + over.mcp,
            allow: self.allow + over.allow,
        }
    }

    /// The name of the provider to use: the requested one, else the default,
    /// else the first one configured.
    pub open spec fn wanted(self, requested: Option<Seq<char>>) -> Option<Seq<char>> {
        if requested is Some {
            requested
        } else if self.default_model is Some {
            self.default_model
        } else if self.providers.len() > 0 {
            Some(self.providers[0].name)
        } else {
            None
        }
    }

    /// The provider to use.
    pub open spec fn selected(self, requested: Option<Seq<char>>) -> Result<
        ProviderConfigModel,
        ErrorModel,
    > {
        match self.wanted(requested) {
            Some(name) => match provider_named(self.providers, name) {
                Some(p) => Ok(p),
                None => Err(ErrorModel::Config("unknown model '"@ + name + "'"@)),
            },
            None => Err(ErrorModel::Config("no providers configured"@)),
        }
    }
}

/// The first provider with the given name.
pub open spec fn provider_named(s: Seq<ProviderConfigModel>, name: Seq<char>) -> Option<
    ProviderConfigModel,
>
    decreases s.len(),
{
    if s.len() == 0 {
        None
    } else if s[0].name == name {
        Some(s[0])
    } else {
        provider_named(s.skip(1), name)
    }
}

/// What came of reading a config file.
#[derive(Debug)]
pub enum ConfigRead {
    /// There is no such file.
    Missing,
    /// The file could not be read; the message of the failure.
    Unreadable(String),
    /// The file is no valid config; the message of the parser.
    Malformed(String),
    Parsed(Config),
}

/// The model of a [`ConfigRead`].
#[verifier::ext_equal]
pub enum ConfigReadModel {
    Missing,
    Unreadable(Seq<char>),
    Malformed(Seq<char>),
    Parsed(ConfigModel),
}

impl View for ConfigRead {
    type V = ConfigReadModel;

    open spec fn view(&self) -> ConfigReadModel {
        match *self {
            ConfigRead::Missing => ConfigReadModel::Missing,
            ConfigRead::Unreadable(e) => ConfigReadModel::Unreadable(e@),
            ConfigRead::Malformed(e) => ConfigReadModel::Malformed(e@),
            ConfigRead::Parsed(c) => ConfigReadModel::Parsed(c@),
        }
    }
}

/// The config that a file stands for: a missing file is an empty config.
pub open spec fn config_in_file(path: Seq<char>, read: ConfigReadModel) -> Result<
    ConfigModel,
    ErrorModel,
> {
    match read {
        ConfigReadModel::Missing => Ok(ConfigModel::empty()),
        ConfigReadModel::Unreadable(e) => Err(ErrorModel::Io(e)),
        ConfigReadModel::Malformed(e) => Err(ErrorModel::Config(path + ": "@ + e)),
        ConfigReadModel::Parsed(c) => Ok(c),
    }
}

pub open spec fn global_path_in(config_dir: Option<Seq<char>>) -> Result<Seq<char>, ErrorModel> {
    match config_dir {
        Some(dir) => Ok(joined(joined(dir, "ade"@), "config.toml"@)),
        None => Err(ErrorModel::Config("cannot locate user config dir"@)),
    }
}

pub open spec fn project_path_in(cwd: Seq<char>) -> Seq<char> {
    joined(joined(cwd, ".ade"@), "config.toml"@)
}

/// The configuration that the two files give.
pub open spec fn loaded(
    config_dir: Option<Seq<char>>,
    global: ConfigReadModel,
    cwd: Seq<char>,
    project: ConfigReadModel,
) -> Result<ConfigModel, ErrorModel> {
    let base = match global_path_in(config_dir) {
        Ok(path) => config_in_file(path, global),
        Err(_) => Ok(ConfigModel::empty()),
    };
    match base {
        Ok(cfg) => match config_in_file(project_path_in(cwd), project) {
            Ok(over) => Ok(cfg.merged(over)),
            Err(e) => Err(e),
        },
        Err(e) => Err(e),
    }
}

impl Default for Config {
    fn default() -> (r: Config)
        ensures
            r@ == ConfigModel::empty(),
    {
        let r = Config {
            default_model: None,
            providers: Vec::new(),
            mcp: Vec::new(),
            permission: PermissionConfig { allow: Vec::new() },
        };
        assert(r@.providers =~= Seq::empty());
        assert(r@.mcp =~= Seq::empty());
        assert(r@.allow =~= Seq::empty());
        r
    }
}

impl Config {
    /// Path to the global config file, given the user's config directory.
    pub fn global_path(config_dir: Option<&str>) -> (r: Result<String, Error>)
        ensures
            outcome(r) == global_path_in(opt_view(config_dir)),
    {
        match config_dir {
            Some(dir) => Ok(join(join(dir, "ade").as_str(), "config.toml")),
            None => Err(Error::Config("cannot locate user config dir".to_owned())),
        }
    }

    /// Path to the project config (`<cwd>/.ade/config.toml`).
    pub fn project_path(cwd: &str) -> (r: String)
        ensures
            r@ == project_path_in(cwd@),
    {
        join(join(cwd, ".ade").as_str(), "config.toml")
    }

    /// Load and merge global + project config from what was read at the two
    /// paths. Missing files are treated as empty, so a fresh install with only
    /// env vars still works; without a config directory the global file does
    /// not count.
    pub fn load(
        config_dir: Option<&str>,
        global: ConfigRead,
        cwd: &str,
        project: ConfigRead,
    ) -> (r: Result<Config, Error>)
        ensures
            outcome(r) == loaded(opt_view(config_dir), global@, cwd@, project@),
    {
        let mut cfg = match Config::global_path(config_dir) {
            Ok(path) => match Config::read_file(path.as_str(), global) {
                Ok(c) => c,
                Err(e) => return Err(e),
            },
            Err(_) => Config::default(),
        };
        match Config::read_file(Config::project_path(cwd).as_str(), project) {
            Ok(over) => {
                cfg.merge(over);
                Ok(cfg)
            },
            Err(e) => Err(e),
        }
    }

    /// The config that a file stands for.
    pub fn read_file(path: &str, read: ConfigRead) -> (r: Result<Config, Error>)
        ensures
            outcome(r) == config_in_file(path@, read@),
    {
        match read {
            ConfigRead::Missing => Ok(Config::default()),
            ConfigRead::Unreadable(e) => Err(Error::Io(e)),
            ConfigRead::Malformed(e) => Err(Error::Config(cat3(path, ": ", e.as_str()))),
            ConfigRead::Parsed(c) => Ok(c),
        }
    }

    /// Overlay `other` (the project config) onto `self` (global).
    pub fn merge(&mut self, other: Config)
        ensures
            final(self)@ == old(self)@.merged(other@),
    {
        broadcast use lemma_views_add;

        let mut other = other;
        if other.default_model.is_some() {
            self.default_model = other.default_model;
        }
        self.providers.append(&mut other.providers);
        self.mcp.append(&mut other.mcp);
        self.permission.allow.append(&mut other.permission.allow);
    }

    /// Resolve the provider to use given an optional `-m` override.
    pub fn select_provider(&self, requested: Option<&str>) -> (r: Result<&ProviderConfig, Error>)
        ensures
            outcome(r) == self@.selected(opt_view(requested)),
    {
        let name: String = match requested {
            Some(n) => n.to_owned(),
            None => match &self.default_model {
                Some(n) => n.clone(),
                None => {
                    if self.providers.len() == 0 {
                        return Err(Error::Config("no providers configured".to_owned()));
                    }
                    self.providers[0].name.clone()
                },
            },
        };
        let ghost all = views(self.providers@);
        let mut i: usize = 0;
        assert(all.skip(0) =~= all);
        while i < self.providers.len()
            invariant
                all == views(self.providers@),
                i <= self.providers@.len(),
                self@.wanted(opt_view(requested)) == Some(name@),
                provider_named(all, name@) == provider_named(all.skip(i as int), name@),
            decreases self.providers@.len() - i,
        {
            assert(all.skip(i as int)[0] == self.providers@[i as int]@);
            assert(all.skip(i as int).skip(1) =~= all.skip(i + 1));
            if same(self.providers[i].name.as_str(), name.as_str()) {
                return Ok(&self.providers[i]);
            }
            i += 1;
        }
        Err(Error::Config(cat3("unknown model '", name.as_str(), "'")))
    }
}

/// Merging is associative, so configs may be laid onto one another in any grouping.
pub proof fn law_merge_associative(a: ConfigModel, b: ConfigModel, c: ConfigModel)
    ensures
        a.merged(b).merged(c) == a.merged(b.merged(c)),
{
    assert(a.merged(b).merged(c) =~= a.merged(b.merged(c)));
}

/// A missing project file changes nothing, and neither does a missing global one.
pub proof fn law_merge_empty(a: ConfigModel)
    ensures
        a.merged(ConfigModel::empty()) == a,
        ConfigModel::empty().merged(a) == a,
{
    assert(a.merged(ConfigModel::empty()) =~= a);
    assert(ConfigModel::empty().merged(a) =~= a);
}

/// Laying a config over another keeps every provider of both: what the lower config
/// finds by name is still found, and a name only the upper config knows is found
/// there.
pub proof fn law_merge_keeps_providers(a: ConfigModel, b: ConfigModel, name: Seq<char>)
    ensures
        provider_named(a.merged(b).providers, name) == (match provider_named(a.providers, name) {
            Some(p) => Some(p),
            None => provider_named(b.providers, name),
        }),
{
    lemma_named_add(a.providers, b.providers, name);
}

proof fn lemma_named_add(a: Seq<ProviderConfigModel>, b: Seq<ProviderConfigModel>, name: Seq<char>)
    ensures
        provider_named(a + b, name) == (match provider_named(a, name) {
            Some(p) => Some(p),
            None => provider_named(b, name),
        }),
    decreases a.len(),
{
    if a.len() == 0 {
        assert(a + b =~= b);
    } else {
        assert((a + b).skip(1) =~= a.skip(1) + b);
        lemma_named_add(a.skip(1), b, name);
    }
}

/// A provider that is selected is one that is configured, and carries the wanted name.
pub proof fn law_selected_is_configured(cfg: ConfigModel, requested: Option<Seq<char>>)
    ensures
        cfg.selected(requested) matches Ok(p) ==> cfg.providers.contains(p)
            && cfg.wanted(requested) == Some(p.name),
{
    if let Some(name) = cfg.wanted(requested) {
        lemma_named_contained(cfg.providers, name);
    }
}

proof fn lemma_named_contained(s: Seq<ProviderConfigModel>, name: Seq<char>)
    ensures
        provider_named(s, name) matches Some(p) ==> s.contains(p) && p.name == name,
    decreases s.len(),
{
    if s.len() > 0 && s[0].name != name {
        lemma_named_contained(s.skip(1), name);
        if let Some(p) = provider_named(s.skip(1), name) {
            let i = choose|i: int| 0 <= i < s.skip(1).len() && s.skip(1)[i] == p;
            assert(s[i + 1] == p);
        }
    }
}

} // verus!
