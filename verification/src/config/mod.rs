//! Application configuration: environments, typed sections, environment
//! overrides and namespaced tables.
pub mod value;
pub mod namespace;

use vstd::prelude::*;
use crate::text::{
    concat, owned, parse_u16, parses_unsigned, push_str, str_eq, to_lowercase, to_uppercase,
    unicode_lowercase, unicode_uppercase, digits_value, unsigned_digits,
};
use crate::config::value::{
    copy_value, entries_view, key_index, lemma_entries_view, lemma_key_index, table_get, value_path, value_view,
    values_view, walk_value, ConfigValue, TableView, ValueView,
};
use crate::text::{split_by_char, split_char, views};

verus! {

/// The mode an application runs in.
#[derive(Debug, Clone, Copy, PartialEq, Eq, Structural)]
pub enum Environment {
    Development,
    Testing,
    Production,
}

/// The environment that a lowercase name selects: `production` or `prod`,
/// `testing` or `test`, and development for every other name.
pub open spec fn environment_named(lower: Seq<char>) -> Environment {
    if lower == "production"@ || lower == "prod"@ {
        Environment::Production
    } else if lower == "testing"@ || lower == "test"@ {
        Environment::Testing
    } else {
        Environment::Development
    }
}

impl Environment {
    /// The canonical name of the environment.
    pub open spec fn name(self) -> Seq<char> {
        match self {
            Environment::Development => "development"@,
            Environment::Testing => "testing"@,
            Environment::Production => "production"@,
        }
    }

    /// The environment selected by an already lowercased name.
    pub fn from_lowercase(lower: &str) -> (r: Environment)
        ensures
            r == environment_named(lower@),
    {
        if str_eq(lower, "production") || str_eq(lower, "prod") {
            Environment::Production
        } else if str_eq(lower, "testing") || str_eq(lower, "test") {
            Environment::Testing
        } else {
            Environment::Development
        }
    }

    /// The environment a name selects, in any letter case.
    pub fn from_str(s: &str) -> (r: Environment)
        ensures
            r == environment_named(unicode_lowercase(s@)),
    {
        let lower = to_lowercase(s);
        Environment::from_lowercase(lower.as_str())
    }

    /// The canonical name.
    pub fn as_str(&self) -> (r: &'static str)
        ensures
            r@ == self.name(),
    {
        match self {
            Environment::Development => "development",
            Environment::Testing => "testing",
            Environment::Production => "production",
        }
    }
}

/// Every environment's canonical name selects that environment again.
pub proof fn lemma_environment_name_round_trip(e: Environment)
    ensures
        environment_named(e.name()) == e,
{
    reveal_strlit("development");
    reveal_strlit("testing");
    reveal_strlit("production");
    reveal_strlit("prod");
    reveal_strlit("test");
    assert("development"@.len() == 11);
    assert("testing"@[4] != "prod"@[3]);
}

/// The version written into a default application section.
pub const PACKAGE_VERSION: &'static str = "3.1.0";

/// The name of an application without configuration.
pub fn default_app_name() -> (r: String)
    ensures
        r@ == "oxidite-app"@,
{
    owned("oxidite-app")
}

pub fn default_host() -> (r: String)
    ensures
        r@ == "127.0.0.1"@,
{
    owned("127.0.0.1")
}

pub fn default_port() -> (r: u16)
    ensures
        r == 3000,
{
    3000
}

pub fn default_pool_size() -> (r: u32)
    ensures
        r == 10,
{
    10
}

pub fn default_ttl() -> (r: u64)
    ensures
        r == 3600,
{
    3600
}

pub fn default_workers() -> (r: usize)
    ensures
        r == 4,
{
    4
}

pub fn default_jwt_expiry() -> (r: u64)
    ensures
        r == 900,
{
    900
}

/// `num_cpus::get`: the number of logical CPUs available to the process,
/// which the crate documents as always at least 1.
#[verifier::external_body]
fn cpu_count() -> (r: usize)
    ensures
        r >= 1,
{
    num_cpus::get()
}

/// Application metadata.
#[derive(Debug)]
pub struct AppConfig {
    pub name: String,
    pub version: String,
    pub environment: String,
    pub debug: bool,
}

impl Default for AppConfig {
    fn default() -> (r: Self)
        ensures
            r.name@ == "oxidite-app"@,
            r.version@ == PACKAGE_VERSION@,
            r.environment@ == "development"@,
            r.debug,
    {
        AppConfig {
            name: default_app_name(),
            version: owned(PACKAGE_VERSION),
            environment: owned("development"),
            debug: true,
        }
    }
}

/// Where the HTTP server listens and how many workers it runs.
#[derive(Debug)]
pub struct ServerConfig {
    pub host: String,
    pub port: u16,
    pub workers: usize,
}

impl Default for ServerConfig {
    fn default() -> (r: Self)
        ensures
            r.host@ == "127.0.0.1"@,
            r.port == 3000,
            r.workers >= 1,
    {
        ServerConfig { host: default_host(), port: default_port(), workers: cpu_count() }
    }
}

/// The database connection.
#[derive(Debug)]
pub struct DatabaseConfig {
    pub url: String,
    pub pool_size: u32,
    pub ssl: bool,
}

impl Default for DatabaseConfig {
    fn default() -> (r: Self)
        ensures
            r.url@ == Seq::<char>::empty(),
            r.pool_size == 10,
            !r.ssl,
    {
        DatabaseConfig { url: String::new(), pool_size: default_pool_size(), ssl: false }
    }
}

/// The cache driver.
#[derive(Debug)]
pub struct CacheConfig {
    pub driver: String,
    pub redis_url: String,
    pub default_ttl: u64,
}

impl Default for CacheConfig {
    fn default() -> (r: Self)
        ensures
            r.driver@ == "memory"@,
            r.redis_url@ == Seq::<char>::empty(),
            r.default_ttl == 3600,
    {
        CacheConfig { driver: owned("memory"), redis_url: String::new(), default_ttl: default_ttl() }
    }
}

/// The background job queue.
#[derive(Debug)]
pub struct QueueConfig {
    pub driver: String,
    pub redis_url: String,
    pub workers: usize,
}

impl Default for QueueConfig {
    fn default() -> (r: Self)
        ensures
            r.driver@ == "memory"@,
            r.redis_url@ == Seq::<char>::empty(),
            r.workers == 4,
    {
        QueueConfig { driver: owned("memory"), redis_url: String::new(), workers: default_workers() }
    }
}

/// Tokens, CORS and rate limiting.
#[derive(Debug)]
pub struct SecurityConfig {
    pub jwt_secret: String,
    pub jwt_expiry: u64,
    pub cors_origins: Vec<String>,
    pub cors_methods: Vec<String>,
    pub cors_headers: Vec<String>,
    pub rate_limit: u32,
}

impl Default for SecurityConfig {
    fn default() -> (r: Self)
        ensures
            r.jwt_secret@ == Seq::<char>::empty(),
            r.jwt_expiry == 900,
            r.cors_origins@ == Seq::<String>::empty(),
            r.cors_methods@ == Seq::<String>::empty(),
            r.cors_headers@ == Seq::<String>::empty(),
            r.rate_limit == 0,
    {
        SecurityConfig {
            jwt_secret: String::new(),
            jwt_expiry: default_jwt_expiry(),
            cors_origins: Vec::new(),
            cors_methods: Vec::new(),
            cors_headers: Vec::new(),
            rate_limit: 0,
        }
    }
}

/// A whole configuration file: the typed sections, the flat `[env]` table
/// and every other root table (`custom`), by name.
#[derive(Debug)]
pub struct Config {
    pub app: AppConfig,
    pub server: ServerConfig,
    pub database: DatabaseConfig,
    pub cache: CacheConfig,
    pub queue: QueueConfig,
    pub security: SecurityConfig,
    pub env: Vec<(String, String)>,
    pub custom: Vec<(String, ConfigValue)>,
}

impl Default for Config {
    fn default() -> (r: Self)
        ensures
            r.app.name@ == "oxidite-app"@,
            r.app.version@ == PACKAGE_VERSION@,
            r.app.environment@ == "development"@,
            r.app.debug,
            r.server.host@ == "127.0.0.1"@,
            r.server.port == 3000,
            r.server.workers >= 1,
            r.database.url@ == Seq::<char>::empty(),
            r.database.pool_size == 10,
            !r.database.ssl,
            r.cache.driver@ == "memory"@,
            r.cache.redis_url@ == Seq::<char>::empty(),
            r.cache.default_ttl == 3600,
            r.queue.driver@ == "memory"@,
            r.queue.redis_url@ == Seq::<char>::empty(),
            r.queue.workers == 4,
            r.security.jwt_secret@ == Seq::<char>::empty(),
            r.security.jwt_expiry == 900,
            r.security.cors_origins@.len() == 0,
            r.security.cors_methods@.len() == 0,
            r.security.cors_headers@.len() == 0,
            r.security.rate_limit == 0,
            r.env@.len() == 0,
            r.custom@.len() == 0,
    {
        Config {
            app: AppConfig::default(),
            server: ServerConfig::default(),
            database: DatabaseConfig::default(),
            cache: CacheConfig::default(),
            queue: QueueConfig::default(),
            security: SecurityConfig::default(),
            env: Vec::new(),
            custom: Vec::new(),
        }
    }
}

/// Why a configuration could not be loaded or read. Errors of the file
/// layer carry that layer's text.
#[derive(Debug)]
pub enum ConfigError {
    Io(String),
    TomlDe(String),
    YamlDe(String),
    InvalidEnvValue { name: String, value: String },
    MissingKey(String),
    InvalidType(String),
    AmbiguousNamespace { prefix: String, candidates: Vec<String> },
    EmptyPropertyKey { var_name: String, namespace: String },
}

/// The well-known environment variables that override typed fields:
/// `APP_NAME`, `SERVER_HOST`, `SERVER_PORT`, `DATABASE_URL`, `REDIS_URL`
/// and `JWT_SECRET`, each when it is set.
#[derive(Debug)]
pub struct EnvOverrides {
    pub app_name: Option<String>,
    pub server_host: Option<String>,
    pub server_port: Option<String>,
    pub database_url: Option<String>,
    pub redis_url: Option<String>,
    pub jwt_secret: Option<String>,
}

/// A text field after an optional override.
pub open spec fn overridden(field: Seq<char>, by: Option<String>) -> Seq<char> {
    match by {
        Some(v) => v@,
        None => field,
    }
}

fn take_override(field: &mut String, by: &Option<String>)
    ensures
        final(field)@ == overridden(old(field)@, *by),
{
    match by {
        Some(v) => {
            *field = owned(v.as_str());
        },
        None => {},
    }
}

impl Config {
    /// Applies the well-known environment overrides in order. `APP_NAME`
    /// and `SERVER_HOST` are applied first; a `SERVER_PORT` that is not a
    /// port number stops with `InvalidEnvValue` and leaves the remaining
    /// fields as they were.
    pub fn apply_env_overrides(&mut self, vars: &EnvOverrides) -> (r: Result<(), ConfigError>)
        ensures
            final(self).app.name@ == overridden(old(self).app.name@, vars.app_name),
            final(self).server.host@ == overridden(old(self).server.host@, vars.server_host),
            final(self).app.version == old(self).app.version,
            final(self).app.environment == old(self).app.environment,
            final(self).server.workers == old(self).server.workers,
            final(self).custom == old(self).custom,
            final(self).env == old(self).env,
            match vars.server_port {
                Some(p) => !parses_unsigned(p@, 65535) <==> r is Err,
                None => r is Ok,
            },
            match r {
                Err(e) => {
                    &&& vars.server_port is Some
                    &&& e matches ConfigError::InvalidEnvValue { name, value }
                    &&& name@ == "SERVER_PORT"@
                    &&& value@ == vars.server_port->0@
                    &&& final(self).server.port == old(self).server.port
                    &&& final(self).database.url == old(self).database.url
                    &&& final(self).cache.redis_url == old(self).cache.redis_url
                    &&& final(self).queue.redis_url == old(self).queue.redis_url
                    &&& final(self).security.jwt_secret == old(self).security.jwt_secret
                },
                Ok(()) => {
                    &&& final(self).server.port == match vars.server_port {
                        Some(p) => digits_value(unsigned_digits(p@)) as u16,
                        None => old(self).server.port,
                    }
                    &&& final(self).database.url@ == overridden(old(self).database.url@, vars.database_url)
                    &&& final(self).cache.redis_url@ == overridden(old(self).cache.redis_url@, vars.redis_url)
                    &&& final(self).queue.redis_url@ == overridden(old(self).queue.redis_url@, vars.redis_url)
                    &&& final(self).security.jwt_secret@ == overridden(old(self).security.jwt_secret@, vars.jwt_secret)
                },
            },
    {
        take_override(&mut self.app.name, &vars.app_name);
        take_override(&mut self.server.host, &vars.server_host);
        match &vars.server_port {
            Some(p) => match parse_u16(p.as_str()) {
                Some(n) => {
                    self.server.port = n;
                },
                None => {
                    return Err(
                        ConfigError::InvalidEnvValue {
                            name: owned("SERVER_PORT"),
                            value: owned(p.as_str()),
                        },
                    );
                },
            },
            None => {},
        }
        take_override(&mut self.database.url, &vars.database_url);
        take_override(&mut self.cache.redis_url, &vars.redis_url);
        take_override(&mut self.queue.redis_url, &vars.redis_url);
        take_override(&mut self.security.jwt_secret, &vars.jwt_secret);
        Ok(())
    }
}

/// The environment name of a run: `OXIDITE_ENV` when set, else
/// `ENVIRONMENT`, else `development`.
pub fn environment_name(oxidite_env: Option<&str>, environment: Option<&str>) -> (r: String)
    ensures
        r@ == match oxidite_env {
            Some(e) => e@,
            None => match environment {
                Some(e) => e@,
                None => "development"@,
            },
        },
{
    match oxidite_env {
        Some(e) => owned(e),
        None => match environment {
            Some(e) => owned(e),
            None => owned("development"),
        },
    }
}

/// Whether a variable already holds a value that configuration must not
/// overwrite: it is set and not empty.
pub fn is_already_set(current: Option<&str>) -> (r: bool)
    ensures
        r == match current {
            Some(v) => v@.len() > 0,
            None => false,
        },
{
    match current {
        Some(v) => {
            proof {
                reveal_strlit("");
                assert(""@ =~= Seq::<char>::empty());
                if v@.len() == 0 {
                    assert(v@ =~= Seq::<char>::empty());
                }
            }
            let b = str_eq(v, "");
            assert(b <==> v@.len() == 0);
            !b
        },
        None => false,
    }
}

/// The environment variable name of `key` inside the table whose variable
/// prefix is `prefix`: both uppercased, joined with `_`.
pub open spec fn namespaced_key(prefix: Seq<char>, key: Seq<char>) -> Seq<char> {
    unicode_uppercase(prefix) + "_"@ + unicode_uppercase(key)
}

pub fn namespaced_env_key(prefix: &str, key: &str) -> (r: String)
    ensures
        r@ == namespaced_key(prefix@, key@),
{
    let mut r = to_uppercase(prefix);
    push_str(&mut r, "_");
    let k = to_uppercase(key);
    push_str(&mut r, k.as_str());
    r
}

/// The environment assignments of a value stored under `name`: a table
/// gives those of its entries in order, each under `namespaced_key(name,
/// key)`; any other value is assigned to `name` itself.
pub open spec fn value_assignments(name: Seq<char>, v: ValueView) -> Seq<(Seq<char>, ValueView)>
    decreases v,
{
    match v {
        ValueView::Table(t) => entry_assignments(name, t),
        _ => seq![(name, v)],
    }
}

/// The environment assignments of the entries of a table stored under
/// `name`.
pub open spec fn entry_assignments(name: Seq<char>, t: TableView) -> Seq<(Seq<char>, ValueView)>
    decreases t,
{
    if t.len() == 0 {
        Seq::empty()
    } else {
        proof {
            assert(decreases_to!(t => t.last()));
            assert(decreases_to!(t.last() => t.last().1));
        }
        entry_assignments(name, t.drop_last()) + value_assignments(
            namespaced_key(name, t.last().0),
            t.last().1,
        )
    }
}

/// The assignments of the top-level entries of the whole configuration,
/// each under its own name; the `env` table is left out.
pub open spec fn root_assignments(t: TableView) -> Seq<(Seq<char>, ValueView)>
    decreases t.len(),
{
    if t.len() == 0 {
        Seq::empty()
    } else {
        root_assignments(t.drop_last()) + if t.last().0 == "env"@ {
            Seq::empty()
        } else {
            value_assignments(t.last().0, t.last().1)
        }
    }
}

/// What configuration puts into the environment, in order: the `env`
/// table's variables, then every value of the whole configuration under
/// its namespaced name (nothing more when the configuration cannot be
/// written out). A variable that already holds a value keeps it.
pub open spec fn config_env_assignments(c: Config) -> Seq<(Seq<char>, ValueView)> {
    env_entries(c.env@) + match root_view(c) {
        Some(root) => root_assignments(root),
        None => Seq::empty(),
    }
}

/// Name and value of each pair.
pub open spec fn assignments_view(s: Seq<(String, ConfigValue)>) -> Seq<(Seq<char>, ValueView)> {
    s.map_values(|p: (String, ConfigValue)| (p.0@, value_view(p.1)))
}

/// The largest value that a configuration integer holds.
pub open spec fn fits_integer(n: int) -> bool {
    n <= 0x7fff_ffff_ffff_ffff
}

pub open spec fn str_values(v: Seq<String>) -> Seq<ValueView> {
    v.map_values(|s: String| ValueView::Str(s@))
}

pub open spec fn env_entries(v: Seq<(String, String)>) -> TableView {
    v.map_values(|p: (String, String)| (p.0@, ValueView::Str(p.1@)))
}

/// The `app` section as it is written out.
pub open spec fn app_section(c: Config) -> TableView {
    seq![
        ("name"@, ValueView::Str(c.app.name@)),
        ("version"@, ValueView::Str(c.app.version@)),
        ("environment"@, ValueView::Str(c.app.environment@)),
        ("debug"@, ValueView::Boolean(c.app.debug)),
    ]
}

/// The `server` section as it is written out.
pub open spec fn server_section(c: Config) -> TableView {
    seq![
        ("host"@, ValueView::Str(c.server.host@)),
        ("port"@, ValueView::Integer(c.server.port as i64)),
        ("workers"@, ValueView::Integer(c.server.workers as i64)),
    ]
}

/// The `database` section as it is written out.
pub open spec fn database_section(c: Config) -> TableView {
    seq![
        ("url"@, ValueView::Str(c.database.url@)),
        ("pool_size"@, ValueView::Integer(c.database.pool_size as i64)),
        ("ssl"@, ValueView::Boolean(c.database.ssl)),
    ]
}

/// The `cache` section as it is written out.
pub open spec fn cache_section(c: Config) -> TableView {
    seq![
        ("driver"@, ValueView::Str(c.cache.driver@)),
        ("redis_url"@, ValueView::Str(c.cache.redis_url@)),
        ("default_ttl"@, ValueView::Integer(c.cache.default_ttl as i64)),
    ]
}

/// The `queue` section as it is written out.
pub open spec fn queue_section(c: Config) -> TableView {
    seq![
        ("driver"@, ValueView::Str(c.queue.driver@)),
        ("redis_url"@, ValueView::Str(c.queue.redis_url@)),
        ("workers"@, ValueView::Integer(c.queue.workers as i64)),
    ]
}

/// The `security` section as it is written out.
pub open spec fn security_section(c: Config) -> TableView {
    seq![
        ("jwt_secret"@, ValueView::Str(c.security.jwt_secret@)),
        ("jwt_expiry"@, ValueView::Integer(c.security.jwt_expiry as i64)),
        ("cors_origins"@, ValueView::Array(str_values(c.security.cors_origins@))),
        ("cors_methods"@, ValueView::Array(str_values(c.security.cors_methods@))),
        ("cors_headers"@, ValueView::Array(str_values(c.security.cors_headers@))),
        ("rate_limit"@, ValueView::Integer(c.security.rate_limit as i64)),
    ]
}

/// Whether every integer of the configuration fits a configuration integer.
pub open spec fn integers_fit(c: Config) -> bool {
    &&& fits_integer(c.server.workers as int)
    &&& fits_integer(c.cache.default_ttl as int)
    &&& fits_integer(c.queue.workers as int)
    &&& fits_integer(c.security.jwt_expiry as int)
}

/// The whole configuration as one table, as it is written out: the typed
/// sections, the `env` table and the custom tables. Integers that do not
/// fit a configuration integer cannot be written out.
pub open spec fn root_view(c: Config) -> Option<TableView> {
    if !integers_fit(c) {
        None
    } else {
        Some(sections_view(c) + entries_view(c.custom@))
    }
}

/// The typed sections and the `env` table, in the order they are written.
pub open spec fn sections_view(c: Config) -> TableView {
    seq![
        ("app"@, ValueView::Table(app_section(c))),
        ("server"@, ValueView::Table(server_section(c))),
        ("database"@, ValueView::Table(database_section(c))),
        ("cache"@, ValueView::Table(cache_section(c))),
        ("queue"@, ValueView::Table(queue_section(c))),
        ("security"@, ValueView::Table(security_section(c))),
        ("env"@, ValueView::Table(env_entries(c.env@))),
    ]
}

/// The value at the path `parts` inside the custom table named by its
/// first piece.
pub open spec fn custom_path(c: Config, parts: Seq<Seq<char>>) -> Option<ValueView> {
    match table_get(entries_view(c.custom@), parts[0]) {
        Some(v) => value_path(v, parts.drop_first()),
        None => None,
    }
}

/// The value at the path `parts` inside the whole configuration.
pub open spec fn root_path(c: Config, parts: Seq<Seq<char>>) -> Option<ValueView> {
    match root_view(c) {
        Some(root) => value_path(ValueView::Table(root), parts),
        None => None,
    }
}

/// The value at a dotted key: found in the custom tables first, else in
/// the whole configuration.
pub open spec fn config_lookup(c: Config, key: Seq<char>) -> Option<ValueView> {
    let parts = split_char(key, '.');
    match custom_path(c, parts) {
        Some(v) => Some(v),
        None => root_path(c, parts),
    }
}

/// A value read as a port number: an integer from 0 to 65535.
pub open spec fn u16_value(v: ValueView) -> Option<u16> {
    match v {
        ValueView::Integer(n) => if 0 <= n <= 0xffff {
            Some(n as u16)
        } else {
            None
        },
        _ => None,
    }
}

/// A value read as a flag: a boolean.
pub open spec fn bool_value(v: ValueView) -> Option<bool> {
    match v {
        ValueView::Boolean(b) => Some(b),
        _ => None,
    }
}

/// The port number at a dotted key: the custom tables are asked first and
/// the whole configuration when they hold no such number there.
pub open spec fn config_u16(c: Config, key: Seq<char>) -> Option<u16> {
    let parts = split_char(key, '.');
    let from_custom = match custom_path(c, parts) {
        Some(v) => u16_value(v),
        None => None,
    };
    match from_custom {
        Some(n) => Some(n),
        None => match root_path(c, parts) {
            Some(v) => u16_value(v),
            None => None,
        },
    }
}

/// The flag at a dotted key, looked up as `config_u16` looks up a number.
pub open spec fn config_bool(c: Config, key: Seq<char>) -> Option<bool> {
    let parts = split_char(key, '.');
    let from_custom = match custom_path(c, parts) {
        Some(v) => bool_value(v),
        None => None,
    };
    match from_custom {
        Some(b) => Some(b),
        None => match root_path(c, parts) {
            Some(v) => bool_value(v),
            None => None,
        },
    }
}

/// The error for a key whose value is missing or of another type.
pub open spec fn lookup_error(c: Config, key: Seq<char>, e: ConfigError) -> bool {
    if config_lookup(c, key) is Some {
        e matches ConfigError::InvalidType(k) && k@ == key
    } else {
        e matches ConfigError::MissingKey(k) && k@ == key
    }
}

fn str_value(s: &String) -> (r: ConfigValue)
    ensures
        value_view(r) == ValueView::Str(s@),
{
    ConfigValue::Str(owned(s.as_str()))
}

fn str_array(v: &Vec<String>) -> (r: ConfigValue)
    ensures
        value_view(r) == ValueView::Array(str_values(v@)),
{
    let mut out: Vec<ConfigValue> = Vec::new();
    let mut i: usize = 0;
    while i < v.len()
        invariant
            i <= v@.len(),
            values_view(out@) == str_values(v@).take(i as int),
        decreases v.len() - i,
    {
        let ghost before = out@;
        out.push(str_value(&v[i]));
        proof {
            assert(out@.drop_last() =~= before);
            assert(values_view(out@) =~= str_values(v@).take(i + 1));
        }
        i = i + 1;
    }
    assert(str_values(v@).take(v@.len() as int) =~= str_values(v@));
    ConfigValue::Array(out)
}

fn entry(k: &str, v: ConfigValue) -> (r: (String, ConfigValue))
    ensures
        r.0@ == k@,
        r.1 == v,
{
    (owned(k), v)
}

fn table_of(v: Vec<(String, ConfigValue)>) -> (r: ConfigValue)
    ensures
        r == ConfigValue::Table(v),
{
    ConfigValue::Table(v)
}

fn u16_of(v: &ConfigValue) -> (r: Option<u16>)
    ensures
        r == u16_value(value_view(*v)),
{
    match v {
        ConfigValue::Integer(n) => if 0 <= *n && *n <= 0xffff {
            Some(*n as u16)
        } else {
            None
        },
        _ => None,
    }
}

fn bool_of(v: &ConfigValue) -> (r: Option<bool>)
    ensures
        r == bool_value(value_view(*v)),
{
    match v {
        ConfigValue::Boolean(b) => Some(*b),
        _ => None,
    }
}

fn push_entry(t: &mut Vec<(String, ConfigValue)>, k: &str, v: ConfigValue)
    ensures
        entries_view(final(t)@) == entries_view(old(t)@).push((k@, value_view(v))),
{
    let ghost before = t@;
    t.push(entry(k, v));
    assert(t@.drop_last() =~= before);
}

fn int_value(n: i64) -> (r: ConfigValue)
    ensures
        value_view(r) == ValueView::Integer(n),
{
    ConfigValue::Integer(n)
}

fn push_value_assignments(name: &str, v: &ConfigValue, out: &mut Vec<(String, ConfigValue)>)
    ensures
        assignments_view(final(out)@) == assignments_view(old(out)@) + value_assignments(
            name@,
            value_view(*v),
        ),
    decreases v,
{
    let ghost start = out@;
    match v {
        ConfigValue::Table(t) => {
            let mut i: usize = 0;
            proof {
                assert(t@.take(0) =~= Seq::<(String, ConfigValue)>::empty());
                assert(assignments_view(out@) =~= assignments_view(start) + entry_assignments(
                    name@,
                    entries_view(t@.take(0)),
                ));
            }
            while i < t.len()
                invariant
                    i <= t@.len(),
                    *v == ConfigValue::Table(*t),
                    assignments_view(out@) == assignments_view(start) + entry_assignments(
                        name@,
                        entries_view(t@.take(i as int)),
                    ),
                decreases t.len() - i,
            {
                proof {
                    assert(decreases_to!(*v => (*v)->Table_0));
                    assert(decreases_to!(*t => t@));
                    assert(decreases_to!(t@ => t@[i as int]));
                    assert(decreases_to!(t@[i as int] => t@[i as int].1));
                }
                let key = namespaced_env_key(name, t[i].0.as_str());
                let ghost before = out@;
                push_value_assignments(key.as_str(), &t[i].1, out);
                proof {
                    let tk = t@.take(i + 1);
                    assert(tk.drop_last() =~= t@.take(i as int));
                    assert(tk.last() == t@[i as int]);
                    let ev = entries_view(tk);
                    assert(ev.drop_last() == entries_view(t@.take(i as int)));
                    assert(ev.last() == (t@[i as int].0@, value_view(t@[i as int].1)));
                    assert(assignments_view(out@) =~= assignments_view(start) + entry_assignments(
                        name@,
                        ev,
                    ));
                }
                i = i + 1;
            }
            assert(t@.take(t@.len() as int) =~= t@);
        },
        _ => {
            out.push((owned(name), copy_value(v)));
            proof {
                assert(assignments_view(out@) =~= assignments_view(start) + value_assignments(
                    name@,
                    value_view(*v),
                ));
            }
        },
    }
}

impl Config {
    fn app_table(&self) -> (r: Vec<(String, ConfigValue)>)
        ensures
            entries_view(r@) == app_section(*self),
    {
        let mut t: Vec<(String, ConfigValue)> = Vec::new();
        t.push(entry("name", str_value(&self.app.name)));
        t.push(entry("version", str_value(&self.app.version)));
        t.push(entry("environment", str_value(&self.app.environment)));
        t.push(entry("debug", ConfigValue::Boolean(self.app.debug)));
        proof {
            reveal_with_fuel(crate::config::value::entries_view, 5);
        }
        t
    }

    fn server_table(&self) -> (r: Vec<(String, ConfigValue)>)
        ensures
            entries_view(r@) == server_section(*self),
    {
        let mut t: Vec<(String, ConfigValue)> = Vec::new();
        t.push(entry("host", str_value(&self.server.host)));
        t.push(entry("port", int_value(self.server.port as i64)));
        t.push(entry("workers", int_value(self.server.workers as i64)));
        proof {
            reveal_with_fuel(crate::config::value::entries_view, 4);
        }
        t
    }

    fn database_table(&self) -> (r: Vec<(String, ConfigValue)>)
        ensures
            entries_view(r@) == database_section(*self),
    {
        let mut t: Vec<(String, ConfigValue)> = Vec::new();
        t.push(entry("url", str_value(&self.database.url)));
        t.push(entry("pool_size", int_value(self.database.pool_size as i64)));
        t.push(entry("ssl", ConfigValue::Boolean(self.database.ssl)));
        proof {
            reveal_with_fuel(crate::config::value::entries_view, 4);
        }
        t
    }

    fn cache_table(&self) -> (r: Vec<(String, ConfigValue)>)
        ensures
            entries_view(r@) == cache_section(*self),
    {
        let mut t: Vec<(String, ConfigValue)> = Vec::new();
        t.push(entry("driver", str_value(&self.cache.driver)));
        t.push(entry("redis_url", str_value(&self.cache.redis_url)));
        t.push(entry("default_ttl", int_value(self.cache.default_ttl as i64)));
        proof {
            reveal_with_fuel(crate::config::value::entries_view, 4);
        }
        t
    }

    fn queue_table(&self) -> (r: Vec<(String, ConfigValue)>)
        ensures
            entries_view(r@) == queue_section(*self),
    {
        let mut t: Vec<(String, ConfigValue)> = Vec::new();
        t.push(entry("driver", str_value(&self.queue.driver)));
        t.push(entry("redis_url", str_value(&self.queue.redis_url)));
        t.push(entry("workers", int_value(self.queue.workers as i64)));
        proof {
            reveal_with_fuel(crate::config::value::entries_view, 4);
        }
        t
    }

    fn security_table(&self) -> (r: Vec<(String, ConfigValue)>)
        ensures
            entries_view(r@) == security_section(*self),
    {
        let mut t: Vec<(String, ConfigValue)> = Vec::new();
        t.push(entry("jwt_secret", str_value(&self.security.jwt_secret)));
        t.push(entry("jwt_expiry", int_value(self.security.jwt_expiry as i64)));
        t.push(entry("cors_origins", str_array(&self.security.cors_origins)));
        t.push(entry("cors_methods", str_array(&self.security.cors_methods)));
        t.push(entry("cors_headers", str_array(&self.security.cors_headers)));
        t.push(entry("rate_limit", int_value(self.security.rate_limit as i64)));
        proof {
            reveal_with_fuel(crate::config::value::entries_view, 7);
        }
        t
    }

    fn env_table(&self) -> (r: Vec<(String, ConfigValue)>)
        ensures
            entries_view(r@) == env_entries(self.env@),
    {
        let mut env: Vec<(String, ConfigValue)> = Vec::new();
        let mut i: usize = 0;
        while i < self.env.len()
            invariant
                i <= self.env@.len(),
                entries_view(env@) == env_entries(self.env@).take(i as int),
            decreases self.env.len() - i,
        {
            let ghost before = env@;
            env.push(entry(self.env[i].0.as_str(), str_value(&self.env[i].1)));
            proof {
                assert(env@.drop_last() =~= before);
                assert(entries_view(env@) =~= env_entries(self.env@).take(i + 1));
            }
            i = i + 1;
        }
        assert(env_entries(self.env@).take(self.env@.len() as int) =~= env_entries(self.env@));
        env
    }

    fn section_tables(&self) -> (r: Vec<(String, ConfigValue)>)
        ensures
            entries_view(r@) == sections_view(*self),
    {
        let mut root: Vec<(String, ConfigValue)> = Vec::new();
        push_entry(&mut root, "app", table_of(self.app_table()));
        push_entry(&mut root, "server", table_of(self.server_table()));
        push_entry(&mut root, "database", table_of(self.database_table()));
        push_entry(&mut root, "cache", table_of(self.cache_table()));
        push_entry(&mut root, "queue", table_of(self.queue_table()));
        push_entry(&mut root, "security", table_of(self.security_table()));
        push_entry(&mut root, "env", table_of(self.env_table()));
        proof {
            assert(entries_view(root@) =~= sections_view(*self));
        }
        root
    }

    /// The whole configuration as one table, or none when an integer does
    /// not fit.
    pub fn root_table(&self) -> (r: Option<Vec<(String, ConfigValue)>>)
        ensures
            match r {
                Some(t) => root_view(*self) == Some(entries_view(t@)),
                None => root_view(*self) is None,
            },
    {
        let max: u64 = 0x7fff_ffff_ffff_ffff;
        if self.server.workers as u64 > max || self.cache.default_ttl > max || self.queue.workers as u64
            > max || self.security.jwt_expiry > max {
            return None;
        }
        let mut root = self.section_tables();
        let ghost fixed = entries_view(root@);
        let mut j: usize = 0;
        while j < self.custom.len()
            invariant
                j <= self.custom@.len(),
                fixed == sections_view(*self),
                entries_view(root@) == fixed + entries_view(self.custom@.take(j as int)),
            decreases self.custom.len() - j,
        {
            let ghost before = root@;
            let c = copy_value(&self.custom[j].1);
            root.push(entry(self.custom[j].0.as_str(), c));
            proof {
                assert(root@.drop_last() =~= before);
                assert(self.custom@.take(j + 1).drop_last() =~= self.custom@.take(j as int));
                assert(entries_view(root@) =~= fixed + entries_view(self.custom@.take(j + 1)));
            }
            j = j + 1;
        }
        assert(self.custom@.take(self.custom@.len() as int) =~= self.custom@);
        Some(root)
    }

    /// The index of the custom table named `name`, the first one where two
    /// share the name.
    fn custom_index(&self, name: &str) -> (r: Option<usize>)
        ensures
            match r {
                Some(k) => k < self.custom@.len() && key_index(entries_view(self.custom@), name@) == k,
                None => key_index(entries_view(self.custom@), name@) < 0,
            },
    {
        let n = self.custom.len();
        let mut k: usize = n;
        let mut i: usize = 0;
        while i < n
            invariant
                n == self.custom@.len(),
                i <= n,
                k == n || k < i,
                k == n ==> forall|j: int| 0 <= j < i ==> self.custom@[j].0@ != name@,
                k < n ==> self.custom@[k as int].0@ == name@ && forall|j: int|
                    0 <= j < k ==> self.custom@[j].0@ != name@,
            decreases n - i,
        {
            if k == n && str_eq(self.custom[i].0.as_str(), name) {
                k = i;
            }
            i = i + 1;
        }
        let ghost t = entries_view(self.custom@);
        proof {
            lemma_entries_view(self.custom@);
            lemma_key_index(t, name@);
            if k < n {
                assert(t[k as int].0 == name@);
                if key_index(t, name@) >= 0 {
                    assert(t[key_index(t, name@)].0 == name@);
                }
            } else {
                if key_index(t, name@) >= 0 {
                    assert(t[key_index(t, name@)].0 == name@);
                }
            }
        }
        if k < n {
            Some(k)
        } else {
            None
        }
    }

    fn dotted_parts(key: &str) -> (r: Vec<String>)
        ensures
            views(r@) == split_char(key@, '.'),
            r@.len() >= 1,
    {
        let parts = split_by_char(key, '.');
        proof {
            crate::text::lemma_split_from_len(Seq::empty(), key@, '.');
        }
        assert(views(parts@).len() == parts@.len());
        parts
    }

    fn custom_path_value(&self, parts: &Vec<String>) -> (r: Option<ConfigValue>)
        requires
            parts@.len() >= 1,
        ensures
            match r {
                Some(v) => custom_path(*self, views(parts@)) == Some(value_view(v)),
                None => custom_path(*self, views(parts@)) is None,
            },
    {
        proof {
            lemma_entries_view(self.custom@);
        }
        let ghost pv = views(parts@);
        assert(pv[0] == parts@[0]@);
        assert(pv.skip(1) =~= pv.drop_first());
        match self.custom_index(parts[0].as_str()) {
            Some(k) => walk_value(&self.custom[k].1, parts, 1),
            None => None,
        }
    }

    fn root_path_value(&self, parts: &Vec<String>) -> (r: Option<ConfigValue>)
        ensures
            match r {
                Some(v) => root_path(*self, views(parts@)) == Some(value_view(v)),
                None => root_path(*self, views(parts@)) is None,
            },
    {
        let ghost pv = views(parts@);
        assert(pv.skip(0) =~= pv);
        match self.root_table() {
            Some(root) => {
                let rv = ConfigValue::Table(root);
                walk_value(&rv, parts, 0)
            },
            None => None,
        }
    }

    /// The value at a dotted key, copied.
    pub fn lookup(&self, key: &str) -> (r: Option<ConfigValue>)
        ensures
            match r {
                Some(v) => config_lookup(*self, key@) == Some(value_view(v)),
                None => config_lookup(*self, key@) is None,
            },
    {
        let parts = Self::dotted_parts(key);
        match self.custom_path_value(&parts) {
            Some(v) => Some(v),
            None => self.root_path_value(&parts),
        }
    }

    /// The port number at a dotted key, or the error that names the key:
    /// `InvalidType` where a value of another type is there, else
    /// `MissingKey`.
    pub fn get_u16(&self, key: &str) -> (r: Result<u16, ConfigError>)
        ensures
            match r {
                Ok(n) => config_u16(*self, key@) == Some(n),
                Err(e) => config_u16(*self, key@) is None && lookup_error(*self, key@, e),
            },
    {
        let parts = Self::dotted_parts(key);
        let from_custom = match self.custom_path_value(&parts) {
            Some(v) => u16_of(&v),
            None => None,
        };
        let found = match from_custom {
            Some(n) => Some(n),
            None => match self.root_path_value(&parts) {
                Some(v) => u16_of(&v),
                None => None,
            },
        };
        match found {
            Some(n) => Ok(n),
            None => Err(self.lookup_failure(key)),
        }
    }

    /// The flag at a dotted key, or the error that names the key, as for
    /// `get_u16`.
    pub fn get_bool(&self, key: &str) -> (r: Result<bool, ConfigError>)
        ensures
            match r {
                Ok(b) => config_bool(*self, key@) == Some(b),
                Err(e) => config_bool(*self, key@) is None && lookup_error(*self, key@, e),
            },
    {
        let parts = Self::dotted_parts(key);
        let from_custom = match self.custom_path_value(&parts) {
            Some(v) => bool_of(&v),
            None => None,
        };
        let found = match from_custom {
            Some(b) => Some(b),
            None => match self.root_path_value(&parts) {
                Some(v) => bool_of(&v),
                None => None,
            },
        };
        match found {
            Some(b) => Ok(b),
            None => Err(self.lookup_failure(key)),
        }
    }

    fn lookup_failure(&self, key: &str) -> (e: ConfigError)
        ensures
            lookup_error(*self, key@, e),
    {
        if self.has_key(key) {
            ConfigError::InvalidType(owned(key))
        } else {
            ConfigError::MissingKey(owned(key))
        }
    }

    /// What configuration puts into the environment (see
    /// [`config_env_assignments`]): the caller sets each variable that does
    /// not already hold a value, a text as it is and any other value as
    /// TOML writes it.
    pub fn env_assignments(&self) -> (r: Vec<(String, ConfigValue)>)
        ensures
            assignments_view(r@) == config_env_assignments(*self),
    {
        let mut out: Vec<(String, ConfigValue)> = Vec::new();
        let mut i: usize = 0;
        while i < self.env.len()
            invariant
                i <= self.env@.len(),
                assignments_view(out@) == env_entries(self.env@).take(i as int),
            decreases self.env.len() - i,
        {
            let ghost before = out@;
            let item = (owned(self.env[i].0.as_str()), str_value(&self.env[i].1));
            out.push(item);
            proof {
                let e = (self.env@[i as int].0@, ValueView::Str(self.env@[i as int].1@));
                assert(assignments_view(out@) =~= assignments_view(before).push(e));
                assert(env_entries(self.env@).take(i + 1) =~= env_entries(self.env@).take(i as int).push(e));
            }
            i = i + 1;
        }
        assert(env_entries(self.env@).take(self.env@.len() as int) =~= env_entries(self.env@));
        let ghost head = out@;
        match self.root_table() {
            Some(root) => {
                let mut j: usize = 0;
                proof {
                    assert(entries_view(root@).take(0) =~= Seq::<(Seq<char>, ValueView)>::empty());
                    lemma_entries_view(root@);
                }
                while j < root.len()
                    invariant
                        j <= root@.len(),
                        entries_view(root@).len() == root@.len(),
                        forall|k: int| 0 <= k < root@.len() ==> #[trigger] entries_view(root@)[k] == (root@[k].0@, value_view(root@[k].1)),
                        assignments_view(out@) == assignments_view(head) + root_assignments(
                            entries_view(root@).take(j as int),
                        ),
                    decreases root.len() - j,
                {
                    let ghost before = out@;
                    let ghost tk = entries_view(root@).take(j + 1);
                    proof {
                        assert(tk.drop_last() =~= entries_view(root@).take(j as int));
                        assert(tk.last() == entries_view(root@)[j as int]);
                    }
                    if !str_eq(root[j].0.as_str(), "env") {
                        push_value_assignments(root[j].0.as_str(), &root[j].1, &mut out);
                        proof {
                            assert(assignments_view(out@) =~= assignments_view(head) + root_assignments(tk));
                        }
                    } else {
                        proof {
                            assert(root_assignments(tk) =~= root_assignments(tk.drop_last()));
                        }
                    }
                    j = j + 1;
                }
                assert(entries_view(root@).take(root@.len() as int) =~= entries_view(root@));
            },
            None => {},
        }
        proof {
            assert(assignments_view(out@) =~= config_env_assignments(*self));
        }
        out
    }

    /// Whether a dotted key has a value.
    pub fn has_key(&self, key: &str) -> (r: bool)
        ensures
            r == config_lookup(*self, key@) is Some,
    {
        self.lookup(key).is_some()
    }
}

} // verus!
