use vstd::prelude::*;

use crate::text::{append_str, chars_of, owned, parse_u32_chars, parse_u64_chars, parse_u32_spec, parse_u64_spec};

verus! {

/// The application's configuration: database location and logging.
#[derive(Debug)]
pub struct AppConfig {
    pub database_url: String,
    pub log_path: String,
    pub log_level: String,
    pub log_max_size: u64,
    pub log_retention_days: u32,
}

/// A configuration as plain values.
pub struct AppConfigView {
    pub database_url: Seq<char>,
    pub log_path: Seq<char>,
    pub log_level: Seq<char>,
    pub log_max_size: u64,
    pub log_retention_days: u32,
}

impl View for AppConfig {
    type V = AppConfigView;

    open spec fn view(&self) -> AppConfigView {
        AppConfigView {
            database_url: self.database_url@,
            log_path: self.log_path@,
            log_level: self.log_level@,
            log_max_size: self.log_max_size,
            log_retention_days: self.log_retention_days,
        }
    }
}

/// The configuration used where no source sets a value.
pub open spec fn default_config() -> AppConfigView {
    AppConfigView {
        database_url: "sqlite:fluxdns.db?mode=rwc"@,
        log_path: "logs"@,
        log_level: "warn"@,
        log_max_size: 10485760u64,
        log_retention_days: 30,
    }
}


impl Default for AppConfig {
    /// The defaults: database `sqlite:fluxdns.db?mode=rwc`, logs under `logs`, level `warn`,
    /// 10 MiB per log file, 30 days of retention.
    fn default() -> (c: AppConfig)
        ensures
            c@ == default_config(),
    {
        AppConfig {
            database_url: owned("sqlite:fluxdns.db?mode=rwc"),
            log_path: owned("logs"),
            log_level: owned("warn"),
            log_max_size: 10485760,
            log_retention_days: 30,
        }
    }
}

impl AppConfig {
    /// A field-by-field copy.
    pub fn clone(&self) -> (c: AppConfig)
        ensures
            c@ == self@,
    {
        AppConfig {
            database_url: self.database_url.clone(),
            log_path: self.log_path.clone(),
            log_level: self.log_level.clone(),
            log_max_size: self.log_max_size,
            log_retention_days: self.log_retention_days,
        }
    }
}

/// Configuration values from one source; `None` where the source says nothing.
#[derive(Debug)]
pub struct PartialConfig {
    pub database_url: Option<String>,
    pub log_path: Option<String>,
    pub log_level: Option<String>,
    pub log_max_size: Option<u64>,
    pub log_retention_days: Option<u32>,
}

/// A partial configuration as plain values.
pub struct PartialConfigView {
    pub database_url: Option<Seq<char>>,
    pub log_path: Option<Seq<char>>,
    pub log_level: Option<Seq<char>>,
    pub log_max_size: Option<u64>,
    pub log_retention_days: Option<u32>,
}

/// The view of an optional string.
pub open spec fn opt_view(s: Option<String>) -> Option<Seq<char>> {
    match s {
        Some(v) => Some(v@),
        None => None,
    }
}

impl View for PartialConfig {
    type V = PartialConfigView;

    open spec fn view(&self) -> PartialConfigView {
        PartialConfigView {
            database_url: opt_view(self.database_url),
            log_path: opt_view(self.log_path),
            log_level: opt_view(self.log_level),
            log_max_size: self.log_max_size,
            log_retention_days: self.log_retention_days,
        }
    }
}

impl Default for PartialConfig {
    fn default() -> (p: PartialConfig)
        ensures
            p@ == empty_partial(),
    {
        PartialConfig {
            database_url: None,
            log_path: None,
            log_level: None,
            log_max_size: None,
            log_retention_days: None,
        }
    }
}

/// A partial configuration that sets nothing.
pub open spec fn empty_partial() -> PartialConfigView {
    PartialConfigView {
        database_url: None,
        log_path: None,
        log_level: None,
        log_max_size: None,
        log_retention_days: None,
    }
}

/// `o`'s value where it has one, else `d`.
pub open spec fn or_else<T>(o: Option<T>, d: T) -> T {
    match o {
        Some(v) => v,
        None => d,
    }
}

/// `config` with every value that `partial` sets replaced by it.
pub open spec fn merged(config: AppConfigView, partial: PartialConfigView) -> AppConfigView {
    AppConfigView {
        database_url: or_else(partial.database_url, config.database_url),
        log_path: or_else(partial.log_path, config.log_path),
        log_level: or_else(partial.log_level, config.log_level),
        log_max_size: or_else(partial.log_max_size, config.log_max_size),
        log_retention_days: or_else(partial.log_retention_days, config.log_retention_days),
    }
}

/// `config` merged with `partial` where there is one.
pub open spec fn merged_opt(config: AppConfigView, partial: Option<PartialConfigView>) -> AppConfigView {
    match partial {
        Some(p) => merged(config, p),
        None => config,
    }
}

/// The view of an optional partial configuration.
pub open spec fn opt_partial_view(p: Option<PartialConfig>) -> Option<PartialConfigView> {
    match p {
        Some(v) => Some(v@),
        None => None,
    }
}

/// Holds the application's configuration.
pub struct ConfigManager {
    config: AppConfig,
}

impl ConfigManager {
    /// The configuration held.
    pub closed spec fn config_view(&self) -> AppConfigView {
        self.config@
    }

    /// Defaults, then the file's values, then the environment's values on top.
    pub fn from_configs(file_config: Option<PartialConfig>, env_config: Option<PartialConfig>) -> (m:
        ConfigManager)
        ensures
            m.config_view() == merged_opt(
                merged_opt(default_config(), opt_partial_view(file_config)),
                opt_partial_view(env_config),
            ),
    {
        let mut config = AppConfig::default();
        if let Some(fc) = file_config {
            Self::merge_config(&mut config, fc);
        }
        if let Some(ec) = env_config {
            Self::merge_config(&mut config, ec);
        }
        ConfigManager { config }
    }

    /// A copy of the configuration held.
    pub fn get(&self) -> (c: AppConfig)
        ensures
            c@ == self.config_view(),
    {
        self.config.clone()
    }

    /// Replaces every value of `config` that `partial` sets.
    pub fn merge_config(config: &mut AppConfig, partial: PartialConfig)
        ensures
            final(config)@ == merged(old(config)@, partial@),
    {
        if let Some(v) = partial.database_url {
            config.database_url = v;
        }
        if let Some(v) = partial.log_path {
            config.log_path = v;
        }
        if let Some(v) = partial.log_level {
            config.log_level = v;
        }
        if let Some(v) = partial.log_max_size {
            config.log_max_size = v;
        }
        if let Some(v) = partial.log_retention_days {
            config.log_retention_days = v;
        }
    }

    /// The values read from the environment variables `DATABASE_URL`, `LOG_PATH`,
    /// `LOG_LEVEL`, `LOG_MAX_SIZE` and `LOG_RETENTION_DAYS` (given here as read); a size or a
    /// number of days that does not parse counts as unset.
    pub fn partial_from_env_values(
        database_url: Option<String>,
        log_path: Option<String>,
        log_level: Option<String>,
        log_max_size: Option<String>,
        log_retention_days: Option<String>,
    ) -> (p: PartialConfig)
        ensures
            p@.database_url == opt_view(database_url),
            p@.log_path == opt_view(log_path),
            p@.log_level == opt_view(log_level),
            p@.log_max_size == match log_max_size {
                Some(v) => parse_u64_spec(v@),
                None => None,
            },
            p@.log_retention_days == match log_retention_days {
                Some(v) => parse_u32_spec(v@),
                None => None,
            },
    {
        let size = match &log_max_size {
            Some(v) => parse_u64_chars(&chars_of(v.as_str())),
            None => None,
        };
        let days = match &log_retention_days {
            Some(v) => parse_u32_chars(&chars_of(v.as_str())),
            None => None,
        };
        PartialConfig {
            database_url,
            log_path,
            log_level,
            log_max_size: size,
            log_retention_days: days,
        }
    }

    /// Points the database and the logs into `data_dir`: the database becomes
    /// `sqlite:<data_dir>/dns-hearth.db?mode=rwc` and the log directory `<data_dir>/logs`.
    pub fn with_data_dir(self, data_dir: &str) -> (m: ConfigManager)
        ensures
            m.config_view() == (AppConfigView {
                database_url: "sqlite:"@ + join_path(data_dir@, "dns-hearth.db"@) + "?mode=rwc"@,
                log_path: join_path(data_dir@, "logs"@),
                ..self.config_view()
            }),
    {
        let mut config = self.config;
        let mut url = owned("sqlite:");
        let db_path = join_relative(data_dir, "dns-hearth.db");
        append_str(&mut url, db_path.as_str());
        append_str(&mut url, "?mode=rwc");
        config.database_url = url;
        config.log_path = join_relative(data_dir, "logs");
        ConfigManager { config }
    }
}

/// `dir` joined with a relative path `name` (`Path::join` on Unix): a `/` goes between them
/// unless `dir` is empty or already ends with one.
pub open spec fn join_path(dir: Seq<char>, name: Seq<char>) -> Seq<char> {
    if dir.len() == 0 || dir.last() == '/' {
        dir + name
    } else {
        dir + "/"@ + name
    }
}

fn join_relative(dir: &str, name: &str) -> (p: String)
    ensures
        p@ == join_path(dir@, name@),
{
    let chars = chars_of(dir);
    let mut p = owned(dir);
    if chars.len() > 0 && chars[chars.len() - 1] != '/' {
        append_str(&mut p, "/");
    }
    append_str(&mut p, name);
    p
}

/// A value set by the environment wins over the file's, and the file's over the default.
pub proof fn law_environment_over_file_over_default(file: PartialConfigView, env: PartialConfigView)
    ensures
        ({
            let c = merged_opt(merged_opt(default_config(), Some(file)), Some(env));
            &&& c.database_url == or_else(
                env.database_url,
                or_else(file.database_url, default_config().database_url),
            )
            &&& c.log_path == or_else(env.log_path, or_else(file.log_path, default_config().log_path))
            &&& c.log_level == or_else(env.log_level, or_else(file.log_level, default_config().log_level))
            &&& c.log_max_size == or_else(
                env.log_max_size,
                or_else(file.log_max_size, default_config().log_max_size),
            )
            &&& c.log_retention_days == or_else(
                env.log_retention_days,
                or_else(file.log_retention_days, default_config().log_retention_days),
            )
        }),
{
}

/// Merging a partial configuration that sets nothing changes nothing.
pub proof fn law_empty_merge_is_identity(config: AppConfigView)
    ensures
        merged(config, empty_partial()) == config,
{
}

/// Merging twice with the same partial configuration is merging once.
pub proof fn law_merge_idempotent(config: AppConfigView, partial: PartialConfigView)
    ensures
        merged(merged(config, partial), partial) == merged(config, partial),
{
}

} // verus!
