use vstd::prelude::*;

use crate::org_map::opt_string;
use crate::text::{contains_text, has_infix, lower_of, lowercase, same_text};

verus! {

/// How command output is rendered.
#[derive(Debug, Clone, Copy, PartialEq, Eq, Structural)]
pub enum OutputFormat {
    Json,
    Table,
    Yaml,
}

/// Why configuration was rejected.
#[derive(Debug, Clone, PartialEq, Eq)]
pub enum ConfigError {
    /// The text names no output format.
    InvalidOutputFormat { given: String },
    /// Neither a bearer token nor an API key pair is configured.
    AuthenticationRequired,
}

/// The format a name selects, compared after lowercasing.
pub open spec fn format_named(lowered: Seq<char>) -> Option<OutputFormat> {
    if lowered == "json"@ {
        Some(OutputFormat::Json)
    } else if lowered == "table"@ {
        Some(OutputFormat::Table)
    } else if lowered == "yaml"@ {
        Some(OutputFormat::Yaml)
    } else {
        None
    }
}

impl OutputFormat {
    /// The format's name, as accepted by `parse`.
    pub fn name(&self) -> (r: &'static str)
        ensures
            r@ == match self {
                OutputFormat::Json => "json"@,
                OutputFormat::Table => "table"@,
                OutputFormat::Yaml => "yaml"@,
            },
    {
        match self {
            OutputFormat::Json => "json",
            OutputFormat::Table => "table",
            OutputFormat::Yaml => "yaml",
        }
    }

    /// The format named by an already lowercased name.
    pub fn from_lowered(lowered: &str) -> (r: Option<OutputFormat>)
        ensures
            r == format_named(lowered@),
    {
        if same_text(lowered, "json") {
            Some(OutputFormat::Json)
        } else if same_text(lowered, "table") {
            Some(OutputFormat::Table)
        } else if same_text(lowered, "yaml") {
            Some(OutputFormat::Yaml)
        } else {
            None
        }
    }

    /// Reads a format name in any letter case: json, table or yaml.
    pub fn parse(s: &str) -> (r: Result<OutputFormat, ConfigError>)
        ensures
            format_named(lower_of(s@)) matches Some(f) ==> r == Ok::<OutputFormat, ConfigError>(f),
            format_named(lower_of(s@)) is None ==> (r matches Err(
                ConfigError::InvalidOutputFormat { given },
            ) && given@ == s@),
    {
        let lowered = lowercase(s);
        match OutputFormat::from_lowered(lowered.as_str()) {
            Some(f) => Ok(f),
            None => Err(ConfigError::InvalidOutputFormat { given: String::from_str(s) }),
        }
    }
}

/// Settings read from the config file; every field may be missing.
#[derive(Debug, Clone, Default)]
pub struct FileConfig {
    pub api_key: Option<String>,
    pub app_key: Option<String>,
    pub access_token: Option<String>,
    pub site: Option<String>,
    pub output: Option<String>,
    pub auto_approve: Option<bool>,
}

/// The environment variables the configuration reads, as found (unset is `None`).
#[derive(Debug, Clone, Default)]
pub struct EnvVars {
    pub api_key: Option<String>,
    pub app_key: Option<String>,
    pub access_token: Option<String>,
    pub site: Option<String>,
    pub output: Option<String>,
    pub auto_approve: Option<String>,
    pub cli_auto_approve: Option<String>,
}

/// Runtime configuration.
#[derive(Debug, Clone)]
pub struct Config {
    pub api_key: Option<String>,
    pub app_key: Option<String>,
    pub access_token: Option<String>,
    pub site: String,
    pub org: Option<String>,
    pub output_format: OutputFormat,
    pub auto_approve: bool,
    pub agent_mode: bool,
}

/// A non-empty environment value wins over the file's value.
pub open spec fn env_or_spec(env: Option<Seq<char>>, file: Option<Seq<char>>) -> Option<Seq<char>> {
    match env {
        Some(v) => if v.len() > 0 {
            Some(v)
        } else {
            file
        },
        None => file,
    }
}

/// Picks a non-empty environment value over the file's value.
pub fn env_or(env: Option<String>, file: Option<String>) -> (r: Option<String>)
    ensures
        opt_string(r) == env_or_spec(opt_string(env), opt_string(file)),
{
    match env {
        Some(v) => {
            if v.as_str().unicode_len() > 0 {
                Some(v)
            } else {
                file
            }
        },
        None => file,
    }
}

/// A flag variable is on when, lowercased, it reads "true" or "1".
pub open spec fn flag_on(v: Option<Seq<char>>) -> bool {
    match v {
        Some(s) => lower_of(s) == "true"@ || lower_of(s) == "1"@,
        None => false,
    }
}

/// Whether an already lowercased flag value reads as on: "true" or "1".
pub fn flag_from_lowered(lowered: &str) -> (r: bool)
    ensures
        r == (lowered@ == "true"@ || lowered@ == "1"@),
{
    same_text(lowered, "true") || same_text(lowered, "1")
}

/// Whether a flag variable is on.
pub fn env_bool(v: &Option<String>) -> (r: bool)
    ensures
        r == flag_on(opt_string(*v)),
{
    match v {
        Some(s) => {
            let lowered = lowercase(s.as_str());
            flag_from_lowered(lowered.as_str())
        },
        None => false,
    }
}

/// The site used when neither environment nor file names one.
pub open spec fn default_site() -> Seq<char> {
    "datadoghq.com"@
}

impl Config {
    /// Resolves the configuration: a non-empty environment value over the file's
    /// value over the default. The org and agent mode are left for the caller to set.
    pub fn from_env(env: EnvVars, file: FileConfig) -> (r: Config)
        ensures
            opt_string(r.api_key) == env_or_spec(opt_string(env.api_key), opt_string(file.api_key)),
            opt_string(r.app_key) == env_or_spec(opt_string(env.app_key), opt_string(file.app_key)),
            opt_string(r.access_token) == env_or_spec(
                opt_string(env.access_token),
                opt_string(file.access_token),
            ),
            r.site@ == match env_or_spec(opt_string(env.site), opt_string(file.site)) {
                Some(s) => s,
                None => default_site(),
            },
            r.output_format == match env_or_spec(opt_string(env.output), opt_string(file.output)) {
                Some(s) => match format_named(lower_of(s)) {
                    Some(f) => f,
                    None => OutputFormat::Json,
                },
                None => OutputFormat::Json,
            },
            r.auto_approve == (flag_on(opt_string(env.auto_approve)) || flag_on(
                opt_string(env.cli_auto_approve),
            ) || file.auto_approve == Some(true)),
            r.org is None,
            !r.agent_mode,
    {
        let auto_approve = env_bool(&env.auto_approve) || env_bool(&env.cli_auto_approve) || match
            file.auto_approve {
            Some(b) => b,
            None => false,
        };
        let site = match env_or(env.site, file.site) {
            Some(s) => s,
            None => String::from_str("datadoghq.com"),
        };
        let output_format = match env_or(env.output, file.output) {
            Some(s) => match OutputFormat::parse(s.as_str()) {
                Ok(f) => f,
                Err(_) => OutputFormat::Json,
            },
            None => OutputFormat::Json,
        };
        Config {
            api_key: env_or(env.api_key, file.api_key),
            app_key: env_or(env.app_key, file.app_key),
            access_token: env_or(env.access_token, file.access_token),
            site,
            org: None,
            output_format,
            auto_approve,
            agent_mode: false,
        }
    }

    /// Accepts a configuration that has a bearer token or both API keys.
    pub fn validate_auth(&self) -> (r: Result<(), ConfigError>)
        ensures
            r is Ok <==> (self.access_token is Some || (self.api_key is Some && self.app_key is Some)),
            r is Err ==> r == Err::<(), ConfigError>(ConfigError::AuthenticationRequired),
    {
        if self.access_token.is_none() && (self.api_key.is_none() || self.app_key.is_none()) {
            return Err(ConfigError::AuthenticationRequired);
        }
        Ok(())
    }

    /// Whether both API keys are set.
    pub fn has_api_keys(&self) -> (r: bool)
        ensures
            r == (self.api_key is Some && self.app_key is Some),
    {
        self.api_key.is_some() && self.app_key.is_some()
    }

    /// Whether a bearer token is set.
    pub fn has_bearer_token(&self) -> (r: bool)
        ensures
            r == self.access_token is Some,
    {
        self.access_token.is_some()
    }

    /// The API host: the site itself for on-call sites, else the site behind "api.".
    pub fn api_host(&self) -> (r: String)
        ensures
            r@ == if has_infix(self.site@, "oncall"@) {
                self.site@
            } else {
                "api."@ + self.site@
            },
    {
        if contains_text(self.site.as_str(), "oncall") {
            self.site.clone()
        } else {
            let mut out = String::from_str("api.");
            out.append(self.site.as_str());
            out
        }
    }
}

} // verus!
