//! The configuration of the service, as it is handed over at startup.
//!
//! Reading the file and the environment is left to the program. What is
//! decided here: which format a file is taken to be in, the address the
//! server listens on when none is given, and the log level.

use crate::jobs::StoreJob;
use vstd::prelude::*;
use vstd::string::*;

verus! {

/// The configuration of the service.
#[derive(Clone, Debug)]
pub struct Config {
    /// The name of the log level, in any case.
    pub log: Option<String>,
    pub server: Server,
    pub nats: Nats,
    pub s3: S3,
    /// The store jobs to run.
    pub store: Option<Vec<StoreJob>>,
}

/// The settings of the server.
#[derive(Clone, Debug)]
pub struct Server {
    /// The address to listen on.
    pub addr: String,
}

/// The settings of the message bus.
#[derive(Clone, Debug)]
pub struct Nats {
    pub url: String,
}

/// The settings of the object store.
#[derive(Clone, Debug)]
pub struct S3 {
    pub endpoint: String,
    pub region: String,
    pub secret_key: String,
    pub access_key: String,
}

/// A level of logging.
#[derive(Clone, Copy, Debug, PartialEq, Eq, Structural)]
pub enum LogLevel {
    Trace,
    Debug,
    Info,
    Error,
}

/// A format of configuration files.
#[derive(Clone, Copy, Debug, PartialEq, Eq, Structural)]
pub enum ConfigFormat {
    Toml,
    Yaml,
}

/// Why a configuration file is not read.
#[derive(Clone, Debug, PartialEq, Eq)]
pub enum ConfigError {
    /// The file's extension names no known format.
    UnexpectedExtension(String),
    /// The path has no extension.
    NoExtension,
}

/// The address that the server listens on when none is configured.
pub fn addr_default() -> (addr: String)
    ensures
        addr@ == "0.0.0.0:8080"@,
{
    String::from_str("0.0.0.0:8080")
}

/// The path of the configuration file when none is given.
pub fn default_config_path() -> (path: String)
    ensures
        path@ == "/etc/nats3/config.toml"@,
{
    String::from_str("/etc/nats3/config.toml")
}

/// The upper-case equivalent of a text.
pub uninterp spec fn uppercase(text: Seq<char>) -> Seq<char>;

/// The upper-case equivalent of `text`, with `str::to_uppercase`: a function
/// of the text alone. What it is on a given text is not stated here.
#[verifier::external_body]
fn to_uppercase(text: &str) -> (upper: String)
    ensures
        upper@ == uppercase(text@),
{
    text.to_uppercase()
}

/// Whether two texts are the same.
fn same_text(a: &str, b: &str) -> (same: bool)
    ensures
        same == (a@ == b@),
{
    String::from_str(a) == String::from_str(b)
}

/// The log level that an upper-case name stands for: `INFO` for every name
/// but `TRACE`, `DEBUG` and `ERROR`.
pub open spec fn level_named(name: Seq<char>) -> LogLevel {
    if name == "TRACE"@ {
        LogLevel::Trace
    } else if name == "DEBUG"@ {
        LogLevel::Debug
    } else if name == "ERROR"@ {
        LogLevel::Error
    } else {
        LogLevel::Info
    }
}

/// The name of the level that is logged at when none is configured.
pub open spec fn default_level_name() -> Seq<char> {
    "INFO"@
}

/// The format that a file with this extension is taken to be in.
pub open spec fn format_named(extension: Option<Seq<char>>) -> Option<ConfigFormat> {
    match extension {
        Some(name) => if name == "toml"@ {
            Some(ConfigFormat::Toml)
        } else if name == "yaml"@ {
            Some(ConfigFormat::Yaml)
        } else {
            None
        },
        None => None,
    }
}

impl LogLevel {
    /// The log level that an upper-case name stands for.
    pub fn from_name(name: &str) -> (level: LogLevel)
        ensures
            level == level_named(name@),
    {
        if same_text(name, "TRACE") {
            LogLevel::Trace
        } else if same_text(name, "DEBUG") {
            LogLevel::Debug
        } else if same_text(name, "ERROR") {
            LogLevel::Error
        } else {
            LogLevel::Info
        }
    }
}

impl ConfigFormat {
    /// The format of a configuration file, by the extension of its path.
    /// `toml` and `yaml` are known; any other extension, and a path
    /// without one, is refused.
    pub fn from_extension(extension: Option<&str>) -> (format: Result<ConfigFormat, ConfigError>)
        ensures
            match format_named(
                match extension {
                    Some(name) => Some(name@),
                    None => None,
                },
            ) {
                Some(known) => format == Ok::<ConfigFormat, ConfigError>(known),
                None => match extension {
                    Some(name) => format matches Err(ConfigError::UnexpectedExtension(given))
                        && given@ == name@,
                    None => format == Err::<ConfigFormat, ConfigError>(ConfigError::NoExtension),
                },
            },
    {
        match extension {
            Some(name) => {
                if same_text(name, "toml") {
                    Ok(ConfigFormat::Toml)
                } else if same_text(name, "yaml") {
                    Ok(ConfigFormat::Yaml)
                } else {
                    Err(ConfigError::UnexpectedExtension(String::from_str(name)))
                }
            },
            None => Err(ConfigError::NoExtension),
        }
    }
}

impl ConfigError {
    /// The text of the error.
    pub open spec fn message_of(self) -> Seq<char> {
        match self {
            ConfigError::UnexpectedExtension(given) => "unexpected file extension '"@ + given@
                + "'"@,
            ConfigError::NoExtension => "failed to parse path"@,
        }
    }

    /// The text of the error.
    pub fn message(&self) -> (message: String)
        ensures
            message@ == self.message_of(),
    {
        match self {
            ConfigError::UnexpectedExtension(given) => {
                let mut message = String::from_str("unexpected file extension '");
                message.append(given.as_str());
                message.append("'");
                message
            },
            ConfigError::NoExtension => String::from_str("failed to parse path"),
        }
    }
}

impl Config {
    /// The level to log at: the one that the configured name stands for when
    /// it is put in upper case, `INFO` where no name is configured.
    pub fn log_level(&self) -> (level: LogLevel)
        ensures
            level == level_named(
                uppercase(
                    match self.log {
                        Some(name) => name@,
                        None => default_level_name(),
                    },
                ),
            ),
    {
        let upper = match &self.log {
            Some(name) => to_uppercase(name.as_str()),
            None => to_uppercase("INFO"),
        };
        LogLevel::from_name(upper.as_str())
    }
}

} // verus!
