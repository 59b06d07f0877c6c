//! Stores of configurations.

use super::loader::{config_error, path_format, validation_message, Format};
use super::types::Config;
use vstd::prelude::*;

verus! {

/// What can go wrong with a configuration store.
#[derive(Debug)]
pub enum ConfigError {
    /// The configuration could not be loaded.
    LoadFailed(String),
    /// The configuration could not be saved.
    SaveFailed(String),
    /// The configuration is not valid.
    ValidationFailed(String),
    /// A file operation failed.
    Io(String),
    /// The configuration could not be written out.
    Serialization(String),
    /// The backend failed.
    Backend(String),
}

/// The message of an error.
pub open spec fn config_error_message(e: ConfigError) -> Seq<char> {
    match e {
        ConfigError::LoadFailed(m) => "failed to load config: "@ + m@,
        ConfigError::SaveFailed(m) => "failed to save config: "@ + m@,
        ConfigError::ValidationFailed(m) => "validation failed: "@ + m@,
        ConfigError::Io(m) => "I/O error: "@ + m@,
        ConfigError::Serialization(m) => "serialization error: "@ + m@,
        ConfigError::Backend(m) => "backend error: "@ + m@,
    }
}

fn prefixed(prefix: &str, m: &String) -> (s: String)
    ensures
        s@ == prefix@ + m@,
{
    let mut s = prefix.to_owned();
    s.append(m.as_str());
    s
}

impl ConfigError {
    /// The message of the error.
    pub fn to_string(&self) -> (s: String)
        ensures
            s@ == config_error_message(*self),
    {
        match self {
            ConfigError::LoadFailed(m) => prefixed("failed to load config: ", m),
            ConfigError::SaveFailed(m) => prefixed("failed to save config: ", m),
            ConfigError::ValidationFailed(m) => prefixed("validation failed: ", m),
            ConfigError::Io(m) => prefixed("I/O error: ", m),
            ConfigError::Serialization(m) => prefixed("serialization error: ", m),
            ConfigError::Backend(m) => prefixed("backend error: ", m),
        }
    }
}

/// Checks a configuration before it is stored.
pub fn check_storable(config: &Config) -> (r: Result<(), ConfigError>)
    ensures
        match config_error(*config) {
            Some(e) => r matches Err(ConfigError::ValidationFailed(m)) && m@
                == validation_message(e),
            None => r is Ok,
        },
{
    match config.validate() {
        Ok(()) => Ok(()),
        Err(e) => Err(ConfigError::ValidationFailed(e.to_string())),
    }
}

/// A configuration in a file.
#[derive(Debug)]
pub struct FileConfigStore {
    path: String,
    format: Format,
}

impl FileConfigStore {
    /// The path of the file.
    pub closed spec fn file_path(&self) -> Seq<char> {
        self.path@
    }

    /// The format of the file.
    pub closed spec fn file_format(&self) -> Format {
        self.format
    }

    /// A store in a file whose format shows in its extension.
    pub fn new(path: &str) -> (r: Result<Self, ConfigError>)
        ensures
            match path_format(path@) {
                Some(f) => r matches Ok(s) && s.file_path() == path@ && s.file_format() == f,
                None => r matches Err(ConfigError::LoadFailed(m)) && m@
                    == "unsupported config format: "@ + path@,
            },
    {
        match Format::from_path(path) {
            Some(format) => Ok(FileConfigStore { path: path.to_owned(), format }),
            None => {
                let mut m = "unsupported config format: ".to_owned();
                m.append(path);
                Err(ConfigError::LoadFailed(m))
            },
        }
    }

    /// A store in a file of a given format.
    pub fn with_format(path: &str, format: Format) -> (s: Self)
        ensures
            s.file_path() == path@,
            s.file_format() == format,
    {
        FileConfigStore { path: path.to_owned(), format }
    }

    /// The path of the file.
    pub fn path(&self) -> (p: &String)
        ensures
            p@ == self.file_path(),
    {
        &self.path
    }

    /// The format of the file.
    pub fn format(&self) -> (f: Format)
        ensures
            f == self.file_format(),
    {
        self.format
    }

    /// The name of the backend.
    pub fn name(&self) -> (n: &'static str)
        ensures
            n@ == "file"@,
    {
        "file"
    }

    /// Whether changes can be watched.
    pub fn supports_watch(&self) -> (b: bool)
        ensures
            !b,
    {
        false
    }
}

/// A configuration in memory.
#[derive(Debug)]
pub struct MemoryConfigStore {
    config: Config,
}

impl MemoryConfigStore {
    /// The stored configuration.
    pub closed spec fn stored(&self) -> Config {
        self.config
    }

    /// A store that begins with a configuration.
    pub fn new(config: Config) -> (s: Self)
        ensures
            s.stored() == config,
    {
        MemoryConfigStore { config }
    }

    /// Stores a configuration if it is valid.
    pub fn update(&mut self, config: Config) -> (r: Result<(), ConfigError>)
        ensures
            match config_error(config) {
                Some(e) => {
                    &&& r matches Err(ConfigError::ValidationFailed(m)) && m@
                        == validation_message(e)
                    &&& final(self).stored() == old(self).stored()
                },
                None => r is Ok && final(self).stored() == config,
            },
    {
        match check_storable(&config) {
            Ok(()) => {
                self.config = config;
                Ok(())
            },
            Err(e) => Err(e),
        }
    }

    /// The stored configuration.
    pub fn current(&self) -> (c: &Config)
        ensures
            *c == self.stored(),
    {
        &self.config
    }

    /// The name of the backend.
    pub fn name(&self) -> (n: &'static str)
        ensures
            n@ == "memory"@,
    {
        "memory"
    }

    /// Whether a configuration can be saved.
    pub fn supports_save(&self) -> (b: bool)
        ensures
            b,
    {
        true
    }

    /// Whether changes can be watched.
    pub fn supports_watch(&self) -> (b: bool)
        ensures
            b,
    {
        true
    }
}

} // verus!
