//! What is done when the configuration file changes.

use crate::config::types::Config;
use crate::time::Duration;
use std::sync::Arc;
use vstd::prelude::*;

verus! {

/// Something that happens to the configuration file.
#[derive(Debug, Clone, Copy, PartialEq, Eq, Structural)]
pub enum FileEvent {
    /// Its contents may have changed.
    Modified,
    /// Something else happened to it.
    Other,
    /// It cannot be watched.
    Failed,
}

/// What came of a change.
#[derive(Debug)]
pub enum ConfigEvent {
    /// The new configuration holds.
    Reloaded(Arc<Config>),
    /// The new configuration could not be loaded.
    ReloadFailed(String),
}

/// Keeps the configuration that holds.
#[derive(Debug)]
pub struct ConfigWatcher {
    path: String,
    current: Arc<Config>,
    debounce: Duration,
}

impl ConfigWatcher {
    /// The path of the file.
    pub closed spec fn location(&self) -> Seq<char> {
        self.path@
    }

    /// The configuration that holds.
    pub closed spec fn held(&self) -> Arc<Config> {
        self.current
    }

    /// How long to wait before a changed file is read, in nanoseconds.
    pub closed spec fn delay(&self) -> nat {
        self.debounce@
    }

    /// A watcher of a file with the configuration that it holds.
    pub fn new(path: String, initial: Config) -> (w: Self)
        ensures
            w.location() == path@,
            *w.held() == initial,
            w.delay() == 500_000_000,
    {
        ConfigWatcher { path, current: Arc::new(initial), debounce: Duration::from_millis(500) }
    }

    /// The path of the file.
    pub fn path(&self) -> (s: &str)
        ensures
            s@ == self.location(),
    {
        self.path.as_str()
    }

    /// The configuration that holds.
    pub fn current(&self) -> (c: Arc<Config>)
        ensures
            c == self.held(),
    {
        self.current.clone()
    }

    /// After how long the file is to be read because of an event; not at all
    /// unless its contents may have changed.
    pub fn process_event(&self, event: FileEvent) -> (delay: Option<Duration>)
        ensures
            match delay {
                Some(d) => event == FileEvent::Modified && d@ == self.delay(),
                None => event != FileEvent::Modified,
            },
    {
        match event {
            FileEvent::Modified => Some(self.debounce),
            _ => None,
        }
    }

    /// Takes note of the file as it was read. A configuration that could not
    /// be loaded leaves the present one in place.
    pub fn loaded(&mut self, result: Result<Config, String>) -> (event: ConfigEvent)
        ensures
            final(self).location() == old(self).location(),
            final(self).delay() == old(self).delay(),
            match result {
                Ok(config) => {
                    &&& event matches ConfigEvent::Reloaded(c)
                    &&& *c == config
                    &&& final(self).held() == c
                },
                Err(e) => {
                    &&& event matches ConfigEvent::ReloadFailed(said)
                    &&& said@ == e@
                    &&& final(self).held() == old(self).held()
                },
            },
    {
        match result {
            Ok(config) => {
                let config = Arc::new(config);
                self.current = config.clone();
                ConfigEvent::Reloaded(config)
            },
            Err(e) => ConfigEvent::ReloadFailed(e),
        }
    }
}

} // verus!
