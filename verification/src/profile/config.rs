//! Process configuration, read once at startup.

use crate::common::settings::{setting, settings_view, var};
use crate::common::text::same_text;
use vstd::prelude::*;

verus! {

/// Values read from the environment at startup.
pub struct Config {
    /// Address the HTTP listener binds to.
    pub bind_addr: String,
    /// Shared secret the gateway must present on every request.
    pub internal_token: String,
    /// Which storage backend to build.
    pub backend: Backend,
}

/// Storage backends selectable at startup.
///
/// A deployment choice rather than a compile-time one: a single instance can
/// run on the in-memory store, while anything replicated needs the version to
/// live somewhere every replica can see.
#[derive(Debug, Clone, Copy, PartialEq, Eq, Structural)]
pub enum Backend {
    /// Process-local maps. Fastest, and correct only for a single instance.
    Memory,
    /// SQLite, opened in memory. The same compare-and-swap as real SQL; point
    /// it at a file or a server for durability and shared state.
    Sqlite,
}

impl Default for Backend {
    fn default() -> (r: Backend)
        ensures
            r == Backend::Memory,
    {
        Backend::Memory
    }
}

/// What may be shown of the configuration: the shared secret is redacted.
#[derive(Debug)]
pub struct ConfigSummary {
    /// Address the HTTP listener binds to.
    pub bind_addr: String,
    /// Always `<redacted>`.
    pub internal_token: String,
    /// Which storage backend to build.
    pub backend: Backend,
}

impl Config {
    /// Reads configuration from the environment's settings, falling back to
    /// development defaults. Any backend but `sqlite` is the in-memory one.
    #[must_use]
    pub fn from_env(settings: &Vec<(String, String)>) -> (r: Config)
        ensures
            r.bind_addr@ == setting(
                settings_view(settings@),
                "PROFILE_BIND_ADDR"@,
                "127.0.0.1:8081"@,
            ),
            r.internal_token@ == setting(
                settings_view(settings@),
                "INTERNAL_TOKEN"@,
                "dev-only-internal-token-change-me"@,
            ),
            r.backend == if setting(settings_view(settings@), "PROFILE_BACKEND"@, "memory"@)
                == "sqlite"@ {
                Backend::Sqlite
            } else {
                Backend::Memory
            },
    {
        let backend = var(settings, "PROFILE_BACKEND", "memory");
        Config {
            bind_addr: var(settings, "PROFILE_BIND_ADDR", "127.0.0.1:8081"),
            internal_token: var(settings, "INTERNAL_TOKEN", "dev-only-internal-token-change-me"),
            backend: if same_text(backend.as_str(), "sqlite") {
                Backend::Sqlite
            } else {
                Backend::Memory
            },
        }
    }

    /// What may be shown of the configuration.
    pub fn summary(&self) -> (r: ConfigSummary)
        ensures
            r.bind_addr@ == self.bind_addr@,
            r.internal_token@ == "<redacted>"@,
            r.backend == self.backend,
    {
        ConfigSummary {
            bind_addr: self.bind_addr.clone(),
            internal_token: "<redacted>".to_owned(),
            backend: self.backend,
        }
    }
}

impl Clone for Config {
    fn clone(&self) -> (r: Config)
        ensures
            r == *self,
    {
        Config {
            bind_addr: self.bind_addr.clone(),
            internal_token: self.internal_token.clone(),
            backend: self.backend,
        }
    }
}

} // verus!
