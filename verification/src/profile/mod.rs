//! The profile service: versioned profiles, reachable only through the gateway.

pub mod auth;
pub mod config;
pub mod error;
pub mod idempotency;
pub mod routes;
pub mod store;
pub mod tracing_id;

pub use auth::Caller;
pub use config::{Backend, Config};
pub use error::ProfileError;
pub use idempotency::IdempotencyStore;
pub use store::{InMemoryProfiles, ProfileRepository, Revision, StoreError, Update};
