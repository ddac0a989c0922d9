//! The authorization service: logins, bearer tokens and the gateway.

pub mod config;
pub mod error;
pub mod extract;
pub mod gateway;
pub mod health;
pub mod login;
pub mod password;
pub mod throttle;
pub mod token;
pub mod tracing_id;
pub mod users;

pub use config::{Config, ConfigError};
pub use error::AppError;
pub use extract::{Authenticated, PeerAddress};
pub use gateway::Upstream;
pub use login::default_hash_permits;
pub use throttle::{LoginThrottle, Verdict};
pub use token::{Claims, KeyMaterial, TokenService};
pub use users::{Authentication, UserDirectory, UserRecord};
