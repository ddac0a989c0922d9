//! What both services share: text, time, identifiers and the wire types.

pub mod dto;
pub mod headers;
pub mod http;
pub mod ids;
pub mod json;
pub mod listed;
pub mod members;
pub mod payload;
pub mod reading;
pub mod settings;
pub mod text;
pub mod time;
pub mod user_id;
pub mod version;

pub use dto::InvalidProfile;
pub use user_id::UserId;
pub use version::{InvalidVersion, Version};
