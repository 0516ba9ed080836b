//! A verified core for a small Evervault REST client: credentials header,
//! request framing, response classification and error texts.

pub mod client;
pub mod error;
pub mod json;
pub mod status;
pub mod text;
pub mod types;
