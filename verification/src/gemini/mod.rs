//! The Gemini provider: its configuration, and the conversion between Responses
//! and native requests, responses and streams.

pub mod answered;
pub mod argued;
pub mod asked;
pub mod conversation;
pub mod error;
pub mod followup;
pub mod flow;
pub mod items;
pub mod media;
pub mod partial;
pub mod parts;
pub mod path;
pub mod provider;
pub mod refused;
pub mod relay;
pub mod replay;
pub mod request;
pub mod response;
pub mod sending;
pub mod service;
pub mod stream;
pub mod streamed;
pub mod tools;
pub mod truncation;
pub mod turns;
pub mod validate;
