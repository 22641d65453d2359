//! The decisions of an AI proxy, as verified functions over plain values.

pub mod access;
pub mod address;
pub mod answers;
pub mod attempts;
pub mod capacity;
pub mod chat;
pub mod config;
pub mod credentials;
pub mod delivered;
pub mod delivery;
pub mod error;
pub mod exchange;
pub mod fallback;
pub mod followed;
pub mod gemini;
pub mod guidance;
pub mod headers;
pub mod json;
pub mod logs;
pub mod members;
pub mod names;
pub mod ordering;
pub mod outside;
pub mod overview;
pub mod passing;
pub mod preparation;
pub mod recovery;
pub mod rerouted;
pub mod retrying;
pub mod routing;
pub mod service;
pub mod settings;
pub mod shown;
pub mod sound;
pub mod sse;
pub mod switching;
pub mod table;
pub mod text;
pub mod tree;
pub mod upstream;
