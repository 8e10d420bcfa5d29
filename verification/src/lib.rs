//! Request shaping, response conversion and session bookkeeping for a
//! proxy that speaks the OpenAI chat format to the Grok web backend.

pub mod text;
pub mod ext;
pub mod model;
pub mod json;
pub mod headers;
pub mod tools;
pub mod cards;
pub mod upstream;
pub mod processor;
pub mod errors;
pub mod chat;
pub mod client;
pub mod auth;
pub mod session;
pub mod batch;
pub mod video;
pub mod imagine;
pub mod image_edit;
pub mod usage;
pub mod voice;
