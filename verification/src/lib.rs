#![allow(unused_imports)]
pub mod chat;
pub mod chat_laws;
pub mod codec;
pub mod config;
pub mod config_laws;
pub mod definitions;
pub mod json;
pub mod json_laws;
pub mod launch;
pub mod listening;
pub mod locations;
pub mod message_laws;
pub mod path;
pub mod path_laws;
pub mod relay;
pub mod relay_laws;
pub mod reply;
pub mod request_laws;
pub mod session;
pub mod sorting;
pub mod text;
pub mod text_laws;
pub mod tool_laws;
pub mod tools;
pub mod validation;
pub mod workspace_laws;
