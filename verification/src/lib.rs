//! Authorization for a data-plane proxy: API keys with access-control lists,
//! the store that holds them, the decision made on every request, and the
//! bearer-token rules that guard the management plane.

pub mod api_key;
pub mod bearer;
pub mod config;
pub mod controllers;
pub mod decimal;
pub mod entities;
pub mod error;
pub mod ident;
pub mod json;
pub mod laws;
pub mod mappers;
pub mod metadata;
pub mod server;
pub mod service;
pub mod store;
pub mod text;
pub mod time;
pub mod types;
