//! Verified core of the `devc` devcontainer generator.
pub mod field_order;
pub mod json;
pub mod text;
pub mod merger;
pub mod password;
pub mod security;
pub mod versions;
pub mod tui;
pub mod cache;
pub mod copier;
pub mod credentials;
pub mod fetcher;
pub mod flow;
