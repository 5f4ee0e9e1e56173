//! A short-link and file-sharing registry with verified contracts.

pub mod text;
pub mod fault;
pub mod files;
pub mod links;
pub mod ids;
pub mod digest;
pub mod entry;
pub mod store;
pub mod qr;
pub mod mime;
pub mod templates;
pub mod resolve;
pub mod upload;
pub mod auth;
pub mod submit;
pub mod registry;
pub mod reply;
pub mod handlers;
pub mod laws;
