pub mod decimal;
pub mod text;
pub mod id_service;
pub mod status;
pub mod paths;
pub mod encoding;
pub mod session;
pub mod upload;
pub mod browsersafe;
pub mod upload_store;
pub mod download;
pub mod query_range;
pub mod models;
pub mod login;
pub mod config;
