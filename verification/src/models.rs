pub mod collection;
pub mod file;
pub mod meta;
pub mod user;
