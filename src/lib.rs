pub mod config;
pub mod crypto;
pub mod error;
pub mod index;
pub mod naming;
pub mod note;

