//! The verified core of the bowtie social site: sessions and their views,
//! comment threads, search forms, view actions, style sheets, pages and
//! password hashes.
pub mod error;
pub mod decimal;
pub mod text;
pub mod comment;
pub mod session;
pub mod search;
pub mod forms;
pub mod strmap;
pub mod styles;
pub mod user;
pub mod resources;
pub mod models;
