//! Verified core of the time tracker backend: text handling, the rules of
//! device authentication and log synchronisation, and the admin pages.

pub mod text;
pub mod crypto;
pub mod admin;
pub mod model;
pub mod reply;
pub mod api;
pub mod sync;
pub mod logline;
pub mod sql;
pub mod markup;
