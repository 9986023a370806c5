//! The admin dashboard: the session cookie and login, the forms, and the
//! HTML pages.

pub mod session;
pub mod pages;
pub mod forms;
