//! Core of the Senior Duke portal: keys, users and their permissions,
//! organisations, award sections, sessions, links and logins.

pub mod keys;
pub mod util;
pub mod dir;
pub mod user;
pub mod section;
pub mod time;
pub mod org;
pub mod codec;
pub mod store;
pub mod db;
pub mod auth;
pub mod link;
pub mod login;
pub mod section_store;
pub mod data;
pub mod accounts;
pub mod page;
pub mod roster;
pub mod purge;
pub mod forms;
pub mod upload;
pub mod notifications;
pub mod stats;
