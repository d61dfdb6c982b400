//! Session engine of a terminal editor for translating JSON key/value documents.

pub mod app;
pub mod cursor;
pub mod draft;
pub mod entries;
pub mod handlers;
pub mod json;
pub mod keys;
pub mod laws;
pub mod ledger;
pub mod localization;
pub mod naming;
pub mod persistence;
pub mod search;
pub mod session;
pub mod text;
pub mod viewport;
