//! Missive: the verified core of a JMAP mail, calendar and contacts client.

pub mod text;
pub mod webhook;
pub mod actions;
pub mod calendar;
pub mod cli;
pub mod compose;
pub mod config;
pub mod contacts;
pub mod date;
pub mod error;
pub mod ids;
pub mod jmap;
pub mod jmap_raw;
pub mod push;
pub mod sanitize;
