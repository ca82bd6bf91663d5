//! Directory listing and presentation engine, together with the small text
//! utilities that share its helpers (line-oriented `cat`, `echo` escapes and
//! `chown` owner specifications, `grep` line selection).
pub mod text;
pub mod config;
pub mod entry;
pub mod perms;
pub mod colors;
pub mod names;
pub mod sort;
pub mod render;
pub mod layout;
pub mod traverse;
pub mod cat;
pub mod echo;
pub mod chown;
pub mod grep;
pub mod calendar;
