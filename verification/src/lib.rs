//! Reproducible, domain-specific passwords from a passphrase typed behind a mask.
//!
//! The password for a domain is the beginning of the base64 text of the MD5
//! digest of the domain, a colon and the passphrase. Nothing is stored: the
//! same domain and passphrase give the same password again.
//!
//! - `config` reads the settings of a run from the words of a command line.
//! - `capture` gathers one entry typed behind the mask, event by event.
//! - `session` is the dialogue with the user as a state machine: it asks for
//!   the passphrase, and for its confirmation, and says what to show.
//! - `deriver` turns a domain and a passphrase into the password, with `digest`
//!   and `encoding` for the two steps.
//! - `mask` draws what is echoed in place of a typed character.
//! - `screen` says where on the display surface things go.
//! - `text` and `decimal` read characters and numbers.

pub mod capture;
pub mod config;
pub mod decimal;
pub mod deriver;
pub mod digest;
pub mod encoding;
pub mod mask;
pub mod screen;
pub mod session;
pub mod text;

pub use config::Mkpw;
