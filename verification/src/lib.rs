//! The verified core of the FileSec desktop application.

pub mod adding;
pub mod anchors;
pub mod app;
pub mod autounlock;
pub mod browse;
pub mod contacts;
pub mod dates;
pub mod fingerprint;
pub mod forms;
pub mod mount;
pub mod moving;
pub mod names;
pub mod net;
pub mod order;
pub mod passkey;
pub mod passphrase;
pub mod path;
pub mod prefs;
pub mod report;
pub mod requests;
pub mod screens;
pub mod secret;
pub mod select;
pub mod session;
pub mod sharing;
pub mod store;
pub mod text;
pub mod text_set;
pub mod theme;
pub mod transfer;
pub mod trash;
pub mod unlocking;
pub mod wipe;
