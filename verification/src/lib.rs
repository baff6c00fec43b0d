//! Rigel: the verified core of an SFTP client and its terminal front end.
pub mod error;
pub mod hosts;
pub mod known_hosts;
pub mod listing;
pub mod session;
pub mod ssh;
pub mod text;
pub mod transfer;
pub mod tui;
