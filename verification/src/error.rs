//! The errors of the client.
use vstd::prelude::*;

verus! {

/// `russh::Error`, carried through unread.
#[verifier::external_type_specification]
#[verifier::external_body]
pub struct ExternalSshError(russh::Error);

/// `russh_sftp::client::error::Error`, carried through unread.
#[verifier::external_type_specification]
#[verifier::external_body]
pub struct ExternalSftpError(russh_sftp::client::error::Error);

/// `std::io::Error`, carried through unread.
#[verifier::external_type_specification]
#[verifier::external_body]
pub struct ExternalIoError(std::io::Error);

/// `std::path::PathBuf`, carried through unread.
#[verifier::external_type_specification]
#[verifier::external_body]
pub struct ExternalPathBuf(std::path::PathBuf);

/// All errors that can happen in the client.
#[derive(Debug)]
pub enum ClientError {
    Ssh(russh::Error),
    Sftp(russh_sftp::client::error::Error),
    AuthFailed(String),
    Io(std::io::Error),
    Config(String),
    /// The host offered a key that differs from the one on record.
    HostKeyMismatch { host: String, recorded_fingerprint: String, offered_fingerprint: String },
    NotConnected,
    NoParent(String),
}

} // verus!
