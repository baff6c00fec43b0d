//! SSH connection rules: authentication methods, the host-key policy, and
//! what the outcome of a handshake or an authentication means.
use vstd::prelude::*;

use crate::error::ClientError;
use crate::hosts::SavedAuth;
use crate::known_hosts::{
    host_key_outcome, law_record_then_matches, recorded_key, EntryView, HostKeyCheck,
};
use crate::text::{str_concat, decimal, push_char, push_decimal};

verus! {

/// SSH authentication method.
#[derive(Clone, Debug)]
pub enum Auth {
    Password(String),
    /// Path to a private key file.
    KeyFile {
        path: String,
        /// Optional passphrase.
        passphrase: Option<String>,
    },
}

/// Host-key verification policy.
#[derive(Clone, Copy, Debug, Default, PartialEq, Eq, Structural)]
pub enum HostKeyPolicy {
    /// Unknown hosts are recorded and accepted, hosts with a different key
    /// than what's on file are rejected.
    #[default]
    TrustOnFirstUse,
    /// Accept any key with no verification. This is not recommended.
    AcceptAny,
}

/// An optional string, copied.
fn clone_option(s: &Option<String>) -> (r: Option<String>)
    ensures
        r == *s,
{
    match s {
        Some(p) => Some(p.clone()),
        None => None,
    }
}

/// The authentication method of a saved host.
pub open spec fn auth_of(saved: SavedAuth) -> Auth {
    match saved {
        SavedAuth::Password(p) => Auth::Password(p),
        SavedAuth::KeyFile { path, passphrase } => Auth::KeyFile { path, passphrase },
    }
}

impl<'a> From<&'a SavedAuth> for Auth {
    fn from(saved: &'a SavedAuth) -> (r: Auth) {
        match saved {
            SavedAuth::Password(p) => Auth::Password(p.clone()),
            SavedAuth::KeyFile { path, passphrase } => Auth::KeyFile {
                path: path.clone(),
                passphrase: clone_option(passphrase),
            },
        }
    }
}

impl<'a> vstd::std_specs::convert::FromSpecImpl<&'a SavedAuth> for Auth {
    open spec fn obeys_from_spec() -> bool {
        true
    }

    open spec fn from_spec(saved: &'a SavedAuth) -> Auth {
        auth_of(*saved)
    }
}

/// Whether the policy checks offered keys against the known-hosts store;
/// `AcceptAny` takes any key without looking.
pub fn checks_known_hosts(policy: HostKeyPolicy) -> (r: bool)
    ensures
        r == (policy == HostKeyPolicy::TrustOnFirstUse),
{
    match policy {
        HostKeyPolicy::TrustOnFirstUse => true,
        HostKeyPolicy::AcceptAny => false,
    }
}

/// Whether trust on first use accepts a key, given what checking it against
/// the store gave: only a newly trusted or a matching key.
pub open spec fn tofu_accepts(check: Result<HostKeyCheck, ClientError>) -> bool {
    check matches Ok(HostKeyCheck::NewlyTrusted) || check matches Ok(HostKeyCheck::Matches)
}

/// The decision of trust on first use on a server key: whether to accept it,
/// and the check to remember for reporting. A check that failed counts as a
/// mismatch whose fingerprints are unknown (`?`).
pub fn tofu_verdict(check: Result<HostKeyCheck, ClientError>) -> (r: (bool, HostKeyCheck))
    ensures
        r.0 == tofu_accepts(check),
        match check {
            Ok(c) => r.1 == c,
            Err(_) => r.1 matches HostKeyCheck::Mismatch {
                recorded_fingerprint,
                offered_fingerprint,
            } && recorded_fingerprint@ == seq!['?'] && offered_fingerprint@ == seq!['?'],
        },
{
    let recorded = match check {
        Ok(c) => c,
        Err(_) => {
            proof {
                reveal_strlit("?");
            }
            HostKeyCheck::Mismatch {
                recorded_fingerprint: String::from_str("?"),
                offered_fingerprint: String::from_str("?"),
            }
        },
    };
    let accept = match &recorded {
        HostKeyCheck::NewlyTrusted => true,
        HostKeyCheck::Matches => true,
        HostKeyCheck::Mismatch { .. } => false,
    };
    (accept, recorded)
}

/// Trust on first use: a server whose key differs from the one on record is
/// refused and the store stays as it was; a server whose key is the one on
/// record is accepted; an unknown server is accepted and its key becomes the
/// one on record.
pub proof fn law_trust_on_first_use(
    before: Seq<EntryView>,
    after: Seq<EntryView>,
    key: Seq<char>,
    offered_openssh: Seq<char>,
    r: Result<HostKeyCheck, ClientError>,
)
    requires
        host_key_outcome(before, after, key, offered_openssh, r),
    ensures
        (recorded_key(before, key) matches Some(rec) && rec != offered_openssh) ==> !tofu_accepts(r)
            && after == before,
        recorded_key(before, key) == Some(offered_openssh) ==> tofu_accepts(r) && after == before,
        recorded_key(before, key) is None ==> tofu_accepts(r) && recorded_key(after, key) == Some(
            offered_openssh,
        ),
{
    if recorded_key(before, key) is None {
        law_record_then_matches(before, key, offered_openssh);
    }
}

/// `host:port`, as error messages name a server.
pub open spec fn host_port_spec(host: Seq<char>, port: u16) -> Seq<char> {
    host + seq![':'] + decimal(port as nat)
}

/// `host:port`.
pub fn host_port(host: &str, port: u16) -> (r: String)
    ensures
        r@ == host_port_spec(host@, port),
{
    let mut s = String::from_str(host);
    push_char(&mut s, ':');
    push_decimal(&mut s, port as u64);
    proof {
        assert(s@ =~= host@ + seq![':'] + decimal(port as nat));
    }
    s
}

/// The error of a failed handshake: when the host key was refused for a
/// mismatch, the mismatch with both fingerprints; otherwise the SSH error.
pub fn handshake_error(
    last_check: Option<HostKeyCheck>,
    host: &str,
    port: u16,
    err: russh::Error,
) -> (r: ClientError)
    ensures
        match last_check {
            Some(HostKeyCheck::Mismatch { recorded_fingerprint, offered_fingerprint }) => r matches ClientError::HostKeyMismatch {
                host: h,
                recorded_fingerprint: rf,
                offered_fingerprint: of,
            } && h@ == host_port_spec(host@, port) && rf == recorded_fingerprint && of
                == offered_fingerprint,
            _ => r == ClientError::Ssh(err),
        },
{
    match last_check {
        Some(HostKeyCheck::Mismatch { recorded_fingerprint, offered_fingerprint }) => {
            ClientError::HostKeyMismatch {
                host: host_port(host, port),
                recorded_fingerprint,
                offered_fingerprint,
            }
        },
        _ => ClientError::Ssh(err),
    }
}

/// The outcome of an authentication attempt: success, or `AuthFailed` for
/// the user.
pub fn authentication_result(authenticated: bool, user: &str) -> (r: Result<(), ClientError>)
    ensures
        authenticated ==> r is Ok,
        !authenticated ==> (r matches Err(ClientError::AuthFailed(u)) && u@ == user@),
{
    if authenticated {
        Ok(())
    } else {
        Err(ClientError::AuthFailed(String::from_str(user)))
    }
}

/// The error when a private key file cannot be loaded.
pub fn key_load_error(path: &str, reason: &str) -> (r: ClientError)
    ensures
        r matches ClientError::Config(m) && m@ == "failed to load key "@ + path@ + ": "@
            + reason@,
{
    let a = str_concat("failed to load key ", path);
    let b = str_concat(a.as_str(), ": ");
    ClientError::Config(str_concat(b.as_str(), reason))
}

/// What the channel of a remote command delivers while the command runs.
pub enum ExecEvent {
    /// Bytes of the command's standard output.
    Data(Vec<u8>),
    /// Anything else (exit status, end of file, other streams).
    Other,
}

/// One step of collecting a remote command's output: data is appended to
/// what came before; anything else is skipped.
pub fn collect_exec_output(output: &mut Vec<u8>, event: ExecEvent)
    ensures
        match event {
            ExecEvent::Data(d) => final(output)@ == old(output)@ + d@,
            ExecEvent::Other => final(output)@ == old(output)@,
        },
{
    match event {
        ExecEvent::Data(d) => {
            let mut d = d;
            output.append(&mut d);
        },
        ExecEvent::Other => {},
    }
}

/// What `String::from_utf8_lossy` reads from bytes: the text they encode as
/// UTF-8, each invalid sequence read as U+FFFD.
pub uninterp spec fn utf8_lossy(bytes: Seq<u8>) -> Seq<char>;

/// `String::from_utf8_lossy`, made an owned `String`. The claim: the result
/// is `utf8_lossy` of the bytes, a function of the bytes alone.
#[verifier::external_body]
fn decode_lossy(bytes: &Vec<u8>) -> (r: String)
    ensures
        r@ == utf8_lossy(bytes@),
{
    String::from_utf8_lossy(bytes.as_slice()).into_owned()
}

/// The text a remote command's collected output is returned as: the bytes
/// read as UTF-8, invalid sequences replaced.
pub fn exec_output_text(output: &Vec<u8>) -> (r: String)
    ensures
        r@ == utf8_lossy(output@),
{
    decode_lossy(output)
}

} // verus!
