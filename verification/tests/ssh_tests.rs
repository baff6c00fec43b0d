use rigel::ssh::{collect_exec_output, exec_output_text, ExecEvent};
use rigel::error::ClientError;
use rigel::hosts::SavedAuth;
use rigel::known_hosts::HostKeyCheck;
use rigel::ssh::{
    authentication_result, checks_known_hosts, handshake_error, host_port, key_load_error,
    tofu_verdict, Auth, HostKeyPolicy,
};

#[test]
fn saved_auth_becomes_auth() {
    match Auth::from(&SavedAuth::Password("pw".to_string())) {
        Auth::Password(p) => assert_eq!(p, "pw"),
        _ => panic!("expected a password"),
    }
    let saved = SavedAuth::KeyFile { path: "/k".to_string(), passphrase: Some("pp".to_string()) };
    match Auth::from(&saved) {
        Auth::KeyFile { path, passphrase } => {
            assert_eq!(path, "/k");
            assert_eq!(passphrase.as_deref(), Some("pp"));
        }
        _ => panic!("expected a key file"),
    }
}

#[test]
fn default_policy_is_trust_on_first_use() {
    assert!(matches!(HostKeyPolicy::default(), HostKeyPolicy::TrustOnFirstUse));
    assert!(checks_known_hosts(HostKeyPolicy::TrustOnFirstUse));
    assert!(!checks_known_hosts(HostKeyPolicy::AcceptAny));
}

#[test]
fn tofu_accepts_new_and_matching_keys_only() {
    let (ok, c) = tofu_verdict(Ok(HostKeyCheck::NewlyTrusted));
    assert!(ok);
    assert_eq!(c, HostKeyCheck::NewlyTrusted);
    assert!(tofu_verdict(Ok(HostKeyCheck::Matches)).0);
    let mismatch = HostKeyCheck::Mismatch {
        recorded_fingerprint: "r".to_string(),
        offered_fingerprint: "o".to_string(),
    };
    let (ok, c) = tofu_verdict(Ok(mismatch));
    assert!(!ok);
    assert!(matches!(c, HostKeyCheck::Mismatch { .. }));
}

#[test]
fn failed_check_counts_as_unknown_mismatch() {
    let (ok, c) = tofu_verdict(Err(ClientError::NotConnected));
    assert!(!ok);
    assert_eq!(
        c,
        HostKeyCheck::Mismatch {
            recorded_fingerprint: "?".to_string(),
            offered_fingerprint: "?".to_string(),
        }
    );
}

#[test]
fn handshake_error_reports_a_mismatch() {
    let check = HostKeyCheck::Mismatch {
        recorded_fingerprint: "SHA256:old".to_string(),
        offered_fingerprint: "SHA256:new".to_string(),
    };
    match handshake_error(Some(check), "example.com", 2222, russh::Error::CouldNotReadKey) {
        ClientError::HostKeyMismatch { host, recorded_fingerprint, offered_fingerprint } => {
            assert_eq!(host, "example.com:2222");
            assert_eq!(recorded_fingerprint, "SHA256:old");
            assert_eq!(offered_fingerprint, "SHA256:new");
        }
        _ => panic!("expected a mismatch"),
    }
}

#[test]
fn handshake_error_otherwise_is_the_ssh_error() {
    assert!(matches!(
        handshake_error(None, "h", 22, russh::Error::CouldNotReadKey),
        ClientError::Ssh(russh::Error::CouldNotReadKey)
    ));
    assert!(matches!(
        handshake_error(Some(HostKeyCheck::Matches), "h", 22, russh::Error::CouldNotReadKey),
        ClientError::Ssh(_)
    ));
}

#[test]
fn authentication_outcomes() {
    assert!(authentication_result(true, "root").is_ok());
    match authentication_result(false, "root") {
        Err(ClientError::AuthFailed(u)) => assert_eq!(u, "root"),
        _ => panic!("expected AuthFailed"),
    }
}

#[test]
fn key_load_error_message() {
    match key_load_error("/home/me/.ssh/id", "bad passphrase") {
        ClientError::Config(m) => assert_eq!(m, "failed to load key /home/me/.ssh/id: bad passphrase"),
        _ => panic!("expected a config error"),
    }
    assert_eq!(host_port("h", 22), "h:22");
}

#[test]
fn exec_output_keeps_only_data() {
    let mut out: Vec<u8> = Vec::new();
    collect_exec_output(&mut out, ExecEvent::Data(b"hel".to_vec()));
    collect_exec_output(&mut out, ExecEvent::Other);
    collect_exec_output(&mut out, ExecEvent::Data(b"lo".to_vec()));
    assert_eq!(out, b"hello".to_vec());
}

#[test]
fn exec_output_is_read_as_lossy_utf8() {
    assert_eq!(exec_output_text(&b"hello".to_vec()), "hello");
    assert_eq!(exec_output_text(&vec![b'h', b'i', 0xff]), "hi\u{FFFD}");
    assert_eq!(exec_output_text(&"caf\u{e9}".as_bytes().to_vec()), "caf\u{e9}");
}
