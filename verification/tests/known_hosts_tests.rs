use rigel::error::ClientError;
use rigel::known_hosts::{
    check_and_record, entry_key, forget_host, parse_known_hosts, render_known_hosts, HostKey,
    HostKeyCheck,
};

const ED25519: &str = "ssh-ed25519 AAAAC3NzaC1lZDI1NTE5AAAAILM+rvN+ot98qgEN796jTiQfZfG1KaT0PtFDJ/XFSqti user@example.com";
const ED25519_FINGERPRINT: &str = "SHA256:UCUiLr7Pjs9wFFJMDByLgc3NrtdU344OgUM45wZPcIQ";
const OTHER_ED25519: &str = "ssh-ed25519 AAAAC3NzaC1lZDI1NTE5AAAAIAECAwQFBgcICQoLDA0ODxAREhMUFRYXGBkaGxwdHh8g";
const OTHER_FINGERPRINT: &str = "SHA256:mKqU+0K8OhKmA8bBQi9Rz0Q5l7/g160hIP+rJYSTNj4";

fn pair(a: &str, b: &str) -> (String, String) {
    (a.to_string(), b.to_string())
}

fn offered(openssh: &str) -> HostKey {
    HostKey { openssh: openssh.to_string() }
}

#[test]
fn entry_key_on_default_and_other_ports() {
    assert_eq!(entry_key("example.com", 22), "example.com");
    assert_eq!(entry_key("example.com", 2222), "[example.com]:2222");
    assert_eq!(entry_key("10.0.0.1", 0), "[10.0.0.1]:0");
}

#[test]
fn parse_lines_like_str_lines() {
    let text = "a key-a\nb key b with spaces\r\nnospace\n\nc key-c";
    assert_eq!(
        parse_known_hosts(text),
        vec![pair("a", "key-a"), pair("b", "key b with spaces"), pair("c", "key-c")]
    );
    assert_eq!(parse_known_hosts(""), vec![]);
    assert_eq!(parse_known_hosts("h k\n"), vec![pair("h", "k")]);
    // a trailing \r on the last line (not ended by \n) is kept, as str::lines keeps it
    assert_eq!(parse_known_hosts("h k\r"), vec![pair("h", "k\r")]);
    assert_eq!(parse_known_hosts("h \n"), vec![pair("h", "")]);
}

#[test]
fn render_writes_one_line_per_entry() {
    let entries = vec![pair("a", "k1"), pair("[b]:2222", "ssh-ed25519 AAAA")];
    assert_eq!(render_known_hosts(&entries), "a k1\n[b]:2222 ssh-ed25519 AAAA\n");
    assert_eq!(render_known_hosts(&vec![]), "");
}

#[test]
fn render_then_parse_gives_back_the_entries() {
    let entries = vec![pair("a", "k1"), pair("[b]:2222", ED25519), pair("c", "")];
    assert_eq!(parse_known_hosts(&render_known_hosts(&entries)), entries);
}

#[test]
fn unknown_host_is_trusted_and_recorded() {
    let mut entries = vec![pair("other", "k")];
    let r = check_and_record(&mut entries, "example.com", 2222, &offered(ED25519)).unwrap();
    assert_eq!(r, HostKeyCheck::NewlyTrusted);
    assert_eq!(entries, vec![pair("other", "k"), pair("[example.com]:2222", ED25519)]);
}

#[test]
fn same_key_again_matches() {
    let mut entries = vec![];
    let key = offered(ED25519);
    assert_eq!(check_and_record(&mut entries, "h", 22, &key).unwrap(), HostKeyCheck::NewlyTrusted);
    assert_eq!(check_and_record(&mut entries, "h", 22, &key).unwrap(), HostKeyCheck::Matches);
    assert_eq!(entries.len(), 1);
}

#[test]
fn different_key_is_a_mismatch_and_not_recorded() {
    let mut entries = vec![pair("h", ED25519)];
    let r = check_and_record(&mut entries, "h", 22, &offered(OTHER_ED25519)).unwrap();
    assert_eq!(
        r,
        HostKeyCheck::Mismatch {
            recorded_fingerprint: ED25519_FINGERPRINT.to_string(),
            offered_fingerprint: OTHER_FINGERPRINT.to_string(),
        }
    );
    assert_eq!(entries, vec![pair("h", ED25519)]);
}

#[test]
fn unreadable_offered_key_is_a_config_error() {
    let mut entries = vec![pair("h", ED25519)];
    match check_and_record(&mut entries, "h", 22, &offered("ssh-ed25519 OTHER")) {
        Err(ClientError::Config(msg)) => {
            assert!(msg.starts_with("failed to parse offered host key: "), "{msg}");
        }
        _ => panic!("expected a config error"),
    }
    assert_eq!(entries, vec![pair("h", ED25519)]);
}

#[test]
fn unreadable_stored_key_is_a_config_error() {
    let mut entries = vec![pair("h", "not a key")];
    match check_and_record(&mut entries, "h", 22, &offered(ED25519)) {
        Err(ClientError::Config(msg)) => {
            assert!(msg.starts_with("failed to parse stored host key: "), "{msg}");
            assert!(msg.len() > "failed to parse stored host key: ".len());
        }
        _ => panic!("expected a config error"),
    }
    assert_eq!(entries, vec![pair("h", "not a key")]);
}

#[test]
fn forget_removes_every_entry_of_the_host() {
    let mut entries = vec![pair("h", "k1"), pair("[h]:2222", "k2"), pair("h", "k3"), pair("g", "k4")];
    forget_host(&mut entries, "h", 22);
    assert_eq!(entries, vec![pair("[h]:2222", "k2"), pair("g", "k4")]);
    forget_host(&mut entries, "h", 2222);
    assert_eq!(entries, vec![pair("g", "k4")]);
}

#[test]
fn forget_then_check_trusts_anew() {
    let mut entries = vec![pair("h", ED25519)];
    forget_host(&mut entries, "h", 22);
    let r = check_and_record(&mut entries, "h", 22, &offered("ssh-ed25519 NEW")).unwrap();
    assert_eq!(r, HostKeyCheck::NewlyTrusted);
    assert_eq!(entries, vec![pair("h", "ssh-ed25519 NEW")]);
}
