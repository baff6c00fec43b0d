use rigel::hosts::{delete_host, upsert_host, SavedAuth, SavedHost};

fn host(label: &str, port: u16) -> SavedHost {
    SavedHost {
        label: label.to_string(),
        host: format!("{label}.example.com"),
        port,
        username: "me".to_string(),
        auth: SavedAuth::Password("pw".to_string()),
        start_path: None,
    }
}

fn labels_ports(hosts: &[SavedHost]) -> Vec<(String, u16)> {
    hosts.iter().map(|h| (h.label.clone(), h.port)).collect()
}

#[test]
fn upsert_appends_a_new_label() {
    let hosts = upsert_host(vec![host("a", 22)], host("b", 2222));
    assert_eq!(labels_ports(&hosts), vec![("a".to_string(), 22), ("b".to_string(), 2222)]);
}

#[test]
fn upsert_replaces_the_host_of_the_same_label_in_place() {
    let hosts = upsert_host(vec![host("a", 22), host("b", 22), host("c", 22)], host("b", 2200));
    assert_eq!(
        labels_ports(&hosts),
        vec![("a".to_string(), 22), ("b".to_string(), 2200), ("c".to_string(), 22)]
    );
}

#[test]
fn upsert_replaces_only_the_first_of_duplicate_labels() {
    let hosts = upsert_host(vec![host("a", 1), host("a", 2)], host("a", 3));
    assert_eq!(labels_ports(&hosts), vec![("a".to_string(), 3), ("a".to_string(), 2)]);
}

#[test]
fn upsert_into_empty_list() {
    let hosts = upsert_host(vec![], host("x", 22));
    assert_eq!(labels_ports(&hosts), vec![("x".to_string(), 22)]);
}

#[test]
fn delete_removes_every_host_of_the_label() {
    let hosts = delete_host(vec![host("a", 1), host("b", 2), host("a", 3)], "a");
    assert_eq!(labels_ports(&hosts), vec![("b".to_string(), 2)]);
    let same = delete_host(hosts, "missing");
    assert_eq!(labels_ports(&same), vec![("b".to_string(), 2)]);
}

#[test]
fn upsert_then_delete_restores_the_list() {
    let before = vec![host("a", 1), host("b", 2)];
    let after = delete_host(upsert_host(before.clone(), host("new", 9)), "new");
    assert_eq!(labels_ports(&after), labels_ports(&before));
}

#[test]
fn start_remote_path_defaults_to_root() {
    let mut h = host("a", 22);
    assert_eq!(h.start_remote_path(), "/");
    h.start_path = Some("/var/www".to_string());
    assert_eq!(h.start_remote_path(), "/var/www");
}
