use rigel::listing::{sort_local_entries, sort_remote_entries, LocalEntry, RemoteEntry};

fn remote(name: &str, is_dir: bool, size: u64) -> RemoteEntry {
    RemoteEntry { name: name.to_string(), is_dir, size, permissions: Some(0o644) }
}

fn local(name: &str, is_dir: bool) -> LocalEntry {
    LocalEntry { name: name.to_string(), is_dir, size: 0 }
}

#[test]
fn directories_first_then_case_insensitive_names() {
    let sorted = sort_remote_entries(vec![
        remote("zeta.txt", false, 1),
        remote("Beta", true, 0),
        remote("alpha.txt", false, 2),
        remote("alpha", true, 0),
        remote("Zulu", false, 3),
    ]);
    let names: Vec<&str> = sorted.iter().map(|e| e.name.as_str()).collect();
    assert_eq!(names, vec!["alpha", "Beta", "alpha.txt", "zeta.txt", "Zulu"]);
}

#[test]
fn equal_keys_keep_listing_order() {
    let sorted = sort_remote_entries(vec![
        remote("README", false, 1),
        remote("readme", false, 2),
        remote("ReadMe", false, 3),
    ]);
    let sizes: Vec<u64> = sorted.iter().map(|e| e.size).collect();
    assert_eq!(sizes, vec![1, 2, 3]);
}

#[test]
fn local_sort_matches_std_sort_by() {
    let input = vec![
        local("b", false),
        local("A", true),
        local("c", true),
        local("a", false),
        local("Ä", false),
        local("", false),
    ];
    let mut expected = input.clone();
    expected.sort_by(|a, b| (!a.is_dir, a.name.to_lowercase()).cmp(&(!b.is_dir, b.name.to_lowercase())));
    let got = sort_local_entries(input);
    let g: Vec<(String, bool)> = got.iter().map(|e| (e.name.clone(), e.is_dir)).collect();
    let e: Vec<(String, bool)> = expected.iter().map(|e| (e.name.clone(), e.is_dir)).collect();
    assert_eq!(g, e);
}

#[test]
fn empty_listing_stays_empty() {
    assert!(sort_remote_entries(vec![]).is_empty());
}
