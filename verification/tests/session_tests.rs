use rigel::error::ClientError;
use rigel::listing::LocalEntry;
use rigel::session::{join_local, join_remote, parent_remote, SessionState};
use rigel::transfer::{TransferDirection, TransferStatus};

#[test]
fn join_remote_under_root_and_elsewhere() {
    assert_eq!(join_remote("/", "etc"), "/etc");
    assert_eq!(join_remote("/home/user", "docs"), "/home/user/docs");
    assert_eq!(join_remote("rel", "x"), "rel/x");
}

#[test]
fn parent_remote_cases() {
    assert_eq!(parent_remote("/home/user").unwrap(), "/home");
    assert_eq!(parent_remote("/home").unwrap(), "/");
    assert_eq!(parent_remote("/").unwrap(), "/");
    assert_eq!(parent_remote("a/b/c").unwrap(), "a/b");
    match parent_remote("nowhere") {
        Err(ClientError::NoParent(p)) => assert_eq!(p, "nowhere"),
        _ => panic!("expected NoParent"),
    }
}

#[test]
fn enter_then_up_returns_to_the_directory() {
    for cwd in ["/", "/srv", "/srv/www", "data", "/a/"] {
        let child = join_remote(cwd, "sub");
        assert_eq!(parent_remote(&child).unwrap(), cwd);
    }
}

fn state() -> SessionState {
    SessionState::new("/srv".to_string(), Vec::new(), "/tmp/local".to_string(), Vec::new())
}

#[test]
fn queued_transfers_are_numbered_in_order() {
    let mut s = state();
    let a = s.queue_download("a.txt");
    let b = s.queue_upload("b.txt");
    let c = s.queue_download("c.txt");
    assert_eq!((a.id, b.id, c.id), (0, 1, 2));
    assert_eq!(s.next_transfer_id, 3);
    let ids: Vec<u64> = s.transfers.iter().map(|j| j.id).collect();
    assert_eq!(ids, vec![0, 1, 2]);
    assert_eq!(s.transfers[1].direction, TransferDirection::Upload);
    assert_eq!(s.transfers[0].status.get(), TransferStatus::Queued);
}

#[test]
fn queued_transfer_paths() {
    let mut s = state();
    let d = s.queue_download("report.pdf");
    assert_eq!(d.direction, TransferDirection::Download);
    assert_eq!(d.remote_path, "/srv/report.pdf");
    assert_eq!(d.local_path, "/tmp/local/report.pdf");
    assert_eq!(s.transfers[0].remote_path, "/srv/report.pdf");
    assert_eq!(s.transfers[0].local_path, "/tmp/local/report.pdf");
    let u = s.queue_upload("notes.md");
    assert_eq!(u.local_path, "/tmp/local/notes.md");
    assert_eq!(u.remote_path, "/srv/notes.md");
    assert_eq!(s.transfers[1].local_path, "/tmp/local/notes.md");
}

#[test]
fn worker_handles_share_the_job_state() {
    let mut s = state();
    let w = s.queue_upload("x");
    w.status.set(TransferStatus::Running);
    w.progress.update(5, 10);
    assert_eq!(s.transfers[0].status.get(), TransferStatus::Running);
    assert_eq!(s.transfers[0].progress.snapshot(), (5, 10));
}

#[test]
fn remote_child_and_parent_of_the_session() {
    let s = state();
    assert_eq!(s.remote_child("logs"), "/srv/logs");
    assert_eq!(s.remote_parent().unwrap(), "/");
}

#[test]
fn join_local_as_on_unix() {
    assert_eq!(join_local("/tmp", "x"), "/tmp/x");
    assert_eq!(join_local("/tmp/", "x"), "/tmp/x");
    assert_eq!(join_local("", "x"), "x");
    assert_eq!(join_local("/tmp", "/etc"), "/etc");
    assert_eq!(join_local("/tmp", ""), "/tmp/");
    for (base, name) in [("/tmp", "x"), ("/tmp/", "x"), ("", "x"), ("/tmp", "/etc"), ("a", "")] {
        let expected = std::path::Path::new(base).join(name);
        assert_eq!(join_local(base, name), expected.to_str().unwrap());
    }
}

#[test]
fn local_child_and_parent_of_the_session() {
    let s = state();
    assert_eq!(s.local_child("a.txt"), "/tmp/local/a.txt");
    assert_eq!(s.local_parent().unwrap(), "/tmp");
    let root = SessionState::new("/".to_string(), Vec::new(), "/".to_string(), Vec::new());
    match root.local_parent() {
        Err(ClientError::NoParent(p)) => assert_eq!(p, "/"),
        _ => panic!("expected NoParent"),
    }
}

#[test]
fn session_navigation_keeps_the_other_side() {
    let mut s = state();
    let entries = vec![LocalEntry { name: "f".to_string(), is_dir: false, size: 0 }];
    assert!(s.enter_local_dir("sub", Ok(entries)).is_ok());
    assert_eq!(s.local_cwd, "/tmp/local/sub");
    assert_eq!(s.local_entries.len(), 1);
    assert_eq!(s.remote_cwd, "/srv");
    assert!(s.local_up(Ok(vec![])).is_ok());
    assert_eq!(s.local_cwd, "/tmp/local");
    assert!(s.local_entries.is_empty());
    assert!(s.enter_remote_dir("www", Err(ClientError::NotConnected)).is_err());
    assert_eq!(s.remote_cwd, "/srv");
    assert!(s.enter_remote_dir("www", Ok(vec![])).is_ok());
    assert_eq!(s.remote_cwd, "/srv/www");
    assert!(s.remote_refreshed(Ok(vec![])).is_ok());
    assert_eq!(s.remote_cwd, "/srv/www");
    assert!(s.local_refreshed(Err(ClientError::NotConnected)).is_err());
    assert_eq!(s.local_cwd, "/tmp/local");
}

#[test]
fn moving_up_takes_the_given_parent() {
    let mut s = state();
    let entries = vec![LocalEntry { name: "local".to_string(), is_dir: true, size: 0 }];
    assert!(s.local_moved_up(Ok("/tmp".to_string()), Ok(entries)).is_ok());
    assert_eq!(s.local_cwd, "/tmp");
    assert_eq!(s.local_entries[0].name, "local");
    match s.local_moved_up(Err(ClientError::NoParent("/tmp".to_string())), Ok(vec![])) {
        Err(ClientError::NoParent(p)) => assert_eq!(p, "/tmp"),
        _ => panic!("expected NoParent"),
    }
    assert!(s.local_moved_up(Ok("/".to_string()), Err(ClientError::NotConnected)).is_err());
    assert_eq!(s.local_cwd, "/tmp");
    assert_eq!(s.local_entries.len(), 1);
}
