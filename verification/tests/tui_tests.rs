use std::path::PathBuf;

use rigel::hosts::{SavedAuth, SavedHost};
use rigel::listing::{LocalEntry, RemoteEntry};
use rigel::session::SessionState;
use rigel::transfer::{TransferDirection, TransferStatus};
use rigel::error::ClientError;
use rigel::tui::{
    entry_label, handle_key, host_label, parse_host_line, picker_rows, recent_transfers,
    remote_title, status_text, transfer_line, App, Command, EditorExit, Key, Mode, Pane,
    PromptAction,
};

fn saved(label: &str) -> SavedHost {
    SavedHost {
        label: label.to_string(),
        host: "example.com".to_string(),
        port: 22,
        username: "me".to_string(),
        auth: SavedAuth::Password("pw".to_string()),
        start_path: None,
    }
}

fn session() -> SessionState {
    SessionState::new(
        "/srv".to_string(),
        vec![
            RemoteEntry { name: "dir".to_string(), is_dir: true, size: 0, permissions: None },
            RemoteEntry { name: "file.txt".to_string(), is_dir: false, size: 5, permissions: None },
        ],
        "/tmp".to_string(),
        vec![
            LocalEntry { name: "ldir".to_string(), is_dir: true, size: 0 },
            LocalEntry { name: "up.bin".to_string(), is_dir: false, size: 9 },
        ],
    )
}

fn browsing() -> App {
    let mut app = App::new(vec![saved("a")]);
    app.connected(session());
    app
}

fn mode_text(app: &App) -> String {
    match &app.mode {
        Mode::Message(m) => m.clone(),
        _ => panic!("expected a message"),
    }
}

#[test]
fn new_app_shows_the_host_picker() {
    let app = App::new(vec![saved("a"), saved("b")]);
    assert!(matches!(app.mode, Mode::HostPicker { cursor: 0 }));
    assert_eq!(app.focus, Pane::Local);
    assert_eq!(app.local_selected, Some(0));
    assert!(app.session.is_none());
    assert!(!app.should_quit);
}

#[test]
fn picker_cursor_stops_at_the_add_row() {
    let mut app = App::new(vec![saved("a"), saved("b")]);
    for _ in 0..5 {
        assert!(matches!(handle_key(&mut app, Key::Down), Command::Nothing));
    }
    assert!(matches!(app.mode, Mode::HostPicker { cursor: 2 }));
    handle_key(&mut app, Key::Char('k'));
    assert!(matches!(app.mode, Mode::HostPicker { cursor: 1 }));
    handle_key(&mut app, Key::Up);
    handle_key(&mut app, Key::Up);
    assert!(matches!(app.mode, Mode::HostPicker { cursor: 0 }));
}

#[test]
fn enter_on_a_saved_host_asks_to_connect() {
    let mut app = App::new(vec![saved("a"), saved("b")]);
    handle_key(&mut app, Key::Char('j'));
    assert!(matches!(handle_key(&mut app, Key::Enter), Command::Connect { index: 1 }));
    handle_key(&mut app, Key::Down);
    assert!(matches!(handle_key(&mut app, Key::Enter), Command::Nothing));
}

#[test]
fn quit_keys() {
    let mut app = App::new(vec![]);
    handle_key(&mut app, Key::Char('q'));
    assert!(app.should_quit);
    let mut b = browsing();
    handle_key(&mut b, Key::Esc);
    assert!(b.should_quit);
}

#[test]
fn add_host_form_edits_and_saves() {
    let mut app = App::new(vec![]);
    handle_key(&mut app, Key::Char('a'));
    for c in "lab,h.example,2222,user,secretx".chars() {
        handle_key(&mut app, Key::Char(c));
    }
    handle_key(&mut app, Key::Backspace);
    match &app.mode {
        Mode::AddHost { input } => assert_eq!(input, "lab,h.example,2222,user,secret"),
        _ => panic!("expected the add form"),
    }
    match handle_key(&mut app, Key::Enter) {
        Command::SaveHost(h) => {
            assert_eq!(h.label, "lab");
            assert_eq!(h.host, "h.example");
            assert_eq!(h.port, 2222);
            assert_eq!(h.username, "user");
            assert!(matches!(h.auth, SavedAuth::Password(ref p) if p == "secret"));
            assert!(h.start_path.is_none());
            app.hosts_saved(vec![h]);
        }
        _ => panic!("expected SaveHost"),
    }
    assert!(matches!(app.mode, Mode::HostPicker { cursor: 0 }));
    assert_eq!(app.saved_hosts.len(), 1);
}

#[test]
fn add_host_with_bad_format_shows_the_format() {
    let mut app = App::new(vec![]);
    handle_key(&mut app, Key::Char('a'));
    for c in "only,three,fields".chars() {
        handle_key(&mut app, Key::Char(c));
    }
    assert!(matches!(handle_key(&mut app, Key::Enter), Command::Nothing));
    assert_eq!(mode_text(&app), "format: label,host,port,user,password");
    handle_key(&mut app, Key::Char('x'));
    assert!(matches!(app.mode, Mode::Browse));
}

#[test]
fn add_host_escape_goes_back() {
    let mut app = App::new(vec![]);
    handle_key(&mut app, Key::Char('a'));
    handle_key(&mut app, Key::Esc);
    assert!(matches!(app.mode, Mode::HostPicker { cursor: 0 }));
}

#[test]
fn host_line_port_defaults_to_22() {
    let h = parse_host_line("l,h,notaport,u,p").unwrap();
    assert_eq!(h.port, 22);
    assert!(parse_host_line("a,b,c,d,e,f").is_none());
    assert!(parse_host_line("").is_none());
}

#[test]
fn browse_moves_within_the_listing() {
    let mut app = browsing();
    handle_key(&mut app, Key::Down);
    handle_key(&mut app, Key::Down);
    handle_key(&mut app, Key::Down);
    assert_eq!(app.local_selected, Some(1));
    handle_key(&mut app, Key::Up);
    handle_key(&mut app, Key::Up);
    assert_eq!(app.local_selected, Some(0));
    handle_key(&mut app, Key::Tab);
    assert_eq!(app.focus, Pane::Remote);
    handle_key(&mut app, Key::Char('j'));
    assert_eq!(app.remote_selected, Some(1));
    assert_eq!(app.local_selected, Some(0));
}

#[test]
fn browse_enter_and_up() {
    let mut app = browsing();
    match handle_key(&mut app, Key::Enter) {
        Command::EnterLocalDir(n) => assert_eq!(n, "ldir"),
        _ => panic!("expected EnterLocalDir"),
    }
    handle_key(&mut app, Key::Down);
    assert!(matches!(handle_key(&mut app, Key::Enter), Command::Nothing));
    assert!(matches!(handle_key(&mut app, Key::Backspace), Command::LocalUp));
    handle_key(&mut app, Key::Tab);
    match handle_key(&mut app, Key::Enter) {
        Command::EnterRemoteDir(n) => assert_eq!(n, "dir"),
        _ => panic!("expected EnterRemoteDir"),
    }
    assert!(matches!(handle_key(&mut app, Key::Backspace), Command::RemoteUp));
    app.remote_selected = Some(1);
    app.navigated(Pane::Remote);
    assert_eq!(app.remote_selected, Some(0));
}

#[test]
fn uploads_and_downloads_need_the_right_pane_and_a_file() {
    let mut app = browsing();
    assert!(matches!(handle_key(&mut app, Key::Right), Command::Nothing)); // a directory
    handle_key(&mut app, Key::Down);
    match handle_key(&mut app, Key::Right) {
        Command::Upload(n) => assert_eq!(n, "up.bin"),
        _ => panic!("expected Upload"),
    }
    assert!(matches!(handle_key(&mut app, Key::Left), Command::Nothing)); // wrong pane
    handle_key(&mut app, Key::Tab);
    handle_key(&mut app, Key::Down);
    match handle_key(&mut app, Key::Left) {
        Command::Download(n) => assert_eq!(n, "file.txt"),
        _ => panic!("expected Download"),
    }
}

#[test]
fn mkdir_prompt_then_enter() {
    let mut app = browsing();
    handle_key(&mut app, Key::Char('m'));
    assert!(matches!(app.mode, Mode::Browse)); // local pane: nothing
    handle_key(&mut app, Key::Tab);
    handle_key(&mut app, Key::Char('m'));
    match &app.mode {
        Mode::TextPrompt { title, input, action } => {
            assert_eq!(title, "new remote directory name");
            assert_eq!(input, "");
            assert!(matches!(action, PromptAction::MkdirRemote));
        }
        _ => panic!("expected a prompt"),
    }
    for c in "newdir".chars() {
        handle_key(&mut app, Key::Char(c));
    }
    assert_eq!(status_text(&app.mode), "new remote directory name: newdir");
    match handle_key(&mut app, Key::Enter) {
        Command::Mkdir(n) => assert_eq!(n, "newdir"),
        _ => panic!("expected Mkdir"),
    }
    assert!(matches!(app.mode, Mode::Browse));
}

#[test]
fn rename_prompt_starts_with_the_name() {
    let mut app = browsing();
    handle_key(&mut app, Key::Tab);
    handle_key(&mut app, Key::Down);
    handle_key(&mut app, Key::Char('r'));
    match &app.mode {
        Mode::TextPrompt { title, input, .. } => {
            assert_eq!(title, "rename 'file.txt' to");
            assert_eq!(input, "file.txt");
        }
        _ => panic!("expected a prompt"),
    }
    for _ in 0..3 {
        handle_key(&mut app, Key::Backspace);
    }
    handle_key(&mut app, Key::Char('m'));
    handle_key(&mut app, Key::Char('d'));
    match handle_key(&mut app, Key::Enter) {
        Command::Rename { from, to } => {
            assert_eq!(from, "file.txt");
            assert_eq!(to, "file.md");
        }
        _ => panic!("expected Rename"),
    }
}

#[test]
fn prompt_escape_returns_to_browse() {
    let mut app = browsing();
    handle_key(&mut app, Key::Tab);
    handle_key(&mut app, Key::Char('m'));
    handle_key(&mut app, Key::Esc);
    assert!(matches!(app.mode, Mode::Browse));
    assert!(!app.should_quit);
}

#[test]
fn delete_and_edit_on_the_remote_pane() {
    let mut app = browsing();
    assert!(matches!(handle_key(&mut app, Key::Char('d')), Command::Nothing));
    handle_key(&mut app, Key::Tab);
    match handle_key(&mut app, Key::Char('d')) {
        Command::DeleteDir(n) => assert_eq!(n, "dir"),
        _ => panic!("expected DeleteDir"),
    }
    assert!(matches!(handle_key(&mut app, Key::Char('e')), Command::Nothing)); // a directory
    handle_key(&mut app, Key::Down);
    match handle_key(&mut app, Key::Char('d')) {
        Command::DeleteFile(n) => assert_eq!(n, "file.txt"),
        _ => panic!("expected DeleteFile"),
    }
    match handle_key(&mut app, Key::Char('e')) {
        Command::EditDownload(n) => {
            assert_eq!(n, "file.txt");
            app.edit_ready(PathBuf::from("/tmp/__rigel-temp/file.txt"), n);
        }
        _ => panic!("expected EditDownload"),
    }
    let edit = app.pending_edit.as_ref().unwrap();
    assert_eq!(edit.remote_name, "file.txt");
}

#[test]
fn browse_without_session_asks_for_nothing() {
    let mut app = App::new(vec![]);
    app.mode = Mode::Browse;
    for k in [Key::Enter, Key::Backspace, Key::Right, Key::Left, Key::Char('d'), Key::Char('e'), Key::Down] {
        assert!(matches!(handle_key(&mut app, k), Command::Nothing));
    }
    assert_eq!(app.local_selected, Some(0));
}

#[test]
fn every_failure_becomes_a_message() {
    let mut app = browsing();
    let cases = [
        (Command::DeleteFile("x".to_string()), "denied", "delete failed: denied"),
        (Command::Mkdir("x".to_string()), "exists", "error: exists"),
        (Command::Connect { index: 0 }, "refused", "connect failed: refused"),
        (Command::EditDownload("f".to_string()), "gone", "edit download failed: gone"),
        (Command::RemoteUp, "io", "going up failed: io"),
        (Command::LocalUp, "no parent", "going up failed: no parent"),
        (Command::EnterLocalDir("d".to_string()), "denied", "open failed: denied"),
        (Command::EnterRemoteDir("d".to_string()), "denied", "open failed: denied"),
        (Command::Upload("f".to_string()), "x", "upload failed: x"),
        (Command::Download("f".to_string()), "y", "download failed: y"),
    ];
    for (cmd, err, shown) in cases {
        app.command_failed(&cmd, err);
        assert_eq!(mode_text(&app), shown);
        assert!(!app.should_quit);
    }
    let host = parse_host_line("a,b,22,c,d").unwrap();
    app.command_failed(&Command::SaveHost(host), "read-only");
    assert_eq!(mode_text(&app), "saving the host failed: read-only");
}

#[test]
fn entering_a_local_directory_moves_the_pane() {
    let mut app = browsing();
    app.local_selected = Some(1);
    let listed = vec![LocalEntry { name: "inner".to_string(), is_dir: false, size: 1 }];
    assert!(app.enter_local_listed("ldir", Ok(listed)).is_ok());
    let s = app.session.as_ref().unwrap();
    assert_eq!(s.local_cwd, "/tmp/ldir");
    assert_eq!(s.local_entries.len(), 1);
    assert_eq!(s.local_entries[0].name, "inner");
    assert_eq!(s.remote_cwd, "/srv");
    assert_eq!(app.local_selected, Some(0));
}

#[test]
fn a_failed_listing_leaves_the_directory() {
    let mut app = browsing();
    app.local_selected = Some(1);
    match app.enter_local_listed("ldir", Err(ClientError::NotConnected)) {
        Err(ClientError::NotConnected) => {}
        _ => panic!("expected the listing's error"),
    }
    assert_eq!(app.session.as_ref().unwrap().local_cwd, "/tmp");
    assert_eq!(app.local_selected, Some(1));
    assert!(app.remote_up_listed(Err(ClientError::NotConnected)).is_err());
    assert_eq!(app.session.as_ref().unwrap().remote_cwd, "/srv");
}

#[test]
fn remote_enter_and_up() {
    let mut app = browsing();
    app.remote_selected = Some(1);
    assert!(app.enter_remote_listed("dir", Ok(vec![])).is_ok());
    assert_eq!(app.session.as_ref().unwrap().remote_cwd, "/srv/dir");
    assert_eq!(app.remote_selected, Some(0));
    assert!(app.remote_up_listed(Ok(vec![])).is_ok());
    assert_eq!(app.session.as_ref().unwrap().remote_cwd, "/srv");
    assert!(app.remote_up_listed(Ok(vec![])).is_ok());
    assert_eq!(app.session.as_ref().unwrap().remote_cwd, "/");
}

#[test]
fn local_up_goes_to_the_parent_and_stops_at_the_root() {
    let mut app = browsing();
    app.local_selected = Some(1);
    let parent = app.session.as_ref().unwrap().local_parent();
    assert!(app.local_up_listed(parent, Ok(vec![])).is_ok());
    assert_eq!(app.session.as_ref().unwrap().local_cwd, "/");
    assert_eq!(app.local_selected, Some(0));
    let parent = app.session.as_ref().unwrap().local_parent();
    match app.local_up_listed(parent, Ok(vec![])) {
        Err(ClientError::NoParent(p)) => assert_eq!(p, "/"),
        _ => panic!("expected NoParent"),
    }
    assert_eq!(app.session.as_ref().unwrap().local_cwd, "/");
}

#[test]
fn navigation_without_a_session_does_nothing() {
    let mut app = App::new(vec![]);
    assert!(app.enter_local_listed("x", Err(ClientError::NotConnected)).is_ok());
    assert!(app.local_up_listed(Ok("/".to_string()), Ok(vec![])).is_ok());
    assert!(app.session.is_none());
}

#[test]
fn picker_rows_list_hosts_then_the_add_row() {
    let rows = picker_rows(&vec![saved("work"), saved("home")]);
    assert_eq!(
        rows,
        vec![
            "work  (me@example.com)".to_string(),
            "home  (me@example.com)".to_string(),
            "+ add new host".to_string()
        ]
    );
    assert_eq!(picker_rows(&vec![]), vec!["+ add new host".to_string()]);
}

#[test]
fn editor_outcomes() {
    let mut app = browsing();
    assert!(app.editor_finished("vi", EditorExit::Success));
    assert!(matches!(app.mode, Mode::Browse));
    assert!(!app.editor_finished("vi", EditorExit::Failed));
    assert_eq!(mode_text(&app), "vi exited with an error; not uploading");
    assert!(!app.editor_finished("nano", EditorExit::LaunchError("not found".to_string())));
    assert_eq!(mode_text(&app), "could not launch nano: not found");
    app.edit_upload_failed("timeout");
    assert_eq!(mode_text(&app), "upload after edit failed: timeout");
}

#[test]
fn screen_texts() {
    assert_eq!(entry_label("docs", true), "docs/");
    assert_eq!(entry_label("a.txt", false), "a.txt");
    assert_eq!(host_label(&saved("work")), "work  (me@example.com)");
    assert_eq!(remote_title("/srv"), "remote: /srv");
    assert!(status_text(&Mode::Browse).starts_with("TAB: switch pane"));
    assert_eq!(status_text(&Mode::Message("hi".to_string())), "hi");
}

#[test]
fn transfer_lines() {
    assert_eq!(
        transfer_line(TransferStatus::Running, TransferDirection::Upload, "/srv/a", 50, 200),
        "[Running] -> /srv/a 25%"
    );
    assert_eq!(
        transfer_line(TransferStatus::Queued, TransferDirection::Download, "/b", 0, 0),
        "[Queued] <- /b 0%"
    );
    assert_eq!(
        transfer_line(TransferStatus::Done, TransferDirection::Download, "/c", 3, 3),
        "[Done] <- /c 100%"
    );
    assert_eq!(recent_transfers(0), Vec::<usize>::new());
    assert_eq!(recent_transfers(1), vec![0]);
    assert_eq!(recent_transfers(5), vec![4, 3]);
}

#[test]
fn cursor_range_check() {
    let mut app = browsing();
    assert!(app.cursor_in_range());
    app.remote_selected = Some(usize::MAX);
    assert!(app.cursor_in_range()); // only the focused pane counts
    assert!(app.key_fits(Key::Down));
    app.local_selected = Some(usize::MAX);
    assert!(!app.cursor_in_range());
    assert!(!app.key_fits(Key::Down));
    assert!(app.key_fits(Key::Tab));
}

#[test]
fn focus_helpers() {
    let mut app = browsing();
    app.remote_selected = Some(1);
    assert_eq!(app.focused_state(), Some(0));
    app.toggle_focus();
    assert_eq!(app.focused_state(), Some(1));
    app.toggle_focus();
    assert_eq!(app.focus, Pane::Local);
}
