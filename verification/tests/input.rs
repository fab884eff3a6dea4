use adbrowse::adb::AdbClient;
use adbrowse::app::{App, InputMode, Modal, Pane};
use adbrowse::event::{KeyCode, KeyEvent, KeyEventKind};
use adbrowse::file_entry::{FileEntry, FileKind};
use adbrowse::input::handle;
use adbrowse::ops::{Op, Outcome};
use adbrowse::transfer::TransferStatus;

fn key(code: KeyCode) -> KeyEvent {
    KeyEvent {
        code,
        kind: KeyEventKind::Press,
    }
}

/// Presses a key and runs what it asks for, every operation succeeding and
/// every listing empty; gives the operations in order.
fn press(app: &mut App, code: KeyCode) -> Vec<Op> {
    let first = handle(app, key(code));
    run(app, first)
}

fn run(app: &mut App, first: Option<Op>) -> Vec<Op> {
    let mut ops = Vec::new();
    let mut next = first;
    while let Some(op) = next {
        let outcome = match &op {
            Op::List { .. } => Outcome::Listed(Ok(vec![])),
            Op::Devices => Outcome::Found(Ok(vec![])),
            _ => Outcome::Done(Ok(())),
        };
        ops.push(op);
        next = app.resume(outcome);
    }
    ops
}

fn selection(app: &App) -> Vec<usize> {
    let mut v: Vec<usize> = app.local.selected.iter().cloned().collect();
    v.sort();
    v
}

fn entry(name: &str, kind: FileKind) -> FileEntry {
    FileEntry {
        name: name.to_string(),
        kind,
        size: 3,
        modified: None,
    }
}

fn app_with_entries() -> App {
    let adb = AdbClient::new(Some("abc123".to_string()), true).unwrap();
    let mut app = App::new(adb, "/home/user".to_string());
    app.local.entries = vec![
        entry("docs", FileKind::Directory),
        entry("a.txt", FileKind::File),
        entry("b.txt", FileKind::File),
    ];
    app
}

#[test]
fn new_app_starts_on_local_pane() {
    let app = app_with_entries();
    assert_eq!(app.active_pane, Pane::Local);
    assert_eq!(app.android.path, "/sdcard");
    assert_eq!(app.local.path, "/home/user");
    assert_eq!(app.status_message, "adbrowse - press ? for help");
    assert!(app.modal.is_none());
    assert_eq!(app.input_mode, InputMode::Normal);
}

#[test]
fn q_quits() {
    let mut app = app_with_entries();
    press(&mut app, KeyCode::Char('q'));
    assert!(app.should_quit);
}

#[test]
fn tab_switches_and_switches_back() {
    let mut app = app_with_entries();
    press(&mut app, KeyCode::Tab);
    assert_eq!(app.active_pane, Pane::Android);
    press(&mut app, KeyCode::Tab);
    assert_eq!(app.active_pane, Pane::Local);
}

#[test]
fn cursor_moves_within_entries() {
    let mut app = app_with_entries();
    press(&mut app, KeyCode::Up);
    assert_eq!(app.local.cursor, 0);
    press(&mut app, KeyCode::Char('j'));
    press(&mut app, KeyCode::Down);
    press(&mut app, KeyCode::Down);
    assert_eq!(app.local.cursor, 2);
    press(&mut app, KeyCode::Char('k'));
    assert_eq!(app.local.cursor, 1);
    press(&mut app, KeyCode::PageDown);
    assert_eq!(app.local.cursor, 2);
    press(&mut app, KeyCode::PageUp);
    assert_eq!(app.local.cursor, 0);
}

#[test]
fn space_toggles_selection() {
    let mut app = app_with_entries();
    press(&mut app, KeyCode::Down);
    press(&mut app, KeyCode::Down);
    press(&mut app, KeyCode::Char(' '));
    press(&mut app, KeyCode::Up);
    press(&mut app, KeyCode::Up);
    press(&mut app, KeyCode::Char(' '));
    assert_eq!(selection(&app), vec![0, 2]);
    press(&mut app, KeyCode::Char(' '));
    assert_eq!(selection(&app), vec![2]);
    press(&mut app, KeyCode::Char('a'));
    assert_eq!(selection(&app), vec![0, 1, 2]);
    press(&mut app, KeyCode::Esc);
    assert!(app.local.selected.is_empty());
}

#[test]
fn help_opens_and_escape_closes() {
    let mut app = app_with_entries();
    press(&mut app, KeyCode::Char('?'));
    assert!(matches!(app.modal, Some(Modal::Help)));
    press(&mut app, KeyCode::Char('j'));
    assert_eq!(app.local.cursor, 0);
    press(&mut app, KeyCode::Esc);
    assert!(app.modal.is_none());
}

#[test]
fn filter_editing() {
    let mut app = app_with_entries();
    press(&mut app, KeyCode::Char('/'));
    assert_eq!(app.input_mode, InputMode::Filter);
    press(&mut app, KeyCode::Char('T'));
    press(&mut app, KeyCode::Char('x'));
    assert_eq!(app.filter_buffer, "Tx");
    assert_eq!(app.local.filter.as_deref(), Some("Tx"));
    let shown: Vec<usize> = app.local.filtered_entries().iter().map(|p| p.0).collect();
    assert_eq!(shown, vec![1, 2]);
    press(&mut app, KeyCode::Backspace);
    press(&mut app, KeyCode::Backspace);
    assert!(app.local.filter.is_none());
    press(&mut app, KeyCode::Backspace);
    assert_eq!(app.filter_buffer, "");
    press(&mut app, KeyCode::Char('d'));
    press(&mut app, KeyCode::Enter);
    assert_eq!(app.input_mode, InputMode::Normal);
    assert_eq!(app.local.filter.as_deref(), Some("d"));
    let shown: Vec<usize> = app.local.filtered_entries().iter().map(|p| p.0).collect();
    assert_eq!(shown, vec![0]);
    press(&mut app, KeyCode::Char('/'));
    press(&mut app, KeyCode::Esc);
    assert!(app.local.filter.is_none());
    let shown: Vec<usize> = app.local.filtered_entries().iter().map(|p| p.0).collect();
    assert_eq!(shown, vec![0, 1, 2]);
}

#[test]
fn rename_dialog_flow() {
    let mut app = app_with_entries();
    press(&mut app, KeyCode::Down);
    press(&mut app, KeyCode::Char('r'));
    match &app.modal {
        Some(Modal::Rename { buffer }) => assert_eq!(buffer, "a.txt"),
        _ => panic!("rename dialog expected"),
    }
    press(&mut app, KeyCode::Backspace);
    press(&mut app, KeyCode::Char('m'));
    match &app.modal {
        Some(Modal::Rename { buffer }) => assert_eq!(buffer, "a.txm"),
        _ => panic!("rename dialog expected"),
    }
    press(&mut app, KeyCode::Char('q'));
    match &app.modal {
        Some(Modal::Rename { buffer }) => assert_eq!(buffer, "a.txmq"),
        _ => panic!("q is typed in the rename dialog"),
    }
    press(&mut app, KeyCode::Backspace);
    let ops = press(&mut app, KeyCode::Enter);
    match &ops[0] {
        Op::Rename { pane, from, to } => {
            assert_eq!(*pane, Pane::Local);
            assert_eq!(from, "/home/user/a.txt");
            assert_eq!(to, "/home/user/a.txm");
        }
        other => panic!("rename expected, got {:?}", other),
    }
    assert!(app.modal.is_none());
    assert_eq!(app.status_message, "renamed to a.txm");
    // the directory is listed anew, and the fake lists nothing
    assert!(app.local.entries.is_empty());
}

#[test]
fn rename_offers_the_single_selected_entry() {
    let mut app = app_with_entries();
    press(&mut app, KeyCode::Down);
    press(&mut app, KeyCode::Down);
    press(&mut app, KeyCode::Char(' '));
    press(&mut app, KeyCode::Up);
    press(&mut app, KeyCode::Char('r'));
    match &app.modal {
        Some(Modal::Rename { buffer }) => assert_eq!(buffer, "b.txt"),
        _ => panic!("rename dialog expected"),
    }
    press(&mut app, KeyCode::Char('2'));
    let ops = press(&mut app, KeyCode::Enter);
    match &ops[0] {
        Op::Rename { from, to, .. } => {
            assert_eq!(from, "/home/user/b.txt");
            assert_eq!(to, "/home/user/b.txt2");
        }
        other => panic!("rename expected, got {:?}", other),
    }
}

#[test]
fn failed_rename_shows_the_error() {
    let mut app = app_with_entries();
    press(&mut app, KeyCode::Char('r'));
    let op = handle(&mut app, key(KeyCode::Enter));
    assert!(matches!(op, Some(Op::Rename { .. })));
    let next = app.resume(Outcome::Done(Err("path not found: /home/user/docs".to_string())));
    assert!(next.is_none());
    match &app.modal {
        Some(Modal::Error { message }) => assert_eq!(message, "path not found: /home/user/docs"),
        _ => panic!("error dialog expected"),
    }
}

#[test]
fn rename_needs_a_single_selection() {
    let mut app = app_with_entries();
    press(&mut app, KeyCode::Char('a'));
    press(&mut app, KeyCode::Char('r'));
    assert!(app.modal.is_none());
    assert_eq!(app.status_message, "select only one item to rename");
}

#[test]
fn create_folder_flow() {
    let mut app = app_with_entries();
    press(&mut app, KeyCode::Char('n'));
    press(&mut app, KeyCode::Enter);
    assert!(app.modal.is_none());
    assert_eq!(app.status_message, "adbrowse - press ? for help");
    press(&mut app, KeyCode::Char('n'));
    press(&mut app, KeyCode::Char('p'));
    press(&mut app, KeyCode::Char('x'));
    press(&mut app, KeyCode::Enter);
    assert_eq!(app.status_message, "created folder px");
}

#[test]
fn delete_asks_then_deletes() {
    let mut app = app_with_entries();
    press(&mut app, KeyCode::Down);
    press(&mut app, KeyCode::Char(' '));
    press(&mut app, KeyCode::Down);
    press(&mut app, KeyCode::Char(' '));
    press(&mut app, KeyCode::Char('d'));
    match &app.modal {
        Some(Modal::ConfirmDelete { paths }) => assert_eq!(paths, &vec!["a.txt".to_string(), "b.txt".to_string()]),
        _ => panic!("confirmation expected"),
    }
    press(&mut app, KeyCode::Char('z'));
    assert!(app.modal.is_some());
    let ops = press(&mut app, KeyCode::Char('y'));
    let descriptions: Vec<String> = ops.iter().map(|op| format!("{:?}", op)).collect();
    assert_eq!(
        descriptions,
        vec![
            "Delete { pane: Local, path: \"/home/user/a.txt\", recursive: false }",
            "Delete { pane: Local, path: \"/home/user/b.txt\", recursive: false }",
            "List { pane: Local, path: \"/home/user\" }",
        ]
    );
    assert!(app.modal.is_none());
    assert_eq!(app.status_message, "deleted b.txt");
}

#[test]
fn delete_stops_at_the_first_failure() {
    let mut app = app_with_entries();
    press(&mut app, KeyCode::Char('a'));
    press(&mut app, KeyCode::Char('d'));
    let first = handle(&mut app, key(KeyCode::Char('y')));
    match &first {
        Some(Op::Delete { path, recursive, .. }) => {
            assert_eq!(path, "/home/user/docs");
            assert!(*recursive);
        }
        other => panic!("delete expected, got {:?}", other),
    }
    let next = app.resume(Outcome::Done(Err("permission denied: /home/user/docs".to_string())));
    assert!(next.is_none());
    match &app.modal {
        Some(Modal::Error { message }) => {
            assert_eq!(message, "failed to delete docs: permission denied: /home/user/docs")
        }
        _ => panic!("error dialog expected"),
    }
}

#[test]
fn delete_can_be_cancelled() {
    let mut app = app_with_entries();
    press(&mut app, KeyCode::Char('d'));
    press(&mut app, KeyCode::Char('N'));
    assert!(app.modal.is_none());
    assert_eq!(app.local.entries.len(), 3);
}

#[test]
fn delete_with_nothing_to_delete() {
    let adb = AdbClient::new(None, true).unwrap();
    let mut app = App::new(adb, "/tmp".to_string());
    press(&mut app, KeyCode::Char('d'));
    assert_eq!(app.status_message, "nothing selected");
    press(&mut app, KeyCode::Char('c'));
    assert_eq!(app.status_message, "nothing to copy");
}

#[test]
fn copy_queues_and_runs_every_job() {
    let mut app = app_with_entries();
    press(&mut app, KeyCode::Char('a'));
    let ops = press(&mut app, KeyCode::Char('c'));
    let descriptions: Vec<String> = ops.iter().map(|op| format!("{:?}", op)).collect();
    assert_eq!(
        descriptions,
        vec![
            "Push { local: \"/home/user/docs\", remote: \"/sdcard/docs\" }",
            "List { pane: Local, path: \"/home/user\" }",
            "Push { local: \"/home/user/a.txt\", remote: \"/sdcard/a.txt\" }",
            "List { pane: Local, path: \"/home/user\" }",
            "Push { local: \"/home/user/b.txt\", remote: \"/sdcard/b.txt\" }",
            "List { pane: Local, path: \"/home/user\" }",
        ]
    );
    let q = &app.transfer_queue;
    assert_eq!(q.jobs.len(), 3);
    assert_eq!(q.jobs[0].source, "/home/user/docs");
    assert_eq!(q.jobs[0].destination, "/sdcard/docs");
    assert!(q.jobs[0].to_android);
    assert!(q.jobs[0].is_dir);
    assert!(q.jobs.iter().all(|j| j.status == TransferStatus::Completed));
    assert_eq!(app.status_message, "transfer complete: /home/user/b.txt");
    press(&mut app, KeyCode::Char('t'));
    assert!(matches!(app.modal, Some(Modal::TransferProgress)));
}

#[test]
fn failed_transfer_is_marked_and_the_next_runs() {
    let mut app = app_with_entries();
    press(&mut app, KeyCode::Char('a'));
    let first = handle(&mut app, key(KeyCode::Char('c')));
    assert!(matches!(first, Some(Op::Push { .. })));
    let next = app.resume(Outcome::Done(Err("no space".to_string())));
    assert_eq!(app.transfer_queue.jobs[0].status, TransferStatus::Failed);
    assert_eq!(app.transfer_queue.jobs[0].error.as_deref(), Some("no space"));
    assert_eq!(app.status_message, "transferring /home/user/a.txt -> /sdcard/a.txt");
    match next {
        Some(Op::Push { local, .. }) => assert_eq!(local, "/home/user/a.txt"),
        other => panic!("next push expected, got {:?}", other),
    }
    assert_eq!(app.transfer_queue.jobs[1].status, TransferStatus::InProgress);
}

#[test]
fn copy_from_device_pulls() {
    let mut app = app_with_entries();
    app.android.entries = vec![entry("DCIM", FileKind::Directory)];
    press(&mut app, KeyCode::Tab);
    let ops = press(&mut app, KeyCode::Char('c'));
    match &ops[0] {
        Op::Pull { remote, local } => {
            assert_eq!(remote, "/sdcard/DCIM");
            assert_eq!(local, "/home/user/DCIM");
        }
        other => panic!("pull expected, got {:?}", other),
    }
    let job = &app.transfer_queue.jobs[0];
    assert!(!job.to_android);
    assert_eq!(job.source, "/sdcard/DCIM");
    assert_eq!(job.destination, "/home/user/DCIM");
}

#[test]
fn cancel_key_without_active_transfer() {
    let mut app = app_with_entries();
    press(&mut app, KeyCode::Char('x'));
    assert_eq!(app.status_message, "adbrowse - press ? for help");
    app.transfer_queue.add("/a".into(), "/b".into(), true, false);
    app.transfer_queue.mark_started(0);
    press(&mut app, KeyCode::Char('x'));
    assert_eq!(app.status_message, "transfer cancelled");
    assert!(!app.transfer_queue.has_active());
}

#[test]
fn enter_opens_directories_only() {
    let mut app = app_with_entries();
    press(&mut app, KeyCode::Down);
    press(&mut app, KeyCode::Enter);
    assert_eq!(app.local.path, "/home/user");
    press(&mut app, KeyCode::Up);
    press(&mut app, KeyCode::Char('l'));
    assert_eq!(app.local.path, "/home/user/docs");
    assert_eq!(app.local.cursor, 0);
    press(&mut app, KeyCode::Backspace);
    assert_eq!(app.local.path, "/home/user");
    press(&mut app, KeyCode::Char('h'));
    press(&mut app, KeyCode::Char('h'));
    assert_eq!(app.local.path, "/");
    press(&mut app, KeyCode::Char('h'));
    assert_eq!(app.local.path, "/");
}

#[test]
fn device_picker_takes_first_device() {
    let mut app = app_with_entries();
    app.adb.serial = None;
    app.modal = Some(Modal::DevicePicker {
        devices: vec![
            adbrowse::file_entry::Device { serial: "one".into(), state: "device".into() },
            adbrowse::file_entry::Device { serial: "two".into(), state: "device".into() },
        ],
    });
    press(&mut app, KeyCode::Down);
    assert!(app.modal.is_some());
    press(&mut app, KeyCode::Enter);
    assert!(app.modal.is_none());
    assert_eq!(app.adb.serial.as_deref(), Some("one"));
    assert_eq!(app.status_message, "device selected");
}

#[test]
fn startup_without_device_shows_error() {
    let adb = AdbClient::new(None, true).unwrap();
    let mut app = App::new(adb, "/tmp".to_string());
    let first = app.start();
    assert!(matches!(first, Some(Op::Devices)));
    let ops = run(&mut app, first);
    match &app.modal {
        Some(Modal::Error { message }) => {
            assert_eq!(message, "No Android device connected. Connect a device and press R to retry.")
        }
        _ => panic!("error dialog expected"),
    }
    assert_eq!(ops.len(), 2);
    assert!(matches!(&ops[1], Op::List { pane: Pane::Local, .. }));
    assert!(!app.local.loading);
}

#[test]
fn startup_with_one_ready_device_takes_it_and_lists_both() {
    let adb = AdbClient::new(None, true).unwrap();
    let mut app = App::new(adb, "/tmp".to_string());
    app.start();
    let devices = vec![
        adbrowse::file_entry::Device { serial: "old".into(), state: "unauthorized".into() },
        adbrowse::file_entry::Device { serial: "abc".into(), state: "device".into() },
    ];
    let next = app.resume(Outcome::Found(Ok(devices)));
    assert_eq!(app.adb.serial.as_deref(), Some("abc"));
    assert!(matches!(next, Some(Op::List { pane: Pane::Local, .. })));
    assert!(app.local.loading);
    let next = app.resume(Outcome::Listed(Ok(vec![entry("b", FileKind::File), entry("a", FileKind::Directory)])));
    assert_eq!(app.local.entries[0].name, "a");
    assert!(!app.local.loading);
    match next {
        Some(Op::List { pane: Pane::Android, path }) => assert_eq!(path, "/sdcard"),
        other => panic!("device listing expected, got {:?}", other),
    }
    let next = app.resume(Outcome::Listed(Err("device offline".to_string())));
    assert!(next.is_none());
    match &app.modal {
        Some(Modal::Error { message }) => assert_eq!(message, "Failed to load directories: device offline"),
        _ => panic!("error dialog expected"),
    }
}

#[test]
fn startup_with_serial_keeps_it() {
    let adb = AdbClient::new(Some("abc123".to_string()), true).unwrap();
    let mut app = App::new(adb, "/tmp".to_string());
    let ops = run(&mut app, None);
    assert!(ops.is_empty());
    let first = app.start();
    let ops = run(&mut app, first);
    assert!(app.modal.is_none());
    assert_eq!(app.adb.serial.as_deref(), Some("abc123"));
    assert_eq!(ops.len(), 2);
}

#[test]
fn select_all_then_delete_lists_every_entry() {
    let mut app = app_with_entries();
    press(&mut app, KeyCode::Char('a'));
    press(&mut app, KeyCode::Char('d'));
    match &app.modal {
        Some(Modal::ConfirmDelete { paths }) => assert_eq!(
            paths,
            &vec!["docs".to_string(), "a.txt".to_string(), "b.txt".to_string()]
        ),
        _ => panic!("confirmation expected"),
    }
}

#[test]
fn escape_clears_selection_so_cursor_entry_is_chosen() {
    let mut app = app_with_entries();
    press(&mut app, KeyCode::Char(' '));
    press(&mut app, KeyCode::Down);
    press(&mut app, KeyCode::Char(' '));
    press(&mut app, KeyCode::Esc);
    assert!(app.local.selected.is_empty());
    press(&mut app, KeyCode::Char('d'));
    match &app.modal {
        Some(Modal::ConfirmDelete { paths }) => assert_eq!(paths, &vec!["a.txt".to_string()]),
        _ => panic!("confirmation expected"),
    }
}

#[test]
fn cursor_stays_on_an_entry_or_at_the_top() {
    let mut app = app_with_entries();
    press(&mut app, KeyCode::PageDown);
    assert_eq!(app.local.cursor, 2);
    press(&mut app, KeyCode::Char('R'));
    assert!(app.local.entries.is_empty());
    assert_eq!(app.local.cursor, 0);
    press(&mut app, KeyCode::Down);
    press(&mut app, KeyCode::PageDown);
    assert_eq!(app.local.cursor, 0);
}

#[test]
fn jobs_stay_queued_and_finished_jobs_stay_finished() {
    let mut app = app_with_entries();
    press(&mut app, KeyCode::Char('a'));
    press(&mut app, KeyCode::Char('c'));
    app.android.entries = vec![entry("DCIM", FileKind::Directory)];
    press(&mut app, KeyCode::Tab);
    press(&mut app, KeyCode::Char('c'));
    let q = &app.transfer_queue;
    assert_eq!(q.jobs.len(), 4);
    let ids: Vec<usize> = q.jobs.iter().map(|j| j.id).collect();
    assert_eq!(ids, vec![0, 1, 2, 3]);
    assert_eq!(q.jobs[0].source, "/home/user/docs");
    assert_eq!(q.jobs[3].source, "/sdcard/DCIM");
    assert_eq!(q.jobs[3].destination, "/home/user/DCIM");
    assert!(!q.jobs[3].to_android);
    assert!(q.jobs.iter().all(|j| j.status == TransferStatus::Completed));
    press(&mut app, KeyCode::Char('x'));
    assert_eq!(app.transfer_queue.jobs[0].status, TransferStatus::Completed);
}

#[test]
fn device_listing_falls_back_to_ls() {
    let mut app = app_with_entries();
    press(&mut app, KeyCode::Tab);
    let op = handle(&mut app, key(KeyCode::Char('R')));
    assert!(matches!(op, Some(Op::List { pane: Pane::Android, .. })));
    assert!(app.android.loading);
    let next = app.resume(Outcome::Unsupported);
    match next {
        Some(Op::ListPlain { path }) => assert_eq!(path, "/sdcard"),
        other => panic!("plain listing expected, got {:?}", other),
    }
    let next = app.resume(Outcome::Listed(Ok(vec![entry("z", FileKind::File), entry("Music", FileKind::Directory)])));
    assert!(next.is_none());
    assert!(!app.android.loading);
    assert_eq!(app.android.entries[0].name, "Music");
}

#[test]
fn each_success_lists_anew_even_when_the_last_fails() {
    let mut app = app_with_entries();
    press(&mut app, KeyCode::Down);
    press(&mut app, KeyCode::Char(' '));
    press(&mut app, KeyCode::Down);
    press(&mut app, KeyCode::Char(' '));
    let first = handle(&mut app, key(KeyCode::Char('c')));
    assert!(matches!(first, Some(Op::Push { .. })));
    let next = app.resume(Outcome::Done(Ok(())));
    assert!(matches!(next, Some(Op::List { pane: Pane::Local, .. })));
    assert!(app.local.loading);
    let next = app.resume(Outcome::Listed(Ok(vec![])));
    assert!(matches!(next, Some(Op::Push { .. })));
    let next = app.resume(Outcome::Done(Err("disk full".to_string())));
    assert!(next.is_none());
    assert_eq!(app.transfer_queue.jobs[0].status, TransferStatus::Completed);
    assert_eq!(app.transfer_queue.jobs[1].status, TransferStatus::Failed);
    assert_eq!(app.status_message, "transfer failed: disk full");
}

#[test]
fn a_cancelled_job_stays_cancelled_when_its_outcome_comes() {
    let mut app = app_with_entries();
    let first = handle(&mut app, key(KeyCode::Char('c')));
    assert!(matches!(first, Some(Op::Push { .. })));
    assert!(handle(&mut app, key(KeyCode::Char('x'))).is_none());
    assert_eq!(app.transfer_queue.jobs[0].status, TransferStatus::Failed);
    app.resume(Outcome::Done(Ok(())));
    assert_eq!(app.transfer_queue.jobs[0].status, TransferStatus::Failed);
    assert_eq!(app.transfer_queue.jobs[0].error.as_deref(), Some("cancelled"));
}

#[test]
fn highlighted_row_follows_the_filter() {
    let mut app = app_with_entries();
    press(&mut app, KeyCode::Down);
    press(&mut app, KeyCode::Down);
    assert_eq!(app.local.highlighted_row(), Some(2));
    press(&mut app, KeyCode::Char('/'));
    press(&mut app, KeyCode::Char('t'));
    press(&mut app, KeyCode::Char('x'));
    press(&mut app, KeyCode::Char('t'));
    assert_eq!(app.local.highlighted_row(), Some(1));
    press(&mut app, KeyCode::Esc);
    press(&mut app, KeyCode::Char('/'));
    press(&mut app, KeyCode::Char('d'));
    assert_eq!(app.local.highlighted_row(), None);
}
