use adbrowse::error::AppError;
use adbrowse::event::{event_from, Event, EventHandler, KeyCode, KeyEvent, KeyEventKind, TermEvent};
use adbrowse::file_entry::{Device, FileEntry, FileKind};
use adbrowse::list_app;
use adbrowse::transfer::TransferQueue;
use adbrowse::ui_text::{
    centered_margin, confirm_delete_lines, device_line, entry_row, job_line, pane_title, transfer_bar_text,
};
use adbrowse::app::Pane;

#[test]
fn error_messages() {
    assert_eq!(AppError::NoDevice.message(), "no Android device connected");
    assert_eq!(AppError::Adb("boom".into()).message(), "adb error: boom");
    assert_eq!(AppError::PermissionDenied("/x".into()).message(), "permission denied: /x");
    assert_eq!(AppError::NotFound("/y".into()).message(), "path not found: /y");
    assert_eq!(AppError::TransferFailed("z".into()).message(), "transfer failed: z");
    assert_eq!(
        AppError::AdbNotFound.message(),
        "adb not found in PATH – install with: brew install android-platform-tools"
    );
    assert_eq!(
        AppError::Unauthorized.message(),
        "device unauthorized – check your phone and accept the USB debugging prompt"
    );
    let io = std::io::Error::new(std::io::ErrorKind::Other, "disk full");
    assert_eq!(AppError::Io(io).message(), "disk full");
}

#[test]
fn events_from_terminal() {
    let press = KeyEvent { code: KeyCode::Enter, kind: KeyEventKind::Press };
    let release = KeyEvent { code: KeyCode::Enter, kind: KeyEventKind::Release };
    assert_eq!(event_from(None), Event::Tick);
    assert_eq!(event_from(Some(TermEvent::Key(press))), Event::Key(press));
    assert_eq!(event_from(Some(TermEvent::Key(release))), Event::Tick);
    assert_eq!(event_from(Some(TermEvent::Resize(80, 24))), Event::Resize(80, 24));
    assert_eq!(event_from(Some(TermEvent::Other)), Event::Tick);
    assert_eq!(EventHandler::new(250).tick_rate_ms(), 250);
}

#[test]
fn list_app_keys() {
    let mut app = list_app::App::new("demo");
    assert_eq!(app.items, vec!["Item 1", "Item 2", "Item 3"]);
    let down = KeyEvent { code: KeyCode::Down, kind: KeyEventKind::Press };
    let up = KeyEvent { code: KeyCode::Char('k'), kind: KeyEventKind::Press };
    assert!(!app.handle_key_event(down));
    assert!(!app.handle_key_event(down));
    assert!(!app.handle_key_event(down));
    assert_eq!(app.cursor_index, 2);
    assert!(!app.handle_key_event(up));
    assert_eq!(app.cursor_index, 1);
    let quit = KeyEvent { code: KeyCode::Esc, kind: KeyEventKind::Press };
    assert!(app.handle_key_event(quit));
    assert!(app.should_quit);
    app.tick();
}

#[test]
fn row_text() {
    let dir = FileEntry { name: "docs".into(), kind: FileKind::Directory, size: 0, modified: None };
    let (left, right) = entry_row(&dir, 24);
    assert_eq!(left, " docs      /");
    assert_eq!(right, "          ");
    let file = FileEntry { name: "a-very-long-name.txt".into(), kind: FileKind::File, size: 2048, modified: None };
    let (left, right) = entry_row(&file, 24);
    assert_eq!(left, " a-very-lo...");
    assert_eq!(right, "      2.0K");
    let (left, _) = entry_row(&file, 3);
    assert_eq!(left, " ...");
    // "ééééé" takes ten bytes; the room of a 20-wide pane is six, so the
    // cut before its last byte keeps the two characters within five bytes.
    let accented = FileEntry { name: "ééééé".into(), kind: FileKind::File, size: 1, modified: None };
    let (left, _) = entry_row(&accented, 20);
    assert_eq!(left, " éé...");
}

#[test]
fn list_app_down_on_an_empty_list() {
    let mut app = list_app::App::new("demo");
    app.items.clear();
    let down = KeyEvent { code: KeyCode::Char('j'), kind: KeyEventKind::Press };
    assert!(!app.handle_key_event(down));
    assert_eq!(app.cursor_index, 0);
}

#[test]
fn bar_and_dialog_text() {
    let mut q = TransferQueue::new();
    assert_eq!(transfer_bar_text(&q), "");
    let a = q.add("/a".into(), "/b".into(), true, false);
    q.mark_started(a);
    assert_eq!(transfer_bar_text(&q), " Transferring: /a -> /b");
    assert_eq!(job_line(&q.jobs[0]), " >> /a -> /b");
    q.mark_completed(a);
    let b = q.add("/c".into(), "/d".into(), true, false);
    q.mark_failed(b, "x".into());
    assert_eq!(transfer_bar_text(&q), " Transfers: 1 completed, 1 failed");
    assert_eq!(pane_title(Pane::Android, "/sdcard"), " Android /sdcard ");
    let d = Device { serial: "abc".into(), state: "unauthorized".into() };
    assert_eq!(device_line(&d), " [?] abc (unauthorized)");
    let paths: Vec<String> = (0..12).map(|i| format!("f{}", i)).collect();
    let lines = confirm_delete_lines(&paths);
    assert_eq!(lines.len(), 11);
    assert_eq!(lines[0], "  f0");
    assert_eq!(lines[10], "  ... and 2 more");
    assert_eq!(centered_margin(60), 20);
}
