use adbrowse::adb::{
    adb_args, devices_outcome, failure, listing_outcome, outcome, parse_devices, parse_listing, AdbClient,
    AdbOutput,
};
use adbrowse::adb::device_listing;
use adbrowse::error::AppError;
use adbrowse::ops::Outcome;
use adbrowse::file_entry::{sort_entries, FileEntry, FileKind};
use adbrowse::text::{parse_u64, shell_quote, split_text};

fn client() -> AdbClient {
    AdbClient::new(Some("abc123".to_string()), true).unwrap()
}

fn out(success: bool, stdout: &str, stderr: &str) -> AdbOutput {
    AdbOutput { success, stdout: stdout.to_string(), stderr: stderr.to_string() }
}

#[test]
fn missing_adb_is_reported() {
    assert!(matches!(AdbClient::new(None, false), Err(AppError::AdbNotFound)));
    assert_eq!(AdbClient::new(None, true).unwrap().serial, None);
}

#[test]
fn arguments_name_the_device_and_keep_paths_whole() {
    let c = client();
    assert_eq!(c.push("/home/u/my file", "/sdcard/my file"), vec!["-s", "abc123", "push", "/home/u/my file", "/sdcard/my file"]);
    assert_eq!(c.pull("/sdcard/a", "/tmp/a"), vec!["-s", "abc123", "pull", "/sdcard/a", "/tmp/a"]);
    assert_eq!(c.mkdir("/sdcard/it's"), vec!["-s", "abc123", "shell", "mkdir '/sdcard/it'\\''s'"]);
    assert_eq!(c.delete("/sdcard/d", true), vec!["-s", "abc123", "shell", "rm -r '/sdcard/d'"]);
    assert_eq!(c.delete("/sdcard/f", false), vec!["-s", "abc123", "shell", "rm '/sdcard/f'"]);
    assert_eq!(c.rename("/sdcard/a b", "/sdcard/c"), vec!["-s", "abc123", "shell", "mv '/sdcard/a b' '/sdcard/c'"]);
    assert_eq!(
        c.list_dir("/sdcard/$HOME"),
        vec![
            "-s",
            "abc123",
            "shell",
            "find '/sdcard/$HOME' -mindepth 1 -maxdepth 1 -printf '%y\\t%s\\t%TY-%Tm-%Td %TH:%TM\\t%f\\n'",
        ]
    );
    assert_eq!(c.device_list(), vec!["devices"]);
    let none = AdbClient::new(None, true).unwrap();
    assert_eq!(none.push("a", "b"), vec!["push", "a", "b"]);
    assert_eq!(adb_args(&Some("x".to_string()), &["shell".to_string()]), vec!["-s", "x", "shell"]);
}

#[test]
fn shell_quoting() {
    assert_eq!(shell_quote(""), "''");
    assert_eq!(shell_quote("a b;c"), "'a b;c'");
    assert_eq!(shell_quote("'"), "''\\'''");
}

#[test]
fn splitting_and_numbers() {
    assert_eq!(split_text("a\tb\t", '\t'), vec!["a", "b", ""]);
    assert_eq!(split_text("", '\n'), vec![""]);
    assert_eq!(parse_u64("4096"), Some(4096));
    assert_eq!(parse_u64("18446744073709551615"), Some(u64::MAX));
    assert_eq!(parse_u64("18446744073709551616"), None);
    assert_eq!(parse_u64("12a"), None);
    assert_eq!(parse_u64(""), None);
}

#[test]
fn devices_from_adb_devices() {
    let text = "List of devices attached\nabc123\tdevice\r\nemulator-5554\tunauthorized\n\n";
    let devices = parse_devices(text);
    assert_eq!(devices.len(), 2);
    assert_eq!(devices[0].serial, "abc123");
    assert_eq!(devices[0].state, "device");
    assert_eq!(devices[1].serial, "emulator-5554");
    assert_eq!(devices[1].state, "unauthorized");
    assert_eq!(devices_outcome(&out(true, text, "")).unwrap().len(), 2);
}

#[test]
fn listing_from_find() {
    let text = "d\t4096\t2024-01-02 10:30\tDCIM\nf\t12\t2024-01-03 11:00\t.nomedia\nl\t7\t2024-01-03 11:00\tlink\nbad line\n";
    let entries = parse_listing(text);
    assert_eq!(entries.len(), 3);
    assert_eq!(entries[0].name, "DCIM");
    assert_eq!(entries[0].kind, FileKind::Directory);
    assert_eq!(entries[0].modified.as_deref(), Some("2024-01-02 10:30"));
    assert_eq!(entries[1].name, ".nomedia");
    assert_eq!(entries[1].size, 12);
    assert_eq!(entries[2].kind, FileKind::Symlink);
    assert_eq!(listing_outcome(&out(true, text, "")).unwrap().len(), 3);
}

#[test]
fn failures_are_told_apart() {
    assert!(matches!(
        outcome(&out(false, "", "adb: device unauthorized.\nmore"), false),
        Err(AppError::Unauthorized)
    ));
    assert!(matches!(outcome(&out(false, "", "error: no devices/emulators found\n"), false), Err(AppError::NoDevice)));
    match listing_outcome(&out(false, "find: /sdcard/x: No such file or directory\n", "")) {
        Err(AppError::NotFound(m)) => assert_eq!(m, "find: /sdcard/x: No such file or directory"),
        other => panic!("not found expected, got {:?}", other),
    }
    match outcome(&out(false, "", "rm: /system/x: Permission denied\r\n"), false) {
        Err(AppError::PermissionDenied(m)) => assert_eq!(m, "rm: /system/x: Permission denied"),
        other => panic!("permission denied expected, got {:?}", other),
    }
    assert!(matches!(outcome(&out(false, "", "adb: error: disk full"), true), Err(AppError::TransferFailed(_))));
    assert!(matches!(outcome(&out(false, "", "rm: x: is a directory"), false), Err(AppError::Adb(_))));
    assert!(outcome(&out(true, "", ""), false).is_ok());
    assert!(matches!(failure("odd".to_string(), false), AppError::Adb(_)));
}

#[test]
fn listings_sort_directories_first_and_keep_ties() {
    let e = |name: &str, kind: FileKind| FileEntry { name: name.into(), kind, size: 0, modified: None };
    let sorted = sort_entries(vec![
        e("b.txt", FileKind::File),
        e("Zeta", FileKind::Directory),
        e("README", FileKind::File),
        e("alpha", FileKind::Directory),
        e("readme", FileKind::File),
    ]);
    let names: Vec<&str> = sorted.iter().map(|x| x.name.as_str()).collect();
    assert_eq!(names, vec!["alpha", "Zeta", "b.txt", "README", "readme"]);
}

#[test]
fn listing_from_ls() {
    let text = "total 24\ndrwxrwx--x  4 root sdcard_rw 3452 2024-01-01 12:00 .\ndrwxrwx--x  4 root sdcard_rw 3452 2024-01-01 12:00 ..\ndrwxrwx--x  2 root sdcard_rw 3452 2024-01-02 09:15 My Photos\n-rw-rw----  1 root sdcard_rw  120 2024-01-03 10:00 .hidden\nlrwxrwxrwx  1 root root         7 2024-01-04 11:00 link -> target\n";
    let entries = adbrowse::adb::parse_ls(text);
    assert_eq!(entries.len(), 3);
    assert_eq!(entries[0].name, "My Photos");
    assert_eq!(entries[0].kind, FileKind::Directory);
    assert_eq!(entries[0].size, 3452);
    assert_eq!(entries[0].modified.as_deref(), Some("2024-01-02 09:15"));
    assert_eq!(entries[1].name, ".hidden");
    assert_eq!(entries[1].size, 120);
    assert_eq!(entries[2].name, "link");
    assert_eq!(entries[2].kind, FileKind::Symlink);
    assert_eq!(
        client().list_plain("/sdcard/a b"),
        vec!["-s", "abc123", "shell", "ls -la '/sdcard/a b'"]
    );
}

#[test]
fn find_without_printf_falls_back_to_ls() {
    let unsupported = out(false, "", "find: Unknown option '-printf'\n");
    assert!(matches!(device_listing(&unsupported, false), Outcome::Unsupported));
    match device_listing(&unsupported, true) {
        Outcome::Listed(Err(m)) => assert_eq!(m, "adb error: find: Unknown option '-printf'"),
        other => panic!("error expected, got {:?}", other),
    }
    match device_listing(&out(false, "", "find: /x: No such file or directory"), false) {
        Outcome::Listed(Err(m)) => assert_eq!(m, "path not found: find: /x: No such file or directory"),
        other => panic!("error expected, got {:?}", other),
    }
}
