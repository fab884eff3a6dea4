use adbrowse::file_entry::{format_size, FileEntry, FileKind};

fn entry(name: &str, kind: FileKind, size: u64) -> FileEntry {
    FileEntry {
        name: name.to_string(),
        kind,
        size,
        modified: None,
    }
}

#[test]
fn directories_sort_before_files() {
    let dir = FileEntry {
        name: "zzz".into(),
        kind: FileKind::Directory,
        size: 0,
        modified: None,
    };
    let file = FileEntry {
        name: "aaa".into(),
        kind: FileKind::File,
        size: 10,
        modified: None,
    };
    assert!(dir < file);
}

#[test]
fn format_size_units() {
    assert_eq!(format_size(0), "0B");
    assert_eq!(format_size(500), "500B");
    assert_eq!(format_size(1024), "1.0K");
    assert_eq!(format_size(1048576), "1.0M");
    assert_eq!(format_size(1073741824), "1.0G");
}

#[test]
fn case_insensitive_sort() {
    let a = FileEntry {
        name: "Banana".into(),
        kind: FileKind::File,
        size: 0,
        modified: None,
    };
    let b = FileEntry {
        name: "apple".into(),
        kind: FileKind::File,
        size: 0,
        modified: None,
    };
    assert!(b < a);
}

#[test]
fn format_size_rounds_to_one_decimal() {
    assert_eq!(format_size(1023), "1023B");
    assert_eq!(format_size(1536), "1.5K");
    assert_eq!(format_size(1075), "1.0K");
    assert_eq!(format_size(1076), "1.1K");
    assert_eq!(format_size(1048575), "1024.0K");
    assert_eq!(format_size(5 * 1073741824 + 536870912), "5.5G");
}

#[test]
fn format_size_matches_float_formatting() {
    let samples: [u64; 12] = [
        1024,
        1126,
        1127,
        10239,
        123456789,
        987654321012,
        (1u64 << 53) + 1,
        u64::MAX,
        u64::MAX - 12345,
        1099511627776,
        1u64 << 63,
        18014398509481985,
    ];
    for size in samples {
        let expected = if size >= 1073741824 {
            format!("{:.1}G", size as f64 / 1073741824.0)
        } else if size >= 1048576 {
            format!("{:.1}M", size as f64 / 1048576.0)
        } else {
            format!("{:.1}K", size as f64 / 1024.0)
        };
        assert_eq!(format_size(size), expected, "size {}", size);
    }
}

#[test]
fn format_size_ties_go_to_even_tenth() {
    // 1.25K and 1.75K lie exactly between two tenths.
    assert_eq!(format_size(1280), format!("{:.1}K", 1280f64 / 1024.0));
    assert_eq!(format_size(1792), format!("{:.1}K", 1792f64 / 1024.0));
}

#[test]
fn equal_names_in_other_case_compare_equal() {
    let a = entry("README", FileKind::File, 1);
    let b = entry("readme", FileKind::File, 2);
    assert_eq!(a.partial_cmp(&b), Some(std::cmp::Ordering::Equal));
}

#[test]
fn symlinks_sort_with_files() {
    let link = entry("a-link", FileKind::Symlink, 0);
    let dir = entry("z-dir", FileKind::Directory, 0);
    let file = entry("b-file", FileKind::File, 0);
    assert!(dir < link);
    assert!(link < file);
    assert!(file > link);
}

#[test]
fn shorter_name_sorts_first() {
    let a = entry("abc", FileKind::File, 0);
    let b = entry("abcd", FileKind::File, 0);
    assert!(a < b);
    assert!(b > a);
}

#[test]
fn is_dir_only_for_directories() {
    assert!(entry("d", FileKind::Directory, 0).is_dir());
    assert!(!entry("f", FileKind::File, 0).is_dir());
    assert!(!entry("l", FileKind::Symlink, 0).is_dir());
}
