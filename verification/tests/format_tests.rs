use hermit::engine::completer::CommandCompleter;
use hermit::strutil::u64_string;
use hermit::utils::{format_size, format_time, grid_plan, FileEntry};

#[test]
fn test_u64_string() {
    assert_eq!(u64_string(0), "0");
    assert_eq!(u64_string(7), "7");
    assert_eq!(u64_string(12345), "12345");
}

#[test]
fn test_format_size() {
    assert_eq!(format_size(0), "0");
    assert_eq!(format_size(1), "1.0B");
    assert_eq!(format_size(512), "512.0B");
    assert_eq!(format_size(1024), "1.0KB");
    assert_eq!(format_size(1536), "1.5KB");
    assert_eq!(format_size(1048576), "1.0MB");
    assert_eq!(format_size(1073741824), "1.0GB");
}

#[test]
fn test_format_time() {
    assert_eq!(format_time(0, 30), "30s");
    assert_eq!(format_time(0, 59), "59s");
    assert_eq!(format_time(0, 60), "1m");
    assert_eq!(format_time(0, 3599), "59m");
    assert_eq!(format_time(0, 3600), "1h");
    assert_eq!(format_time(0, 86399), "23h");
    assert_eq!(format_time(0, 86400), "1d");
    assert_eq!(format_time(100, 40), "-60s");
}

#[test]
fn test_format_permissions() {
    let dir = FileEntry {
        name: "d".to_string(),
        mode: 0o755,
        nlink: 2,
        size: 0,
        mtime: 0,
        is_dir: true,
        is_symlink: false,
    };
    assert_eq!(dir.format_permissions(), "drwxr-xr-x");
    let file = FileEntry {
        name: "f".to_string(),
        mode: 0o644,
        nlink: 1,
        size: 0,
        mtime: 0,
        is_dir: false,
        is_symlink: false,
    };
    assert_eq!(file.format_permissions(), "-rw-r--r--");
    let link = FileEntry {
        name: "l".to_string(),
        mode: 0o777,
        nlink: 1,
        size: 0,
        mtime: 0,
        is_dir: false,
        is_symlink: true,
    };
    assert_eq!(link.format_permissions(), "lrwxrwxrwx");
}

#[test]
fn test_format_long() {
    let file = FileEntry {
        name: "f".to_string(),
        mode: 0o644,
        nlink: 1,
        size: 0,
        mtime: 0,
        is_dir: false,
        is_symlink: false,
    };
    assert_eq!(file.format_long(30), "-rw-r--r--    1        0 30s");
}

#[test]
fn test_grid_plan() {
    let widths = vec![3usize, 5, 2];
    let plan = grid_plan(&widths, 80);
    assert_eq!(plan.col_width, 7);
    assert_eq!(plan.num_cols, 11);
    assert_eq!(plan.num_rows, 1);

    let narrow = grid_plan(&widths, 0);
    assert_eq!(narrow.num_cols, 1);
    assert_eq!(narrow.num_rows, 3);

    let two_cols = grid_plan(&widths, 15);
    assert_eq!(two_cols.num_cols, 2);
    assert_eq!(two_cols.num_rows, 2);
}

#[test]
fn test_completer_matching() {
    let completer = CommandCompleter::new(vec!["echo", "cd", "ls", "pwd", "history", "type"]);
    // case-insensitive: the word is lowercased before matching
    assert_eq!(completer.matching_commands("ECHO"), vec!["echo".to_string()]);
    // a word occurring inside a command offers that command
    assert_eq!(completer.matching_commands("stor"), vec!["history".to_string()]);
    // the empty word matches every command
    assert_eq!(completer.matching_commands("").len(), 6);
    // no match, no offer
    assert_eq!(completer.matching_commands("zzz").len(), 0);
}
