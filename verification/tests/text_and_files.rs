use mineserv::errors::FileError;
use mineserv::files::{safe_join, read_size_guard, sort_files, file_le, FileInfo, MAX_READ_BYTES};
use mineserv::text::{parse_pid, u64_to_dec};

#[test]
fn decimal_rendering_is_exact() {
    assert_eq!(u64_to_dec(0), "0");
    assert_eq!(u64_to_dec(7), "7");
    assert_eq!(u64_to_dec(31337), "31337");
    assert_eq!(u64_to_dec(4294967295), "4294967295");
}

#[test]
fn pid_parsing_accepts_decimal_with_whitespace() {
    assert_eq!(parse_pid("1234"), Some(1234));
    assert_eq!(parse_pid("  1234\n"), Some(1234));
    assert_eq!(parse_pid("0"), Some(0));
    assert_eq!(parse_pid("4294967295"), Some(4294967295));
}

#[test]
fn pid_parsing_rejects_garbage_and_overflow() {
    assert_eq!(parse_pid(""), None);
    assert_eq!(parse_pid("   "), None);
    assert_eq!(parse_pid("12a4"), None);
    assert_eq!(parse_pid("-5"), None);
    assert_eq!(parse_pid("4294967296"), None);
    assert_eq!(parse_pid("999999999999999999999"), None);
}

#[test]
fn rendered_pids_parse_back() {
    for pid in [0u32, 1, 25565, 4294967295] {
        assert_eq!(parse_pid(&u64_to_dec(pid as u64)), Some(pid));
    }
}

#[test]
fn safe_join_rejects_escapes() {
    assert_eq!(safe_join("/srv/a", "../etc/passwd"), Err(FileError::InvalidPath));
    assert_eq!(safe_join("/srv/a", "x/../../y"), Err(FileError::InvalidPath));
    assert_eq!(safe_join("/srv/a", "/etc/passwd"), Err(FileError::InvalidPath));
    assert_eq!(safe_join("/srv/a", ".."), Err(FileError::InvalidPath));
}

#[test]
fn safe_join_joins_plain_tails() {
    assert_eq!(safe_join("/srv/a", "world/level.dat"), Ok("/srv/a/world/level.dat".to_string()));
    assert_eq!(safe_join("/srv/a", ""), Ok("/srv/a/".to_string()));
    assert_eq!(safe_join("/srv/a", "a.b.txt"), Ok("/srv/a/a.b.txt".to_string()));
}

#[test]
fn read_guard_enforces_the_ceiling() {
    assert_eq!(read_size_guard(0), Ok(()));
    assert_eq!(read_size_guard(MAX_READ_BYTES), Ok(()));
    assert_eq!(read_size_guard(MAX_READ_BYTES + 1), Err(FileError::FileTooLarge));
}

fn fi(name: &str, is_dir: bool) -> FileInfo {
    FileInfo {
        name: name.to_string(),
        path: name.to_string(),
        is_dir,
        size: 0,
        last_modified: 0,
    }
}

#[test]
fn listing_order_puts_directories_first_case_insensitively() {
    let files = vec![
        fi("Zeta.txt", false),
        fi("alpha.txt", false),
        fi("Worlds", true),
        fi("backups", true),
    ];
    let sorted = sort_files(files);
    let names: Vec<&str> = sorted.iter().map(|f| f.name.as_str()).collect();
    assert_eq!(names, vec!["backups", "Worlds", "alpha.txt", "Zeta.txt"]);
}

#[test]
fn comparator_lowercases_before_comparing() {
    // byte order alone would put "B" before "a"
    assert!(file_le(&fi("a.txt", false), &fi("B.txt", false)));
    assert!(!file_le(&fi("B.txt", false), &fi("a.txt", false)));
    // a directory precedes any file
    assert!(file_le(&fi("zzz", true), &fi("aaa", false)));
    assert!(!file_le(&fi("aaa", false), &fi("zzz", true)));
}

#[test]
fn sort_keeps_every_entry() {
    let files = vec![fi("b", false), fi("a", false), fi("a", false)];
    let sorted = sort_files(files);
    assert_eq!(sorted.len(), 3);
    assert_eq!(sorted[0].name, "a");
    assert_eq!(sorted[1].name, "a");
    assert_eq!(sorted[2].name, "b");
}
