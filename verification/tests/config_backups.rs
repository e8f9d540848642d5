use arkavo_protocol::config_backups::{backup_file_name, is_backup_file, list_backups, BackupEntry};

fn entry(name: &str, size: u64, text: Option<&str>) -> BackupEntry {
    (name.to_string(), size, text.map(|t| t.to_string()))
}

#[test]
fn backups_are_listed_newest_first() {
    let now = (1_700_000_000i64, 5u32);
    let entries = vec![
        entry("AGENTS.md.2023-12-31-235959.backup", 4, Some("## a")),
        entry("notes.txt", 1, Some("x")),
        entry("AGENTS.md.2024-01-02-030405.backup", 4, Some("## b")),
        entry("AGENTS.md.unreadable.backup", 9, None),
        entry("AGENTS.md.garbage.backup", 0, Some("")),
    ];
    let listed = list_backups(&entries, now);
    assert_eq!(listed.len(), 3);
    assert_eq!(listed[0].filename, "AGENTS.md.2024-01-02-030405.backup");
    assert_eq!((listed[0].timestamp_secs, listed[0].timestamp_nanos), (1_704_164_645, 0));
    assert_eq!(listed[0].size, 4);
    assert_eq!(listed[0].version, "369e15308a0d890395e1d865256431c5e65e36300ac93ae912976ef9580e099a");
    assert_eq!(listed[1].filename, "AGENTS.md.2023-12-31-235959.backup");
    assert_eq!(listed[1].timestamp_secs, 1_704_067_199);
    assert_eq!(listed[1].version, "3b6f0ef0d9fe8824007218ca9ce2ec0d936344c8210983e3948bb2f31334ad9e");
    // A name without a readable time takes the listing time.
    assert_eq!(listed[2].filename, "AGENTS.md.garbage.backup");
    assert_eq!((listed[2].timestamp_secs, listed[2].timestamp_nanos), now);
    assert_eq!(listed[2].version, "e3b0c44298fc1c149afbf4c8996fb92427ae41e4649b934ca495991b7852b855");
}

#[test]
fn equal_times_keep_their_order() {
    let entries = vec![
        entry("AGENTS.md.b.backup", 1, Some("1")),
        entry("AGENTS.md.a.backup", 2, Some("2")),
        entry("AGENTS.md.backup", 3, Some("3")),
    ];
    let listed = list_backups(&entries, (10, 0));
    let names: Vec<&str> = listed.iter().map(|b| b.filename.as_str()).collect();
    assert_eq!(names, vec!["AGENTS.md.b.backup", "AGENTS.md.a.backup", "AGENTS.md.backup"]);
    assert!(list_backups(&[], (0, 0)).is_empty());
}

#[test]
fn backup_names_carry_the_time() {
    assert_eq!(backup_file_name((1_704_164_645, 0)).as_deref(), Some("AGENTS.md.2024-01-02-030405.backup"));
    assert_eq!(backup_file_name((i64::MAX, 0)), None);
    assert!(is_backup_file("AGENTS.md.2024-01-02-030405.backup"));
    assert!(is_backup_file("AGENTS.md.backup"));
    assert!(!is_backup_file("AGENTS.md"));
    assert!(!is_backup_file("agents.md.x.backup"));
}
