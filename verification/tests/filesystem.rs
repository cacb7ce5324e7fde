//! Files: paths, listings and deletions.
use remo::filesystem::{
    delete_path, entries_json, finish_deletion, home_directory, list_directory, read_file, resolve,
    Deletion, EntryOutcome, FileEntry,
};
use remo::json_text::parse_json;

fn file(name: &str, len: u64) -> EntryOutcome {
    EntryOutcome::Found {
        name: name.to_string(),
        is_directory: false,
        len,
        modified_unix_secs: Some(1_700_000_000),
    }
}

#[test]
fn relative_path_resolves_against_home_directory() {
    let home = home_directory(Some("/home/app".to_string()));
    let resolved = resolve("Documents/foo.txt", &home);
    assert!(resolved.starts_with(&home));
    assert_eq!(resolved, "/home/app/Documents/foo.txt");
}

#[test]
fn absolute_path_is_unchanged() {
    assert_eq!(resolve("/tmp/foo.txt", "/home/app"), "/tmp/foo.txt");
}

#[test]
fn without_a_home_paths_start_at_the_root() {
    assert_eq!(home_directory(None), "/");
    assert_eq!(resolve("a", &home_directory(None)), "/a");
    assert_eq!(resolve("", "/home/app"), "/home/app/");
}

#[test]
fn resolving_twice_is_resolving_once() {
    let once = resolve("a/b", "/home/app");
    assert_eq!(resolve(&once, "/home/app"), once);
}

#[test]
fn a_listing_is_in_the_order_of_names() {
    let read = vec![
        file("b.txt", 11),
        EntryOutcome::Found {
            name: "a".to_string(),
            is_directory: true,
            len: 4096,
            modified_unix_secs: None,
        },
    ];
    let entries = list_directory("/d", "/", Ok(read)).unwrap();
    assert_eq!(
        entries,
        vec![
            FileEntry {
                name: "a".to_string(),
                is_directory: true,
                size: 0,
                modified_unix_secs: None,
            },
            FileEntry {
                name: "b.txt".to_string(),
                is_directory: false,
                size: 11,
                modified_unix_secs: Some(1_700_000_000),
            },
        ]
    );
    assert_eq!(
        Some(entries_json(&entries)),
        parse_json(
            r#"[{"name": "a", "is_directory": true, "size": 0, "modified_unix_secs": null},
                {"name": "b.txt", "is_directory": false, "size": 11, "modified_unix_secs": 1700000000}]"#
        )
    );
}

#[test]
fn a_missing_directory_is_a_clear_error() {
    assert_eq!(
        list_directory("nowhere", "/home", Err("no such file".to_string())),
        Err("failed to read directory /home/nowhere: no such file".to_string())
    );
}

#[test]
fn the_first_fault_of_a_listing_counts() {
    let read = vec![
        file("a", 1),
        EntryOutcome::Unstatted { path: "/d/b".to_string(), error: "denied".to_string() },
        EntryOutcome::Unreadable("later".to_string()),
    ];
    assert_eq!(
        list_directory("/d", "/", Ok(read)),
        Err("failed to stat /d/b: denied".to_string())
    );
    assert_eq!(
        list_directory("/d", "/", Ok(vec![EntryOutcome::Unreadable("bad".to_string())])),
        Err("failed to read directory entry: bad".to_string())
    );
}

#[test]
fn reading_gives_the_bytes_or_says_why_not() {
    assert_eq!(read_file("a", "/h", Ok(vec![1, 2])), Ok(vec![1, 2]));
    assert_eq!(
        read_file("a", "/h", Err("gone".to_string())),
        Err("failed to read /h/a: gone".to_string())
    );
}

#[test]
fn a_directory_is_deleted_with_everything_below_it() {
    assert_eq!(delete_path("/d", "/", Ok(true)), Ok(Deletion::Directory));
    assert_eq!(delete_path("/f", "/", Ok(false)), Ok(Deletion::File));
    assert_eq!(
        delete_path("f", "/h", Err("gone".to_string())),
        Err("failed to stat /h/f: gone".to_string())
    );
    assert_eq!(finish_deletion(Deletion::File, "f", "/h", Ok(())), Ok(()));
    assert_eq!(
        finish_deletion(Deletion::File, "f", "/h", Err("busy".to_string())),
        Err("failed to remove file /h/f: busy".to_string())
    );
    assert_eq!(
        finish_deletion(Deletion::Directory, "/d", "/h", Err("busy".to_string())),
        Err("failed to remove directory /d: busy".to_string())
    );
}
