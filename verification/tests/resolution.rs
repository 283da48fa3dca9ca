use which::path_list::split_path;
use which::search::is_executable;
use which::search::resolve;
use which::search::which;
use which::search::Directory;
use which::search::Entry;

fn entry(name: &str, is_file: bool, mode: u32, access_ok: bool) -> Entry {
    Entry { name: name.as_bytes().to_vec(), is_file, mode, access_ok }
}

fn sh(name: &str) -> Entry {
    entry(name, true, 0o755, true)
}

fn dir(path: &str, entries: Option<Vec<Entry>>) -> Directory {
    Directory { path: path.as_bytes().to_vec(), entries }
}

/// The directories of a PATH value, each given the listing that `listings`
/// pairs with its name (`None` where the pair says so or where the name is
/// missing), mirroring how an embedding program feeds the resolver.
fn dirs_of(path_var: &str, listings: &[(&str, Option<Vec<&str>>)]) -> Vec<Directory> {
    let mut dirs = Vec::new();
    for seg in split_path(&path_var.as_bytes().to_vec()) {
        let seg_str = String::from_utf8(seg.clone()).unwrap();
        let mut entries: Option<Vec<Entry>> = None;
        for (name, listing) in listings {
            if *name == seg_str {
                entries = listing.as_ref().map(|l| l.iter().map(|e| sh(e)).collect());
            }
        }
        dirs.push(Directory { path: seg, entries });
    }
    dirs
}

#[test]
fn test_sh() {
    let path_var = Some(b"/usr/bin:/bin".to_vec());
    let dirs = dirs_of(
        "/usr/bin:/bin",
        &[("/usr/bin", Some(vec!["awk", "env"])), ("/bin", Some(vec!["cat", "sh", "ls"]))],
    );
    let expected = b"/bin/sh".to_vec();
    let actual = which(&b"sh".to_vec(), &path_var, &dirs);
    assert_eq!(Some(expected), actual);
}

#[test]
fn test_none() {
    let path_var = Some(b"/usr/bin:/bin".to_vec());
    let dirs = dirs_of(
        "/usr/bin:/bin",
        &[("/usr/bin", Some(vec!["awk", "env"])), ("/bin", Some(vec!["cat", "sh", "ls"]))],
    );
    let actual = which(&b"foofoofoobar".to_vec(), &path_var, &dirs);
    assert_eq!(None, actual);
}

#[test]
fn absent_query_against_real_looking_path() {
    let path_var = Some(b"/usr/bin:/bin".to_vec());
    let dirs = dirs_of(
        "/usr/bin:/bin",
        &[("/usr/bin", Some(vec!["awk", "env"])), ("/bin", Some(vec!["cat", "sh", "ls"]))],
    );
    let actual = which(&b"definitely-not-a-real-binary-xyz".to_vec(), &path_var, &dirs);
    assert_eq!(None, actual);
}

#[test]
fn first_directory_wins() {
    let dirs = vec![
        dir("/opt/bin", Some(vec![sh("tool")])),
        dir("/usr/bin", Some(vec![sh("tool")])),
    ];
    let actual = resolve(&b"tool".to_vec(), &dirs);
    assert_eq!(Some(b"/opt/bin/tool".to_vec()), actual);
}

#[test]
fn directory_entry_is_never_returned() {
    // A subdirectory named like the query, with its search bits set, does
    // not qualify: the type filter demands a regular file.
    let dirs = vec![dir("/usr/bin", Some(vec![entry("tool", false, 0o755, true)]))];
    let actual = resolve(&b"tool".to_vec(), &dirs);
    assert_eq!(None, actual);
}

#[test]
fn file_without_execute_bits_is_never_returned() {
    let dirs = vec![dir("/usr/bin", Some(vec![entry("tool", true, 0o644, true)]))];
    let actual = resolve(&b"tool".to_vec(), &dirs);
    assert_eq!(None, actual);
}

#[test]
fn failed_probe_is_never_returned() {
    let dirs = vec![dir("/usr/bin", Some(vec![entry("tool", true, 0o755, false)]))];
    let actual = resolve(&b"tool".to_vec(), &dirs);
    assert_eq!(None, actual);
}

#[test]
fn nonqualifying_match_does_not_stop_the_search() {
    // A name match that fails the executability predicate is skipped; the
    // search goes on, within the directory and past it.
    let dirs = vec![
        dir("/opt/bin", Some(vec![entry("tool", true, 0o644, true)])),
        dir("/usr/bin", Some(vec![entry("tool", false, 0o755, true), sh("tool")])),
    ];
    let actual = resolve(&b"tool".to_vec(), &dirs);
    assert_eq!(Some(b"/usr/bin/tool".to_vec()), actual);
}

#[test]
fn absent_name_with_unreadable_directories() {
    let dirs = vec![
        dir("/nonexistent", None),
        dir("", None),
        dir("/usr/bin", Some(vec![sh("awk"), sh("env")])),
    ];
    let actual = resolve(&b"tool".to_vec(), &dirs);
    assert_eq!(None, actual);
}

#[test]
fn unset_path_returns_absence() {
    let actual = which(&b"sh".to_vec(), &None, &Vec::new());
    assert_eq!(None, actual);
}

#[test]
fn repeated_calls_agree() {
    let path_var = Some(b"/usr/bin:/bin".to_vec());
    let dirs = dirs_of(
        "/usr/bin:/bin",
        &[("/usr/bin", None), ("/bin", Some(vec!["cat", "sh", "ls"]))],
    );
    let first = which(&b"sh".to_vec(), &path_var, &dirs);
    let second = which(&b"sh".to_vec(), &path_var, &dirs);
    assert_eq!(first, second);
}

#[test]
fn unlistable_first_directory_is_skipped() {
    let path_var = Some(b"/nonexistent:/bin".to_vec());
    let dirs = dirs_of(
        "/nonexistent:/bin",
        &[("/nonexistent", None), ("/bin", Some(vec!["cat", "sh", "ls"]))],
    );
    let actual = which(&b"sh".to_vec(), &path_var, &dirs);
    assert_eq!(Some(b"/bin/sh".to_vec()), actual);
}

#[test]
fn trailing_separator_is_not_doubled() {
    let dirs = vec![dir("/bin/", Some(vec![sh("sh")]))];
    let actual = resolve(&b"sh".to_vec(), &dirs);
    assert_eq!(Some(b"/bin/sh".to_vec()), actual);
}

#[test]
fn split_keeps_order_and_empty_segments() {
    let segments = split_path(&b"/usr/bin:/bin::relative".to_vec());
    let expected: Vec<Vec<u8>> = vec![
        b"/usr/bin".to_vec(),
        b"/bin".to_vec(),
        b"".to_vec(),
        b"relative".to_vec(),
    ];
    assert_eq!(expected, segments);
}

#[test]
fn split_of_empty_value_is_one_empty_segment() {
    let segments = split_path(&b"".to_vec());
    assert_eq!(vec![b"".to_vec()], segments);
}

#[test]
fn split_of_lone_separator_is_two_empty_segments() {
    let segments = split_path(&b":".to_vec());
    assert_eq!(vec![b"".to_vec(), b"".to_vec()], segments);
}

#[test]
fn executability_needs_all_three_conditions() {
    assert!(is_executable(&entry("a", true, 0o100, true)));
    assert!(is_executable(&entry("a", true, 0o010, true)));
    assert!(is_executable(&entry("a", true, 0o001, true)));
    assert!(!is_executable(&entry("a", false, 0o755, true)));
    assert!(!is_executable(&entry("a", true, 0o644, true)));
    assert!(!is_executable(&entry("a", true, 0o755, false)));
    assert!(!is_executable(&entry("a", true, 0, false)));
}

#[test]
fn name_comparison_is_byte_exact() {
    let dirs = vec![dir("/usr/bin", Some(vec![sh("Tool"), sh("tools"), sh("too")]))];
    let actual = resolve(&b"tool".to_vec(), &dirs);
    assert_eq!(None, actual);
}
