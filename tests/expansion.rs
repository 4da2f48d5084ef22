use cat_llm::expand::{classify, expand_files, no_match_warning, pattern_warning, Entry, Probe, Resolution};

fn names(items: &[&str]) -> Vec<String> {
    items.iter().map(|s| s.to_string()).collect()
}

fn entry(path: &str, is_file: bool) -> Entry {
    Entry { path: path.to_string(), is_file }
}

#[test]
fn probes_in_file_directory_pattern_order() {
    assert_eq!(classify(true, false), Probe::PlainFile);
    assert_eq!(classify(true, true), Probe::PlainFile);
    assert_eq!(classify(false, true), Probe::Directory);
    assert_eq!(classify(false, false), Probe::Pattern);
}

#[test]
fn plain_file_expands_to_itself() {
    let e = expand_files(&names(&["src/main.rs"]), &vec![Resolution::PlainFile]);
    assert_eq!(e.paths, names(&["src/main.rs"]));
    assert!(e.warnings.is_empty());
}

#[test]
fn directory_of_files_expands_to_all_of_them() {
    let listing = vec![entry("d/a", true), entry("d/b", true), entry("d/c", true)];
    let e = expand_files(&names(&["d"]), &vec![Resolution::Directory(Some(listing))]);
    assert_eq!(e.paths, names(&["d/a", "d/b", "d/c"]));
    assert!(e.warnings.is_empty());
}

#[test]
fn directory_skips_non_files() {
    let listing = vec![entry("d/a", true), entry("d/sub", false), entry("d/b", true)];
    let e = expand_files(&names(&["d"]), &vec![Resolution::Directory(Some(listing))]);
    assert_eq!(e.paths, names(&["d/a", "d/b"]));
}

#[test]
fn unreadable_directory_contributes_nothing_silently() {
    let e = expand_files(&names(&["locked"]), &vec![Resolution::Directory(None)]);
    assert!(e.paths.is_empty());
    assert!(e.warnings.is_empty());
}

#[test]
fn invalid_pattern_warns_once() {
    let reason = "Pattern syntax error near position 3: invalid range pattern";
    let e = expand_files(&names(&["abc[", "f"]), &vec![Resolution::Pattern(Err(reason.to_string())), Resolution::PlainFile]);
    assert_eq!(e.paths, names(&["f"]));
    assert_eq!(e.warnings.len(), 1);
    assert_eq!(e.warnings[0], format!("Invalid glob pattern 'abc[': {}", reason));
}

#[test]
fn valid_pattern_without_match_warns_once() {
    let e = expand_files(&names(&["*.none"]), &vec![Resolution::Pattern(Ok(vec![]))]);
    assert!(e.paths.is_empty());
    assert_eq!(e.warnings, names(&["No file matches pattern '*.none'"]));
}

#[test]
fn missing_file_argument_warns_once() {
    let e = expand_files(&names(&["missing.txt"]), &vec![Resolution::Pattern(Ok(vec![]))]);
    assert!(e.paths.is_empty());
    assert_eq!(e.warnings.len(), 1);
    assert!(e.warnings[0].contains("missing.txt"));
}

#[test]
fn pattern_matching_only_directories_warns_once() {
    let matches = vec![entry("sub", false)];
    let e = expand_files(&names(&["s*"]), &vec![Resolution::Pattern(Ok(matches))]);
    assert!(e.paths.is_empty());
    assert_eq!(e.warnings, names(&["No file matches pattern 's*'"]));
}

#[test]
fn matching_pattern_gives_no_warning() {
    let e = expand_files(&names(&["*.rs"]), &vec![Resolution::Pattern(Ok(vec![entry("a.rs", true)]))]);
    assert_eq!(e.paths, names(&["a.rs"]));
    assert!(e.warnings.is_empty());
}

#[test]
fn pattern_keeps_file_matches_in_order() {
    let matches = vec![entry("a.rs", true), entry("b.rs", false), entry("c.rs", true)];
    let e = expand_files(&names(&["*.rs"]), &vec![Resolution::Pattern(Ok(matches))]);
    assert_eq!(e.paths, names(&["a.rs", "c.rs"]));
}

#[test]
fn arguments_keep_their_order_without_dedup() {
    let found = vec![
        Resolution::PlainFile,
        Resolution::Pattern(Ok(vec![entry("x", true), entry("y", true)])),
        Resolution::PlainFile,
    ];
    let e = expand_files(&names(&["x", "*", "x"]), &found);
    assert_eq!(e.paths, names(&["x", "x", "y", "x"]));
}

#[test]
fn warning_text_is_exact() {
    assert_eq!(pattern_warning("[", "oops"), "Invalid glob pattern '[': oops");
    assert_eq!(no_match_warning("x?"), "No file matches pattern 'x?'");
}
