use sandman::ignore_filter::{IgnoreFilter, RuleSource};

fn lines(v: &[&str]) -> RuleSource {
    RuleSource::Lines(v.iter().map(|s| s.to_string()).collect())
}

#[test]
fn local_pattern_excludes_matching_files() {
    let f = IgnoreFilter::build("/data/t", &lines(&["*.log"]), &RuleSource::Missing);
    assert!(!f.fell_open());
    assert!(f.is_excluded("/data/t/a.log", false));
    assert!(f.is_excluded("/data/t/sub/b.log", false));
    assert!(!f.is_excluded("/data/t/a.txt", false));
}

#[test]
fn global_pattern_excludes_too() {
    let f = IgnoreFilter::build("/data/t", &lines(&["*.log"]), &lines(&[".sandman_history"]));
    assert!(f.is_excluded("/data/t/.sandman_history", false));
    assert!(f.is_excluded("/data/t/a.log", false));
}

#[test]
fn negation_readmits_a_path() {
    let f = IgnoreFilter::build("/data/t", &lines(&["*.log", "!keep.log"]), &RuleSource::Missing);
    assert!(f.is_excluded("/data/t/a.log", false));
    assert!(!f.is_excluded("/data/t/keep.log", false));
}

#[test]
fn directory_pattern_applies_to_directories() {
    let f = IgnoreFilter::build("/data/t", &lines(&["build/", "# a comment", ""]), &RuleSource::Missing);
    assert!(f.is_excluded("/data/t/build", true));
    assert!(!f.is_excluded("/data/t/build", false));
}

#[test]
fn trailing_white_space_is_trimmed() {
    let f = IgnoreFilter::build("/data/t", &lines(&["notes.txt  \t"]), &RuleSource::Missing);
    assert!(f.is_excluded("/data/t/notes.txt", false));
}

#[test]
fn relative_root_with_dot_slash() {
    let f = IgnoreFilter::build("./t", &lines(&["/top.txt"]), &RuleSource::Missing);
    assert!(f.is_excluded("./t/top.txt", false));
    assert!(!f.is_excluded("./t/sub/top.txt", false));
}

#[test]
fn no_rules_exclude_nothing() {
    let f = IgnoreFilter::build("/data/t", &RuleSource::Missing, &RuleSource::Missing);
    assert!(!f.fell_open());
    assert!(!f.is_excluded("/data/t/a.txt", false));
    assert!(!f.is_excluded("/data/t/sub", true));
}

#[test]
fn comments_and_blank_lines_exclude_nothing() {
    let f = IgnoreFilter::build("/data/t", &lines(&["# all of it", "", "   ", "#*"]), &lines(&["#x"]));
    assert!(!f.fell_open());
    assert!(!f.is_excluded("/data/t/a.txt", false));
    assert!(!f.is_excluded("/data/t/#x", false));
}

#[test]
fn malformed_pattern_fails_open() {
    let f = IgnoreFilter::build("/data/t", &lines(&["{a", "*.tmp"]), &lines(&["*.log"]));
    assert!(f.fell_open());
    assert!(!f.is_excluded("/data/t/x.tmp", false));
    assert!(!f.is_excluded("/data/t/x.log", false));
}

#[test]
fn unreadable_source_fails_open() {
    let f = IgnoreFilter::build("/data/t", &lines(&["*.tmp"]), &RuleSource::Unreadable);
    assert!(f.fell_open());
    assert!(!f.is_excluded("/data/t/x.tmp", false));
}
