use cargo_lts::config::{is_managed_section, is_section_boundary, patch_config};
use cargo_lts::text::{split_lines, trim};

fn block(path: &str, cutoff: &str) -> String {
    format!(
        "# delete this to restore to the default registry\n[source.crates-io]\nreplace-with = 'lts-repo-replacement'\n\n[source.lts-repo-replacement] # {}\nregistry = 'file://{}'\n",
        cutoff, path
    )
}

fn count_prefixed(text: &str, p: &str) -> usize {
    text.lines().filter(|l| l.starts_with(p)).count()
}

#[test]
fn empty_config_gets_only_the_appended_sections() {
    let r = patch_config("", "/work/.cargo/lts-repo-at-abc", "2017-01-01");
    assert_eq!(r, block("/work/.cargo/lts-repo-at-abc", "2017-01-01"));
}

#[test]
fn patching_twice_keeps_one_of_each_section() {
    let start = "[build]\njobs = 4\n";
    let once = patch_config(start, "/a/lts-repo-at-1", "2016-01-01");
    let twice = patch_config(&once, "/b/lts-repo-at-2", "2018-01-01");
    assert_eq!(twice, patch_config(start, "/b/lts-repo-at-2", "2018-01-01"));
    assert_eq!(twice, format!("{}{}", start, block("/b/lts-repo-at-2", "2018-01-01")));
    assert_eq!(count_prefixed(&twice, "[source.crates-io]"), 1);
    assert_eq!(count_prefixed(&twice, "[source.lts-repo-"), 1);
    assert_eq!(count_prefixed(&twice, "# delete this"), 1);
}

#[test]
fn other_sections_are_kept_in_place() {
    let text = "[build]\njobs = 4\n[source.crates-io]\nreplace-with = 'x'\n\n[source.lts-repo-old] # 2015\nregistry = 'file:///old'\n[net]\nretry = 2\n";
    let r = patch_config(text, "/p", "2019-01-01");
    assert_eq!(r, format!("[build]\njobs = 4\n[net]\nretry = 2\n{}", block("/p", "2019-01-01")));
}

#[test]
fn lines_before_any_section_are_kept() {
    let text = "# my settings\n\n[source.crates-io]\nx = 1\n[source.other]\ny = 2";
    let r = patch_config(text, "/p", "2019-01-01");
    assert_eq!(r, format!("# my settings\n\n[source.other]\ny = 2\n{}", block("/p", "2019-01-01")));
}

#[test]
fn carriage_returns_are_kept_verbatim() {
    let r = patch_config("[a]\r\nb = 1\r\n", "/p", "c");
    assert_eq!(r, format!("[a]\r\nb = 1\r\n{}", block("/p", "c")));
}

#[test]
fn section_recognition() {
    assert!(is_section_boundary("[x]"));
    assert!(is_section_boundary("# delete this to restore"));
    assert!(!is_section_boundary("# other comment"));
    assert!(is_managed_section("[source.crates-io]"));
    assert!(is_managed_section("[source.lts-repo-at-abc]"));
    assert!(!is_managed_section("[source.other]"));
    assert!(!is_managed_section("[build]"));
}

#[test]
fn split_and_trim() {
    assert_eq!(split_lines("a\nb\n"), vec!["a".to_string(), "b".to_string()]);
    assert_eq!(split_lines("a\n\nb"), vec!["a".to_string(), String::new(), "b".to_string()]);
    assert!(split_lines("").is_empty());
    assert_eq!(split_lines("\n"), vec![String::new()]);
    assert_eq!(trim(" \tabc d\r\n"), "abc d");
    assert_eq!(trim("   "), "");
}
