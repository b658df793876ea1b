use git2version::{
    any_tracked_change, build_tag_index, find_tag_in_chain, short_commit_id, u32_to_dec_string,
    RawTagEntry, TagIndex,
};

fn entry(target: &str, name: &str) -> RawTagEntry {
    RawTagEntry {
        target_hex: target.to_string(),
        name: Some(name.to_string()),
    }
}

fn chain(ids: &[&str]) -> Vec<String> {
    ids.iter().map(|s| s.to_string()).collect()
}

fn index(entries: Vec<RawTagEntry>) -> TagIndex {
    build_tag_index(&entries).unwrap()
}

#[test]
fn walk_with_no_tags_finds_nothing() {
    let idx = index(Vec::new());
    let c = chain(&["cc", "bb", "aa"]);
    assert!(find_tag_in_chain(&c, &idx).is_none());
}

#[test]
fn walk_finds_tagged_head_at_distance_zero() {
    let idx = index(vec![entry("cc", "refs/tags/v2.0.0")]);
    let c = chain(&["cc", "bb", "aa"]);
    let t = find_tag_in_chain(&c, &idx).unwrap();
    assert_eq!(t.tag, "v2.0.0");
    assert_eq!(t.commits_since_tag, 0);
}

#[test]
fn walk_counts_steps_to_nearest_tag() {
    let idx = index(vec![
        entry("aa", "refs/tags/v1.0.0"),
        entry("bb", "refs/tags/v2.0.0"),
    ]);
    let c = chain(&["dd", "cc", "bb", "aa"]);
    let t = find_tag_in_chain(&c, &idx).unwrap();
    assert_eq!(t.tag, "v2.0.0");
    assert_eq!(t.commits_since_tag, 2);
}

#[test]
fn walk_takes_first_enumerated_tag_of_a_commit() {
    let idx = index(vec![
        entry("bb", "refs/tags/v1.0.0"),
        entry("bb", "refs/tags/release-1.0"),
    ]);
    let c = chain(&["bb"]);
    let t = find_tag_in_chain(&c, &idx).unwrap();
    assert_eq!(t.tag, "v1.0.0");
    assert_eq!(t.commits_since_tag, 0);
}

#[test]
fn walk_never_sees_tags_off_the_chain() {
    let idx = index(vec![entry("ee", "refs/tags/v1.0.0")]);
    let c = chain(&["cc", "bb", "aa"]);
    assert!(find_tag_in_chain(&c, &idx).is_none());
}

#[test]
fn short_commit_id_truncates_to_ten_characters() {
    let full = "a9ebd080a7b1c76a8b3f3080a7b1c7c76a8b3f30".to_string();
    let short = short_commit_id(&full);
    assert_eq!(short, "a9ebd080a7");
    assert_eq!(short.len(), 10);
    assert!(full.starts_with(&short));
}

#[test]
fn unchanged_and_ignored_statuses_do_not_modify() {
    // 0 is git2's CURRENT status, 16384 its IGNORED bit.
    assert!(!any_tracked_change(&Vec::new()));
    assert!(!any_tracked_change(&vec![0]));
    assert!(!any_tracked_change(&vec![0, 16384]));
}

#[test]
fn any_other_status_modifies() {
    // 2 is git2's INDEX_MODIFIED bit, 256 its WT_MODIFIED bit.
    assert!(any_tracked_change(&vec![0, 2]));
    assert!(any_tracked_change(&vec![256]));
}

#[test]
fn decimal_rendering_is_exact() {
    assert_eq!(u32_to_dec_string(0), "0");
    assert_eq!(u32_to_dec_string(7), "7");
    assert_eq!(u32_to_dec_string(10), "10");
    assert_eq!(u32_to_dec_string(305), "305");
    assert_eq!(u32_to_dec_string(4294967295), "4294967295");
}
