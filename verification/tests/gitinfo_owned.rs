use git2::{Oid, Repository};
use git2version::{get_git_info, GitError, COMMIT_ID_SHORT_HASH_LENGTH};
use tempdir::TempDir;

fn create_repo(path: &std::path::Path) -> Repository {
    Repository::init(path).unwrap()
}

fn signature() -> git2::Signature<'static> {
    git2::Signature::now("Test User", "test@example.com").unwrap()
}

fn empty_tree(repo: &Repository) -> Oid {
    repo.treebuilder(None).unwrap().write().unwrap()
}

fn create_initial_commit(repo: &Repository) -> Oid {
    let sig = signature();
    let tree = repo.find_tree(empty_tree(repo)).unwrap();
    repo.commit(Some("HEAD"), &sig, &sig, "Initial commit", &tree, &[])
        .unwrap()
}

fn create_commit(repo: &Repository, content: &str) -> Oid {
    let sig = signature();
    let tree = repo.find_tree(empty_tree(repo)).unwrap();
    let head_commit = repo.head().unwrap().peel_to_commit().unwrap();
    repo.commit(
        Some("HEAD"),
        &sig,
        &sig,
        &format!("Commit: {}", content),
        &tree,
        &[&head_commit],
    )
    .unwrap()
}

fn create_tag(repo: &Repository, tag_name: &str) {
    let head_commit = repo.head().unwrap().peel(git2::ObjectType::Commit).unwrap();
    repo.tag_lightweight(tag_name, &head_commit, true).unwrap();
}

#[test]
fn commit_id_has_correct_length() {
    let dir = TempDir::new("test").unwrap();
    let repo = create_repo(dir.path());
    create_initial_commit(&repo);

    let info = get_git_info(&repo).unwrap();
    assert_eq!(info.commit_id.len(), COMMIT_ID_SHORT_HASH_LENGTH);
}

#[test]
fn no_tags_clean_workdir() {
    let dir = TempDir::new("test").unwrap();
    let repo = create_repo(dir.path());
    create_initial_commit(&repo);

    let info = get_git_info(&repo).unwrap();
    assert!(info.tag_info.is_none());
    assert!(!info.modified);
}

#[test]
fn on_tag_not_modified() {
    let dir = TempDir::new("test").unwrap();
    let repo = create_repo(dir.path());
    create_initial_commit(&repo);
    create_tag(&repo, "v1.0.0");

    let info = get_git_info(&repo).unwrap();
    assert!(info.tag_info.is_some());
    let tag_info = info.tag_info.unwrap();
    assert_eq!(tag_info.tag, "v1.0.0");
    assert_eq!(tag_info.commits_since_tag, 0);
    assert!(!info.modified);
}

#[test]
fn commits_after_tag() {
    let dir = TempDir::new("test").unwrap();
    let repo = create_repo(dir.path());
    create_initial_commit(&repo);
    create_tag(&repo, "v1.0.0");

    // Add 3 more commits after the tag
    create_commit(&repo, "second");
    create_commit(&repo, "third");
    create_commit(&repo, "fourth");

    let info = get_git_info(&repo).unwrap();
    assert!(info.tag_info.is_some());
    let tag_info = info.tag_info.unwrap();
    assert_eq!(tag_info.tag, "v1.0.0");
    assert_eq!(tag_info.commits_since_tag, 3);
}

#[test]
fn empty_repo_returns_error() {
    let dir = TempDir::new("test").unwrap();
    let repo = create_repo(dir.path());

    // Empty repo has no HEAD, should error
    let result = get_git_info(&repo);
    assert!(result.is_err());
}

#[test]
fn empty_repo_error_is_no_head_commit() {
    let dir = TempDir::new("test").unwrap();
    let repo = create_repo(dir.path());

    assert_eq!(get_git_info(&repo).unwrap_err(), GitError::NoHeadCommit);
}

#[test]
fn commit_id_is_prefix_of_full_hash() {
    let dir = TempDir::new("test").unwrap();
    let repo = create_repo(dir.path());
    let full_oid = create_initial_commit(&repo);
    let full_hash = full_oid.to_string();

    let info = get_git_info(&repo).unwrap();
    assert!(full_hash.starts_with(&info.commit_id));
}

#[test]
fn two_tags_on_head_resolve_to_one_of_them() {
    let dir = TempDir::new("test").unwrap();
    let repo = create_repo(dir.path());
    create_initial_commit(&repo);
    create_tag(&repo, "v1.0.0");
    create_tag(&repo, "release-1.0");

    let info = get_git_info(&repo).unwrap();
    let tag_info = info.tag_info.unwrap();
    assert!(tag_info.tag == "v1.0.0" || tag_info.tag == "release-1.0");
    assert_eq!(tag_info.commits_since_tag, 0);
}

#[test]
fn annotated_tag_is_resolved_to_its_commit() {
    let dir = TempDir::new("test").unwrap();
    let repo = create_repo(dir.path());
    create_initial_commit(&repo);
    let sig = signature();
    let head = repo.head().unwrap().peel(git2::ObjectType::Commit).unwrap();
    repo.tag("v3.0.0", &head, &sig, "annotated release", true)
        .unwrap();
    create_commit(&repo, "after");

    let info = get_git_info(&repo).unwrap();
    let tag_info = info.tag_info.unwrap();
    assert_eq!(tag_info.tag, "v3.0.0");
    assert_eq!(tag_info.commits_since_tag, 1);
}

#[test]
fn tag_behind_second_merge_parent_not_found() {
    let dir = TempDir::new("test").unwrap();
    let repo = create_repo(dir.path());
    let sig = signature();
    let tree_id = empty_tree(&repo);

    // Main line: A -> B
    let a = create_initial_commit(&repo);
    let b = create_commit(&repo, "main-b");

    // Side commit off A, carrying the only tag
    let tree = repo.find_tree(tree_id).unwrap();
    let a_commit = repo.find_commit(a).unwrap();
    let side = repo
        .commit(None, &sig, &sig, "side", &tree, &[&a_commit])
        .unwrap();
    let side_obj = repo.find_object(side, None).unwrap();
    repo.tag_lightweight("v9.9.9", &side_obj, true).unwrap();

    // Merge the side branch as the second parent of the new head
    let b_commit = repo.find_commit(b).unwrap();
    let side_commit = repo.find_commit(side).unwrap();
    repo.commit(
        Some("HEAD"),
        &sig,
        &sig,
        "merge",
        &tree,
        &[&b_commit, &side_commit],
    )
    .unwrap();

    let info = get_git_info(&repo).unwrap();
    assert!(info.tag_info.is_none());
}

fn stage_file(repo: &Repository, path: &str, content: &[u8]) {
    let mut index = repo.index().unwrap();
    let entry = git2::IndexEntry {
        ctime: git2::IndexTime::new(0, 0),
        mtime: git2::IndexTime::new(0, 0),
        dev: 0,
        ino: 0,
        mode: 0o100644,
        uid: 0,
        gid: 0,
        file_size: 0,
        id: Oid::zero(),
        flags: 0,
        flags_extended: 0,
        path: path.as_bytes().to_vec(),
    };
    index.add_frombuffer(&entry, content).unwrap();
    index.write().unwrap();
}

fn commit_index(repo: &Repository, message: &str) {
    let sig = signature();
    let tree_id = repo.index().unwrap().write_tree().unwrap();
    let tree = repo.find_tree(tree_id).unwrap();
    let parents = match repo.head() {
        Ok(head) => vec![head.peel_to_commit().unwrap()],
        Err(_) => Vec::new(),
    };
    let parent_refs: Vec<&git2::Commit> = parents.iter().collect();
    repo.commit(Some("HEAD"), &sig, &sig, message, &tree, &parent_refs)
        .unwrap();
}

#[test]
fn tracked_file_checked_out_clean_is_not_modified() {
    let dir = TempDir::new("test").unwrap();
    let repo = create_repo(dir.path());
    stage_file(&repo, "file.txt", b"initial content");
    commit_index(&repo, "Initial commit");
    repo.checkout_head(Some(git2::build::CheckoutBuilder::new().force()))
        .unwrap();

    let info = get_git_info(&repo).unwrap();
    assert!(!info.modified);
}

#[test]
fn staged_edit_to_tracked_file_is_modified() {
    let dir = TempDir::new("test").unwrap();
    let repo = create_repo(dir.path());
    stage_file(&repo, "file.txt", b"initial content");
    commit_index(&repo, "Initial commit");
    repo.checkout_head(Some(git2::build::CheckoutBuilder::new().force()))
        .unwrap();
    stage_file(&repo, "file.txt", b"staged changes");

    let info = get_git_info(&repo).unwrap();
    assert!(info.modified);
}

#[test]
fn bare_repo_status_query_fails() {
    let dir = TempDir::new("test").unwrap();
    let repo = Repository::init_bare(dir.path()).unwrap();
    let sig = signature();
    let tree = repo.find_tree(empty_tree(&repo)).unwrap();
    repo.commit(Some("HEAD"), &sig, &sig, "Initial commit", &tree, &[])
        .unwrap();

    assert_eq!(get_git_info(&repo).unwrap_err(), GitError::StatusQueryFailed);
}
