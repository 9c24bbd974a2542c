use git2::{Oid, Repository, Signature, Time};
use pt_commit::error::{at_step, ErrorKind, PinError};
use pt_commit::git::{identifier_of_commit, resolve_current_commit};
use pt_commit::pin_file::{parse_pin_line, render_pin_file, split_lines, PinRecord};
use pt_commit::recorder::{
    pin_checkout, pin_opened, pin_resolved, record_pt_repo_hash, DirectoryEntry,
};
use pt_commit::restorer::{restore_line, restore_opened, restore_pin, restore_pt_by_hash};
use std::path::Path;
use tempfile::TempDir;

const ABSENT: &str = "deadbeefdeadbeefdeadbeefdeadbeefdeadbeef";

fn new_root() -> TempDir {
    tempfile::tempdir().unwrap()
}

fn text_of(root: &TempDir) -> String {
    root.path().to_str().unwrap().to_owned()
}

/// Makes a checkout `name` beneath `root` with `count` commits, the last of
/// which it is at. Gives the identifiers of the commits, oldest first.
fn make_checkout(root: &Path, name: &str, count: usize) -> Vec<String> {
    let repo = Repository::init(root.join(name)).unwrap();
    let tree_id = repo.treebuilder(None).unwrap().write().unwrap();
    let tree = repo.find_tree(tree_id).unwrap();
    let who = Signature::new("tester", "tester@example.com", &Time::new(1_000_000, 0)).unwrap();
    let mut ids: Vec<String> = Vec::new();
    let mut parent: Option<Oid> = None;
    for n in 0..count {
        let message = format!("{} commit {}", name, n);
        let id = match parent {
            Some(p) => {
                let commit = repo.find_commit(p).unwrap();
                repo.commit(Some("HEAD"), &who, &who, &message, &tree, &[&commit]).unwrap()
            }
            None => repo.commit(Some("HEAD"), &who, &who, &message, &tree, &[]).unwrap(),
        };
        parent = Some(id);
        ids.push(id.to_string());
    }
    ids
}

fn head_of(root: &Path, name: &str) -> String {
    let repo = Repository::open(root.join(name)).unwrap();
    let id = repo.head().unwrap().peel_to_commit().unwrap().id();
    id.to_string()
}

fn is_detached(root: &Path, name: &str) -> bool {
    Repository::open(root.join(name)).unwrap().head_detached().unwrap()
}

fn move_to(root: &Path, name: &str, identifier: &str) {
    let repo = Repository::open(root.join(name)).unwrap();
    repo.set_head_detached(Oid::from_str(identifier).unwrap()).unwrap();
}

fn directory(name: &str) -> DirectoryEntry {
    DirectoryEntry { name: name.to_owned(), depth: 1, is_dir: true }
}

fn plain_file(name: &str) -> DirectoryEntry {
    DirectoryEntry { name: name.to_owned(), depth: 1, is_dir: false }
}

fn record(name: &str, identifier: &str) -> PinRecord {
    PinRecord { name: name.to_owned(), identifier: identifier.to_owned() }
}

fn is_canonical(identifier: &str) -> bool {
    identifier.len() == 40
        && identifier.chars().all(|c| c.is_ascii_digit() || ('a'..='f').contains(&c))
}

fn failure(outcome: Result<(), PinError>) -> PinError {
    match outcome {
        Ok(()) => panic!("the call succeeded"),
        Err(e) => e,
    }
}

#[test]
fn record_then_restore_brings_every_checkout_back() {
    let root = new_root();
    let a = make_checkout(root.path(), "A", 3);
    let b = make_checkout(root.path(), "B", 2);
    let c = make_checkout(root.path(), "C", 4);
    let entries = vec![directory("A"), directory("B"), directory("C")];

    let records = record_pt_repo_hash(&text_of(&root), &entries).unwrap();
    let text = render_pin_file(&records);

    move_to(root.path(), "A", &a[0]);
    move_to(root.path(), "B", &b[0]);
    move_to(root.path(), "C", &c[1]);
    assert_eq!(head_of(root.path(), "A"), a[0]);
    assert_eq!(head_of(root.path(), "B"), b[0]);
    assert_eq!(head_of(root.path(), "C"), c[1]);

    assert!(restore_pt_by_hash(&text_of(&root), &text).is_ok());
    assert_eq!(head_of(root.path(), "A"), a[2]);
    assert_eq!(head_of(root.path(), "B"), b[1]);
    assert_eq!(head_of(root.path(), "C"), c[3]);
}

#[test]
fn restore_leaves_each_checkout_detached() {
    let root = new_root();
    let a = make_checkout(root.path(), "A", 2);
    assert!(!is_detached(root.path(), "A"));
    let text = format!("A:{}\n", a[0]);
    assert!(restore_pt_by_hash(&text_of(&root), &text).is_ok());
    assert!(is_detached(root.path(), "A"));
    assert_eq!(head_of(root.path(), "A"), a[0]);
}

#[test]
fn record_pins_every_checkout_once() {
    let root = new_root();
    let a = make_checkout(root.path(), "A", 1);
    let b = make_checkout(root.path(), "B", 2);
    let c = make_checkout(root.path(), "C", 3);
    let entries = vec![directory("A"), directory("B"), directory("C")];

    let records = record_pt_repo_hash(&text_of(&root), &entries).unwrap();
    assert_eq!(records, vec![record("A", &a[0]), record("B", &b[1]), record("C", &c[2])]);

    let text = render_pin_file(&records);
    assert_eq!(text, format!("A:{}\nB:{}\nC:{}\n", a[0], b[1], c[2]));
    let lines = split_lines(&text);
    assert_eq!(lines.len(), 3);
    assert_eq!(parse_pin_line(&lines[0]), Some(record("A", &a[0])));
    assert_eq!(parse_pin_line(&lines[1]), Some(record("B", &b[1])));
    assert_eq!(parse_pin_line(&lines[2]), Some(record("C", &c[2])));
}

#[test]
fn record_follows_the_order_of_the_entries() {
    let root = new_root();
    let a = make_checkout(root.path(), "A", 1);
    let b = make_checkout(root.path(), "B", 1);
    let entries = vec![directory("B"), directory("A")];
    let records = record_pt_repo_hash(&text_of(&root), &entries).unwrap();
    assert_eq!(records, vec![record("B", &b[0]), record("A", &a[0])]);
}

#[test]
fn record_passes_over_what_is_no_directory() {
    let root = new_root();
    let a = make_checkout(root.path(), "A", 1);
    let b = make_checkout(root.path(), "B", 1);
    let entries =
        vec![plain_file("notes.txt"), directory("A"), plain_file("B.bak"), directory("B")];
    let records = record_pt_repo_hash(&text_of(&root), &entries).unwrap();
    assert_eq!(records, vec![record("A", &a[0]), record("B", &b[0])]);
}

#[test]
fn record_passes_over_what_does_not_lie_directly_in_the_directory() {
    let root = new_root();
    let a = make_checkout(root.path(), "A", 1);
    let itself = DirectoryEntry { name: "A".to_owned(), depth: 0, is_dir: true };
    let deeper = DirectoryEntry { name: "A".to_owned(), depth: 2, is_dir: true };
    assert!(!itself.is_checkout());
    assert!(!deeper.is_checkout());
    assert!(directory("A").is_checkout());
    assert!(!plain_file("A").is_checkout());
    let entries = vec![itself, directory("A"), deeper];
    let records = record_pt_repo_hash(&text_of(&root), &entries).unwrap();
    assert_eq!(records, vec![record("A", &a[0])]);
}

#[test]
fn record_of_nothing_is_an_empty_file() {
    let root = new_root();
    let records = record_pt_repo_hash(&text_of(&root), &Vec::new()).unwrap();
    assert!(records.is_empty());
    assert_eq!(render_pin_file(&records), "");
    let only_files = vec![plain_file("a"), plain_file("b")];
    assert!(record_pt_repo_hash(&text_of(&root), &only_files).unwrap().is_empty());
}

#[test]
fn record_writes_canonical_identifiers() {
    let root = new_root();
    make_checkout(root.path(), "A", 2);
    let records = record_pt_repo_hash(&text_of(&root), &vec![directory("A")]).unwrap();
    assert_eq!(records.len(), 1);
    assert_eq!(records[0].name, "A");
    assert!(is_canonical(&records[0].identifier));
    assert_eq!(records[0].identifier, head_of(root.path(), "A"));
}

#[test]
fn record_sees_where_a_detached_checkout_is() {
    let root = new_root();
    let a = make_checkout(root.path(), "A", 3);
    move_to(root.path(), "A", &a[1]);
    let records = record_pt_repo_hash(&text_of(&root), &vec![directory("A")]).unwrap();
    assert_eq!(records, vec![record("A", &a[1])]);
}

#[test]
fn record_follows_a_tag_to_its_commit() {
    let root = new_root();
    let a = make_checkout(root.path(), "A", 2);
    let repo = Repository::open(root.path().join("A")).unwrap();
    let who = Signature::new("tester", "tester@example.com", &Time::new(1_000_000, 0)).unwrap();
    let target = repo.find_object(Oid::from_str(&a[0]).unwrap(), None).unwrap();
    let tag = repo.tag("v1", &target, &who, "first", false).unwrap();
    assert_ne!(tag.to_string(), a[0]);
    repo.reference("refs/heads/tagged", tag, true, "points at a tag").unwrap();
    repo.set_head("refs/heads/tagged").unwrap();

    let identifier = resolve_current_commit(&repo).unwrap();
    assert_eq!(identifier, a[0]);
    let records = record_pt_repo_hash(&text_of(&root), &vec![directory("A")]).unwrap();
    assert_eq!(records, vec![record("A", &a[0])]);
}

#[test]
fn record_fails_on_a_directory_that_is_no_repository() {
    let root = new_root();
    make_checkout(root.path(), "A", 1);
    let entries = vec![directory("A"), directory("missing"), directory("A")];
    let e = record_pt_repo_hash(&text_of(&root), &entries).unwrap_err();
    assert_eq!(e.index, 1);
    assert_eq!(e.kind, ErrorKind::RepositoryOpen);
    assert!(e.cause.is_some());
}

#[test]
fn record_fails_on_a_checkout_without_commits() {
    let root = new_root();
    make_checkout(root.path(), "A", 1);
    make_checkout(root.path(), "E", 0);
    let entries = vec![plain_file("x"), directory("A"), directory("E")];
    let e = record_pt_repo_hash(&text_of(&root), &entries).unwrap_err();
    assert_eq!(e.index, 2);
    assert_eq!(e.kind, ErrorKind::HeadResolution);
    assert!(e.cause.is_some());
}

#[test]
fn record_twice_gives_only_the_second_state() {
    let root = new_root();
    let a = make_checkout(root.path(), "A", 2);
    let b = make_checkout(root.path(), "B", 2);
    let entries = vec![directory("A"), directory("B")];

    let first = render_pin_file(&record_pt_repo_hash(&text_of(&root), &entries).unwrap());
    assert_eq!(first, format!("A:{}\nB:{}\n", a[1], b[1]));

    move_to(root.path(), "A", &a[0]);
    let second = render_pin_file(&record_pt_repo_hash(&text_of(&root), &vec![directory("A")]).unwrap());
    assert_eq!(second, format!("A:{}\n", a[0]));
    assert!(!second.contains(&a[1]));
    assert!(!second.contains("B:"));
}

#[test]
fn pin_checkout_gives_name_and_commit() {
    let root = new_root();
    let a = make_checkout(root.path(), "A", 2);
    let pinned = pin_checkout(&text_of(&root), 7, "A").unwrap();
    assert_eq!(pinned, record("A", &a[1]));
    let e = pin_checkout(&text_of(&root), 7, "nowhere").unwrap_err();
    assert_eq!(e.index, 7);
    assert_eq!(e.kind, ErrorKind::RepositoryOpen);
}

#[test]
fn resolve_current_commit_gives_the_commit_of_head() {
    let root = new_root();
    let a = make_checkout(root.path(), "A", 3);
    let repo = Repository::open(root.path().join("A")).unwrap();
    let identifier = resolve_current_commit(&repo).unwrap();
    assert_eq!(identifier, a[2]);
    assert!(is_canonical(&identifier));
    let empty = Repository::init(root.path().join("E")).unwrap();
    assert!(resolve_current_commit(&empty).is_err());
}

#[test]
fn a_line_without_separator_stops_the_restore() {
    let root = new_root();
    let a = make_checkout(root.path(), "A", 2);
    let c = make_checkout(root.path(), "C", 2);
    let text = format!("A:{}\nB-noseparator\nC:{}\n", a[0], c[0]);

    let e = failure(restore_pt_by_hash(&text_of(&root), &text));
    assert_eq!(e.index, 1);
    assert_eq!(e.kind, ErrorKind::PinLineParse);
    assert!(e.cause.is_none());
    assert_eq!(head_of(root.path(), "A"), a[0]);
    assert_eq!(head_of(root.path(), "C"), c[1]);
}

#[test]
fn a_missing_checkout_stops_the_restore() {
    let root = new_root();
    let a = make_checkout(root.path(), "A", 2);
    let c = make_checkout(root.path(), "C", 2);
    let text = format!("A:{}\nD:deadbeefdeadbeefdeadbeefdeadbeefdeadbeef\nC:{}\n", a[0], c[0]);

    let e = failure(restore_pt_by_hash(&text_of(&root), &text));
    assert_eq!(e.index, 1);
    assert_eq!(e.kind, ErrorKind::RepositoryOpen);
    assert!(e.cause.is_some());
    assert_eq!(head_of(root.path(), "A"), a[0]);
    assert_eq!(head_of(root.path(), "C"), c[1]);
}

#[test]
fn an_unknown_identifier_leaves_the_checkout_as_it_was() {
    let root = new_root();
    let a = make_checkout(root.path(), "A", 2);
    let text = format!("A:{}\n", ABSENT);

    let e = failure(restore_pt_by_hash(&text_of(&root), &text));
    assert_eq!(e.index, 0);
    assert_eq!(e.kind, ErrorKind::ObjectNotFound);
    assert!(e.cause.is_some());
    assert_eq!(head_of(root.path(), "A"), a[1]);
    assert!(!is_detached(root.path(), "A"));
}

#[test]
fn a_malformed_identifier_is_refused_as_such() {
    let root = new_root();
    let a = make_checkout(root.path(), "A", 2);
    let texts = [
        "A:not-an-identifier\n".to_owned(),
        "A:deadbeefdeadbeefdeadbeefdeadbeefdeadbeeg\n".to_owned(),
        format!("A:{}0\n", a[0]),
        format!("A: {}\n", a[0]),
        format!("A:{}:\n", a[0]),
    ];
    for text in texts.iter() {
        let e = failure(restore_pt_by_hash(&text_of(&root), text));
        assert_eq!(e.index, 0, "for {:?}", text);
        assert_eq!(e.kind, ErrorKind::InvalidIdentifier, "for {:?}", text);
        assert!(e.cause.is_some());
        assert_eq!(head_of(root.path(), "A"), a[1]);
    }
}

#[test]
fn an_identifier_has_its_form_in_either_case_and_at_any_length_to_forty() {
    let root = new_root();
    let a = make_checkout(root.path(), "A", 2);

    let upper = a[0].to_uppercase();
    assert_ne!(upper, a[0]);
    assert!(restore_pt_by_hash(&text_of(&root), &format!("A:{}\n", upper)).is_ok());
    assert_eq!(head_of(root.path(), "A"), a[0]);

    let e = failure(restore_pt_by_hash(&text_of(&root), "A:f\n"));
    assert_eq!(e.kind, ErrorKind::ObjectNotFound);
    let e = failure(restore_pt_by_hash(&text_of(&root), "A:DEADBEEF\n"));
    assert_eq!(e.kind, ErrorKind::ObjectNotFound);
    assert_eq!(head_of(root.path(), "A"), a[0]);
}

#[test]
fn a_checkout_is_opened_before_its_identifier_is_read() {
    let root = new_root();
    let e = failure(restore_pt_by_hash(&text_of(&root), "D:not-an-identifier\n"));
    assert_eq!(e.index, 0);
    assert_eq!(e.kind, ErrorKind::RepositoryOpen);
}

#[test]
fn an_empty_pin_file_restores_nothing() {
    let root = new_root();
    let a = make_checkout(root.path(), "A", 2);
    assert!(restore_pt_by_hash(&text_of(&root), "").is_ok());
    assert_eq!(head_of(root.path(), "A"), a[1]);
    assert!(!is_detached(root.path(), "A"));
}

#[test]
fn an_empty_line_stops_the_restore() {
    let root = new_root();
    let a = make_checkout(root.path(), "A", 2);
    let text = format!("\nA:{}\n", a[0]);
    let e = failure(restore_pt_by_hash(&text_of(&root), &text));
    assert_eq!(e.index, 0);
    assert_eq!(e.kind, ErrorKind::PinLineParse);
    assert_eq!(head_of(root.path(), "A"), a[1]);
}

#[test]
fn restore_reads_lines_that_end_in_carriage_return_and_line_feed() {
    let root = new_root();
    let a = make_checkout(root.path(), "A", 2);
    let b = make_checkout(root.path(), "B", 2);
    let text = format!("A:{}\r\nB:{}", a[0], b[0]);
    assert!(restore_pt_by_hash(&text_of(&root), &text).is_ok());
    assert_eq!(head_of(root.path(), "A"), a[0]);
    assert_eq!(head_of(root.path(), "B"), b[0]);
}

#[test]
fn the_last_line_for_a_name_wins() {
    let root = new_root();
    let a = make_checkout(root.path(), "A", 3);
    let text = format!("A:{}\nA:{}\n", a[0], a[1]);
    assert!(restore_pt_by_hash(&text_of(&root), &text).is_ok());
    assert_eq!(head_of(root.path(), "A"), a[1]);
}

#[test]
fn restore_line_applies_one_line() {
    let root = new_root();
    let a = make_checkout(root.path(), "A", 2);
    assert!(restore_line(&text_of(&root), 4, &format!("A:{}", a[0])).is_ok());
    assert_eq!(head_of(root.path(), "A"), a[0]);

    let e = failure(restore_line(&text_of(&root), 4, "A"));
    assert_eq!(e.index, 4);
    assert_eq!(e.kind, ErrorKind::PinLineParse);
    let e = failure(restore_line(&text_of(&root), 5, &format!("A:{}", ABSENT)));
    assert_eq!(e.index, 5);
    assert_eq!(e.kind, ErrorKind::ObjectNotFound);
    assert_eq!(head_of(root.path(), "A"), a[0]);
}

#[test]
fn restore_pin_applies_one_record() {
    let root = new_root();
    let a = make_checkout(root.path(), "A", 2);
    assert!(restore_pin(&text_of(&root), 0, &record("A", &a[0])).is_ok());
    assert_eq!(head_of(root.path(), "A"), a[0]);
    assert!(is_detached(root.path(), "A"));

    let e = failure(restore_pin(&text_of(&root), 3, &record("A", "xyz")));
    assert_eq!(e.index, 3);
    assert_eq!(e.kind, ErrorKind::InvalidIdentifier);
    let e = failure(restore_pin(&text_of(&root), 3, &record("Z", &a[0])));
    assert_eq!(e.kind, ErrorKind::RepositoryOpen);
    assert_eq!(head_of(root.path(), "A"), a[0]);
}

#[test]
fn a_refusal_becomes_a_failure_at_its_step() {
    let root = new_root();
    let refused = Repository::open(root.path().join("nowhere")).map(|_| ());
    let message = refused.as_ref().unwrap_err().message().to_owned();
    let e = at_step(refused, 9, ErrorKind::RepositoryOpen).unwrap_err();
    assert_eq!(e.index, 9);
    assert_eq!(e.kind, ErrorKind::RepositoryOpen);
    assert_eq!(e.cause.unwrap().message(), message);

    let passed = at_step(Ok::<u32, git2::Error>(5), 9, ErrorKind::ObjectNotFound).unwrap();
    assert_eq!(passed, 5);
}

#[test]
fn the_line_that_cannot_be_read_has_no_cause() {
    let e = PinError::unreadable_line(12);
    assert_eq!(e.index, 12);
    assert_eq!(e.kind, ErrorKind::PinLineParse);
    assert!(e.cause.is_none());
}

#[test]
fn a_commit_that_was_found_gives_its_identifier() {
    let root = new_root();
    let a = make_checkout(root.path(), "A", 3);
    let repo = Repository::open(root.path().join("A")).unwrap();
    let last = identifier_of_commit(repo.find_commit(Oid::from_str(&a[2]).unwrap())).unwrap();
    assert_eq!(last, a[2]);
    assert!(is_canonical(&last));
    let first = identifier_of_commit(repo.find_commit(Oid::from_str(&a[0]).unwrap())).unwrap();
    assert_eq!(first, a[0]);
}

#[test]
fn a_commit_that_was_not_found_gives_the_refusal_as_it_is() {
    let root = new_root();
    make_checkout(root.path(), "A", 1);
    let repo = Repository::open(root.path().join("A")).unwrap();
    let refused = repo.find_commit(Oid::from_str(ABSENT).unwrap());
    let expected = match &refused {
        Ok(_) => panic!("the commit was found"),
        Err(e) => (e.code(), e.class(), e.message().to_owned()),
    };
    let e = identifier_of_commit(refused).unwrap_err();
    assert_eq!((e.code(), e.class(), e.message().to_owned()), expected);
}

#[test]
fn a_repository_that_did_not_open_is_the_failure_whatever_the_identifier() {
    let root = new_root();
    let a = make_checkout(root.path(), "A", 1);
    for identifier in ["not-an-identifier", ABSENT, a[0].as_str()] {
        let refused = Repository::open(root.path().join("nowhere"));
        let message = match &refused {
            Ok(_) => panic!("the repository opened"),
            Err(e) => e.message().to_owned(),
        };
        let e = failure(restore_opened(refused, 6, identifier));
        assert_eq!(e.index, 6);
        assert_eq!(e.kind, ErrorKind::RepositoryOpen);
        assert_eq!(e.cause.unwrap().message(), message);
    }
}

#[test]
fn a_repository_that_opened_has_the_identifier_read_and_then_looked_for() {
    let root = new_root();
    let a = make_checkout(root.path(), "A", 2);

    let opened = Repository::open(root.path().join("A"));
    let e = failure(restore_opened(opened, 2, "not-an-identifier"));
    assert_eq!(e.index, 2);
    assert_eq!(e.kind, ErrorKind::InvalidIdentifier);
    assert!(e.cause.is_some());

    let opened = Repository::open(root.path().join("A"));
    let e = failure(restore_opened(opened, 2, ABSENT));
    assert_eq!(e.index, 2);
    assert_eq!(e.kind, ErrorKind::ObjectNotFound);
    assert!(e.cause.is_some());
    assert_eq!(head_of(root.path(), "A"), a[1]);

    let opened = Repository::open(root.path().join("A"));
    assert!(restore_opened(opened, 2, &a[0]).is_ok());
    assert_eq!(head_of(root.path(), "A"), a[0]);
    assert!(is_detached(root.path(), "A"));
}

#[test]
fn a_repository_that_opened_is_resolved() {
    let root = new_root();
    let a = make_checkout(root.path(), "A", 2);
    make_checkout(root.path(), "E", 0);

    let pinned = pin_opened(Repository::open(root.path().join("A")), 1, "A").unwrap();
    assert_eq!(pinned, record("A", &a[1]));

    let e = pin_opened(Repository::open(root.path().join("E")), 8, "E").unwrap_err();
    assert_eq!(e.index, 8);
    assert_eq!(e.kind, ErrorKind::HeadResolution);
    assert!(e.cause.is_some());

    let refused = Repository::open(root.path().join("nowhere"));
    let message = match &refused {
        Ok(_) => panic!("the repository opened"),
        Err(e) => e.message().to_owned(),
    };
    let e = pin_opened(refused, 9, "nowhere").unwrap_err();
    assert_eq!(e.index, 9);
    assert_eq!(e.kind, ErrorKind::RepositoryOpen);
    assert_eq!(e.cause.unwrap().message(), message);
}

#[test]
fn a_pin_holds_the_identifier_that_was_resolved() {
    let pinned = pin_resolved(Ok(ABSENT.to_owned()), 0, "A").unwrap();
    assert_eq!(pinned, record("A", ABSENT));
    let pinned = pin_resolved(Ok("0123".to_owned()), 0, "with space").unwrap();
    assert_eq!(pinned, record("with space", "0123"));

    let e = pin_resolved(Err(git2::Error::from_str("no commit yet")), 4, "A").unwrap_err();
    assert_eq!(e.index, 4);
    assert_eq!(e.kind, ErrorKind::HeadResolution);
    assert_eq!(e.cause.unwrap().message(), "no commit yet");
}

#[test]
fn each_checkout_is_pinned_to_its_own_commit() {
    let root = new_root();
    let a = make_checkout(root.path(), "A", 2);
    let b = make_checkout(root.path(), "B", 3);
    assert_ne!(a[1], b[2]);
    let repo_a = Repository::open(root.path().join("A")).unwrap();
    let repo_b = Repository::open(root.path().join("B")).unwrap();
    let commit_a = repo_a.head().unwrap().peel_to_commit();
    let commit_b = repo_b.head().unwrap().peel_to_commit();
    assert_eq!(identifier_of_commit(commit_a).unwrap(), a[1]);
    assert_eq!(identifier_of_commit(commit_b).unwrap(), b[2]);
    let records =
        record_pt_repo_hash(&text_of(&root), &vec![directory("A"), directory("B")]).unwrap();
    assert_eq!(records, vec![record("A", &a[1]), record("B", &b[2])]);
}
