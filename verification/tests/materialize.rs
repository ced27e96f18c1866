use git_get::error::RetrievalError;
use git_get::materialize::{plan_entries, CopyEvent, CopyTask, Materializer, SourceEntry};

fn entry(handle: usize, name: &str, is_dir: bool) -> SourceEntry {
    SourceEntry { handle, name: name.to_string(), is_dir }
}

fn path(names: &[&str]) -> Vec<String> {
    names.iter().map(|n| n.to_string()).collect()
}

fn make(handle: usize, names: &[&str]) -> CopyTask {
    CopyTask::MakeDirectory { handle, path: path(names) }
}

fn list(handle: usize, names: &[&str]) -> CopyTask {
    CopyTask::ListDirectory { handle, path: path(names) }
}

fn copy(handle: usize, names: &[&str]) -> CopyTask {
    CopyTask::CopyFile { handle, path: path(names) }
}

/// A tree in memory: the entries of each directory, by the directory's handle.
struct Tree {
    listings: Vec<(usize, Vec<SourceEntry>)>,
}

impl Tree {
    fn entries(&self, handle: usize) -> Vec<SourceEntry> {
        for (h, entries) in &self.listings {
            if *h == handle {
                return entries.clone();
            }
        }
        Vec::new()
    }
}

/// Walks the tree to the end; gives the tasks in the order they were asked for.
fn walk(tree: &Tree) -> Vec<CopyTask> {
    let mut materializer = Materializer::new();
    let mut tasks = Vec::new();
    while let Some(task) = materializer.next_task() {
        let event = match &task {
            CopyTask::ListDirectory { handle, .. } => {
                CopyEvent::Listed { entries: tree.entries(*handle) }
            }
            _ => CopyEvent::Done,
        };
        tasks.push(task);
        materializer = materializer.advance(event).unwrap();
        assert!(tasks.len() < 100);
    }
    assert!(materializer.is_done());
    tasks
}

#[test]
fn every_entry_gets_its_tasks_in_order() {
    let entries = vec![entry(1, "src", true), entry(2, "README.md", false), entry(3, "docs", true)];
    assert_eq!(
        plan_entries(&path(&[]), &entries),
        vec![
            make(1, &["src"]),
            list(1, &["src"]),
            copy(2, &["README.md"]),
            make(3, &["docs"]),
            list(3, &["docs"]),
        ]
    );
}

#[test]
fn entries_keep_their_place_below_the_parent() {
    let entries = vec![entry(7, "util", true), entry(8, "mod.rs", false)];
    assert_eq!(
        plan_entries(&path(&["lib", "core"]), &entries),
        vec![
            make(7, &["lib", "core", "util"]),
            list(7, &["lib", "core", "util"]),
            copy(8, &["lib", "core", "mod.rs"]),
        ]
    );
}

#[test]
fn metadata_directory_is_left_out() {
    let entries = vec![entry(1, ".git", true), entry(2, "src", true), entry(3, ".gitignore", false)];
    assert_eq!(
        plan_entries(&path(&[]), &entries),
        vec![make(2, &["src"]), list(2, &["src"]), copy(3, &[".gitignore"])]
    );
    let entries = vec![entry(1, "a", false), entry(2, ".git", false), entry(3, "b", false)];
    assert_eq!(plan_entries(&path(&["x"]), &entries), vec![copy(1, &["x", "a"]), copy(3, &["x", "b"])]);
}

#[test]
fn names_that_only_resemble_metadata_are_copied() {
    let entries = vec![entry(1, ".github", true), entry(2, "x.git", false), entry(3, ".gi", false)];
    assert_eq!(
        plan_entries(&path(&[]), &entries),
        vec![make(1, &[".github"]), list(1, &[".github"]), copy(2, &["x.git"]), copy(3, &[".gi"])]
    );
}

#[test]
fn empty_directory_needs_no_task() {
    assert_eq!(plan_entries(&path(&[]), &Vec::new()), Vec::<CopyTask>::new());
    assert_eq!(plan_entries(&path(&[]), &vec![entry(1, ".git", true)]), Vec::<CopyTask>::new());
}

#[test]
fn walk_begins_with_the_root() {
    let materializer = Materializer::new();
    assert!(!materializer.is_done());
    assert_eq!(materializer.next_task(), Some(make(0, &[])));
    let materializer = materializer.advance(CopyEvent::Done).unwrap();
    assert_eq!(materializer.next_task(), Some(list(0, &[])));
}

#[test]
fn empty_tree_makes_the_destination_only() {
    let tree = Tree { listings: vec![] };
    assert_eq!(walk(&tree), vec![make(0, &[]), list(0, &[])]);
}

#[test]
fn walk_goes_depth_first_in_listing_order() {
    let tree = Tree {
        listings: vec![
            (0, vec![entry(1, "src", true), entry(2, "README.md", false), entry(3, "docs", true)]),
            (1, vec![entry(4, "main.rs", false), entry(5, "util", true)]),
            (5, vec![entry(6, "io.rs", false)]),
            (3, vec![entry(7, "guide.md", false)]),
        ],
    };
    assert_eq!(
        walk(&tree),
        vec![
            make(0, &[]),
            list(0, &[]),
            make(1, &["src"]),
            list(1, &["src"]),
            copy(4, &["src", "main.rs"]),
            make(5, &["src", "util"]),
            list(5, &["src", "util"]),
            copy(6, &["src", "util", "io.rs"]),
            copy(2, &["README.md"]),
            make(3, &["docs"]),
            list(3, &["docs"]),
            copy(7, &["docs", "guide.md"]),
        ]
    );
}

#[test]
fn metadata_directory_is_left_out_at_any_depth() {
    let tree = Tree {
        listings: vec![
            (0, vec![entry(1, ".git", true), entry(2, "vendor", true)]),
            (1, vec![entry(3, "HEAD", false)]),
            (2, vec![entry(4, ".git", true), entry(5, "lib.rs", false), entry(6, ".git", false)]),
            (4, vec![entry(7, "config", false)]),
        ],
    };
    let tasks = walk(&tree);
    assert_eq!(
        tasks,
        vec![
            make(0, &[]),
            list(0, &[]),
            make(2, &["vendor"]),
            list(2, &["vendor"]),
            copy(5, &["vendor", "lib.rs"]),
        ]
    );
}

#[test]
fn failure_ends_the_copy() {
    let materializer = Materializer::new();
    assert_eq!(
        materializer.advance(CopyEvent::Failed { diagnostic: "permission denied".to_string() }),
        Err(RetrievalError::CopyFailed { diagnostic: "permission denied".to_string() })
    );
}

#[test]
fn event_that_answers_another_task_changes_nothing() {
    let materializer = Materializer::new();
    let materializer = materializer
        .advance(CopyEvent::Listed { entries: vec![entry(1, "a", false)] })
        .unwrap();
    assert_eq!(materializer.next_task(), Some(make(0, &[])));
    let materializer = materializer.advance(CopyEvent::Done).unwrap();
    let materializer = materializer.advance(CopyEvent::Done).unwrap();
    assert_eq!(materializer.next_task(), Some(list(0, &[])));
}

#[test]
fn finished_copy_asks_for_nothing() {
    let materializer = Materializer::new();
    let materializer = materializer.advance(CopyEvent::Done).unwrap();
    let materializer = materializer.advance(CopyEvent::Listed { entries: Vec::new() }).unwrap();
    assert!(materializer.is_done());
    assert_eq!(materializer.next_task(), None);
    let materializer = materializer
        .advance(CopyEvent::Failed { diagnostic: "late".to_string() })
        .unwrap();
    assert!(materializer.is_done());
}
