//! Materializing: walking the staged tree and copying it to the destination.
//! The repository's own metadata directory is never copied, at whatever
//! depth it stands.
//!
//! The library walks; the caller reads and writes. `Materializer::next_task`
//! names a directory to make, a directory to list or a file to copy; the
//! caller does it and reports, for a listing, the entries it found. The
//! caller gives every entry a handle of its choice, and a task names its
//! entry by that handle and by its path below the root. The root has the
//! handle `0` and the empty path.

use crate::error::{ErrorView, RetrievalError};
use crate::text::{same_str, views};
use vstd::prelude::*;

verus! {

/// A direct entry of a directory that was listed.
#[derive(Debug, Clone, PartialEq, Eq)]
pub struct SourceEntry {
    /// What the caller knows the entry by.
    pub handle: usize,
    /// The entry's name.
    pub name: String,
    /// Whether it is a directory.
    pub is_dir: bool,
}

/// A `SourceEntry` with its name as a character sequence.
pub struct EntryView {
    pub handle: usize,
    pub name: Seq<char>,
    pub is_dir: bool,
}

impl View for SourceEntry {
    type V = EntryView;

    open spec fn view(&self) -> EntryView {
        EntryView { handle: self.handle, name: self.name@, is_dir: self.is_dir }
    }
}

/// What the caller is asked to do. `path` holds the names from the root down
/// to the entry; source and destination have the same.
#[derive(Debug, Clone, PartialEq, Eq)]
pub enum CopyTask {
    /// Make this directory at the destination, where it is not there yet.
    MakeDirectory { handle: usize, path: Vec<String> },
    /// Report the entries of this directory of the source.
    ListDirectory { handle: usize, path: Vec<String> },
    /// Copy this file.
    CopyFile { handle: usize, path: Vec<String> },
}

/// A `CopyTask` with its path as character sequences.
pub enum TaskView {
    MakeDirectory { handle: usize, path: Seq<Seq<char>> },
    ListDirectory { handle: usize, path: Seq<Seq<char>> },
    CopyFile { handle: usize, path: Seq<Seq<char>> },
}

impl View for CopyTask {
    type V = TaskView;

    open spec fn view(&self) -> TaskView {
        match *self {
            CopyTask::MakeDirectory { handle, path } => TaskView::MakeDirectory {
                handle,
                path: views(path@),
            },
            CopyTask::ListDirectory { handle, path } => TaskView::ListDirectory {
                handle,
                path: views(path@),
            },
            CopyTask::CopyFile { handle, path } => TaskView::CopyFile { handle, path: views(path@) },
        }
    }
}

/// What the caller reports of a task.
#[derive(Debug, Clone, PartialEq, Eq)]
pub enum CopyEvent {
    /// The directory is made, or the file is copied.
    Done,
    /// The directory holds these entries.
    Listed { entries: Vec<SourceEntry> },
    /// The entry could not be read or written.
    Failed { diagnostic: String },
}

/// A `CopyEvent` as character sequences.
pub enum CopyEventView {
    Done,
    Listed { entries: Seq<EntryView> },
    Failed { diagnostic: Seq<char> },
}

impl View for CopyEvent {
    type V = CopyEventView;

    open spec fn view(&self) -> CopyEventView {
        match *self {
            CopyEvent::Done => CopyEventView::Done,
            CopyEvent::Listed { entries } => CopyEventView::Listed {
                entries: entry_views(entries@),
            },
            CopyEvent::Failed { diagnostic } => CopyEventView::Failed { diagnostic: diagnostic@ },
        }
    }
}

/// What a list of entries holds, entry by entry.
pub open spec fn entry_views(entries: Seq<SourceEntry>) -> Seq<EntryView> {
    Seq::new(entries.len(), |i: int| entries[i]@)
}

/// What a list of tasks holds, task by task.
pub open spec fn task_views(tasks: Seq<CopyTask>) -> Seq<TaskView> {
    Seq::new(tasks.len(), |i: int| tasks[i]@)
}

/// The name is that of the metadata directory.
pub open spec fn is_metadata(name: Seq<char>) -> bool {
    name =~= ".git"@
}

/// The path that a task is about.
pub open spec fn task_path(task: TaskView) -> Seq<Seq<char>> {
    match task {
        TaskView::MakeDirectory { path, .. } => path,
        TaskView::ListDirectory { path, .. } => path,
        TaskView::CopyFile { path, .. } => path,
    }
}

/// No name on the path is that of the metadata directory.
pub open spec fn is_clean(path: Seq<Seq<char>>) -> bool {
    forall|i: int| 0 <= i < path.len() ==> !is_metadata(#[trigger] path[i])
}

/// Every task is about a clean path.
pub open spec fn all_clean(tasks: Seq<TaskView>) -> bool {
    forall|i: int| 0 <= i < tasks.len() ==> is_clean(task_path(#[trigger] tasks[i]))
}

/// The tasks for one entry of the directory at `parent`: none for the
/// metadata directory; for a directory, to make it and then to list it; for
/// anything else, to copy it.
pub open spec fn tasks_for_entry(parent: Seq<Seq<char>>, entry: EntryView) -> Seq<TaskView> {
    if is_metadata(entry.name) {
        Seq::<TaskView>::empty()
    } else if entry.is_dir {
        seq![
            TaskView::MakeDirectory { handle: entry.handle, path: parent.push(entry.name) },
            TaskView::ListDirectory { handle: entry.handle, path: parent.push(entry.name) },
        ]
    } else {
        seq![TaskView::CopyFile { handle: entry.handle, path: parent.push(entry.name) }]
    }
}

/// The tasks for the entries of the directory at `parent`, in the order of
/// the entries.
pub open spec fn tasks_for(parent: Seq<Seq<char>>, entries: Seq<EntryView>) -> Seq<TaskView>
    decreases entries.len(),
{
    if entries.len() == 0 {
        Seq::<TaskView>::empty()
    } else {
        tasks_for(parent, entries.drop_last()) + tasks_for_entry(parent, entries.last())
    }
}

/// Where the walk begins: the destination is made, then the root is listed.
pub open spec fn initial_tasks() -> Seq<TaskView> {
    seq![
        TaskView::MakeDirectory { handle: 0, path: Seq::<Seq<char>>::empty() },
        TaskView::ListDirectory { handle: 0, path: Seq::<Seq<char>>::empty() },
    ]
}

/// The tasks that are left after an event. A failure ends the copy. A
/// listing puts the tasks for its entries before everything else, so that a
/// directory is done with before the entry after it is begun. An event that
/// does not answer the first task changes nothing.
pub open spec fn copy_step(pending: Seq<TaskView>, event: CopyEventView) -> Result<
    Seq<TaskView>,
    ErrorView,
> {
    if pending.len() == 0 {
        Ok(pending)
    } else {
        match event {
            CopyEventView::Failed { diagnostic } => Err(ErrorView::CopyFailed { diagnostic }),
            CopyEventView::Listed { entries } => match pending[0] {
                TaskView::ListDirectory { path, .. } => Ok(
                    tasks_for(path, entries) + pending.drop_first(),
                ),
                _ => Ok(pending),
            },
            CopyEventView::Done => match pending[0] {
                TaskView::ListDirectory { .. } => Ok(pending),
                _ => Ok(pending.drop_first()),
            },
        }
    }
}

/// Below a clean path, every task is about a clean path: the metadata
/// directory gets no task.
pub proof fn lemma_tasks_are_clean(parent: Seq<Seq<char>>, entries: Seq<EntryView>)
    requires
        is_clean(parent),
    ensures
        all_clean(tasks_for(parent, entries)),
    decreases entries.len(),
{
    if entries.len() > 0 {
        lemma_tasks_are_clean(parent, entries.drop_last());
        let before = tasks_for(parent, entries.drop_last());
        let last = tasks_for_entry(parent, entries.last());
        let tasks = tasks_for(parent, entries);
        assert forall|i: int| 0 <= i < tasks.len() implies is_clean(
            task_path(#[trigger] tasks[i]),
        ) by {
            if i < before.len() {
                assert(tasks[i] == before[i]);
            } else {
                assert(tasks[i] == last[i - before.len()]);
                let path = parent.push(entries.last().name);
                assert(task_path(tasks[i]) == path);
                assert forall|k: int| 0 <= k < path.len() implies !is_metadata(
                    #[trigger] path[k],
                ) by {
                    if k < parent.len() {
                        assert(path[k] == parent[k]);
                    }
                }
            }
        }
    }
}

/// Every entry but the metadata directory has its tasks: a directory is
/// made and listed, anything else is copied, under its name below the parent.
pub proof fn lemma_every_entry_has_tasks(
    parent: Seq<Seq<char>>,
    entries: Seq<EntryView>,
    i: int,
)
    requires
        0 <= i < entries.len(),
        !is_metadata(entries[i].name),
    ensures
        entries[i].is_dir ==> tasks_for(parent, entries).contains(
            TaskView::MakeDirectory {
                handle: entries[i].handle,
                path: parent.push(entries[i].name),
            },
        ) && tasks_for(parent, entries).contains(
            TaskView::ListDirectory {
                handle: entries[i].handle,
                path: parent.push(entries[i].name),
            },
        ),
        !entries[i].is_dir ==> tasks_for(parent, entries).contains(
            TaskView::CopyFile { handle: entries[i].handle, path: parent.push(entries[i].name) },
        ),
    decreases entries.len(),
{
    let tasks = tasks_for(parent, entries);
    let before = tasks_for(parent, entries.drop_last());
    let last = tasks_for_entry(parent, entries.last());
    if i == entries.len() - 1 {
        assert(tasks[before.len() as int] == last[0]);
        if entries[i].is_dir {
            assert(tasks[before.len() as int + 1] == last[1]);
        }
    } else {
        lemma_every_entry_has_tasks(parent, entries.drop_last(), i);
        assert forall|t: TaskView| before.contains(t) implies tasks.contains(t) by {
            let k = choose|k: int| 0 <= k < before.len() && before[k] == t;
            assert(tasks[k] == t);
        }
    }
}

/// A step of the copy leaves every task about a clean path: whatever is
/// listed, nothing in or below a metadata directory is ever asked for.
pub proof fn lemma_copy_step_keeps_clean(pending: Seq<TaskView>, event: CopyEventView)
    requires
        all_clean(pending),
    ensures
        copy_step(pending, event) matches Ok(next) ==> all_clean(next),
{
    if pending.len() > 0 {
        let rest = pending.drop_first();
        assert forall|i: int| 0 <= i < rest.len() implies is_clean(
            task_path(#[trigger] rest[i]),
        ) by {
            assert(rest[i] == pending[i + 1]);
        }
        match (event, pending[0]) {
            (CopyEventView::Listed { entries }, TaskView::ListDirectory { path, .. }) => {
                lemma_tasks_are_clean(path, entries);
                let fresh = tasks_for(path, entries);
                let next = fresh + rest;
                assert forall|i: int| 0 <= i < next.len() implies is_clean(
                    task_path(#[trigger] next[i]),
                ) by {
                    if i < fresh.len() {
                        assert(next[i] == fresh[i]);
                    } else {
                        assert(next[i] == rest[i - fresh.len()]);
                    }
                }
            },
            _ => {},
        }
    }
}

/// A file or a directory of the source, as a listing shows it, with what a
/// directory holds.
pub struct TreeNode {
    pub entry: EntryView,
    pub children: Seq<TreeNode>,
}

/// What the listing of a directory shows that holds these nodes.
pub open spec fn listing(nodes: Seq<TreeNode>) -> Seq<EntryView> {
    Seq::new(nodes.len(), |i: int| nodes[i].entry)
}

/// The copy of a tree: for every node in turn its own tasks and then, for a
/// directory, the copy of what it holds. The metadata directory has no
/// tasks of its own, and what it holds has none either.
pub open spec fn tasks_of_tree(parent: Seq<Seq<char>>, nodes: Seq<TreeNode>) -> Seq<TaskView>
    decreases nodes,
{
    if nodes.len() == 0 {
        Seq::<TaskView>::empty()
    } else {
        let node = nodes.last();
        tasks_of_tree(parent, nodes.drop_last()) + tasks_for_entry(parent, node.entry) + (if node.entry.is_dir
            && !is_metadata(node.entry.name) {
            tasks_of_tree(parent.push(node.entry.name), node.children)
        } else {
            Seq::<TaskView>::empty()
        })
    }
}

/// The listings are those of the tree: asked to list a directory of it that
/// is copied, `lists` shows what the directory holds.
pub open spec fn lists_tree(
    lists: spec_fn(TaskView) -> Seq<EntryView>,
    parent: Seq<Seq<char>>,
    nodes: Seq<TreeNode>,
) -> bool
    decreases nodes,
{
    nodes.len() == 0 || {
        let node = nodes.last();
        &&& lists_tree(lists, parent, nodes.drop_last())
        &&& (node.entry.is_dir && !is_metadata(node.entry.name) ==> {
            &&& lists(
                TaskView::ListDirectory {
                    handle: node.entry.handle,
                    path: parent.push(node.entry.name),
                },
            ) == listing(node.children)
            &&& lists_tree(lists, parent.push(node.entry.name), node.children)
        })
    }
}

/// What a caller reports of a task when nothing fails: for a listing what
/// `lists` shows, for anything else that it is done.
pub open spec fn answer(lists: spec_fn(TaskView) -> Seq<EntryView>, task: TaskView)
    -> CopyEventView {
    match task {
        TaskView::ListDirectory { .. } => CopyEventView::Listed { entries: lists(task) },
        _ => CopyEventView::Done,
    }
}

/// A walk of so many steps at most in which nothing fails: the tasks that
/// were done, in their order, and the tasks that are left.
pub open spec fn walk(
    pending: Seq<TaskView>,
    lists: spec_fn(TaskView) -> Seq<EntryView>,
    steps: nat,
) -> (Seq<TaskView>, Seq<TaskView>)
    decreases steps,
{
    if steps == 0 || pending.len() == 0 {
        (Seq::<TaskView>::empty(), pending)
    } else {
        match copy_step(pending, answer(lists, pending[0])) {
            Ok(next) => {
                let (done, left) = walk(next, lists, (steps - 1) as nat);
                (seq![pending[0]] + done, left)
            },
            Err(_) => (Seq::<TaskView>::empty(), pending),
        }
    }
}

/// A walk of `a + b` steps is one of `a` steps and, from where that ends,
/// one of `b` steps.
pub proof fn lemma_walk_composes(
    pending: Seq<TaskView>,
    lists: spec_fn(TaskView) -> Seq<EntryView>,
    a: nat,
    b: nat,
)
    ensures
        walk(pending, lists, a + b) == (
            walk(pending, lists, a).0 + walk(walk(pending, lists, a).1, lists, b).0,
            walk(walk(pending, lists, a).1, lists, b).1,
        ),
    decreases a,
{
    let first = walk(pending, lists, a);
    let second = walk(first.1, lists, b);
    if a == 0 {
        assert(first.0 + second.0 =~= second.0);
    } else if pending.len() == 0 {
        assert(walk(pending, lists, b) == (Seq::<TaskView>::empty(), pending));
        assert(first.0 + second.0 =~= Seq::<TaskView>::empty());
    } else {
        match copy_step(pending, answer(lists, pending[0])) {
            Ok(next) => {
                lemma_walk_composes(next, lists, (a - 1) as nat, b);
                let inner = walk(next, lists, (a - 1) as nat);
                assert(first == (seq![pending[0]] + inner.0, inner.1));
                assert((a + b - 1) as nat == (a - 1) as nat + b);
                assert(seq![pending[0]] + (inner.0 + second.0) =~= first.0 + second.0);
            },
            Err(_) => {},
        }
    }
}

/// Where the listings are those of a tree, the walk of a directory's
/// entries does the copy of the tree below it, task for task and in that
/// order, and leaves what was pending behind them.
pub proof fn lemma_walk_does_tree(
    parent: Seq<Seq<char>>,
    nodes: Seq<TreeNode>,
    lists: spec_fn(TaskView) -> Seq<EntryView>,
    rest: Seq<TaskView>,
)
    requires
        lists_tree(lists, parent, nodes),
    ensures
        walk(
            tasks_for(parent, listing(nodes)) + rest,
            lists,
            tasks_of_tree(parent, nodes).len(),
        ) == (tasks_of_tree(parent, nodes), rest),
    decreases nodes,
{
    let pending = tasks_for(parent, listing(nodes)) + rest;
    if nodes.len() == 0 {
        assert(pending =~= rest);
    } else {
        let node = nodes.last();
        let before = nodes.drop_last();
        let own = tasks_for_entry(parent, node.entry);
        let path = parent.push(node.entry.name);
        let descends = node.entry.is_dir && !is_metadata(node.entry.name);
        let below = if descends {
            tasks_of_tree(path, node.children)
        } else {
            Seq::<TaskView>::empty()
        };
        let earlier = tasks_of_tree(parent, before);
        assert(listing(nodes).drop_last() =~= listing(before));
        assert(listing(nodes).last() == node.entry);
        assert(pending =~= tasks_for(parent, listing(before)) + (own + rest));
        lemma_walk_does_tree(parent, before, lists, own + rest);
        // the node's own tasks, and the copy of what it holds
        assert(walk(own + rest, lists, own.len() + below.len()) == (own + below, rest)) by {
            if is_metadata(node.entry.name) {
                assert(own + rest =~= rest);
                assert(own + below =~= Seq::<TaskView>::empty());
            } else if node.entry.is_dir {
                let make = own[0];
                let list = own[1];
                let first = own + rest;
                let second = seq![list] + rest;
                assert(first.drop_first() =~= second);
                assert(copy_step(first, answer(lists, make)) == Ok::<Seq<TaskView>, ErrorView>(
                    second,
                ));
                let third = tasks_for(path, listing(node.children)) + rest;
                assert(second.drop_first() =~= rest);
                assert(copy_step(second, answer(lists, list)) == Ok::<Seq<TaskView>, ErrorView>(
                    third,
                ));
                lemma_walk_does_tree(path, node.children, lists, rest);
                assert(walk(third, lists, below.len()) == (below, rest));
                assert(walk(second, lists, below.len() + 1) == (seq![list] + below, rest));
                assert(walk(first, lists, below.len() + 2) == (
                    seq![make] + (seq![list] + below),
                    rest,
                ));
                assert(seq![make] + (seq![list] + below) =~= own + below);
            } else {
                let first = own + rest;
                assert(first.drop_first() =~= rest);
                assert(copy_step(first, answer(lists, own[0])) == Ok::<Seq<TaskView>, ErrorView>(
                    rest,
                ));
                assert(walk(rest, lists, 0) == (Seq::<TaskView>::empty(), rest));
                assert(walk(first, lists, 1) == (seq![own[0]] + Seq::<TaskView>::empty(), rest));
                assert(seq![own[0]] + Seq::<TaskView>::empty() =~= own + below);
            }
        }
        lemma_walk_composes(pending, lists, earlier.len(), own.len() + below.len());
        assert(earlier + (own + below) =~= tasks_of_tree(parent, nodes));
        assert(tasks_of_tree(parent, nodes).len() == earlier.len() + (own.len() + below.len()));
    }
}

/// The copy of a tree as a whole. Where the listings are those of the tree
/// with these nodes at its root, a walk in which nothing fails makes the
/// destination, lists the root, does the copy of the tree, task for task,
/// and then has nothing left to do.
pub proof fn lemma_walk_copies_tree(
    root: Seq<TreeNode>,
    lists: spec_fn(TaskView) -> Seq<EntryView>,
)
    requires
        lists(TaskView::ListDirectory { handle: 0, path: Seq::<Seq<char>>::empty() }) == listing(
            root,
        ),
        lists_tree(lists, Seq::<Seq<char>>::empty(), root),
    ensures
        walk(
            initial_tasks(),
            lists,
            2 + tasks_of_tree(Seq::<Seq<char>>::empty(), root).len(),
        ) == (
            initial_tasks() + tasks_of_tree(Seq::<Seq<char>>::empty(), root),
            Seq::<TaskView>::empty(),
        ),
        all_clean(tasks_of_tree(Seq::<Seq<char>>::empty(), root)),
{
    let top = Seq::<Seq<char>>::empty();
    let nothing = Seq::<TaskView>::empty();
    let tree = tasks_of_tree(top, root);
    let first = initial_tasks();
    let make = first[0];
    let list = first[1];
    let second = seq![list];
    let third = tasks_for(top, listing(root)) + nothing;
    assert(first.drop_first() =~= second);
    assert(copy_step(first, answer(lists, make)) == Ok::<Seq<TaskView>, ErrorView>(second));
    assert(second.drop_first() =~= nothing);
    assert(copy_step(second, answer(lists, list)) == Ok::<Seq<TaskView>, ErrorView>(third));
    lemma_walk_does_tree(top, root, lists, nothing);
    assert(walk(third, lists, tree.len()) == (tree, nothing));
    assert(walk(second, lists, tree.len() + 1) == (seq![list] + tree, nothing));
    assert(walk(first, lists, tree.len() + 2) == (seq![make] + (seq![list] + tree), nothing));
    assert(seq![make] + (seq![list] + tree) =~= initial_tasks() + tree);
    lemma_tree_tasks_are_clean(top, root);
}

/// Below a clean path, the copy of a tree has only tasks about clean
/// paths: nothing in or below a metadata directory is copied, at any depth.
pub proof fn lemma_tree_tasks_are_clean(parent: Seq<Seq<char>>, nodes: Seq<TreeNode>)
    requires
        is_clean(parent),
    ensures
        all_clean(tasks_of_tree(parent, nodes)),
    decreases nodes,
{
    if nodes.len() > 0 {
        let node = nodes.last();
        let earlier = tasks_of_tree(parent, nodes.drop_last());
        let own = tasks_for_entry(parent, node.entry);
        let path = parent.push(node.entry.name);
        let descends = node.entry.is_dir && !is_metadata(node.entry.name);
        let below = if descends {
            tasks_of_tree(path, node.children)
        } else {
            Seq::<TaskView>::empty()
        };
        lemma_tree_tasks_are_clean(parent, nodes.drop_last());
        lemma_tasks_are_clean(parent, seq![node.entry]);
        assert(tasks_for(parent, seq![node.entry]) =~= own) by {
            reveal_with_fuel(tasks_for, 2);
            assert(seq![node.entry].drop_last() =~= Seq::<EntryView>::empty());
        }
        if descends {
            assert forall|k: int| 0 <= k < path.len() implies !is_metadata(#[trigger] path[k]) by {
                if k < parent.len() {
                    assert(path[k] == parent[k]);
                }
            }
            lemma_tree_tasks_are_clean(path, node.children);
        }
        let tasks = tasks_of_tree(parent, nodes);
        assert forall|i: int| 0 <= i < tasks.len() implies is_clean(
            task_path(#[trigger] tasks[i]),
        ) by {
            if i < earlier.len() {
                assert(tasks[i] == earlier[i]);
            } else if i < earlier.len() + own.len() {
                assert(tasks[i] == own[i - earlier.len()]);
            } else {
                assert(tasks[i] == below[i - earlier.len() - own.len()]);
            }
        }
    }
}

/// Every node of a tree that is not the metadata directory has its tasks
/// in the copy of the tree, and so has everything in the copy of what a
/// directory among them holds: whatever stands below directories that are
/// copied is copied.
pub proof fn lemma_tree_holds_node(parent: Seq<Seq<char>>, nodes: Seq<TreeNode>, i: int)
    requires
        0 <= i < nodes.len(),
        !is_metadata(nodes[i].entry.name),
    ensures
        forall|t: TaskView|
            tasks_for_entry(parent, nodes[i].entry).contains(t) ==> tasks_of_tree(
                parent,
                nodes,
            ).contains(t),
        nodes[i].entry.is_dir ==> forall|t: TaskView|
            tasks_of_tree(parent.push(nodes[i].entry.name), nodes[i].children).contains(t)
                ==> tasks_of_tree(parent, nodes).contains(t),
    decreases nodes.len(),
{
    let node = nodes.last();
    let earlier = tasks_of_tree(parent, nodes.drop_last());
    let own = tasks_for_entry(parent, node.entry);
    let descends = node.entry.is_dir && !is_metadata(node.entry.name);
    let below = if descends {
        tasks_of_tree(parent.push(node.entry.name), node.children)
    } else {
        Seq::<TaskView>::empty()
    };
    let tasks = tasks_of_tree(parent, nodes);
    assert(tasks == earlier + own + below);
    if i == nodes.len() - 1 {
        assert forall|t: TaskView| own.contains(t) implies tasks.contains(t) by {
            let k = choose|k: int| 0 <= k < own.len() && own[k] == t;
            assert(tasks[earlier.len() + k] == t);
        }
        assert forall|t: TaskView| below.contains(t) implies tasks.contains(t) by {
            let k = choose|k: int| 0 <= k < below.len() && below[k] == t;
            assert(tasks[earlier.len() + own.len() + k] == t);
        }
    } else {
        lemma_tree_holds_node(parent, nodes.drop_last(), i);
        assert forall|t: TaskView| earlier.contains(t) implies tasks.contains(t) by {
            let k = choose|k: int| 0 <= k < earlier.len() && earlier[k] == t;
            assert(tasks[k] == t);
        }
    }
}

/// A copy of a path.
fn clone_path(path: &Vec<String>) -> (r: Vec<String>)
    ensures
        views(r@) == views(path@),
{
    let mut out: Vec<String> = Vec::new();
    let mut i: usize = 0;
    while i < path.len()
        invariant
            i <= path.len(),
            out.len() == i,
            forall|k: int| 0 <= k < i ==> out@[k]@ == path@[k]@,
        decreases path.len() - i,
    {
        out.push(path[i].clone());
        i += 1;
    }
    assert(views(out@) =~= views(path@));
    out
}

/// The path of an entry of the directory at `parent`.
fn child_path(parent: &Vec<String>, name: &String) -> (r: Vec<String>)
    ensures
        views(r@) == views(parent@).push(name@),
{
    let mut path = clone_path(parent);
    let ghost before = path@;
    path.push(name.clone());
    assert(views(path@) =~= views(before).push(name@));
    path
}

/// A copy of a task.
fn clone_task(task: &CopyTask) -> (r: CopyTask)
    ensures
        r@ == task@,
{
    match task {
        CopyTask::MakeDirectory { handle, path } => CopyTask::MakeDirectory {
            handle: *handle,
            path: clone_path(path),
        },
        CopyTask::ListDirectory { handle, path } => CopyTask::ListDirectory {
            handle: *handle,
            path: clone_path(path),
        },
        CopyTask::CopyFile { handle, path } => CopyTask::CopyFile {
            handle: *handle,
            path: clone_path(path),
        },
    }
}

/// Decides, for the entries of the directory at `parent`, what is to be
/// done: nothing for `.git`, making and listing for a directory, copying for
/// anything else, in the order of the entries.
pub fn plan_entries(parent: &Vec<String>, entries: &Vec<SourceEntry>) -> (r: Vec<CopyTask>)
    ensures
        task_views(r@) == tasks_for(views(parent@), entry_views(entries@)),
{
    let mut tasks: Vec<CopyTask> = Vec::new();
    let mut i: usize = 0;
    assert(entry_views(entries@).take(0) =~= Seq::<EntryView>::empty());
    assert(task_views(tasks@) =~= Seq::<TaskView>::empty());
    while i < entries.len()
        invariant
            i <= entries.len(),
            task_views(tasks@) == tasks_for(
                views(parent@),
                entry_views(entries@).take(i as int),
            ),
        decreases entries.len() - i,
    {
        let ghost before = tasks@;
        let ghost seen = entry_views(entries@).take(i + 1);
        assert(seen.drop_last() =~= entry_views(entries@).take(i as int));
        assert(seen.last() == entries@[i as int]@);
        let entry = &entries[i];
        if same_str(entry.name.as_str(), ".git") {
            assert(task_views(tasks@) =~= task_views(before) + tasks_for_entry(
                views(parent@),
                seen.last(),
            ));
        } else if entry.is_dir {
            tasks.push(
                CopyTask::MakeDirectory {
                    handle: entry.handle,
                    path: child_path(parent, &entry.name),
                },
            );
            tasks.push(
                CopyTask::ListDirectory {
                    handle: entry.handle,
                    path: child_path(parent, &entry.name),
                },
            );
            assert(task_views(tasks@) =~= task_views(before) + tasks_for_entry(
                views(parent@),
                seen.last(),
            ));
        } else {
            tasks.push(
                CopyTask::CopyFile { handle: entry.handle, path: child_path(parent, &entry.name) },
            );
            assert(task_views(tasks@) =~= task_views(before) + tasks_for_entry(
                views(parent@),
                seen.last(),
            ));
        }
        i += 1;
    }
    assert(entry_views(entries@).take(i as int) =~= entry_views(entries@));
    tasks
}

/// A copy under way: the tasks that are left, the next one first.
#[derive(Debug, PartialEq, Eq)]
pub struct Materializer {
    pending: Vec<CopyTask>,
}

impl Materializer {
    #[verifier::type_invariant]
    spec fn well_formed(self) -> bool {
        all_clean(task_views(self.pending@))
    }

    /// The tasks that are left, the next one first.
    pub closed spec fn pending(self) -> Seq<TaskView> {
        task_views(self.pending@)
    }

    /// A copy at its start.
    pub fn new() -> (r: Materializer)
        ensures
            r.pending() == initial_tasks(),
    {
        let mut pending: Vec<CopyTask> = Vec::new();
        pending.push(CopyTask::MakeDirectory { handle: 0, path: Vec::new() });
        pending.push(CopyTask::ListDirectory { handle: 0, path: Vec::new() });
        assert(views(Seq::<String>::empty()) =~= Seq::<Seq<char>>::empty());
        assert(task_views(pending@) =~= initial_tasks());
        Materializer { pending }
    }

    /// Whether everything is copied.
    pub fn is_done(&self) -> (r: bool)
        ensures
            r == (self.pending().len() == 0),
    {
        self.pending.len() == 0
    }

    /// What is to be done next; nothing once everything is copied. No task
    /// is about the metadata directory or anything below one.
    pub fn next_task(&self) -> (r: Option<CopyTask>)
        ensures
            match r {
                Some(task) => self.pending().len() > 0 && task@ == self.pending()[0],
                None => self.pending().len() == 0,
            },
            r matches Some(task) ==> is_clean(task_path(task@)),
            all_clean(self.pending()),
    {
        proof {
            use_type_invariant(self);
        }
        if self.pending.len() == 0 {
            None
        } else {
            Some(clone_task(&self.pending[0]))
        }
    }

    /// Takes in what the caller reports of the task of `next_task`: gives
    /// the copy as it goes on, or the error that ends it.
    pub fn advance(self, event: CopyEvent) -> (r: Result<Materializer, RetrievalError>)
        ensures
            match r {
                Ok(next) => copy_step(self.pending(), event@) == Ok::<Seq<TaskView>, ErrorView>(
                    next.pending(),
                ),
                Err(e) => copy_step(self.pending(), event@) == Err::<Seq<TaskView>, ErrorView>(
                    e@,
                ),
            },
    {
        proof {
            use_type_invariant(&self);
            lemma_copy_step_keeps_clean(self.pending(), event@);
        }
        let mut pending = self.pending;
        let ghost before = pending@;
        if pending.len() == 0 {
            return Ok(Materializer { pending });
        }
        match event {
            CopyEvent::Failed { diagnostic } => Err(RetrievalError::CopyFailed { diagnostic }),
            CopyEvent::Listed { entries } => {
                let listed = match &pending[0] {
                    CopyTask::ListDirectory { path, .. } => Some(plan_entries(path, &entries)),
                    _ => None,
                };
                match listed {
                    Some(mut tasks) => {
                        let ghost fresh = tasks@;
                        pending.remove(0);
                        assert(task_views(pending@) =~= task_views(before).drop_first());
                        let ghost rest = pending@;
                        tasks.append(&mut pending);
                        assert(task_views(tasks@) =~= task_views(fresh) + task_views(rest));
                        Ok(Materializer { pending: tasks })
                    },
                    None => Ok(Materializer { pending }),
                }
            },
            CopyEvent::Done => {
                let listing = match &pending[0] {
                    CopyTask::ListDirectory { .. } => true,
                    _ => false,
                };
                if !listing {
                    pending.remove(0);
                    assert(task_views(pending@) =~= task_views(before).drop_first());
                }
                Ok(Materializer { pending })
            },
        }
    }
}

} // verus!
