//! Registering the destination in an ignore-file that is already there.
//!
//! The file is only ever appended to, and only where no line of it names the
//! destination yet.

use crate::text::{
    same_chars, starts_with, strip_prefix_all, strip_prefix_all_str, to_chars, trim, trim_bounds,
};
use vstd::prelude::*;

verus! {

/// The destination as it is written to the file: without `./` at its start.
pub open spec fn normalized_path(dest: Seq<char>) -> Seq<char> {
    strip_prefix_all(dest, "./"@)
}

/// `content` has a line from `from` up to `to`: it starts at the start of
/// the text or behind a line break, ends at the end of the text or before a
/// line break, and holds none.
pub open spec fn is_line(content: Seq<char>, from: int, to: int) -> bool {
    &&& 0 <= from <= to <= content.len()
    &&& (from == 0 || content[from - 1] == '\n')
    &&& (to == content.len() || content[to] == '\n')
    &&& forall|k: int| from <= k < to ==> content[k] != '\n'
}

/// The line names the path: without the white space around it, it is no
/// comment, not blank, and reads `path` or `./path`.
pub open spec fn names_path(line: Seq<char>, path: Seq<char>) -> bool {
    let entry = trim(line);
    &&& entry.len() > 0
    &&& entry[0] != '#'
    &&& (entry =~= path || entry =~= "./"@ + path)
}

/// Some line of `content` names the path.
pub open spec fn is_registered(content: Seq<char>, path: Seq<char>) -> bool {
    exists|from: int, to: int|
        #[trigger] is_line(content, from, to) && names_path(content.subrange(from, to), path)
}

/// What is appended for a path: a line break where the text does not end
/// with one, a blank line, the comment line, and the path on a line of its own.
pub open spec fn appended(content: Seq<char>, path: Seq<char>) -> Seq<char> {
    if content.len() > 0 && content.last() != '\n' {
        content + "\n"@ + "\n# Added by git-get\n"@ + path + "\n"@
    } else {
        content + "\n# Added by git-get\n"@ + path + "\n"@
    }
}

/// What the file holds once the destination is registered: what it held,
/// where a line names the destination already, else that and the appended
/// lines.
pub open spec fn registered_content(content: Seq<char>, dest: Seq<char>) -> Seq<char> {
    if is_registered(content, normalized_path(dest)) {
        content
    } else {
        appended(content, normalized_path(dest))
    }
}

/// The path can be found again once it is written: it is not empty, no
/// comment, has no white space at either end and no line break.
pub open spec fn is_registrable(path: Seq<char>) -> bool {
    &&& path.len() > 0
    &&& path[0] != '#'
    &&& trim(path) =~= path
    &&& !path.contains('\n')
}

/// After its lines are appended, a registrable path is registered.
pub proof fn lemma_appended_is_registered(content: Seq<char>, path: Seq<char>)
    requires
        is_registrable(path),
    ensures
        is_registered(appended(content, path), path),
{
    reveal_strlit("\n");
    reveal_strlit("\n# Added by git-get\n");
    let banner = "\n# Added by git-get\n"@;
    let now = appended(content, path);
    let to = now.len() - 1;
    let from = to - path.len();
    assert(banner[19] == '\n');
    assert(now[from - 1] == '\n');
    assert(now[to] == '\n');
    assert(now.subrange(from, to) =~= path);
    assert forall|k: int| from <= k < to implies now[k] != '\n' by {
        assert(now[k] == path[k - from]);
        assert(path.contains(path[k - from]));
    }
    assert(is_line(now, from, to));
}

/// Registering is idempotent: a second registration of the same
/// destination leaves the file as the first one left it. This holds where a
/// line names the destination already, and else for every destination that
/// is registrable once `./` is taken from its start.
pub proof fn lemma_registration_idempotent(content: Seq<char>, dest: Seq<char>)
    requires
        is_registered(content, normalized_path(dest)) || is_registrable(normalized_path(dest)),
    ensures
        registered_content(registered_content(content, dest), dest) == registered_content(
            content,
            dest,
        ),
{
    if !is_registered(content, normalized_path(dest)) {
        lemma_appended_is_registered(content, normalized_path(dest));
    }
}

/// Whether the line names the path; `dotted` is the path behind `./`.
fn line_names_path(line: &[char], path: &[char], dotted: &[char]) -> (r: bool)
    requires
        dotted@ == "./"@ + path@,
    ensures
        r == names_path(line@, path@),
{
    let (a, b) = trim_bounds(line);
    let entry = vstd::slice::slice_subrange(line, a, b);
    if entry.len() == 0 || entry[0] == '#' {
        return false;
    }
    same_chars(entry, path) || same_chars(entry, dotted)
}

/// Where the line that starts at `from` ends.
fn line_end(content: &[char], from: usize) -> (to: usize)
    requires
        from <= content.len(),
    ensures
        from <= to <= content.len(),
        to == content.len() || content@[to as int] == '\n',
        forall|k: int| from <= k < to ==> content@[k] != '\n',
{
    let mut to: usize = from;
    while to < content.len() && content[to] != '\n'
        invariant
            from <= to <= content.len(),
            forall|k: int| from <= k < to ==> content@[k] != '\n',
        decreases content.len() - to,
    {
        to += 1;
    }
    to
}

/// The destination as it is written to the file: without `./` at its start.
pub fn normalize_destination(dest_path: &str) -> (r: &str)
    ensures
        r@ == normalized_path(dest_path@),
{
    strip_prefix_all_str(dest_path, "./")
}

/// Whether some line of `content` names the path.
pub fn is_registered_in(content: &str, path: &str) -> (r: bool)
    ensures
        r == is_registered(content@, path@),
{
    let text = to_chars(content);
    let wanted = to_chars(path);
    let mut dotted: Vec<char> = Vec::new();
    dotted.push('.');
    dotted.push('/');
    let mut i: usize = 0;
    while i < wanted.len()
        invariant
            i <= wanted.len(),
            dotted@ == seq!['.', '/'] + wanted@.take(i as int),
        decreases wanted.len() - i,
    {
        dotted.push(wanted[i]);
        assert(wanted@.take(i + 1) =~= wanted@.take(i as int).push(wanted@[i as int]));
        i += 1;
    }
    proof {
        reveal_strlit("./");
        assert("./"@ =~= seq!['.', '/']);
        assert(wanted@.take(i as int) =~= wanted@);
    }
    let mut from: usize = 0;
    loop
        invariant
            text@ == content@,
            wanted@ == path@,
            dotted@ == "./"@ + wanted@,
            from <= text.len(),
            from == 0 || text@[from - 1] == '\n',
            forall|f: int, t: int|
                f < from && #[trigger] is_line(text@, f, t) ==> !names_path(
                    text@.subrange(f, t),
                    wanted@,
                ),
        decreases text.len() - from,
    {
        let to = line_end(text.as_slice(), from);
        let line = vstd::slice::slice_subrange(text.as_slice(), from, to);
        if line_names_path(line, wanted.as_slice(), dotted.as_slice()) {
            assert(is_line(text@, from as int, to as int));
            return true;
        }
        assert forall|f: int, t: int| f <= from && #[trigger] is_line(text@, f, t) implies !names_path(
            text@.subrange(f, t),
            wanted@,
        ) by {
            if f == from {
                if t < to {
                    assert(text@[t] == '\n');
                }
                if t > to {
                    assert(text@[to as int] == '\n');
                }
                assert(t == to);
            }
        }
        if to == text.len() {
            assert forall|f: int, t: int| #[trigger] is_line(text@, f, t) implies !names_path(
                text@.subrange(f, t),
                wanted@,
            ) by {
                if f > from {
                    assert(text@[f - 1] == '\n');
                }
            }
            return false;
        }
        assert forall|f: int, t: int| f < to + 1 && #[trigger] is_line(text@, f, t) implies !names_path(
            text@.subrange(f, t),
            wanted@,
        ) by {
            if f > from {
                assert(text@[f - 1] == '\n');
            }
        }
        from = to + 1;
    }
}

/// Registers the destination in the ignore-file. `existing` is what the
/// file holds, or `None` where there is no such file. The result is the new
/// text of the file, or `None` where nothing is to be written: there is no
/// file, or one of its lines names the destination already.
pub fn add_to_gitignore(existing: Option<&str>, dest_path: &str) -> (r: Option<String>)
    ensures
        match (existing, r) {
            (None, r) => r is None,
            (Some(content), None) => is_registered(content@, normalized_path(dest_path@)),
            (Some(content), Some(text)) => {
                &&& !is_registered(content@, normalized_path(dest_path@))
                &&& text@ == appended(content@, normalized_path(dest_path@))
            },
        },
        existing matches Some(content) ==> (match r {
            Some(text) => text@,
            None => content@,
        }) == registered_content(content@, dest_path@),
        (existing, r) matches (Some(content), Some(text)) ==> starts_with(text@, content@),
{
    let content = match existing {
        Some(content) => content,
        None => {
            return None;
        },
    };
    let path = normalize_destination(dest_path);
    if is_registered_in(content, path) {
        return None;
    }
    let text = to_chars(content);
    let mut out = content.to_owned();
    if text.len() > 0 && text[text.len() - 1] != '\n' {
        out.append("\n");
    }
    out.append("\n# Added by git-get\n");
    out.append(path);
    out.append("\n");
    assert(out@.subrange(0, content@.len() as int) =~= content@);
    Some(out)
}

} // verus!
