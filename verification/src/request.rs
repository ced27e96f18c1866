//! From what the user typed to a request: a repository locator, a branch and
//! an optional subpath.

use crate::error::{ErrorView, RetrievalError};
use crate::text::{
    contains, contains_str, ends_with, find_str, first_occurrence, is_first_occurrence, join,
    join_strs, lemma_first_occurrence_exists, lemma_first_occurrence_is, lemma_join_split,
    lemma_split_concat, lemma_split_len, lemma_split_single, lemma_strip_prefix_all_done,
    occurs_at, opt_view, same_str, split, split_str, strip_prefix_all, strip_prefix_all_str,
    strip_suffix_all, strip_suffix_all_str, trim_end_char, trim_end_char_str, views,
};
use vstd::prelude::*;

verus! {

/// What the command line holds, each value as it was typed.
#[derive(Debug, Clone, PartialEq, Eq)]
pub struct Args {
    /// A browsable URL, a full clone URL or `owner/repo`.
    pub repo: Option<String>,
    /// The branch, where it is not read from a browsable URL.
    pub branch: Option<String>,
    /// The subdirectory inside the repository.
    pub path: Option<String>,
    /// The local destination.
    pub dest: Option<String>,
    /// An access token; accepted and not used.
    pub token: Option<String>,
    /// The positional value: a browsable URL or a locator.
    pub url: Option<String>,
}

/// What a browsable URL names, segment by segment as the URL has them. A
/// request takes branch and subpath from here in the form that
/// `named_branch` and `named_subpath` give them.
#[derive(Debug, Clone, PartialEq, Eq)]
pub struct ParsedGitHubUrl {
    pub repo: String,
    pub branch: Option<String>,
    pub path: Option<String>,
}

/// A `ParsedGitHubUrl` as character sequences.
pub struct ParsedUrl {
    pub repo: Seq<char>,
    pub branch: Option<Seq<char>>,
    pub path: Option<Seq<char>>,
}

impl View for ParsedGitHubUrl {
    type V = ParsedUrl;

    open spec fn view(&self) -> ParsedUrl {
        ParsedUrl { repo: self.repo@, branch: opt_view(self.branch), path: opt_view(self.path) }
    }
}

/// The segments name a branch: the third is `tree` or `blob` and a fourth follows.
pub open spec fn names_branch(segments: Seq<Seq<char>>) -> bool {
    &&& segments.len() > 3
    &&& (segments[2] =~= "tree"@ || segments[2] =~= "blob"@)
}

/// What the segments after the host marker name: owner and repository
/// first, the latter without `.git` at its end; after `tree` or `blob` the
/// branch, and then the subpath, if segments are left for it.
pub open spec fn named_by(segments: Seq<Seq<char>>) -> ParsedUrl {
    ParsedUrl {
        repo: segments[0] + "/"@ + strip_suffix_all(segments[1], ".git"@),
        branch: if names_branch(segments) {
            Some(segments[3])
        } else {
            None
        },
        path: if names_branch(segments) && segments.len() > 4 {
            Some(join(segments.skip(4), "/"@))
        } else {
            None
        },
    }
}

/// What a browsable URL names, or why it names nothing.
///
/// Trailing `/` do not count. The host marker `github.com/` has to stand in
/// the URL exactly once; what follows it is cut at each `/`, and there have
/// to be two segments at least: owner and repository.
pub open spec fn parsed_url(url: Seq<char>) -> Result<ParsedUrl, ErrorView> {
    let trimmed = trim_end_char(url, '/');
    let malformed = Err::<ParsedUrl, ErrorView>(ErrorView::InvalidLocator { input: trimmed });
    match first_occurrence(trimmed, "github.com/"@) {
        None => malformed,
        Some(at) => {
            let rest = trimmed.subrange(at + "github.com/"@.len(), trimmed.len() as int);
            let segments = split(rest, '/');
            if contains(rest, "github.com/"@) || segments.len() < 2 {
                malformed
            } else {
                Ok(named_by(segments))
            }
        },
    }
}

/// Reads owner, repository, branch and subpath out of a browsable URL such
/// as `https://github.com/owner/repo/tree/branch/path/to/dir`.
pub fn parse_github_url(url: &str) -> (r: Result<ParsedGitHubUrl, RetrievalError>)
    ensures
        match r {
            Ok(parsed) => parsed_url(url@) == Ok::<ParsedUrl, ErrorView>(parsed@),
            Err(e) => parsed_url(url@) == Err::<ParsedUrl, ErrorView>(e@),
        },
        r matches Ok(parsed) ==> (parsed.branch is None ==> parsed.path is None),
{
    let trimmed = trim_end_char_str(url, '/');
    let at = match find_str(trimmed, "github.com/") {
        Some(at) => at,
        None => {
            return Err(RetrievalError::InvalidLocator { input: trimmed.to_owned() });
        },
    };
    proof {
        lemma_first_occurrence_exists(trimmed@, "github.com/"@);
    }
    let total = trimmed.unicode_len();
    let marker_len = "github.com/".unicode_len();
    let rest = trimmed.substring_char(at + marker_len, total);
    let segments = split_str(rest, '/');
    if contains_str(rest, "github.com/") || segments.len() < 2 {
        return Err(RetrievalError::InvalidLocator { input: trimmed.to_owned() });
    }
    let mut repo = segments[0].clone();
    repo.append("/");
    repo.append(strip_suffix_all_str(segments[1].as_str(), ".git"));
    let mut branch: Option<String> = None;
    let mut path: Option<String> = None;
    if segments.len() > 3 && (same_str(segments[2].as_str(), "tree") || same_str(
        segments[2].as_str(),
        "blob",
    )) {
        branch = Some(segments[3].clone());
        if segments.len() > 4 {
            let tail = vstd::slice::slice_subrange(segments.as_slice(), 4, segments.len());
            assert(views(tail@) =~= views(segments@).skip(4));
            path = Some(join_strs(tail, "/"));
        }
    }
    Ok(ParsedGitHubUrl { repo, branch, path })
}

/// What is to be retrieved: made once from the arguments, read thereafter.
#[derive(Debug, Clone, PartialEq, Eq)]
pub struct RetrievalRequest {
    /// `owner/repo`, or a full clone URL.
    pub repository_locator: String,
    /// The branch to fetch.
    pub branch: String,
    /// The subdirectory to keep; `None` stands for the whole repository.
    pub subpath: Option<String>,
}

/// A `RetrievalRequest` as character sequences.
pub struct Request {
    pub locator: Seq<char>,
    pub branch: Seq<char>,
    pub subpath: Option<Seq<char>>,
}

impl View for RetrievalRequest {
    type V = Request;

    open spec fn view(&self) -> Request {
        Request {
            locator: self.repository_locator@,
            branch: self.branch@,
            subpath: opt_view(self.subpath),
        }
    }
}

/// `Args` as character sequences.
pub struct ArgsView {
    pub repo: Option<Seq<char>>,
    pub branch: Option<Seq<char>>,
    pub path: Option<Seq<char>>,
    pub dest: Option<Seq<char>>,
    pub token: Option<Seq<char>>,
    pub url: Option<Seq<char>>,
}

impl View for Args {
    type V = ArgsView;

    open spec fn view(&self) -> ArgsView {
        ArgsView {
            repo: opt_view(self.repo),
            branch: opt_view(self.branch),
            path: opt_view(self.path),
            dest: opt_view(self.dest),
            token: opt_view(self.token),
            url: opt_view(self.url),
        }
    }
}

/// The first value where there is one, else the second.
pub open spec fn first_of(a: Option<Seq<char>>, b: Option<Seq<char>>) -> Option<Seq<char>> {
    if a is Some {
        a
    } else {
        b
    }
}

/// The branch that is named: an empty one counts as none.
pub open spec fn named_branch(branch: Option<Seq<char>>) -> Option<Seq<char>> {
    match branch {
        Some(b) => if b.len() > 0 {
            Some(b)
        } else {
            None
        },
        None => None,
    }
}

/// The subpath that is named: `/` at its start do not count, and a path
/// that is empty without them counts as none.
pub open spec fn named_subpath(path: Option<Seq<char>>) -> Option<Seq<char>> {
    match path {
        Some(p) => if strip_prefix_all(p, "/"@).len() > 0 {
            Some(strip_prefix_all(p, "/"@))
        } else {
            None
        },
        None => None,
    }
}

/// The branch that is fetched where none is named: `main`.
pub open spec fn branch_or_default(branch: Option<Seq<char>>) -> Seq<char> {
    match branch {
        Some(b) => b,
        None => "main"@,
    }
}

/// The input is read as a browsable URL: it holds the host's name and a
/// `tree` or `blob` segment.
pub open spec fn is_browsable(input: Seq<char>) -> bool {
    &&& contains(input, "github.com"@)
    &&& (contains(input, "/tree/"@) || contains(input, "/blob/"@))
}

/// The request that the arguments stand for.
///
/// The positional value counts before `repo`. A browsable URL gives
/// repository, branch and subpath, and an explicit `branch` or `path` counts
/// before what the URL names. Any other input is the locator itself. An
/// empty branch counts as none, and where none is named it is `main`. A
/// subpath is taken without `/` at its start, and an empty one counts as
/// none: the request is for the whole repository then.
pub open spec fn resolved(args: ArgsView) -> Result<Request, ErrorView> {
    match first_of(args.url, args.repo) {
        None => Err(ErrorView::MissingInput),
        Some(input) => if is_browsable(input) {
            match parsed_url(input) {
                Err(e) => Err(e),
                Ok(parsed) => Ok(
                    Request {
                        locator: parsed.repo,
                        branch: branch_or_default(
                            first_of(named_branch(args.branch), named_branch(parsed.branch)),
                        ),
                        subpath: first_of(named_subpath(args.path), named_subpath(parsed.path)),
                    },
                ),
            }
        } else {
            Ok(
                Request {
                    locator: input,
                    branch: branch_or_default(named_branch(args.branch)),
                    subpath: named_subpath(args.path),
                },
            )
        },
    }
}

/// The path is relative: not empty, and not starting with `/`.
pub open spec fn is_relative(path: Seq<char>) -> bool {
    &&& path.len() > 0
    &&& path[0] != '/'
}

/// The request is well formed: it names a branch, and its subpath, where it
/// has one, is relative.
pub open spec fn is_well_formed(request: Request) -> bool {
    &&& request.branch.len() > 0
    &&& (request.subpath matches Some(subpath) ==> is_relative(subpath))
}

/// The request that the arguments stand for is always well formed: its
/// branch is not empty, and its subpath, where it has one, is relative.
pub proof fn lemma_resolved_well_formed(args: ArgsView)
    ensures
        resolved(args) matches Ok(request) ==> is_well_formed(request),
{
    reveal_strlit("main");
    reveal_strlit("/");
    assert forall|p: Seq<char>| strip_prefix_all(p, "/"@).len() > 0 implies is_relative(
        #[trigger] strip_prefix_all(p, "/"@),
    ) by {
        lemma_strip_prefix_all_done(p, "/"@);
        let q = strip_prefix_all(p, "/"@);
        if q[0] == '/' {
            assert(q.subrange(0, 1) =~= "/"@);
        }
    }
}

/// The branch that is named: an empty one counts as none.
fn named_branch_of(branch: &Option<String>) -> (r: Option<String>)
    ensures
        opt_view(r) == named_branch(opt_view(*branch)),
{
    match branch {
        Some(b) => if b.as_str().unicode_len() > 0 {
            Some(b.clone())
        } else {
            None
        },
        None => None,
    }
}

/// The subpath that is named, without `/` at its start; an empty one
/// counts as none.
fn named_subpath_of(path: &Option<String>) -> (r: Option<String>)
    ensures
        opt_view(r) == named_subpath(opt_view(*path)),
{
    match path {
        Some(p) => {
            let relative = strip_prefix_all_str(p.as_str(), "/");
            if relative.unicode_len() > 0 {
                Some(relative.to_owned())
            } else {
                None
            }
        },
        None => None,
    }
}

/// The branch, or `main` where none is named.
fn branch_or_main(branch: Option<String>) -> (r: String)
    ensures
        r@ == branch_or_default(opt_view(branch)),
{
    match branch {
        Some(b) => b,
        None => "main".to_owned(),
    }
}

/// Whether the input is read as a browsable URL.
pub fn is_browsable_url(input: &str) -> (r: bool)
    ensures
        r == is_browsable(input@),
{
    contains_str(input, "github.com") && (contains_str(input, "/tree/") || contains_str(
        input,
        "/blob/",
    ))
}

/// Turns the arguments into a request: from a browsable URL, or from
/// `repo`, `branch` and `path` one by one. The request is always well
/// formed: an empty branch counts as none, a subpath loses `/` at its start,
/// and an empty subpath counts as none.
pub fn parse_input(args: &Args) -> (r: Result<RetrievalRequest, RetrievalError>)
    ensures
        match r {
            Ok(request) => resolved(args@) == Ok::<Request, ErrorView>(request@),
            Err(e) => resolved(args@) == Err::<Request, ErrorView>(e@),
        },
        args.url is None && args.repo is None ==> r == Err::<RetrievalRequest, RetrievalError>(
            RetrievalError::MissingInput,
        ),
        args.url is Some || args.repo is Some ==> !(r matches Err(RetrievalError::MissingInput)),
        r matches Ok(request) ==> is_well_formed(request@),
{
    proof {
        lemma_resolved_well_formed(args@);
    }
    let input: &String = match &args.url {
        Some(url) => url,
        None => match &args.repo {
            Some(repo) => repo,
            None => {
                return Err(RetrievalError::MissingInput);
            },
        },
    };
    if is_browsable_url(input.as_str()) {
        let parsed = match parse_github_url(input.as_str()) {
            Ok(parsed) => parsed,
            Err(e) => {
                return Err(e);
            },
        };
        let branch = match named_branch_of(&args.branch) {
            Some(b) => Some(b),
            None => named_branch_of(&parsed.branch),
        };
        let subpath = match named_subpath_of(&args.path) {
            Some(p) => Some(p),
            None => named_subpath_of(&parsed.path),
        };
        Ok(
            RetrievalRequest {
                repository_locator: parsed.repo,
                branch: branch_or_main(branch),
                subpath,
            },
        )
    } else {
        Ok(
            RetrievalRequest {
                repository_locator: input.clone(),
                branch: branch_or_main(named_branch_of(&args.branch)),
                subpath: named_subpath_of(&args.path),
            },
        )
    }
}

/// Where the content goes when no destination is named: the last segment of
/// the subpath, or that of the locator without `.git` at its end.
pub open spec fn default_destination(request: Request) -> Seq<char> {
    match request.subpath {
        Some(subpath) => split(subpath, '/').last(),
        None => strip_suffix_all(split(request.locator, '/').last(), ".git"@),
    }
}

/// The destination: the one that was named, else the default one.
pub open spec fn destination(dest: Option<Seq<char>>, request: Request) -> Seq<char> {
    match dest {
        Some(d) => d,
        None => default_destination(request),
    }
}

/// Settles the local destination of a request.
pub fn resolve_destination(dest: &Option<String>, request: &RetrievalRequest) -> (r: String)
    ensures
        r@ == destination(opt_view(*dest), request@),
{
    match dest {
        Some(d) => d.clone(),
        None => match &request.subpath {
            Some(subpath) => {
                let segments = split_str(subpath.as_str(), '/');
                proof {
                    lemma_split_len(subpath@, '/');
                }
                segments[segments.len() - 1].clone()
            },
            None => {
                let segments = split_str(request.repository_locator.as_str(), '/');
                proof {
                    lemma_split_len(request.repository_locator@, '/');
                }
                strip_suffix_all_str(segments[segments.len() - 1].as_str(), ".git").to_owned()
            },
        },
    }
}

/// `url` is `host`, a `/` and `rest`; `host` ends with the host's name, the
/// host marker stands nowhere else in `url`, and `rest` neither is empty nor
/// ends with `/`.
pub open spec fn is_hosted(url: Seq<char>, host: Seq<char>, rest: Seq<char>) -> bool {
    &&& url == host + "/"@ + rest
    &&& ends_with(host, "github.com"@)
    &&& forall|at: int| occurs_at(url, "github.com/"@, at) ==> at == host.len() - 10
    &&& rest.len() > 0
    &&& rest.last() != '/'
}

/// A hosted URL with two segments or more names what its segments name.
pub proof fn lemma_hosted_url_parses(url: Seq<char>, host: Seq<char>, rest: Seq<char>)
    requires
        is_hosted(url, host, rest),
        split(rest, '/').len() >= 2,
    ensures
        parsed_url(url) == Ok::<ParsedUrl, ErrorView>(named_by(split(rest, '/'))),
{
    reveal_strlit("github.com/");
    reveal_strlit("github.com");
    reveal_strlit("/");
    let marker = "github.com/"@;
    let at = host.len() - 10;
    assert(url.last() == rest.last());
    assert(trim_end_char(url, '/') == url);
    assert(host.subrange(at, at + 10) =~= "github.com"@);
    assert(marker =~= "github.com"@ + seq!['/']);
    assert("/"@ =~= seq!['/']);
    assert(url.subrange(at, at + 10) =~= host.subrange(at, at + 10));
    assert(url.subrange(at, at + 11) =~= url.subrange(at, at + 10) + seq!['/']);
    assert(occurs_at(url, marker, at));
    assert(is_first_occurrence(url, marker, at)) by {
        assert forall|j: int| 0 <= j < at implies !occurs_at(url, marker, j) by {}
    }
    lemma_first_occurrence_is(url, marker, at);
    let tail = url.subrange(at + 11, url.len() as int);
    assert(tail =~= rest);
    assert(!contains(rest, marker)) by {
        assert forall|j: int| occurs_at(rest, marker, j) implies false by {
            assert(url.subrange(at + 11 + j, at + 11 + j + 11) =~= rest.subrange(j, j + 11));
            assert(occurs_at(url, marker, at + 11 + j));
        }
    }
}

/// A URL of the shape `host/owner/name/tree/branch/a/b/c` names the
/// repository `owner/name` (the name without `.git` at its end), the branch
/// `branch` and the subpath `a/b/c`. The same holds with `blob` for `tree`.
pub proof fn lemma_tree_url_parses(
    host: Seq<char>,
    owner: Seq<char>,
    name: Seq<char>,
    kind: Seq<char>,
    branch: Seq<char>,
    subpath: Seq<char>,
)
    requires
        kind == "tree"@ || kind == "blob"@,
        !owner.contains('/'),
        !name.contains('/'),
        !branch.contains('/'),
        is_hosted(
            host + "/"@ + (owner + "/"@ + name + "/"@ + kind + "/"@ + branch + "/"@ + subpath),
            host,
            owner + "/"@ + name + "/"@ + kind + "/"@ + branch + "/"@ + subpath,
        ),
    ensures
        parsed_url(
            host + "/"@ + (owner + "/"@ + name + "/"@ + kind + "/"@ + branch + "/"@ + subpath),
        ) == Ok::<ParsedUrl, ErrorView>(
            ParsedUrl {
                repo: owner + "/"@ + strip_suffix_all(name, ".git"@),
                branch: Some(branch),
                path: Some(subpath),
            },
        ),
{
    reveal_strlit("/");
    reveal_strlit("tree");
    reveal_strlit("blob");
    let sep = seq!['/'];
    assert("/"@ =~= sep);
    let rest = owner + sep + name + sep + kind + sep + branch + sep + subpath;
    let r3 = branch + sep + subpath;
    let r2 = kind + sep + r3;
    let r1 = name + sep + r2;
    assert(rest =~= owner + sep + r1);
    lemma_split_concat(owner, r1, '/');
    lemma_split_concat(name, r2, '/');
    lemma_split_concat(kind, r3, '/');
    lemma_split_concat(branch, subpath, '/');
    lemma_split_single(owner, '/');
    lemma_split_single(name, '/');
    lemma_split_single(kind, '/');
    lemma_split_single(branch, '/');
    lemma_split_len(subpath, '/');
    let segments = split(rest, '/');
    assert(segments =~= seq![owner, name, kind, branch] + split(subpath, '/'));
    assert(segments.skip(4) =~= split(subpath, '/'));
    lemma_join_split(subpath, '/');
    lemma_hosted_url_parses(host + "/"@ + rest, host, rest);
}

/// A URL of the shape `host/owner/name`, with no `tree` or `blob` segment,
/// names the repository `owner/name` and neither branch nor subpath.
pub proof fn lemma_plain_url_parses(host: Seq<char>, owner: Seq<char>, name: Seq<char>)
    requires
        !owner.contains('/'),
        !name.contains('/'),
        is_hosted(host + "/"@ + (owner + "/"@ + name), host, owner + "/"@ + name),
    ensures
        parsed_url(host + "/"@ + (owner + "/"@ + name)) == Ok::<ParsedUrl, ErrorView>(
            ParsedUrl {
                repo: owner + "/"@ + strip_suffix_all(name, ".git"@),
                branch: None,
                path: None,
            },
        ),
{
    reveal_strlit("/");
    let sep = seq!['/'];
    assert("/"@ =~= sep);
    let rest = owner + sep + name;
    lemma_split_concat(owner, name, '/');
    lemma_split_single(owner, '/');
    lemma_split_single(name, '/');
    assert(split(rest, '/') =~= seq![owner, name]);
    lemma_hosted_url_parses(host + "/"@ + rest, host, rest);
}

/// Whatever follows owner and repository, a URL whose third segment is
/// neither `tree` nor `blob`, or that has no fourth, names neither branch
/// nor subpath.
pub proof fn lemma_no_tree_segment_no_branch(segments: Seq<Seq<char>>)
    requires
        segments.len() < 4 || (segments[2] != "tree"@ && segments[2] != "blob"@),
    ensures
        named_by(segments).branch is None,
        named_by(segments).path is None,
{
}

} // verus!
