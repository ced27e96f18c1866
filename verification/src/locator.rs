//! From a repository locator to the URL that is cloned.

use crate::error::{ErrorView, RetrievalError};
use crate::text::{
    lemma_split_concat, lemma_split_single, split, split_str, starts_with, starts_with_str,
};
use vstd::prelude::*;

verus! {

/// The URL that the repository is fetched from: a full `https://` URL or an
/// SSH-style locator, never the short form.
#[derive(Debug, Clone, PartialEq, Eq)]
pub struct CloneTarget {
    pub clone_url: String,
}

/// The locator is a full URL already: it begins with `https://` or `git@`.
pub open spec fn is_full_url(locator: Seq<char>) -> bool {
    starts_with(locator, "https://"@) || starts_with(locator, "git@"@)
}

/// The locator is the short form `owner/name`: exactly two segments, none empty.
pub open spec fn is_short_form(locator: Seq<char>) -> bool {
    let parts = split(locator, '/');
    &&& parts.len() == 2
    &&& parts[0].len() > 0
    &&& parts[1].len() > 0
}

/// The clone URL of the short form `owner/name`.
pub open spec fn canonical_url(short: Seq<char>) -> Seq<char> {
    "https://github.com/"@ + short + ".git"@
}

/// The URL that a locator is cloned from. A full URL stands for itself, the
/// short form for its canonical URL, and nothing else is a locator.
pub open spec fn clone_url(locator: Seq<char>) -> Result<Seq<char>, ErrorView> {
    if is_full_url(locator) {
        Ok(locator)
    } else if is_short_form(locator) {
        Ok(canonical_url(locator))
    } else {
        Err(ErrorView::InvalidLocator { input: locator })
    }
}

/// A canonical URL is a full URL.
pub proof fn lemma_canonical_is_full(short: Seq<char>)
    ensures
        is_full_url(canonical_url(short)),
{
    reveal_strlit("https://github.com/");
    reveal_strlit("https://");
    let url = canonical_url(short);
    assert(url.subrange(0, 8) =~= "https://"@);
}

/// Normalizing is idempotent: a clone URL normalizes to itself.
pub proof fn lemma_clone_url_idempotent(locator: Seq<char>)
    ensures
        clone_url(locator) matches Ok(url) ==> clone_url(url) == Ok::<Seq<char>, ErrorView>(url),
{
    lemma_canonical_is_full(locator);
}

/// Two segments without `/`, none empty, make a short form, and it
/// normalizes to `https://github.com/owner/name.git`, unless the pair reads
/// as an SSH-style locator (the owner begins with `git@`), which stands for
/// itself.
pub proof fn lemma_short_form_is_canonical(owner: Seq<char>, name: Seq<char>)
    requires
        owner.len() > 0,
        name.len() > 0,
        !owner.contains('/'),
        !name.contains('/'),
        !starts_with(owner, "git@"@),
    ensures
        is_short_form(owner + "/"@ + name),
        clone_url(owner + "/"@ + name) == Ok::<Seq<char>, ErrorView>(
            "https://github.com/"@ + owner + "/"@ + name + ".git"@,
        ),
{
    reveal_strlit("/");
    reveal_strlit("https://");
    reveal_strlit("git@");
    let locator = owner + "/"@ + name;
    assert("/"@ =~= seq!['/']);
    lemma_split_concat(owner, name, '/');
    lemma_split_single(owner, '/');
    lemma_split_single(name, '/');
    assert(split(locator, '/') =~= seq![owner, name]);
    if starts_with(locator, "https://"@) {
        let p = "https://"@;
        assert(locator.subrange(0, 8) =~= p);
        assert(forall|i: int| 0 <= i < 8 ==> locator.subrange(0, 8)[i] == locator[i]);
        if owner.len() > 6 {
            assert(locator[6] == owner[6]);
            assert(p[6] == '/');
        } else if owner.len() == 6 {
            assert(locator[7] == name[0]);
            assert(p[7] == '/');
        } else {
            let k = owner.len() as int;
            assert(locator[k] == '/');
            assert(p[k] != '/');
        }
    }
    if starts_with(locator, "git@"@) {
        let p = "git@"@;
        assert(locator.subrange(0, 4) =~= p);
        assert(forall|i: int| 0 <= i < 4 ==> locator.subrange(0, 4)[i] == locator[i]);
        if owner.len() < 4 {
            let k = owner.len() as int;
            assert(locator[k] == '/');
            assert(p[k] != '/');
        } else {
            assert(owner.subrange(0, 4) =~= p);
        }
    }
    assert(canonical_url(locator) =~= "https://github.com/"@ + owner + "/"@ + name + ".git"@);
}

/// Whatever is neither a full URL nor the short form is no locator.
pub proof fn lemma_other_shapes_rejected(locator: Seq<char>)
    requires
        !is_full_url(locator),
        !is_short_form(locator),
    ensures
        clone_url(locator) == Err::<Seq<char>, ErrorView>(
            ErrorView::InvalidLocator { input: locator },
        ),
{
}

/// Turns a repository locator into the URL to clone: a full URL is kept as
/// it is, `owner/repo` becomes `https://github.com/owner/repo.git`.
pub fn build_repo_url(repo: &str) -> (r: Result<CloneTarget, RetrievalError>)
    ensures
        match r {
            Ok(target) => clone_url(repo@) == Ok::<Seq<char>, ErrorView>(target.clone_url@),
            Err(e) => clone_url(repo@) == Err::<Seq<char>, ErrorView>(e@),
        },
        r matches Ok(target) ==> is_full_url(target.clone_url@),
        r is Ok <==> is_full_url(repo@) || is_short_form(repo@),
        r matches Err(e) ==> e@ == (ErrorView::InvalidLocator { input: repo@ }),
{
    if starts_with_str(repo, "https://") || starts_with_str(repo, "git@") {
        return Ok(CloneTarget { clone_url: repo.to_owned() });
    }
    let parts = split_str(repo, '/');
    if parts.len() == 2 && parts[0].as_str().unicode_len() > 0 && parts[1].as_str().unicode_len()
        > 0 {
        let mut url = "https://github.com/".to_owned();
        url.append(repo);
        url.append(".git");
        proof {
            lemma_canonical_is_full(repo@);
        }
        return Ok(CloneTarget { clone_url: url });
    }
    Err(RetrievalError::InvalidLocator { input: repo.to_owned() })
}

} // verus!
