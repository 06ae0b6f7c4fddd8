//! What the helper's commands compute: the repository name of a URL, the
//! workspace to create, the clone that fills it, and the branch sections
//! that purging removes.
use vstd::prelude::*;
use vstd::string::*;
use vstd::utf8::encode_utf8;

use crate::error::GwtError;
use crate::git::GitCloneArgs;
use crate::path::{join, join_path};
use crate::text::{
    chars_of, contains_string, ends_with, find_last, has_suffix, last_index_of, last_index_of_at,
    last_index_of_facts, slice_chars,
    string_from_chars, string_views,
};

verus! {

/// The repository name in a URL: the text after its last `/`, without the
/// `.git` it must end in; nothing where the URL has no `/` or that text does
/// not end in `.git`.
pub open spec fn repo_name(url: Seq<char>) -> Option<Seq<char>> {
    match last_index_of(url, '/') {
        None => None,
        Some(i) => {
            let part = url.skip(i + 1);
            if ends_with(part, ".git"@) {
                Some(part.take(part.len() - ".git"@.len()))
            } else {
                None
            }
        },
    }
}

/// A URL names the repository `n` exactly when it ends in `/<n>.git` and
/// `n` holds no `/`.
pub proof fn repo_name_law(url: Seq<char>, n: Seq<char>)
    ensures
        repo_name(url) == Some(n) <==> (!n.contains('/') && exists|prefix: Seq<char>|
            url == prefix + seq!['/'] + n + ".git"@),
{
    reveal_strlit(".git");
    let git = ".git"@;
    last_index_of_facts(url, '/');
    if repo_name(url) == Some(n) {
        let i = last_index_of(url, '/')->0;
        let part = url.skip(i + 1);
        let prefix = url.take(i);
        assert(part =~= n + git);
        assert(url =~= prefix + seq!['/'] + n + git);
        if n.contains('/') {
            let j = choose|j: int| 0 <= j < n.len() && n[j] == '/';
            assert(url[i + 1 + j] == '/');
        }
    }
    if !n.contains('/') && exists|prefix: Seq<char>| url == prefix + seq!['/'] + n + git {
        let prefix = choose|prefix: Seq<char>| url == prefix + seq!['/'] + n + git;
        let i = prefix.len() as int;
        assert(url[i] == '/');
        assert forall|j: int| i < j < url.len() implies url[j] != '/' by {
            if j < i + 1 + n.len() {
                assert(url[j] == n[j - i - 1]);
            } else {
                assert(url[j] == git[j - i - 1 - n.len()]);
            }
        }
        last_index_of_at(url, '/', i);
        let part = url.skip(i + 1);
        assert(part =~= n + git);
        assert(part.skip(part.len() - git.len()) =~= git);
        assert(part.take(part.len() - git.len()) =~= n);
    }
}

/// The name of the workspace directory: the name given, else the
/// repository name followed by `-workspace`.
pub open spec fn workspace_name_of(url: Seq<char>, name: Option<Seq<char>>) -> Option<Seq<char>> {
    match name {
        Some(n) => Some(n),
        None => match repo_name(url) {
            Some(r) => Some(r + "-workspace"@),
            None => None,
        },
    }
}

/// The repository name in a URL (`https://host/user/repo.git` and
/// `git@host:user/repo.git` both give `repo`).
pub fn extract_repo_name(url: &str) -> (res: Result<String, GwtError>)
    ensures
        match res {
            Ok(n) => repo_name(url@) == Some(n@),
            Err(e) => repo_name(url@) is None && e is InvalidRepoUrl,
        },
{
    let chars = chars_of(url);
    let i = match find_last(&chars, '/') {
        Some(i) => i,
        None => {
            return Err(GwtError::InvalidRepoUrl);
        },
    };
    let part = slice_chars(&chars, i + 1, chars.len());
    assert(part@ =~= url@.skip(i + 1));
    let suffix = chars_of(".git");
    if !has_suffix(&part, &suffix) {
        return Err(GwtError::InvalidRepoUrl);
    }
    let name = slice_chars(&part, 0, part.len() - suffix.len());
    assert(name@ =~= part@.take(part@.len() - ".git"@.len()));
    Ok(string_from_chars(&name))
}

/// Without a name, the workspace is named after the repository: for a URL
/// ending in `/<n>.git` (`n` holding no `/`) it is `<n>-workspace`, dots
/// and all; a name given is used as it is.
pub proof fn workspace_name_law(prefix: Seq<char>, n: Seq<char>, given: Seq<char>)
    requires
        !n.contains('/'),
    ensures
        workspace_name_of(prefix + seq!['/'] + n + ".git"@, None) == Some(n + "-workspace"@),
        workspace_name_of(prefix + seq!['/'] + n + ".git"@, Some(given)) == Some(given),
        forall|url: Seq<char>| #[trigger] workspace_name_of(url, Some(given)) == Some(given),
        forall|url: Seq<char>|
            #[trigger] repo_name(url) is Some ==> workspace_name_of(url, None) == Some(
                repo_name(url)->0 + "-workspace"@,
            ),
{
    repo_name_law(prefix + seq!['/'] + n + ".git"@, n);
}

/// The name of the workspace directory to create.
pub fn workspace_name(url: &str, name: Option<&str>) -> (res: Result<String, GwtError>)
    ensures
        match res {
            Ok(n) => workspace_name_of(url@, crate::git::opt_str_view(name)) == Some(n@),
            Err(e) => workspace_name_of(url@, crate::git::opt_str_view(name)) is None
                && e is InvalidRepoUrl,
        },
{
    match name {
        Some(n) => Ok(String::from_str(n)),
        None => {
            let repo = extract_repo_name(url)?;
            Ok(repo.concat("-workspace"))
        },
    }
}

/// The clone that fills a workspace: a bare clone of `url` into
/// `<workspace_dir>/.bare` whose `origin` fetches every branch
/// (`remote.origin.fetch = +refs/heads/*:refs/remotes/origin/*`).
pub fn clone_repository(url: &str, workspace_dir: &Vec<u8>) -> (res: GitCloneArgs)
    ensures
        res.url@ == url@,
        res.dir@ == join(workspace_dir@, encode_utf8(".bare"@)),
        res.bare,
        res.config@.len() == 1,
        res.config@[0].0@ == "remote.origin.fetch"@,
        res.config@[0].1@ == "+refs/heads/*:refs/remotes/origin/*"@,
        res.keys_distinct(),
{
    let bare_dir = ".bare".as_bytes_vec();
    let dir = join_path(workspace_dir, &bare_dir);
    let mut config: Vec<(String, String)> = Vec::new();
    config.push(
        (String::from_str("remote.origin.fetch"), String::from_str("+refs/heads/*:refs/remotes/origin/*")),
    );
    GitCloneArgs { url: String::from_str(url), dir, bare: true, config }
}

/// The config sections of the tracking branches that no worktree has
/// checked out: `branch.<name>` for each such branch, in the order of `tracking`.
pub open spec fn stale_section_names(tracking: Seq<Seq<char>>, checked_out: Set<Seq<char>>) -> Seq<
    Seq<char>,
>
    decreases tracking.len(),
{
    if tracking.len() == 0 {
        seq![]
    } else {
        let r = stale_section_names(tracking.drop_last(), checked_out);
        if checked_out.contains(tracking.last()) {
            r
        } else {
            r.push("branch."@ + tracking.last())
        }
    }
}

/// The set of strings that `v` holds.
pub open spec fn string_set(v: Seq<String>) -> Set<Seq<char>> {
    Set::new(|b: Seq<char>| string_views(v).contains(b))
}

/// The config sections to remove: `branch.<name>` for each tracking branch
/// that is not in `checked_out`.
pub fn stale_sections(tracking: &Vec<String>, checked_out: &Vec<String>) -> (res: Vec<String>)
    ensures
        string_views(res@) == stale_section_names(string_views(tracking@), string_set(checked_out@)),
{
    let mut res: Vec<String> = Vec::new();
    let mut k: usize = 0;
    assert(string_views(tracking@).take(0) =~= seq![]);
    while k < tracking.len()
        invariant
            k <= tracking.len(),
            string_views(res@) == stale_section_names(
                string_views(tracking@).take(k as int),
                string_set(checked_out@),
            ),
        decreases tracking.len() - k,
    {
        let t = &tracking[k];
        assert(string_views(tracking@).take(k + 1).drop_last() =~= string_views(tracking@).take(
            k as int,
        ));
        assert(string_views(tracking@).take(k + 1).last() == t@);
        if !contains_string(checked_out, t) {
            let ghost before = res@;
            let section = String::from_str("branch.").concat(t.as_str());
            res.push(section);
            assert(string_views(res@) =~= string_views(before).push("branch."@ + t@));
        }
        k = k + 1;
    }
    assert(string_views(tracking@).take(k as int) =~= string_views(tracking@));
    res
}

/// Purging removes exactly the sections `branch.<b>` of the tracking branches
/// `b` that no worktree has checked out: never the section of a checked-out
/// branch, never one of an untracked branch.
pub proof fn stale_sections_are_exactly_unused(
    tracking: Seq<Seq<char>>,
    checked_out: Set<Seq<char>>,
    section: Seq<char>,
)
    ensures
        stale_section_names(tracking, checked_out).contains(section) <==> exists|b: Seq<char>|
            #![trigger tracking.contains(b)]
            tracking.contains(b) && !checked_out.contains(b) && section == "branch."@ + b,
    decreases tracking.len(),
{
    if tracking.len() > 0 {
        let rest = tracking.drop_last();
        stale_sections_are_exactly_unused(rest, checked_out, section);
        let r = stale_section_names(rest, checked_out);
        let last = tracking.last();
        if stale_section_names(tracking, checked_out).contains(section) {
            if !r.contains(section) {
                assert(tracking.contains(last));
            } else {
                let b = choose|b: Seq<char>|
                    #![trigger rest.contains(b)]
                    rest.contains(b) && !checked_out.contains(b) && section == "branch."@ + b;
                let j = choose|j: int| 0 <= j < rest.len() && rest[j] == b;
                assert(tracking[j] == b);
                assert(tracking.contains(b));
            }
        }
        if exists|b: Seq<char>|
            #![trigger tracking.contains(b)]
            tracking.contains(b) && !checked_out.contains(b) && section == "branch."@ + b {
            let b = choose|b: Seq<char>|
                #![trigger tracking.contains(b)]
                tracking.contains(b) && !checked_out.contains(b) && section == "branch."@ + b;
            let j = choose|j: int| 0 <= j < tracking.len() && tracking[j] == b;
            if j < rest.len() {
                assert(rest[j] == b);
                assert(rest.contains(b));
                assert(r.contains(section));
                let k = choose|k: int| 0 <= k < r.len() && r[k] == section;
                let s = stale_section_names(tracking, checked_out);
                assert(s[k] == section);
            } else {
                let s = stale_section_names(tracking, checked_out);
                assert(s[s.len() - 1] == section);
            }
        }
    }
}

} // verus!
