//! The git operations the helper uses: for each, the command line to run and
//! what the run's outcome means. Running the process is left to the caller.
use vstd::prelude::*;
use vstd::string::*;
use vstd::utf8::{decode_utf8, valid_utf8};

use crate::error::GwtError;
use crate::path::{lossy_string, lossy_utf8, parent, parent_dir, strip_newline, utf8_string, without_newline};
use crate::text::{
    chars_of, ends_with, has_prefix, has_suffix, lines, lines_of, push_unique, single_line, slice_chars,
    split, split_char_concat, split_char_join, split_char_none, split_chars, split_last_is_suffix,
    split_nonempty, strip_cr, lines_by_pieces, starts_with, string_from_chars, string_views,
};
use crate::worktree::{parse_worktrees, Worktrees};

verus! {

/// A program to run with its arguments.
#[derive(Debug)]
pub struct Command {
    pub program: String,
    pub args: Vec<String>,
}

/// The arguments of `c`, as text.
pub open spec fn arg_views(c: Command) -> Seq<Seq<char>> {
    string_views(c.args@)
}

/// What a process that ran to its end wrote.
#[derive(Debug)]
pub struct Output {
    pub stdout: Vec<u8>,
    pub stderr: Vec<u8>,
}

/// What became of running a command.
#[derive(Debug)]
pub enum RunOutcome {
    /// The process ran to its end: whether it reported success, and what it wrote.
    Exited { success: bool, output: Output },
    /// The process could not be started; the reason.
    NotStarted(String),
}

/// The output of a run that succeeded.
pub open spec fn outcome_stdout(o: RunOutcome) -> Option<Seq<u8>> {
    match o {
        RunOutcome::Exited { success, output } => if success {
            Some(output.stdout@)
        } else {
            None
        },
        RunOutcome::NotStarted(_) => None,
    }
}

/// The error that a run that did not succeed reports.
pub open spec fn outcome_error(o: RunOutcome) -> GwtError {
    match o {
        RunOutcome::NotStarted(m) => GwtError::GitNotStarted(m),
        RunOutcome::Exited { .. } => GwtError::GitFailed,
    }
}

/// The arguments of a bare clone: `clone`, `--bare` where asked, a
/// `--config key=value` pair per setting, then `--`, the URL and the directory.
#[derive(Debug)]
pub struct GitCloneArgs {
    pub url: String,
    pub dir: Vec<u8>,
    pub bare: bool,
    pub config: Vec<(String, String)>,
}

/// The `--config key=value` arguments of the settings `cfg`, in order.
pub open spec fn config_args(cfg: Seq<(String, String)>) -> Seq<Seq<char>>
    decreases cfg.len(),
{
    if cfg.len() == 0 {
        seq![]
    } else {
        config_args(cfg.drop_last()) + seq!["--config"@, cfg.last().0@ + "="@ + cfg.last().1@]
    }
}

/// The command line of `git clone` for `a`; nothing where the directory is not valid UTF-8.
pub open spec fn clone_args(a: GitCloneArgs) -> Option<Seq<Seq<char>>> {
    if valid_utf8(a.dir@) {
        Some(
            seq!["clone"@] + (if a.bare {
                seq!["--bare"@]
            } else {
                seq![]
            }) + config_args(a.config@) + seq!["--"@, a.url@, decode_utf8(a.dir@)],
        )
    } else {
        None
    }
}

/// A clone command line starts with `clone`, asks for a bare clone exactly
/// when the arguments do, and ends with `--`, the URL and the directory, so
/// that neither is read as an option.
pub proof fn clone_args_shape(a: GitCloneArgs)
    requires
        valid_utf8(a.dir@),
    ensures
        clone_args(a) matches Some(v) && v.len() >= 4 && v[0] == "clone"@ && v[v.len() - 3]
            == "--"@ && v[v.len() - 2] == a.url@ && v[v.len() - 1] == decode_utf8(a.dir@) && (
        v[1] == "--bare"@ <==> a.bare),
{
    reveal_strlit("--bare");
    reveal_strlit("--config");
    reveal_strlit("--");
    config_args_shape(a.config@);
    let cfg = config_args(a.config@);
    let head: Seq<Seq<char>> = seq!["clone"@] + (if a.bare {
        seq!["--bare"@]
    } else {
        seq![]
    });
    let tail: Seq<Seq<char>> = seq!["--"@, a.url@, decode_utf8(a.dir@)];
    let v = clone_args(a)->0;
    assert(v == head + cfg + tail);
    assert(v[0] == "clone"@);
    assert(v[v.len() - 3] == tail[0]);
    assert(v[v.len() - 2] == tail[1]);
    assert(v[v.len() - 1] == tail[2]);
    assert("--config"@[2] != "--bare"@[2]);
    assert("--"@.len() != "--bare"@.len());
    if a.bare {
        assert(v[1] == "--bare"@);
    } else if cfg.len() > 0 {
        assert(v[1] == cfg[0]);
    } else {
        assert(v[1] == tail[0]);
    }
}

/// The URL and the directory never become git options: clones that differ
/// only in URL and directory get command lines of the same length that
/// agree everywhere up to and including the final `--`; the URL and the
/// directory come only after it.
pub proof fn clone_args_url_and_dir_after_separator(a: GitCloneArgs, a2: GitCloneArgs)
    requires
        a.bare == a2.bare,
        a.config@ == a2.config@,
        valid_utf8(a.dir@),
        valid_utf8(a2.dir@),
    ensures
        clone_args(a) matches Some(v) && clone_args(a2) matches Some(w) && v.len() == w.len()
            && v[v.len() - 3] == "--"@ && v[v.len() - 2] == a.url@ && v[v.len() - 1] == decode_utf8(
            a.dir@,
        ) && w[w.len() - 2] == a2.url@ && w[w.len() - 1] == decode_utf8(a2.dir@) && (forall|i: int|
            0 <= i < v.len() - 2 ==> v[i] == w[i]),
{
    let head: Seq<Seq<char>> = seq!["clone"@] + (if a.bare {
        seq!["--bare"@]
    } else {
        seq![]
    });
    let cfg = config_args(a.config@);
    let v = clone_args(a)->0;
    let w = clone_args(a2)->0;
    assert(v == head + cfg + seq!["--"@, a.url@, decode_utf8(a.dir@)]);
    assert(w == head + cfg + seq!["--"@, a2.url@, decode_utf8(a2.dir@)]);
    assert forall|i: int| 0 <= i < v.len() - 2 implies v[i] == w[i] by {
        if i < head.len() + cfg.len() {
            assert(v[i] == (head + cfg)[i]);
            assert(w[i] == (head + cfg)[i]);
        }
    }
}

/// Each setting gives two arguments, the first of them `--config`.
proof fn config_args_shape(cfg: Seq<(String, String)>)
    ensures
        config_args(cfg).len() == 2 * cfg.len(),
        cfg.len() > 0 ==> config_args(cfg)[0] == "--config"@,
    decreases cfg.len(),
{
    if cfg.len() > 0 {
        config_args_shape(cfg.drop_last());
    }
}

impl GitCloneArgs {
    /// No setting is given twice: the settings form a map from keys to values.
    pub open spec fn keys_distinct(&self) -> bool {
        forall|i: int, j: int|
            0 <= i < j < self.config@.len() ==> #[trigger] self.config@[i].0@ != #[trigger] self.config@[j].0@
    }

    /// The arguments of `git clone`; fails where the directory is not valid UTF-8.
    pub fn to_args(&self) -> (res: Result<Vec<String>, GwtError>)
        requires
            self.keys_distinct(),
        ensures
            match res {
                Ok(v) => clone_args(*self) == Some(string_views(v@)),
                Err(e) => clone_args(*self) is None && (e matches GwtError::InvalidUtf8(d)
                    && d@ == self.dir@),
            },
    {
        let dir = match utf8_string(self.dir.as_slice()) {
            Some(d) => d,
            None => {
                return Err(GwtError::InvalidUtf8(self.dir.clone()));
            },
        };
        let mut args: Vec<String> = Vec::new();
        args.push(String::from_str("clone"));
        if self.bare {
            args.push(String::from_str("--bare"));
        }
        let ghost head = string_views(args@);
        assert(self.config@.take(0) =~= seq![]);
        assert(string_views(args@) =~= head + config_args(self.config@.take(0)));
        let mut k: usize = 0;
        while k < self.config.len()
            invariant
                k <= self.config.len(),
                string_views(args@) == head + config_args(self.config@.take(k as int)),
            decreases self.config.len() - k,
        {
            let (key, value) = &self.config[k];
            let setting = key.clone().concat("=").concat(value.as_str());
            let ghost before = args@;
            args.push(String::from_str("--config"));
            args.push(setting);
            proof {
                assert(self.config@.take(k + 1).drop_last() =~= self.config@.take(k as int));
                assert(string_views(args@) =~= string_views(before) + seq![
                    "--config"@,
                    key@ + "="@ + value@,
                ]);
            }
            k = k + 1;
        }
        let ghost before = args@;
        args.push(String::from_str("--"));
        args.push(self.url.clone());
        args.push(dir);
        assert(self.config@.take(self.config.len() as int) =~= self.config@);
        assert(string_views(args@) =~= string_views(before) + seq![
            "--"@,
            self.url@,
            decode_utf8(self.dir@),
        ]);
        Ok(args)
    }
}

/// The key of a config line: the text before its first space.
pub open spec fn config_key(line: Seq<char>) -> Seq<char> {
    split(line, seq![' '])[0]
}

/// The branch that a key `branch.<name>.merge` names: the key without
/// that prefix and suffix (so a name may hold `.`).
pub open spec fn merge_key_branch(key: Seq<char>) -> Option<Seq<char>> {
    if key.len() >= "branch."@.len() + ".merge"@.len() && starts_with(key, "branch."@) && ends_with(
        key,
        ".merge"@,
    ) {
        Some(key.subrange("branch."@.len() as int, key.len() - ".merge"@.len()))
    } else {
        None
    }
}

/// The text between the first two `.` of a line (all of the text after the
/// first `.` where there is no second one), where the line holds a `.`.
pub open spec fn second_dot_field(line: Seq<char>) -> Option<Seq<char>> {
    let p = split(line, seq!['.']);
    if p.len() >= 2 {
        Some(p[1])
    } else {
        None
    }
}

/// The branch that a line of `git config get --all --show-names` names:
/// `<name>` where the key is `branch.<name>.merge` (so a name may hold
/// `.`); for any other line that holds a `.`, the text between its first
/// two dots (such as `autosetupmerge always` for `branch.autosetupmerge always`).
pub open spec fn line_branch(line: Seq<char>) -> Option<Seq<char>> {
    match merge_key_branch(config_key(line)) {
        Some(n) => Some(n),
        None => second_dot_field(line),
    }
}

/// The branches that the output of `git config get --all --show-names`
/// names: the `line_branch` of each line.
pub open spec fn tracked_branch_set(text: Seq<char>) -> Set<Seq<char>> {
    Set::new(
        |b: Seq<char>| exists|i: int| 0 <= i < lines(text).len() && line_branch(lines(text)[i]) == Some(b),
    )
}

/// A line `branch.<b>.merge <upstream>` names `b`, whatever the upstream.
pub proof fn merge_line_names_branch(b: Seq<char>, upstream: Seq<char>)
    requires
        !b.contains(' '),
    ensures
        line_branch("branch."@ + b + ".merge "@ + upstream) == Some(b),
{
    reveal_strlit("branch.");
    reveal_strlit(".merge ");
    reveal_strlit(".merge");
    let line = "branch."@ + b + ".merge "@ + upstream;
    let key = "branch."@ + b + ".merge"@;
    assert forall|j: int| 0 <= j < key.len() implies key[j] != ' ' by {
        if 7 <= j < 7 + b.len() {
            assert(key[j] == b[j - 7]);
            assert(b.contains(b[j - 7]));
        }
    }
    assert(!key.contains(' '));
    assert(line =~= key + seq![' '] + upstream);
    split_char_concat(key, upstream, ' ');
    assert(config_key(line) == key);
    assert(key.take(7) =~= "branch."@);
    assert(key.skip(key.len() - 6) =~= ".merge"@);
    assert(key.subrange(7, key.len() - 6) =~= b);
}

/// An empty line names no branch.
proof fn empty_line_names_nothing()
    ensures
        line_branch(Seq::<char>::empty()) is None,
{
    reveal_strlit("branch.");
    reveal_strlit(".merge");
    let e = Seq::<char>::empty();
    assert(e.subrange(0, 0) =~= e);
    assert(split(e, seq![' ']) =~= seq![e]);
    assert(split(e, seq!['.']) =~= seq![e]);
}

/// A line `branch.<b>.merge <upstream>` that a line feed follows still names `b`.
proof fn merge_line_names_branch_before_newline(b: Seq<char>, upstream: Seq<char>)
    requires
        !b.contains(' '),
    ensures
        line_branch(strip_cr("branch."@ + b + ".merge "@ + upstream)) == Some(b),
{
    reveal_strlit(".merge ");
    let line = "branch."@ + b + ".merge "@ + upstream;
    if upstream.len() > 0 {
        assert(line.last() == upstream.last());
        if upstream.last() == '\r' {
            assert(line.drop_last() =~= "branch."@ + b + ".merge "@ + upstream.drop_last());
            merge_line_names_branch(b, upstream.drop_last());
        } else {
            merge_line_names_branch(b, upstream);
        }
    } else {
        assert(line.last() == ' ');
        merge_line_names_branch(b, upstream);
    }
}

/// Every line `branch.<b>.merge <upstream>` puts `b` among the tracking
/// branches, whatever lines come before or after it.
pub proof fn merge_line_counts_anywhere(
    before: Seq<char>,
    after: Seq<char>,
    b: Seq<char>,
    upstream: Seq<char>,
)
    requires
        !b.contains(' '),
        !b.contains('\n'),
        !upstream.contains('\n'),
    ensures
        tracked_branch_set(
            before + seq!['\n'] + ("branch."@ + b + ".merge "@ + upstream) + seq!['\n'] + after,
        ).contains(b),
        tracked_branch_set(before + seq!['\n'] + ("branch."@ + b + ".merge "@ + upstream)).contains(
            b,
        ),
        tracked_branch_set(("branch."@ + b + ".merge "@ + upstream) + seq!['\n'] + after).contains(
            b,
        ),
{
    reveal_strlit("branch.");
    reveal_strlit(".merge ");
    let nl = seq!['\n'];
    let line = "branch."@ + b + ".merge "@ + upstream;
    assert forall|j: int| 0 <= j < line.len() implies line[j] != '\n' by {
        if 7 <= j < 7 + b.len() {
            assert(line[j] == b[j - 7]);
            assert(b.contains(b[j - 7]));
        } else if j >= 7 + b.len() + 7 {
            assert(line[j] == upstream[j - 7 - b.len() - 7]);
            assert(upstream.contains(upstream[j - 7 - b.len() - 7]));
        }
    }
    assert(!line.contains('\n'));
    split_char_none(line, '\n');
    merge_line_names_branch(b, upstream);
    merge_line_names_branch_before_newline(b, upstream);
    split_nonempty(before, nl, 0, 0);
    split_nonempty(after, nl, 0, 0);
    // in the middle
    let t1 = before + nl + line + nl + after;
    assert(t1 =~= before + nl + (line + nl + after));
    split_char_join(before, line + nl + after, '\n', 0, 0);
    split_char_join(line, after, '\n', 0, 0);
    let nx = split(before, nl).len() as int;
    assert(split(t1, nl) =~= split(before, nl) + seq![line] + split(after, nl));
    assert(split(t1, nl)[nx] == line);
    lines_by_pieces(t1, nx);
    assert(line_branch(lines(t1)[nx]) == Some(b));
    // at the end
    let t2 = before + nl + line;
    split_char_join(before, line, '\n', 0, 0);
    assert(split(t2, nl) =~= split(before, nl) + seq![line]);
    assert(split(t2, nl)[nx] == line);
    lines_by_pieces(t2, nx);
    assert(line_branch(lines(t2)[nx]) == Some(b));
    // at the start
    let t3 = line + nl + after;
    assert(split(t3, nl) =~= seq![line] + split(after, nl));
    assert(split(t3, nl)[0] == line);
    lines_by_pieces(t3, 0);
    assert(line_branch(lines(t3)[0]) == Some(b));
}

/// The tracking branches of two outputs joined by a line feed are those of
/// the first and those of the second, where the first does not end in a
/// carriage return (which the line feed would take away).
pub proof fn tracked_branches_of_joined_output(x: Seq<char>, y: Seq<char>)
    requires
        x.len() == 0 || x.last() != '\r',
    ensures
        forall|b: Seq<char>|
            #[trigger] tracked_branch_set(x + seq!['\n'] + y).contains(b) <==> (tracked_branch_set(
                x,
            ).contains(b) || tracked_branch_set(y).contains(b)),
{
    let nl = seq!['\n'];
    let t = x + nl + y;
    split_char_join(x, y, '\n', 0, 0);
    split_nonempty(x, nl, 0, 0);
    split_nonempty(y, nl, 0, 0);
    let px = split(x, nl);
    let py = split(y, nl);
    let pt = split(t, nl);
    assert(pt == px + py);
    let nx = px.len() as int;
    let ny = py.len() as int;
    let lx = lines(x);
    let ly = lines(y);
    let lt = lines(t);
    let j = split_last_is_suffix(x, nl, 0, 0);
    if px.last().len() > 0 {
        assert(px.last().last() == x.last());
    }
    assert(strip_cr(px.last()) == px.last());
    lines_by_pieces(x, nx - 1);
    lines_by_pieces(y, ny - 1);
    lines_by_pieces(t, nx + ny - 1);
    empty_line_names_nothing();
    assert forall|k: int| 0 <= k < lx.len() implies k < lt.len() && #[trigger] lt[k] == lx[k] by {
        lines_by_pieces(t, k);
        lines_by_pieces(x, k);
        assert(pt[k] == px[k]);
    }
    assert forall|k: int| 0 <= k < ly.len() implies nx + k < lt.len() && lt[nx + k] == #[trigger] ly[k] by {
        lines_by_pieces(t, nx + k);
        lines_by_pieces(y, k);
        assert(pt[nx + k] == py[k]);
    }
    assert forall|i: int| 0 <= i < lt.len() && i < nx && i >= lx.len() implies #[trigger] lt[i]
        == Seq::<char>::empty() by {
        lines_by_pieces(t, i);
        assert(pt[i] == px[i]);
    }
    assert forall|b: Seq<char>|
        #[trigger] tracked_branch_set(t).contains(b) <==> (tracked_branch_set(x).contains(b)
            || tracked_branch_set(y).contains(b)) by {
        if tracked_branch_set(t).contains(b) {
            let i = choose|i: int| 0 <= i < lt.len() && line_branch(lt[i]) == Some(b);
            if i < nx {
                if i < lx.len() {
                    assert(lt[i] == lx[i]);
                } else {
                    assert(lt[i] == Seq::<char>::empty());
                }
            } else {
                let k = i - nx;
                assert(k < ly.len());
                assert(lt[nx + k] == ly[k]);
            }
        }
        if tracked_branch_set(x).contains(b) {
            let i = choose|i: int| 0 <= i < lx.len() && line_branch(lx[i]) == Some(b);
            assert(lt[i] == lx[i]);
        }
        if tracked_branch_set(y).contains(b) {
            let k = choose|k: int| 0 <= k < ly.len() && line_branch(ly[k]) == Some(b);
            assert(lt[nx + k] == ly[k]);
        }
    }
}

/// A config line `branch.<b>.merge <ref>` names the branch `b` (which may
/// hold `.`): its output read alone gives exactly that branch.
pub proof fn config_line_names_its_branch(b: Seq<char>, upstream: Seq<char>)
    requires
        !b.contains(' '),
        !b.contains('\n'),
        !upstream.contains('\n'),
    ensures
        forall|x: Seq<char>|
            tracked_branch_set("branch."@ + b + ".merge "@ + upstream).contains(x) <==> x == b,
{
    reveal_strlit("branch.");
    reveal_strlit(".merge ");
    reveal_strlit(".merge");
    let line = "branch."@ + b + ".merge "@ + upstream;
    assert forall|j: int| 0 <= j < line.len() implies line[j] != '\n' by {
        if 7 <= j < 7 + b.len() {
            assert(line[j] == b[j - 7]);
            assert(b.contains(b[j - 7]));
        } else if j >= 7 + b.len() + 7 {
            assert(line[j] == upstream[j - 7 - b.len() - 7]);
            assert(upstream.contains(upstream[j - 7 - b.len() - 7]));
        }
    }
    single_line(line);
    let key = "branch."@ + b + ".merge"@;
    assert forall|j: int| 0 <= j < key.len() implies key[j] != ' ' by {
        if 7 <= j < 7 + b.len() {
            assert(key[j] == b[j - 7]);
            assert(b.contains(b[j - 7]));
        }
    }
    assert(!key.contains(' '));
    assert(line =~= key + seq![' '] + upstream);
    split_char_concat(key, upstream, ' ');
    assert(config_key(line) == key);
    assert(key.take(7) =~= "branch."@);
    assert(key.skip(key.len() - 6) =~= ".merge"@);
    assert(key.subrange(7, key.len() - 6) =~= b);
    assert(line_branch(line) == Some(b));
    assert(lines(line)[0] == line);
}

/// The branch that a config line names, where it names one.
fn branch_of_line(line: &Vec<char>) -> (res: Option<Vec<char>>)
    ensures
        match res {
            Some(b) => line_branch(line@) == Some(b@),
            None => line_branch(line@) is None,
        },
{
    let space = chars_of(" ");
    proof {
        reveal_strlit(" ");
        assert(space@ =~= seq![' ']);
        split_nonempty(line@, seq![' '], 0, 0);
    }
    let pieces = split_chars(line, &space);
    let key = &pieces[0];
    assert(crate::text::views(pieces@)[0] == key@);
    let prefix = chars_of("branch.");
    let suffix = chars_of(".merge");
    if key.len() >= prefix.len() && key.len() - prefix.len() >= suffix.len() && has_prefix(
        key,
        &prefix,
    ) && has_suffix(key, &suffix) {
        Some(slice_chars(key, prefix.len(), key.len() - suffix.len()))
    } else {
        let dot = chars_of(".");
        proof {
            reveal_strlit(".");
            assert(dot@ =~= seq!['.']);
        }
        let fields = split_chars(line, &dot);
        if fields.len() >= 2 {
            assert(crate::text::views(fields@)[1] == fields@[1]@);
            Some(slice_chars(&fields[1], 0, fields[1].len()))
        } else {
            None
        }
    }
}

/// The branch names in the output of `git config get --all --show-names`,
/// each once.
pub fn parse_tracked_branches(text: &str) -> (res: Vec<String>)
    ensures
        string_views(res@).no_duplicates(),
        forall|b: Seq<char>| string_views(res@).contains(b) <==> tracked_branch_set(text@).contains(b),
{
    let chars = chars_of(text);
    let ls = lines_of(&chars);
    let mut res: Vec<String> = Vec::new();
    let mut k: usize = 0;
    while k < ls.len()
        invariant
            k <= ls.len(),
            crate::text::views(ls@) == lines(text@),
            string_views(res@).no_duplicates(),
            forall|b: Seq<char>|
                string_views(res@).contains(b) <==> exists|i: int|
                    0 <= i < k && line_branch(lines(text@)[i]) == Some(b),
        decreases ls.len() - k,
    {
        assert(crate::text::views(ls@)[k as int] == ls@[k as int]@);
        let ghost before = string_views(res@);
        let ghost field = line_branch(lines(text@)[k as int]);
        if let Some(b) = branch_of_line(&ls[k]) {
            let name = string_from_chars(&b);
            assert(field == Some(name@));
            push_unique(&mut res, name);
        }
        proof {
            let sv = string_views(res@);
            assert(sv == before || (field is Some && sv == before.push(field->0)));
            assert(field is Some ==> sv.contains(field->0));
            assert forall|b: Seq<char>|
                sv.contains(b) <==> exists|i: int|
                    0 <= i < k + 1 && line_branch(lines(text@)[i]) == Some(b) by {
                if sv.contains(b) {
                    let j = choose|j: int| 0 <= j < sv.len() && sv[j] == b;
                    if j < before.len() {
                        assert(before[j] == b);
                        assert(before.contains(b));
                    } else {
                        assert(line_branch(lines(text@)[k as int]) == Some(b));
                    }
                }
                if exists|i: int| 0 <= i < k + 1 && line_branch(lines(text@)[i]) == Some(b) {
                    let i = choose|i: int|
                        0 <= i < k + 1 && line_branch(lines(text@)[i]) == Some(b);
                    if i < k {
                        assert(before.contains(b));
                        let j = choose|j: int| 0 <= j < before.len() && before[j] == b;
                        assert(sv[j] == b);
                    }
                }
            }
        }
        k = k + 1;
    }
    res
}

/// `config get --all --show-names --regexp ^branch.*merge$`.
pub open spec fn tracked_branches_args() -> Seq<Seq<char>> {
    seq!["config"@, "get"@, "--all"@, "--show-names"@, "--regexp"@, "^branch.*merge$"@]
}

/// `worktree list --porcelain`.
pub open spec fn list_worktrees_args() -> Seq<Seq<char>> {
    seq!["worktree"@, "list"@, "--porcelain"@]
}

/// `config remove-section <name>`.
pub open spec fn remove_section_args(name: Seq<char>) -> Seq<Seq<char>> {
    seq!["config"@, "remove-section"@, name]
}

/// `rev-parse --show-toplevel`.
pub open spec fn show_toplevel_args() -> Seq<Seq<char>> {
    seq!["rev-parse"@, "--show-toplevel"@]
}

/// `rev-parse --path-format=absolute --git-common-dir`.
pub open spec fn worktree_root_args() -> Seq<Seq<char>> {
    seq!["rev-parse"@, "--path-format=absolute"@, "--git-common-dir"@]
}

/// `worktree add -b <branch> <path> [<commit>]`.
pub open spec fn add_worktree_args(branch: Seq<char>, path: Seq<char>, commit: Option<Seq<char>>) -> Seq<Seq<char>> {
    seq!["worktree"@, "add"@, "-b"@, branch, path] + match commit {
        Some(x) => seq![x],
        None => seq![],
    }
}

/// The view of an optional string slice.
pub open spec fn opt_str_view(o: Option<&str>) -> Option<Seq<char>> {
    match o {
        Some(s) => Some(s@),
        None => None,
    }
}

/// The git executable and the operations run through it.
pub struct Git {
    executable_path: String,
}

impl View for Git {
    type V = Seq<char>;

    closed spec fn view(&self) -> Seq<char> {
        self.executable_path@
    }
}

impl Git {
    /// Git run as `configured` where that is set (the `GWT_GIT` variable), else as `git`.
    pub fn new(configured: Option<String>) -> (res: Git)
        ensures
            res@ == match configured {
                Some(p) => p@,
                None => "git"@,
            },
    {
        match configured {
            Some(p) => Git { executable_path: p },
            None => Git { executable_path: String::from_str("git") },
        }
    }

    /// The executable that runs git.
    pub fn executable_path(&self) -> (res: &str)
        ensures
            res@ == self@,
    {
        self.executable_path.as_str()
    }

    /// Git run with `args`.
    fn command(&self, args: Vec<String>) -> (res: Command)
        ensures
            res.program@ == self@,
            res.args == args,
    {
        Command { program: self.executable_path.clone(), args }
    }

    /// What a run of git gives: its whole output (stdout and stderr) where it
    /// succeeded; where it could not be started, that reason; where it
    /// reported failure, `GitFailed`.
    pub fn run_result(&self, outcome: RunOutcome) -> (res: Result<Output, GwtError>)
        ensures
            match outcome {
                RunOutcome::Exited { success: true, output } => res == Ok::<Output, GwtError>(output),
                _ => res == Err::<Output, GwtError>(outcome_error(outcome)),
            },
            match outcome_stdout(outcome) {
                Some(out) => res matches Ok(v) && v.stdout@ == out,
                None => res is Err,
            },
    {
        match outcome {
            RunOutcome::Exited { success, output } => if success {
                Ok(output)
            } else {
                Err(GwtError::GitFailed)
            },
            RunOutcome::NotStarted(m) => Err(GwtError::GitNotStarted(m)),
        }
    }

    /// `git clone ...` with the arguments of `args`; fails where its directory is not valid UTF-8.
    pub fn clone_command(&self, args: &GitCloneArgs) -> (res: Result<Command, GwtError>)
        requires
            args.keys_distinct(),
        ensures
            match res {
                Ok(c) => c.program@ == self@ && clone_args(*args) == Some(arg_views(c)),
                Err(e) => clone_args(*args) is None && (e matches GwtError::InvalidUtf8(d)
                    && d@ == args.dir@),
            },
    {
        let a = args.to_args()?;
        Ok(self.command(a))
    }

    /// Whether the clone succeeded.
    pub fn clone(&self, outcome: RunOutcome) -> (res: Result<(), GwtError>)
        ensures
            match outcome_stdout(outcome) {
                Some(_) => res is Ok,
                None => res == Err::<(), GwtError>(outcome_error(outcome)),
            },
    {
        self.run_result(outcome)?;
        Ok(())
    }

    /// `git config get --all --show-names --regexp ^branch.*merge$`: the
    /// branches that track an upstream.
    pub fn tracked_branches_command(&self) -> (res: Command)
        ensures
            res.program@ == self@,
            arg_views(res) == tracked_branches_args(),
    {
        let args = vec![
            String::from_str("config"),
            String::from_str("get"),
            String::from_str("--all"),
            String::from_str("--show-names"),
            String::from_str("--regexp"),
            String::from_str("^branch.*merge$"),
        ];
        let c = self.command(args);
        assert(arg_views(c) =~= seq![
            "config"@,
            "get"@,
            "--all"@,
            "--show-names"@,
            "--regexp"@,
            "^branch.*merge$"@,
        ]);
        c
    }

    /// The branches that track an upstream, each once, from the run of
    /// `tracked_branches_command` (its output read as lossy UTF-8).
    pub fn get_tracked_branches(&self, outcome: RunOutcome) -> (res: Result<Vec<String>, GwtError>)
        ensures
            match outcome_stdout(outcome) {
                Some(out) => res matches Ok(v) && string_views(v@).no_duplicates() && forall|
                    b: Seq<char>,
                | string_views(v@).contains(b) <==> tracked_branch_set(lossy_utf8(out)).contains(b),
                None => res == Err::<Vec<String>, GwtError>(outcome_error(outcome)),
            },
    {
        let out = self.run_result(outcome)?.stdout;
        let text = lossy_string(out.as_slice());
        Ok(parse_tracked_branches(text.as_str()))
    }

    /// `git worktree list --porcelain`.
    pub fn list_worktrees_command(&self) -> (res: Command)
        ensures
            res.program@ == self@,
            arg_views(res) == list_worktrees_args(),
    {
        let args = vec![
            String::from_str("worktree"),
            String::from_str("list"),
            String::from_str("--porcelain"),
        ];
        let c = self.command(args);
        assert(arg_views(c) =~= seq!["worktree"@, "list"@, "--porcelain"@]);
        c
    }

    /// The worktrees, from the run of `list_worktrees_command` (its output
    /// read as lossy UTF-8).
    pub fn list_worktrees(&self, outcome: RunOutcome) -> (res: Result<Worktrees, GwtError>)
        ensures
            match outcome_stdout(outcome) {
                Some(out) => match parse_worktrees(lossy_utf8(out)) {
                    Some(ws) => res matches Ok(w) && w@ == ws,
                    None => res matches Err(GwtError::ParseWorktree),
                },
                None => res == Err::<Worktrees, GwtError>(outcome_error(outcome)),
            },
    {
        let out = self.run_result(outcome)?.stdout;
        let text = lossy_string(out.as_slice());
        match Worktrees::from_str(text.as_str()) {
            Ok(w) => Ok(w),
            Err(_) => Err(GwtError::ParseWorktree),
        }
    }

    /// `git config remove-section <name>`.
    pub fn remove_section_command(&self, name: &str) -> (res: Command)
        ensures
            res.program@ == self@,
            arg_views(res) == remove_section_args(name@),
    {
        let args = vec![
            String::from_str("config"),
            String::from_str("remove-section"),
            String::from_str(name),
        ];
        let c = self.command(args);
        assert(arg_views(c) =~= seq!["config"@, "remove-section"@, name@]);
        c
    }

    /// Whether the section was removed.
    pub fn remove_section(&self, outcome: RunOutcome) -> (res: Result<(), GwtError>)
        ensures
            match outcome_stdout(outcome) {
                Some(_) => res is Ok,
                None => res == Err::<(), GwtError>(outcome_error(outcome)),
            },
    {
        self.run_result(outcome)?;
        Ok(())
    }

    /// `git rev-parse --show-toplevel`: the top of the current worktree.
    pub fn show_toplevel_command(&self) -> (res: Command)
        ensures
            res.program@ == self@,
            arg_views(res) == show_toplevel_args(),
    {
        let args = vec![String::from_str("rev-parse"), String::from_str("--show-toplevel")];
        let c = self.command(args);
        assert(arg_views(c) =~= seq!["rev-parse"@, "--show-toplevel"@]);
        c
    }

    /// The top of the current worktree: the output of the run of
    /// `show_toplevel_command` without its final newline.
    pub fn show_toplevel(&self, outcome: RunOutcome) -> (res: Result<Vec<u8>, GwtError>)
        ensures
            match outcome_stdout(outcome) {
                Some(out) => res matches Ok(p) && p@ == strip_newline(out),
                None => res == Err::<Vec<u8>, GwtError>(outcome_error(outcome)),
            },
    {
        let out = self.run_result(outcome)?.stdout;
        Ok(without_newline(&out))
    }

    /// `git rev-parse --path-format=absolute --git-common-dir`: the repository
    /// that all worktrees share.
    pub fn worktree_root_command(&self) -> (res: Command)
        ensures
            res.program@ == self@,
            arg_views(res) == worktree_root_args(),
    {
        let args = vec![
            String::from_str("rev-parse"),
            String::from_str("--path-format=absolute"),
            String::from_str("--git-common-dir"),
        ];
        let c = self.command(args);
        assert(arg_views(c) =~= seq![
            "rev-parse"@,
            "--path-format=absolute"@,
            "--git-common-dir"@,
        ]);
        c
    }

    /// The directory that holds the shared repository, where worktrees of a
    /// workspace live: the parent of the path that the run of
    /// `worktree_root_command` printed.
    pub fn get_worktree_root(&self, outcome: RunOutcome) -> (res: Result<Vec<u8>, GwtError>)
        ensures
            match outcome_stdout(outcome) {
                Some(out) => match parent(strip_newline(out)) {
                    Some(r) => res matches Ok(p) && p@ == r,
                    None => res matches Err(GwtError::NoWorktreeRoot),
                },
                None => res == Err::<Vec<u8>, GwtError>(outcome_error(outcome)),
            },
    {
        let out = self.run_result(outcome)?.stdout;
        match parent_dir(&without_newline(&out)) {
            Some(r) => Ok(r),
            None => Err(GwtError::NoWorktreeRoot),
        }
    }

    /// `git worktree add -b <branch> <path> [<commit>]`; fails where the path
    /// is not valid UTF-8.
    pub fn add_worktree_command(&self, branch: &str, path: &Vec<u8>, commit: Option<&str>) -> (res:
        Result<Command, GwtError>)
        ensures
            match res {
                Ok(c) => valid_utf8(path@) && c.program@ == self@ && arg_views(c)
                    == add_worktree_args(branch@, decode_utf8(path@), opt_str_view(commit)),
                Err(e) => !valid_utf8(path@) && (e matches GwtError::InvalidUtf8(d) && d@ == path@),
            },
    {
        let p = match utf8_string(path.as_slice()) {
            Some(p) => p,
            None => {
                return Err(GwtError::InvalidUtf8(path.clone()));
            },
        };
        let mut args = vec![
            String::from_str("worktree"),
            String::from_str("add"),
            String::from_str("-b"),
            String::from_str(branch),
            p,
        ];
        let ghost base = string_views(args@);
        match commit {
            Some(x) => {
                args.push(String::from_str(x));
            },
            None => {},
        }
        let c = self.command(args);
        assert(arg_views(c) =~= seq!["worktree"@, "add"@, "-b"@, branch@, decode_utf8(path@)]
            + match commit {
            Some(x) => seq![x@],
            None => seq![],
        });
        Ok(c)
    }

    /// Whether the worktree was added.
    pub fn add_worktree(&self, outcome: RunOutcome) -> (res: Result<(), GwtError>)
        ensures
            match outcome_stdout(outcome) {
                Some(_) => res is Ok,
                None => res == Err::<(), GwtError>(outcome_error(outcome)),
            },
    {
        self.run_result(outcome)?;
        Ok(())
    }
}

} // verus!
