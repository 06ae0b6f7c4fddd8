//! The worktrees that `git worktree list --porcelain` reports, and their parser.
use vstd::prelude::*;
use vstd::string::*;
use vstd::utf8::encode_utf8;

use crate::text::{
    chars_of, contains_string, has_prefix, lines, lines_of, same_chars, slice_chars, split, split_chars,
    split_char_concat, split_char_none, strip_cr, blank_line, prepend_first, append_last,
    split_nonempty, occurs_in, split_from_skip, split_prefix_first, split_blank_line_join,
    split_append_newline, split_from, trim_end, trim_leading_newline, trim_start, trim_trailing_newline,
    starts_with, string_from_chars, string_views, strip_prefix_or_keep, trim, trim_chars, views,
};

verus! {

/// A porcelain block or listing that could not be read.
#[derive(Debug)]
pub struct ParseWorktreeError;

/// One worktree of a repository.
#[derive(Debug)]
pub struct Worktree {
    path: Vec<u8>,
    bare: bool,
    head: Option<String>,
    branch: Option<String>,
}

/// What a worktree holds: the path (as bytes), whether the repository is
/// bare, the checked-out commit and the checked-out branch.
pub struct WorktreeView {
    pub path: Seq<u8>,
    pub bare: bool,
    pub head: Option<Seq<char>>,
    pub branch: Option<Seq<char>>,
}

/// The attribute lines of a block read so far.
pub struct WorktreeAttrs {
    pub bare: bool,
    pub head: Option<Seq<char>>,
    pub branch: Option<Seq<char>>,
}

/// The view of an optional string.
pub open spec fn opt_view(o: Option<String>) -> Option<Seq<char>> {
    match o {
        Some(s) => Some(s@),
        None => None,
    }
}

/// The view of an optional character vector.
pub open spec fn opt_chars_view(o: Option<Vec<char>>) -> Option<Seq<char>> {
    match o {
        Some(s) => Some(s@),
        None => None,
    }
}

impl View for Worktree {
    type V = WorktreeView;

    closed spec fn view(&self) -> WorktreeView {
        WorktreeView {
            path: self.path@,
            bare: self.bare,
            head: opt_view(self.head),
            branch: opt_view(self.branch),
        }
    }
}

/// What one attribute line does: `bare` marks the repository bare, `HEAD <commit>`
/// and `branch <ref>` set the commit and the branch (the later line wins), with
/// `refs/heads/` taken off the branch; any other line is ignored.
pub open spec fn apply_attr_line(a: WorktreeAttrs, line: Seq<char>) -> WorktreeAttrs {
    if line == "bare"@ {
        WorktreeAttrs { bare: true, head: a.head, branch: a.branch }
    } else if starts_with(line, "HEAD "@) {
        WorktreeAttrs { bare: a.bare, head: Some(line.skip("HEAD "@.len() as int)), branch: a.branch }
    } else if starts_with(line, "branch "@) {
        WorktreeAttrs {
            bare: a.bare,
            head: a.head,
            branch: Some(strip_prefix_or_keep(line.skip("branch "@.len() as int), "refs/heads/"@)),
        }
    } else {
        a
    }
}

/// The attributes that the lines `ls`, read in order, give.
pub open spec fn worktree_attrs(ls: Seq<Seq<char>>) -> WorktreeAttrs
    decreases ls.len(),
{
    if ls.len() == 0 {
        WorktreeAttrs { bare: false, head: None, branch: None }
    } else {
        apply_attr_line(worktree_attrs(ls.drop_last()), ls.last())
    }
}

/// The worktree that one porcelain block describes: its first line is
/// `worktree <path>`, and the lines after it are attributes. `None` where the
/// block has no line or its first line is not of that form.
pub open spec fn parse_worktree(block: Seq<char>) -> Option<WorktreeView> {
    parse_worktree_lines(lines(block))
}

/// The worktree that the lines of a block describe.
pub open spec fn parse_worktree_lines(ls: Seq<Seq<char>>) -> Option<WorktreeView> {
    if ls.len() == 0 || !starts_with(ls[0], "worktree "@) {
        None
    } else {
        let a = worktree_attrs(ls.skip(1));
        Some(
            WorktreeView {
                path: encode_utf8(ls[0].skip("worktree "@.len() as int)),
                bare: a.bare,
                head: a.head,
                branch: a.branch,
            },
        )
    }
}

/// The pieces of `ps` that are not empty, in order.
pub open spec fn nonempty_pieces(ps: Seq<Seq<char>>) -> Seq<Seq<char>>
    decreases ps.len(),
{
    if ps.len() == 0 {
        seq![]
    } else {
        let r = nonempty_pieces(ps.drop_last());
        if ps.last().len() > 0 {
            r.push(ps.last())
        } else {
            r
        }
    }
}

/// Each piece trimmed.
pub open spec fn trimmed(ps: Seq<Seq<char>>) -> Seq<Seq<char>> {
    ps.map_values(|p: Seq<char>| trim(p))
}

/// The blocks of a porcelain listing: the text between blank-line separators
/// (`\n\n`), trimmed, the empty ones left out.
pub open spec fn worktree_blocks(s: Seq<char>) -> Seq<Seq<char>> {
    nonempty_pieces(trimmed(split(s, "\n\n"@)))
}

/// The worktrees of a porcelain listing, one per block, or `None` where a
/// block does not parse.
pub open spec fn parse_worktrees(s: Seq<char>) -> Option<Seq<WorktreeView>> {
    let bs = worktree_blocks(s);
    if forall|i: int| 0 <= i < bs.len() ==> (#[trigger] parse_worktree(bs[i])) is Some {
        Some(bs.map_values(|b: Seq<char>| parse_worktree(b)->0))
    } else {
        None
    }
}

/// The branches that some worktree of `ws` has checked out.
pub open spec fn branch_set(ws: Seq<WorktreeView>) -> Set<Seq<char>> {
    Set::new(|b: Seq<char>| exists|i: int| 0 <= i < ws.len() && ws[i].branch == Some(b))
}

/// The block that git writes for a worktree at `path` with `branch`
/// checked out at commit `head`.
pub open spec fn porcelain_block(path: Seq<char>, head: Seq<char>, branch: Seq<char>) -> Seq<char> {
    "worktree "@ + path + seq!['\n'] + "HEAD "@ + head + seq!['\n'] + "branch refs/heads/"@ + branch
}

/// A field that fits on a line: no line feed, no carriage return.
pub open spec fn line_field(s: Seq<char>) -> bool {
    !s.contains('\n') && !s.contains('\r')
}

/// Reading the block that git writes for a worktree gives back its path,
/// commit and branch, and says the repository is not bare.
pub proof fn porcelain_block_reads_back(path: Seq<char>, head: Seq<char>, branch: Seq<char>)
    requires
        line_field(path),
        line_field(head),
        line_field(branch),
    ensures
        parse_worktree(porcelain_block(path, head, branch)) == Some(
            WorktreeView {
                path: encode_utf8(path),
                bare: false,
                head: Some(head),
                branch: Some(branch),
            },
        ),
{
    reveal_strlit("worktree ");
    reveal_strlit("HEAD ");
    reveal_strlit("branch refs/heads/");
    reveal_strlit("branch ");
    reveal_strlit("refs/heads/");
    reveal_strlit("bare");
    let nl = seq!['\n'];
    let a = "worktree "@ + path;
    let b = "HEAD "@ + head;
    let c = "branch refs/heads/"@ + branch;
    assert forall|j: int| 0 <= j < a.len() implies a[j] != '\n' && a[j] != '\r' by {
        if j >= 9 {
            assert(a[j] == path[j - 9]);
            assert(path.contains(path[j - 9]));
        }
    }
    assert forall|j: int| 0 <= j < b.len() implies b[j] != '\n' && b[j] != '\r' by {
        if j >= 5 {
            assert(b[j] == head[j - 5]);
            assert(head.contains(head[j - 5]));
        }
    }
    assert forall|j: int| 0 <= j < c.len() implies c[j] != '\n' by {
        if j >= 18 {
            assert(c[j] == branch[j - 18]);
            assert(branch.contains(branch[j - 18]));
        }
    }
    assert(!a.contains('\n'));
    assert(!b.contains('\n'));
    assert(!c.contains('\n'));
    let s = porcelain_block(path, head, branch);
    assert(s =~= a + nl + (b + nl + c));
    split_char_concat(a, b + nl + c, '\n');
    split_char_concat(b, c, '\n');
    split_char_none(c, '\n');
    let parts = split(s, nl);
    assert(parts =~= seq![a, b, c]);
    assert(strip_cr(a) == a);
    assert(strip_cr(b) == b);
    let ls = lines(s);
    assert(ls =~= seq![a, b, c]);
    assert(a.take(9) =~= "worktree "@);
    assert(a.skip(9) =~= path);
    let rest = ls.skip(1);
    assert(rest =~= seq![b, c]);
    assert(rest.drop_last() =~= seq![b]);
    assert(seq![b].drop_last() =~= Seq::<Seq<char>>::empty());
    assert(b != "bare"@);
    assert(b.take(5) =~= "HEAD "@);
    assert(b.skip(5) =~= head);
    let a0 = worktree_attrs(Seq::<Seq<char>>::empty());
    assert(a0 == WorktreeAttrs { bare: false, head: None, branch: None });
    assert(seq![b].last() == b);
    assert(worktree_attrs(seq![b]) == apply_attr_line(a0, b));
    let a1 = worktree_attrs(seq![b]);
    assert(a1 == WorktreeAttrs { bare: false, head: Some(head), branch: None });
    assert(c != "bare"@);
    assert(c.take(5)[0] == 'b');
    assert(!starts_with(c, "HEAD "@));
    assert(c.take(7) =~= "branch "@);
    let raw = c.skip(7);
    assert(raw.take(11) =~= "refs/heads/"@);
    assert(raw.skip(11) =~= branch);
}

/// A line that says nothing about a worktree: not `bare`, and starting with
/// neither `HEAD ` nor `branch ` (`locked`, `prunable ...`, `detached`, ...).
pub open spec fn ignored_line(x: Seq<char>) -> bool {
    x != "bare"@ && !starts_with(x, "HEAD "@) && !starts_with(x, "branch "@)
}

/// An ignored line, put anywhere among attribute lines, changes nothing.
pub proof fn attrs_ignore_line(ls: Seq<Seq<char>>, k: int, x: Seq<char>)
    requires
        0 <= k <= ls.len(),
        ignored_line(x),
    ensures
        worktree_attrs(ls.insert(k, x)) == worktree_attrs(ls),
    decreases ls.len(),
{
    let t = ls.insert(k, x);
    if k == ls.len() {
        assert(t.drop_last() =~= ls);
        assert(t.last() == x);
    } else {
        assert(t.drop_last() =~= ls.drop_last().insert(k, x));
        assert(t.last() == ls.last());
        attrs_ignore_line(ls.drop_last(), k, x);
    }
}

/// Unknown porcelain lines are ignored: a block with one more line after
/// its first, that line saying nothing about a worktree, reads as the block
/// without it (both fail, or both give the same worktree). Inserting more
/// lines is this step repeated.
pub proof fn unknown_lines_are_ignored(s: Seq<char>, t: Seq<char>, k: int, x: Seq<char>)
    requires
        1 <= k <= lines(s).len(),
        lines(t) == lines(s).insert(k, x),
        ignored_line(x),
    ensures
        parse_worktree(t) == parse_worktree(s),
{
    let ls = lines(s);
    let lt = lines(t);
    assert(lt[0] == ls[0]);
    assert(lt.skip(1) =~= ls.skip(1).insert(k - 1, x));
    attrs_ignore_line(ls.skip(1), k - 1, x);
}

/// `ls` with lines inserted in turn: each insertion `(k, x)` puts `x` at
/// position `k` of the lines so far.
pub open spec fn insert_lines(ls: Seq<Seq<char>>, ins: Seq<(int, Seq<char>)>) -> Seq<Seq<char>>
    decreases ins.len(),
{
    if ins.len() == 0 {
        ls
    } else {
        insert_lines(ls, ins.drop_last()).insert(ins.last().0, ins.last().1)
    }
}

/// Each insertion puts an ignored line after the first line, among the
/// `n` lines that there were and those inserted before it.
pub open spec fn ignored_insertions(n: nat, ins: Seq<(int, Seq<char>)>) -> bool
    decreases ins.len(),
{
    if ins.len() == 0 {
        true
    } else {
        &&& ignored_insertions(n, ins.drop_last())
        &&& 1 <= ins.last().0 <= n + ins.len() - 1
        &&& ignored_line(ins.last().1)
    }
}

/// Inserting ignored lines after the first line keeps the reading of the lines.
pub proof fn insert_ignored_lines_keeps_parse(ls: Seq<Seq<char>>, ins: Seq<(int, Seq<char>)>)
    requires
        ls.len() >= 1,
        ignored_insertions(ls.len(), ins),
    ensures
        insert_lines(ls, ins).len() == ls.len() + ins.len(),
        parse_worktree_lines(insert_lines(ls, ins)) == parse_worktree_lines(ls),
    decreases ins.len(),
{
    if ins.len() > 0 {
        insert_ignored_lines_keeps_parse(ls, ins.drop_last());
        let m = insert_lines(ls, ins.drop_last());
        let (k, x) = ins.last();
        let t = m.insert(k, x);
        assert(t[0] == m[0]);
        assert(t.skip(1) =~= m.skip(1).insert(k - 1, x));
        attrs_ignore_line(m.skip(1), k - 1, x);
    }
}

/// Unknown porcelain lines are ignored, however many: a block whose lines
/// are those of another with ignored lines inserted after the first (none
/// `bare`, none starting with `HEAD ` or `branch `) reads as that block:
/// both fail, or both give the same worktree.
pub proof fn unknown_lines_are_ignored_everywhere(
    s: Seq<char>,
    t: Seq<char>,
    ins: Seq<(int, Seq<char>)>,
)
    requires
        lines(s).len() >= 1,
        ignored_insertions(lines(s).len(), ins),
        lines(t) == insert_lines(lines(s), ins),
    ensures
        parse_worktree(t) == parse_worktree(s),
{
    insert_ignored_lines_keeps_parse(lines(s), ins);
}

/// The blocks that a sequence of pieces gives: each trimmed, the empty ones left out.
pub open spec fn blocks_of(ps: Seq<Seq<char>>) -> Seq<Seq<char>> {
    nonempty_pieces(trimmed(ps))
}

/// The blocks of a text split on blank lines.
pub open spec fn text_blocks(s: Seq<char>) -> Seq<Seq<char>> {
    blocks_of(split(s, blank_line()))
}

proof fn nonempty_pieces_concat(ps: Seq<Seq<char>>, qs: Seq<Seq<char>>)
    ensures
        nonempty_pieces(ps + qs) == nonempty_pieces(ps) + nonempty_pieces(qs),
    decreases qs.len(),
{
    if qs.len() == 0 {
        assert(ps + qs =~= ps);
        assert(nonempty_pieces(ps) + nonempty_pieces(qs) =~= nonempty_pieces(ps));
    } else {
        assert((ps + qs).drop_last() =~= ps + qs.drop_last());
        assert((ps + qs).last() == qs.last());
        nonempty_pieces_concat(ps, qs.drop_last());
        let n = nonempty_pieces(ps);
        let r = nonempty_pieces(qs.drop_last());
        assert((n + r).push(qs.last()) =~= n + r.push(qs.last()));
    }
}

proof fn blocks_of_concat(ps: Seq<Seq<char>>, qs: Seq<Seq<char>>)
    ensures
        blocks_of(ps + qs) == blocks_of(ps) + blocks_of(qs),
{
    assert(trimmed(ps + qs) =~= trimmed(ps) + trimmed(qs));
    nonempty_pieces_concat(trimmed(ps), trimmed(qs));
}

proof fn blocks_of_prepend_newline(ps: Seq<Seq<char>>)
    requires
        ps.len() > 0,
    ensures
        blocks_of(prepend_first(seq!['\n'], ps)) == blocks_of(ps),
{
    trim_leading_newline(ps[0]);
    assert(trimmed(prepend_first(seq!['\n'], ps)) =~= trimmed(ps));
}

proof fn blocks_of_append_newline(ps: Seq<Seq<char>>)
    requires
        ps.len() > 0,
    ensures
        blocks_of(append_last(ps, seq!['\n'])) == blocks_of(ps),
{
    trim_trailing_newline(ps.last());
    assert(trimmed(append_last(ps, seq!['\n'])) =~= trimmed(ps));
}

/// The empty text is one empty piece, which gives no block.
proof fn empty_piece_facts()
    ensures
        split_from(Seq::<char>::empty(), blank_line(), 0, 0) == seq![Seq::<char>::empty()],
        blocks_of(seq![Seq::<char>::empty()]) == Seq::<Seq<char>>::empty(),
{
    let e = Seq::<char>::empty();
    assert(blank_line().len() == 2);
    assert(e.subrange(0, 0) =~= e);
    assert(trim_start(e) == e);
    assert(trim_end(e) == e);
    assert(trim(e) == e);
    assert(trimmed(seq![e]) =~= seq![e]);
    assert(seq![e].drop_last() =~= Seq::<Seq<char>>::empty());
    assert(seq![e].last() == e);
    assert(nonempty_pieces(seq![e]) == nonempty_pieces(Seq::<Seq<char>>::empty()));
}

/// The empty text has no blocks.
proof fn text_blocks_empty()
    ensures
        text_blocks(Seq::<char>::empty()) == Seq::<Seq<char>>::empty(),
{
    empty_piece_facts();
}

/// A leading line feed changes no block.
proof fn text_blocks_leading_newline(y: Seq<char>)
    ensures
        text_blocks(seq!['\n'] + y) == text_blocks(y),
    decreases y.len(),
{
    let pat = blank_line();
    let nl = seq!['\n'];
    let t = nl + y;
    split_nonempty(y, pat, 0, 0);
    if y.len() == 0 {
        assert(t.subrange(0, t.len() as int) =~= nl + y.subrange(0, 0));
        assert(split(y, pat) =~= seq![y.subrange(0, 0)]);
        assert(split(t, pat) =~= prepend_first(nl, split(y, pat)));
        blocks_of_prepend_newline(split(y, pat));
    } else if y[0] != '\n' {
        assert(t.subrange(0, 2)[1] == y[0]);
        assert(!occurs_in(t, pat, 0));
        split_from_skip(t, pat, 0, 0, 1);
        split_prefix_first(nl, y, pat, 0);
        blocks_of_prepend_newline(split(y, pat));
    } else {
        let y2 = y.drop_first();
        let e = Seq::<char>::empty();
        assert(t =~= e + pat + y2);
        assert(y =~= nl + y2);
        split_blank_line_join(e, y2, 0, 0);
        empty_piece_facts();
        blocks_of_concat(seq![e], split(y2, pat));
        assert(blocks_of(seq![e]) + text_blocks(y2) =~= text_blocks(y2));
        assert(text_blocks(t) =~= text_blocks(y2));
        text_blocks_leading_newline(y2);
    }
}

/// A trailing line feed changes no block.
proof fn text_blocks_trailing_newline(x: Seq<char>)
    ensures
        text_blocks(x + seq!['\n']) == text_blocks(x),
    decreases x.len(),
{
    let pat = blank_line();
    if x.len() == 0 || x.last() != '\n' {
        split_append_newline(x, 0, 0);
        split_nonempty(x, pat, 0, 0);
        blocks_of_append_newline(split(x, pat));
    } else {
        let x1 = x.drop_last();
        let e = Seq::<char>::empty();
        assert(x + seq!['\n'] =~= x1 + pat + e);
        assert(x =~= x1 + seq!['\n']);
        text_blocks_join(x1, e);
        text_blocks_empty();
        assert(text_blocks(x1) + text_blocks(e) =~= text_blocks(x1));
        text_blocks_trailing_newline(x1);
    }
}

/// The blocks of two texts joined by a blank line are the blocks of the
/// first followed by those of the second.
pub proof fn text_blocks_join(x: Seq<char>, y: Seq<char>)
    ensures
        text_blocks(x + blank_line() + y) == text_blocks(x) + text_blocks(y),
    decreases x.len(),
{
    let pat = blank_line();
    if x.len() == 0 || x.last() != '\n' {
        split_blank_line_join(x, y, 0, 0);
        blocks_of_concat(split(x, pat), split(y, pat));
    } else {
        let x1 = x.drop_last();
        let nl = seq!['\n'];
        assert(x + pat + y =~= x1 + pat + (nl + y));
        assert(x =~= x1 + nl);
        text_blocks_join(x1, nl + y);
        text_blocks_leading_newline(y);
        text_blocks_trailing_newline(x1);
    }
}

/// Reading two listings joined by a blank line reads both: it succeeds
/// exactly when each of them does, giving the worktrees of the first
/// followed by those of the second.
pub proof fn listings_join(a: Seq<char>, b: Seq<char>)
    ensures
        worktree_blocks(a + "\n\n"@ + b) == worktree_blocks(a) + worktree_blocks(b),
        parse_worktrees(a + "\n\n"@ + b) == match (parse_worktrees(a), parse_worktrees(b)) {
            (Some(wa), Some(wb)) => Some(wa + wb),
            _ => None,
        },
{
    reveal_strlit("\n\n");
    assert("\n\n"@ =~= blank_line());
    text_blocks_join(a, b);
    assert(worktree_blocks(a) == text_blocks(a));
    assert(worktree_blocks(b) == text_blocks(b));
    let ba = worktree_blocks(a);
    let bb = worktree_blocks(b);
    let bs = ba + bb;
    assert(worktree_blocks(a + "\n\n"@ + b) == bs);
    let all_a = forall|i: int| 0 <= i < ba.len() ==> (#[trigger] parse_worktree(ba[i])) is Some;
    let all_b = forall|i: int| 0 <= i < bb.len() ==> (#[trigger] parse_worktree(bb[i])) is Some;
    let all = forall|i: int| 0 <= i < bs.len() ==> (#[trigger] parse_worktree(bs[i])) is Some;
    if all {
        assert forall|i: int| 0 <= i < ba.len() implies (#[trigger] parse_worktree(ba[i])) is Some by {
            assert(bs[i] == ba[i]);
        }
        assert forall|i: int| 0 <= i < bb.len() implies (#[trigger] parse_worktree(bb[i])) is Some by {
            assert(bs[i + ba.len()] == bb[i]);
        }
        let f = |x: Seq<char>| parse_worktree(x)->0;
        assert(bs.map_values(f) =~= ba.map_values(f) + bb.map_values(f));
    } else {
        let i = choose|i: int| 0 <= i < bs.len() && !((#[trigger] parse_worktree(bs[i])) is Some);
        if i < ba.len() {
            assert(bs[i] == ba[i]);
            assert(!all_a);
        } else {
            assert(bs[i] == bb[i - ba.len()]);
            assert(!all_b);
        }
    }
}

/// Reads the attribute lines `ls[1..]`.
fn read_attrs(ls: &Vec<Vec<char>>) -> (res: (bool, Option<Vec<char>>, Option<Vec<char>>))
    requires
        ls.len() >= 1,
    ensures
        worktree_attrs(views(ls@).skip(1)) == (WorktreeAttrs {
            bare: res.0,
            head: opt_chars_view(res.1),
            branch: opt_chars_view(res.2),
        }),
{
    let bare_word = chars_of("bare");
    let head_word = chars_of("HEAD ");
    let branch_word = chars_of("branch ");
    let heads_prefix = chars_of("refs/heads/");
    let mut bare = false;
    let mut head: Option<Vec<char>> = None;
    let mut branch: Option<Vec<char>> = None;
    let mut k: usize = 1;
    assert(views(ls@).subrange(1, 1) =~= seq![]);
    while k < ls.len()
        invariant
            1 <= k <= ls.len(),
            bare_word@ == "bare"@,
            head_word@ == "HEAD "@,
            branch_word@ == "branch "@,
            heads_prefix@ == "refs/heads/"@,
            worktree_attrs(views(ls@).subrange(1, k as int)) == (WorktreeAttrs {
                bare: bare,
                head: opt_chars_view(head),
                branch: opt_chars_view(branch),
            }),
        decreases ls.len() - k,
    {
        let line = &ls[k];
        assert(views(ls@)[k as int] == line@);
        if same_chars(line, &bare_word) {
            bare = true;
        } else if has_prefix(line, &head_word) {
            head = Some(slice_chars(line, head_word.len(), line.len()));
            assert(line@.subrange(head_word@.len() as int, line@.len() as int) =~= line@.skip(
                "HEAD "@.len() as int,
            ));
        } else if has_prefix(line, &branch_word) {
            let raw = slice_chars(line, branch_word.len(), line.len());
            assert(raw@ =~= line@.skip("branch "@.len() as int));
            if has_prefix(&raw, &heads_prefix) {
                let b = slice_chars(&raw, heads_prefix.len(), raw.len());
                assert(b@ =~= raw@.skip("refs/heads/"@.len() as int));
                branch = Some(b);
            } else {
                branch = Some(raw);
            }
        }
        assert(views(ls@).subrange(1, k + 1).drop_last() =~= views(ls@).subrange(1, k as int));
        k = k + 1;
    }
    assert(views(ls@).subrange(1, ls.len() as int) =~= views(ls@).skip(1));
    (bare, head, branch)
}

/// An optional string made of optional characters.
fn opt_string(o: Option<Vec<char>>) -> (res: Option<String>)
    ensures
        opt_view(res) == opt_chars_view(o),
{
    match o {
        Some(cs) => Some(string_from_chars(&cs)),
        None => None,
    }
}

impl Worktree {
    /// Reads one porcelain block.
    fn parse_block(block: &Vec<char>) -> (res: Result<Worktree, ParseWorktreeError>)
        ensures
            match res {
                Ok(w) => parse_worktree(block@) == Some(w@),
                Err(_) => parse_worktree(block@) is None,
            },
    {
        let ls = lines_of(block);
        if ls.len() == 0 {
            return Err(ParseWorktreeError);
        }
        let prefix = chars_of("worktree ");
        assert(views(ls@)[0] == ls@[0]@);
        if !has_prefix(&ls[0], &prefix) {
            return Err(ParseWorktreeError);
        }
        let path_chars = slice_chars(&ls[0], prefix.len(), ls[0].len());
        assert(path_chars@ =~= ls@[0]@.skip("worktree "@.len() as int));
        let path_string = string_from_chars(&path_chars);
        let path = path_string.as_str().as_bytes_vec();
        let (bare, head, branch) = read_attrs(&ls);
        let w = Worktree { path, bare, head: opt_string(head), branch: opt_string(branch) };
        assert(views(ls@).skip(1) == lines(block@).skip(1));
        Ok(w)
    }

    /// Reads one porcelain block: its first line must be `worktree <path>`.
    pub fn from_str(s: &str) -> (res: Result<Worktree, ParseWorktreeError>)
        ensures
            match res {
                Ok(w) => parse_worktree(s@) == Some(w@),
                Err(_) => parse_worktree(s@) is None,
            },
    {
        Worktree::parse_block(&chars_of(s))
    }

    /// The branch checked out in this worktree, if any.
    pub fn branch(&self) -> (res: Option<&str>)
        ensures
            match res {
                Some(b) => self@.branch == Some(b@),
                None => self@.branch is None,
            },
    {
        match &self.branch {
            Some(b) => Some(b.as_str()),
            None => None,
        }
    }

    /// The commit checked out in this worktree, if any.
    pub fn head(&self) -> (res: Option<&str>)
        ensures
            match res {
                Some(h) => self@.head == Some(h@),
                None => self@.head is None,
            },
    {
        match &self.head {
            Some(h) => Some(h.as_str()),
            None => None,
        }
    }

    /// Whether the repository of this worktree is bare.
    pub fn is_bare(&self) -> (res: bool)
        ensures
            res == self@.bare,
    {
        self.bare
    }

    /// The path of this worktree, as bytes.
    pub fn path(&self) -> (res: &Vec<u8>)
        ensures
            res@ == self@.path,
    {
        &self.path
    }
}

/// All worktrees of a repository, in the order that git lists them.
#[derive(Debug)]
pub struct Worktrees(Vec<Worktree>);

impl View for Worktrees {
    type V = Seq<WorktreeView>;

    closed spec fn view(&self) -> Seq<WorktreeView> {
        self.0@.map_values(|w: Worktree| w@)
    }
}

/// `nonempty_pieces` of one more piece.
proof fn nonempty_pieces_push(ps: Seq<Seq<char>>, p: Seq<char>)
    ensures
        nonempty_pieces(ps.push(p)) == if p.len() > 0 {
            nonempty_pieces(ps).push(p)
        } else {
            nonempty_pieces(ps)
        },
{
    assert(ps.push(p).drop_last() =~= ps);
}

impl Worktrees {
    /// Reads the output of `git worktree list --porcelain`: blocks separated
    /// by a blank line, each trimmed, the empty ones skipped, each one a worktree.
    pub fn from_str(s: &str) -> (res: Result<Worktrees, ParseWorktreeError>)
        ensures
            match res {
                Ok(ws) => parse_worktrees(s@) == Some(ws@),
                Err(_) => parse_worktrees(s@) is None,
            },
    {
        let chars = chars_of(s);
        let sep = chars_of("\n\n");
        proof {
            reveal_strlit("\n\n");
        }
        let blocks = split_chars(&chars, &sep);
        let ghost pieces = trimmed(split(s@, "\n\n"@));
        let mut res: Vec<Worktree> = Vec::new();
        let mut k: usize = 0;
        assert(pieces.take(0) =~= seq![]);
        while k < blocks.len()
            invariant
                k <= blocks.len(),
                views(blocks@) == split(s@, "\n\n"@),
                pieces == trimmed(split(s@, "\n\n"@)),
                pieces.len() == blocks.len(),
                nonempty_pieces(pieces.take(k as int)).len() == res@.len(),
                forall|i: int|
                    0 <= i < res@.len() ==> parse_worktree(
                        #[trigger] nonempty_pieces(pieces.take(k as int))[i],
                    ) == Some(res@[i]@),
            decreases blocks.len() - k,
        {
            let t = trim_chars(&blocks[k]);
            assert(views(blocks@)[k as int] == blocks@[k as int]@);
            assert(t@ == pieces[k as int]);
            let ghost before = nonempty_pieces(pieces.take(k as int));
            proof {
                assert(pieces.take(k + 1) =~= pieces.take(k as int).push(pieces[k as int]));
                nonempty_pieces_push(pieces.take(k as int), pieces[k as int]);
            }
            if t.len() > 0 {
                match Worktree::parse_block(&t) {
                    Ok(w) => {
                        res.push(w);
                    },
                    Err(e) => {
                        proof {
                            let bs = worktree_blocks(s@);
                            assert(bs == nonempty_pieces(pieces));
                            nonempty_prefix(pieces, k as int + 1);
                            assert(nonempty_pieces(pieces.take(k + 1)) == before.push(t@));
                            assert(nonempty_pieces(pieces.take(k + 1))[before.len() as int] == t@);
                            assert(bs[before.len() as int] == t@);
                            assert(parse_worktree(bs[before.len() as int]) is None);
                        }
                        return Err(e);
                    },
                }
            }
            k = k + 1;
        }
        assert(pieces.take(k as int) =~= pieces);
        let out = Worktrees(res);
        proof {
            let bs = worktree_blocks(s@);
            assert(out@ =~= bs.map_values(|b: Seq<char>| parse_worktree(b)->0));
        }
        Ok(out)
    }

    /// The number of worktrees.
    pub fn len(&self) -> (res: usize)
        ensures
            res == self@.len(),
    {
        self.0.len()
    }

    /// The worktree at position `i`.
    pub fn get(&self, i: usize) -> (res: &Worktree)
        requires
            i < self@.len(),
        ensures
            res@ == self@[i as int],
    {
        &self.0[i]
    }

    /// The branches checked out in some worktree, each once.
    pub fn branches(&self) -> (res: Vec<String>)
        ensures
            string_views(res@).no_duplicates(),
            forall|b: Seq<char>| string_views(res@).contains(b) <==> branch_set(self@).contains(b),
    {
        let mut res: Vec<String> = Vec::new();
        let mut k: usize = 0;
        while k < self.0.len()
            invariant
                k <= self.0.len(),
                self@ == self.0@.map_values(|w: Worktree| w@),
                string_views(res@).no_duplicates(),
                forall|b: Seq<char>|
                    string_views(res@).contains(b) <==> exists|i: int|
                        0 <= i < k && self@[i].branch == Some(b),
            decreases self.0.len() - k,
        {
            let ghost before = res@;
            match &self.0[k].branch {
                Some(b) => {
                    assert(self@[k as int].branch == Some(b@));
                    if !contains_string(&res, b) {
                        res.push(b.clone());
                        assert(string_views(res@) =~= string_views(before).push(b@));
                        assert(string_views(res@)[before.len() as int] == b@);
                    }
                    assert(string_views(res@).contains(b@));
                },
                None => {
                    assert(self@[k as int].branch is None);
                },
            }
            proof {
                let sv = string_views(res@);
                let bv = string_views(before);
                assert(sv == bv || (self@[k as int].branch is Some && sv == bv.push(
                    self@[k as int].branch->0,
                )));
                assert(self@[k as int].branch is Some ==> sv.contains(self@[k as int].branch->0));
                assert forall|b: Seq<char>|
                    sv.contains(b) <==> exists|i: int| 0 <= i < k + 1 && self@[i].branch == Some(b) by {
                    if sv.contains(b) {
                        let j = choose|j: int| 0 <= j < sv.len() && sv[j] == b;
                        if j < bv.len() {
                            assert(bv[j] == b);
                            assert(bv.contains(b));
                        } else {
                            assert(self@[k as int].branch == Some(b));
                        }
                    }
                    if exists|i: int| 0 <= i < k + 1 && self@[i].branch == Some(b) {
                        let i = choose|i: int| 0 <= i < k + 1 && self@[i].branch == Some(b);
                        if i < k {
                            assert(bv.contains(b));
                            let j = choose|j: int| 0 <= j < bv.len() && bv[j] == b;
                            assert(sv[j] == b);
                        }
                    }
                }
            }
            k = k + 1;
        }
        res
    }
}

/// A piece of `nonempty_pieces(ps.take(k))` is a piece of `nonempty_pieces(ps)` at the same position.
proof fn nonempty_prefix(ps: Seq<Seq<char>>, k: int)
    requires
        0 <= k <= ps.len(),
    ensures
        nonempty_pieces(ps.take(k)).len() <= nonempty_pieces(ps).len(),
        forall|i: int|
            0 <= i < nonempty_pieces(ps.take(k)).len() ==> nonempty_pieces(ps)[i]
                == #[trigger] nonempty_pieces(ps.take(k))[i],
    decreases ps.len() - k,
{
    if k < ps.len() {
        assert(ps.take(k + 1).drop_last() =~= ps.take(k));
        nonempty_prefix(ps, k + 1);
        let a = nonempty_pieces(ps.take(k));
        let b = nonempty_pieces(ps.take(k + 1));
        assert(b == a || b == a.push(ps[k]));
        assert forall|i: int| 0 <= i < a.len() implies nonempty_pieces(ps)[i] == #[trigger] a[i] by {
            assert(b[i] == a[i]);
        }
    } else {
        assert(ps.take(k) =~= ps);
    }
}

} // verus!
