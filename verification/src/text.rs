//! Character-level text handling: the splitting, line breaking, trimming and
//! prefix tests that the git output parsers are built from, each stated over
//! `Seq<char>` with the meaning that `str`'s methods of the same name have.
use vstd::prelude::*;

verus! {

/// Views of a sequence of character vectors.
pub open spec fn views(v: Seq<Vec<char>>) -> Seq<Seq<char>> {
    v.map_values(|x: Vec<char>| x@)
}

/// Views of a sequence of strings.
pub open spec fn string_views(v: Seq<String>) -> Seq<Seq<char>> {
    v.map_values(|x: String| x@)
}

/// `s` starts with `p`.
pub open spec fn starts_with(s: Seq<char>, p: Seq<char>) -> bool {
    p.len() <= s.len() && s.take(p.len() as int) == p
}

/// `s` ends with `p`.
pub open spec fn ends_with(s: Seq<char>, p: Seq<char>) -> bool {
    p.len() <= s.len() && s.skip(s.len() - p.len()) == p
}

/// `s` without the prefix `p` where it has it, else `s` (as `strip_prefix(..).unwrap_or(s)`).
pub open spec fn strip_prefix_or_keep(s: Seq<char>, p: Seq<char>) -> Seq<char> {
    if starts_with(s, p) {
        s.skip(p.len() as int)
    } else {
        s
    }
}

/// The pieces of `s` between non-overlapping occurrences of `pat`, found from
/// the left, scanning from `i` with the current piece starting at `start`
/// (the meaning of `str::split` with a non-empty pattern).
pub open spec fn split_from(s: Seq<char>, pat: Seq<char>, start: int, i: int) -> Seq<Seq<char>>
    decreases s.len() - i,
{
    if pat.len() == 0 || i < 0 || i + pat.len() > s.len() {
        seq![s.subrange(start, s.len() as int)]
    } else if s.subrange(i, i + pat.len()) == pat {
        seq![s.subrange(start, i)] + split_from(s, pat, i + pat.len(), i + pat.len())
    } else {
        split_from(s, pat, start, i + 1)
    }
}

/// `str::split` with a non-empty pattern: always at least one piece.
pub open spec fn split(s: Seq<char>, pat: Seq<char>) -> Seq<Seq<char>> {
    split_from(s, pat, 0, 0)
}

/// A line without its carriage return, where it ends with one.
pub open spec fn strip_cr(t: Seq<char>) -> Seq<char> {
    if t.len() > 0 && t.last() == '\r' {
        t.drop_last()
    } else {
        t
    }
}

/// `str::lines`: lines end at `\n` or `\r\n`; the last line ending is
/// optional; a bare `\r` that no `\n` follows stays in the line.
pub open spec fn lines(s: Seq<char>) -> Seq<Seq<char>> {
    let parts = split(s, seq!['\n']);
    let n = parts.len() as int;
    let kept = if parts.last().len() == 0 {
        n - 1
    } else {
        n
    };
    Seq::new(kept as nat, |k: int| if k < n - 1 { strip_cr(parts[k]) } else { parts[k] })
}

/// The Unicode `White_Space` property, which `char::is_whitespace` tests.
pub open spec fn is_white_space(c: char) -> bool {
    ('\u{9}' <= c && c <= '\u{d}') || c == ' ' || c == '\u{85}' || c == '\u{a0}' || c
        == '\u{1680}' || ('\u{2000}' <= c && c <= '\u{200a}') || c == '\u{2028}' || c
        == '\u{2029}' || c == '\u{202f}' || c == '\u{205f}' || c == '\u{3000}'
}

/// `str::trim_start`.
pub open spec fn trim_start(s: Seq<char>) -> Seq<char>
    decreases s.len(),
{
    if s.len() > 0 && is_white_space(s[0]) {
        trim_start(s.drop_first())
    } else {
        s
    }
}

/// `str::trim_end`.
pub open spec fn trim_end(s: Seq<char>) -> Seq<char>
    decreases s.len(),
{
    if s.len() > 0 && is_white_space(s.last()) {
        trim_end(s.drop_last())
    } else {
        s
    }
}

/// `str::trim`.
pub open spec fn trim(s: Seq<char>) -> Seq<char> {
    trim_end(trim_start(s))
}

/// The position of the last `c` in `s`.
pub open spec fn last_index_of(s: Seq<char>, c: char) -> Option<int>
    decreases s.len(),
{
    if s.len() == 0 {
        None
    } else if s.last() == c {
        Some(s.len() - 1)
    } else {
        last_index_of(s.drop_last(), c)
    }
}

/// The characters of `s`, one element each.
pub fn chars_of(s: &str) -> (res: Vec<char>)
    ensures
        res@ == s@,
{
    let mut res: Vec<char> = Vec::new();
    for c in it: s.chars()
        invariant
            res@ == it.seq().take(it.index() as int),
            it.seq() == s@,
    {
        res.push(c);
    }
    res
}

/// A string made of the characters of `cs`, by `String`'s `FromIterator<char>`,
/// which appends each character in turn.
#[verifier::external_body]
pub(crate) fn string_from_chars(cs: &Vec<char>) -> (res: String)
    ensures
        res@ == cs@,
{
    cs.iter().collect()
}

/// Whether `v` holds a string equal to `s`.
pub fn contains_string(v: &Vec<String>, s: &String) -> (res: bool)
    ensures
        res == string_views(v@).contains(s@),
{
    let mut k: usize = 0;
    while k < v.len()
        invariant
            k <= v.len(),
            forall|j: int| 0 <= j < k ==> v@[j]@ != s@,
        decreases v.len() - k,
    {
        if v[k] == *s {
            assert(string_views(v@)[k as int] == s@);
            return true;
        }
        k = k + 1;
    }
    assert forall|j: int| 0 <= j < string_views(v@).len() implies string_views(v@)[j] != s@ by {
        assert(string_views(v@)[j] == v@[j]@);
    }
    false
}

/// `v` with `s` added at the end, unless `v` holds an equal string already.
pub fn push_unique(v: &mut Vec<String>, s: String)
    requires
        string_views(old(v)@).no_duplicates(),
    ensures
        string_views(final(v)@).no_duplicates(),
        string_views(final(v)@) == if string_views(old(v)@).contains(s@) {
            string_views(old(v)@)
        } else {
            string_views(old(v)@).push(s@)
        },
        string_views(final(v)@).contains(s@),
{
    if !contains_string(v, &s) {
        let ghost before = v@;
        let ghost sv = s@;
        v.push(s);
        assert(string_views(v@) =~= string_views(before).push(sv));
        assert(string_views(v@)[before.len() as int] == sv);
    }
}

/// A copy of `s[from..to]`.
pub fn slice_chars(s: &Vec<char>, from: usize, to: usize) -> (res: Vec<char>)
    requires
        from <= to <= s.len(),
    ensures
        res@ == s@.subrange(from as int, to as int),
{
    let mut res: Vec<char> = Vec::new();
    let mut k = from;
    while k < to
        invariant
            from <= k <= to <= s.len(),
            res@ == s@.subrange(from as int, k as int),
        decreases to - k,
    {
        res.push(s[k]);
        k = k + 1;
        assert(res@ =~= s@.subrange(from as int, k as int));
    }
    res
}

/// Whether `pat` occurs in `s` at position `at`.
pub fn occurs_at(s: &Vec<char>, at: usize, pat: &Vec<char>) -> (res: bool)
    requires
        at + pat.len() <= s.len(),
    ensures
        res == (s@.subrange(at as int, at + pat.len()) == pat@),
{
    let mut k: usize = 0;
    while k < pat.len()
        invariant
            k <= pat.len(),
            at + pat.len() <= s.len(),
            forall|j: int| 0 <= j < k ==> s@[at + j] == pat@[j],
        decreases pat.len() - k,
    {
        if s[at + k] != pat[k] {
            assert(s@.subrange(at as int, at + pat.len())[k as int] != pat@[k as int]);
            return false;
        }
        k = k + 1;
    }
    assert(s@.subrange(at as int, at + pat.len()) =~= pat@);
    true
}

/// Whether `s` starts with `p`.
pub fn has_prefix(s: &Vec<char>, p: &Vec<char>) -> (res: bool)
    ensures
        res == starts_with(s@, p@),
{
    if p.len() > s.len() {
        return false;
    }
    let r = occurs_at(s, 0, p);
    assert(s@.subrange(0, p.len() as int) =~= s@.take(p.len() as int));
    r
}

/// Whether `s` ends with `p`.
pub fn has_suffix(s: &Vec<char>, p: &Vec<char>) -> (res: bool)
    ensures
        res == ends_with(s@, p@),
{
    if p.len() > s.len() {
        return false;
    }
    let r = occurs_at(s, s.len() - p.len(), p);
    assert(s@.subrange(s.len() - p.len(), s.len() - p.len() + p.len()) =~= s@.skip(
        s.len() - p.len(),
    ));
    r
}

/// Whether `s` equals `p`.
pub fn same_chars(s: &Vec<char>, p: &Vec<char>) -> (res: bool)
    ensures
        res == (s@ == p@),
{
    if s.len() != p.len() {
        return false;
    }
    let r = occurs_at(s, 0, p);
    assert(s@.subrange(0, p.len() as int) =~= s@);
    r
}

/// `str::split` on a non-empty pattern.
pub fn split_chars(s: &Vec<char>, pat: &Vec<char>) -> (res: Vec<Vec<char>>)
    requires
        pat.len() > 0,
    ensures
        views(res@) == split(s@, pat@),
{
    let mut res: Vec<Vec<char>> = Vec::new();
    let mut start: usize = 0;
    let mut i: usize = 0;
    while pat.len() <= s.len() && i <= s.len() - pat.len()
        invariant
            pat.len() > 0,
            start <= i <= s.len(),
            views(res@) + split_from(s@, pat@, start as int, i as int) == split(s@, pat@),
        decreases s.len() - i,
    {
        if occurs_at(s, i, pat) {
            let piece = slice_chars(s, start, i);
            proof {
                assert(views(res@.push(piece)) =~= views(res@).push(piece@));
                assert(views(res@) + split_from(s@, pat@, start as int, i as int) =~= views(
                    res@.push(piece),
                ) + split_from(s@, pat@, i + pat.len(), i + pat.len()));
            }
            res.push(piece);
            i = i + pat.len();
            start = i;
        } else {
            i = i + 1;
        }
    }
    let last = slice_chars(s, start, s.len());
    proof {
        assert(views(res@.push(last)) =~= views(res@).push(last@));
        assert(split_from(s@, pat@, start as int, i as int) == seq![last@]);
    }
    res.push(last);
    res
}

/// `str::lines`.
pub fn lines_of(s: &Vec<char>) -> (res: Vec<Vec<char>>)
    ensures
        views(res@) == lines(s@),
{
    let nl: Vec<char> = vec!['\n'];
    let parts = split_chars(s, &nl);
    assert(nl@ =~= seq!['\n']);
    let ghost spec_parts = split(s@, seq!['\n']);
    assert(views(parts@) == spec_parts);
    assert(parts@.len() == spec_parts.len());
    let n = parts.len();
    proof {
        split_nonempty(s@, seq!['\n'], 0, 0);
    }
    let kept = if parts[n - 1].len() == 0 {
        n - 1
    } else {
        n
    };
    let mut res: Vec<Vec<char>> = Vec::new();
    let mut k: usize = 0;
    while k < kept
        invariant
            kept <= n == parts.len() == spec_parts.len(),
            n >= 1,
            views(parts@) == spec_parts,
            k <= kept,
            views(res@) =~= lines(s@).take(k as int),
            lines(s@).len() == kept,
            forall|j: int|
                0 <= j < kept ==> #[trigger] lines(s@)[j] == (if j < n - 1 {
                    strip_cr(spec_parts[j])
                } else {
                    spec_parts[j]
                }),
        decreases kept - k,
    {
        let p = &parts[k];
        assert(p@ == spec_parts[k as int]);
        let line = if k < n - 1 && p.len() > 0 && p[p.len() - 1] == '\r' {
            slice_chars(p, 0, p.len() - 1)
        } else {
            slice_chars(p, 0, p.len())
        };
        assert(line@ =~= lines(s@)[k as int]);
        let ghost before = res@;
        res.push(line);
        assert(views(res@) =~= views(before).push(line@));
        k = k + 1;
        assert(views(res@) =~= lines(s@).take(k as int));
    }
    res
}

/// `pat` occurs in `s` at `j`.
pub open spec fn occurs_in(s: Seq<char>, pat: Seq<char>, j: int) -> bool {
    s.subrange(j, j + pat.len()) == pat
}

/// Scanning past positions where `pat` does not occur leaves the pieces unchanged.
pub proof fn split_from_skip(s: Seq<char>, pat: Seq<char>, start: int, i: int, k: int)
    requires
        pat.len() > 0,
        0 <= i <= k,
        k + pat.len() <= s.len() + 1,
        forall|j: int| i <= j < k ==> !#[trigger] occurs_in(s, pat, j),
    ensures
        split_from(s, pat, start, i) == split_from(s, pat, start, k),
    decreases k - i,
{
    if i < k {
        assert(!occurs_in(s, pat, i));
        split_from_skip(s, pat, start, i + 1, k);
    }
}

/// Splitting `p + y` past `p` is splitting `y`.
pub proof fn split_from_shift(p: Seq<char>, y: Seq<char>, pat: Seq<char>, a: int, b: int)
    requires
        pat.len() > 0,
        0 <= a <= b <= y.len(),
    ensures
        split_from(p + y, pat, p.len() + a, p.len() + b) == split_from(y, pat, a, b),
    decreases y.len() - b,
{
    let s = p + y;
    let i = p.len() + b;
    if b + pat.len() > y.len() {
        assert(s.subrange(p.len() + a, s.len() as int) =~= y.subrange(a, y.len() as int));
    } else {
        assert(s.subrange(i, i + pat.len()) =~= y.subrange(b, b + pat.len()));
        if y.subrange(b, b + pat.len()) == pat {
            assert(s.subrange(p.len() + a, i) =~= y.subrange(a, b));
            split_from_shift(p, y, pat, b + pat.len(), b + pat.len());
        } else {
            split_from_shift(p, y, pat, a, b + 1);
        }
    }
}

/// Splitting on a single character `c`, the text `x`, `c`, `y` gives the
/// pieces of `x` followed by those of `y`.
pub proof fn split_char_join(x: Seq<char>, y: Seq<char>, c: char, st: int, i: int)
    requires
        0 <= st <= i <= x.len(),
    ensures
        split_from(x + seq![c] + y, seq![c], st, i) == split_from(x, seq![c], st, i) + split(
            y,
            seq![c],
        ),
    decreases x.len() - i,
{
    let pat = seq![c];
    let t = x + pat + y;
    if i == x.len() {
        assert(t.subrange(i, i + 1) =~= pat);
        assert(t.subrange(st, i) =~= x.subrange(st, x.len() as int));
        assert(t =~= (x + pat) + y);
        split_from_shift(x + pat, y, pat, 0, 0);
    } else {
        assert(t.subrange(i, i + 1) =~= x.subrange(i, i + 1));
        assert(t.subrange(st, i) =~= x.subrange(st, i));
        if x.subrange(i, i + 1) == pat {
            split_char_join(x, y, c, i + 1, i + 1);
        } else {
            split_char_join(x, y, c, st, i + 1);
        }
    }
}

/// The last piece of a split is a suffix of the text.
pub proof fn split_last_is_suffix(s: Seq<char>, pat: Seq<char>, st: int, i: int) -> (j: int)
    requires
        0 <= st <= s.len(),
        st <= i,
    ensures
        st <= j <= s.len(),
        split_from(s, pat, st, i).last() == s.subrange(j, s.len() as int),
    decreases s.len() - i,
{
    if pat.len() == 0 || i < 0 || i + pat.len() > s.len() {
        st
    } else if s.subrange(i, i + pat.len()) == pat {
        let r = split_from(s, pat, i + pat.len(), i + pat.len());
        split_nonempty(s, pat, i + pat.len(), i + pat.len());
        let j = split_last_is_suffix(s, pat, i + pat.len(), i + pat.len());
        assert((seq![s.subrange(st, i)] + r).last() == r.last());
        j
    } else {
        split_last_is_suffix(s, pat, st, i + 1)
    }
}

/// The lines of a text, by its pieces between line feeds: a piece that a
/// line feed follows loses a carriage return at its end; the last piece is
/// a line as it is, unless it is empty.
pub proof fn lines_by_pieces(s: Seq<char>, k: int)
    requires
        0 <= k < split(s, seq!['\n']).len(),
    ensures
        k < split(s, seq!['\n']).len() - 1 ==> k < lines(s).len() && lines(s)[k] == strip_cr(
            split(s, seq!['\n'])[k],
        ),
        k == split(s, seq!['\n']).len() - 1 && split(s, seq!['\n'])[k].len() > 0 ==> k < lines(
            s,
        ).len() && lines(s)[k] == split(s, seq!['\n'])[k],
        lines(s).len() == if split(s, seq!['\n']).last().len() == 0 {
            split(s, seq!['\n']).len() - 1
        } else {
            split(s, seq!['\n']).len() as int
        },
{
    split_nonempty(s, seq!['\n'], 0, 0);
}

/// A piece without `c`, then `c`, then the rest: the piece comes first.
pub proof fn split_char_concat(x: Seq<char>, y: Seq<char>, c: char)
    requires
        !x.contains(c),
    ensures
        split(x + seq![c] + y, seq![c]) == seq![x] + split(y, seq![c]),
{
    let s = x + seq![c] + y;
    let pat = seq![c];
    assert forall|j: int| 0 <= j < x.len() implies !#[trigger] occurs_in(s, pat, j) by {
        assert(s.subrange(j, j + 1)[0] == x[j]);
        assert(x.contains(x[j]));
    }
    split_from_skip(s, pat, 0, 0, x.len() as int);
    assert(s.subrange(x.len() as int, x.len() + 1int) =~= pat);
    assert(s.subrange(0, x.len() as int) =~= x);
    assert(s =~= (x + seq![c]) + y);
    split_from_shift(x + seq![c], y, pat, 0, 0);
}

/// A text without `c` is one piece.
pub proof fn split_char_none(x: Seq<char>, c: char)
    requires
        !x.contains(c),
    ensures
        split(x, seq![c]) == seq![x],
{
    let pat = seq![c];
    assert forall|j: int| 0 <= j < x.len() implies !#[trigger] occurs_in(x, pat, j) by {
        assert(x.subrange(j, j + 1)[0] == x[j]);
        assert(x.contains(x[j]));
    }
    split_from_skip(x, pat, 0, 0, x.len() as int);
    assert(x.subrange(0, x.len() as int) =~= x);
}

/// A non-empty text without line feeds is one line.
pub proof fn single_line(x: Seq<char>)
    requires
        !x.contains('\n'),
        x.len() > 0,
    ensures
        lines(x) == seq![x],
{
    split_char_none(x, '\n');
    assert(lines(x) =~= seq![x]);
}

/// The blank-line separator, `\n\n`.
pub open spec fn blank_line() -> Seq<char> {
    seq!['\n', '\n']
}

/// `ps` with `p` put before its first piece.
pub open spec fn prepend_first(p: Seq<char>, ps: Seq<Seq<char>>) -> Seq<Seq<char>> {
    ps.update(0, p + ps[0])
}

/// `ps` with `q` put after its last piece.
pub open spec fn append_last(ps: Seq<Seq<char>>, q: Seq<char>) -> Seq<Seq<char>> {
    ps.update(ps.len() - 1, ps.last() + q)
}

/// Where `a` does not end in a line feed, splitting `a`, a blank line and
/// `b` on blank lines gives the pieces of `a` followed by those of `b`.
pub proof fn split_blank_line_join(a: Seq<char>, b: Seq<char>, st: int, i: int)
    requires
        0 <= st <= i <= a.len(),
        a.len() == 0 || a.last() != '\n',
    ensures
        split_from(a + blank_line() + b, blank_line(), st, i) == split_from(
            a,
            blank_line(),
            st,
            i,
        ) + split(b, blank_line()),
    decreases a.len() - i,
{
    let pat = blank_line();
    let t = a + pat + b;
    if i == a.len() {
        assert(t.subrange(i, i + 2) =~= pat);
        assert(t.subrange(st, i) =~= a.subrange(st, a.len() as int));
        assert(t =~= (a + pat) + b);
        split_from_shift(a + pat, b, pat, 0, 0);
    } else if i + 2 > a.len() {
        assert(t.subrange(i, i + 2)[0] == a.last());
        split_blank_line_join(a, b, st, i + 1);
    } else {
        assert(t.subrange(i, i + 2) =~= a.subrange(i, i + 2));
        assert(t.subrange(st, i) =~= a.subrange(st, i));
        if a.subrange(i, i + 2) == pat {
            split_blank_line_join(a, b, i + 2, i + 2);
            split_nonempty(a, pat, i + 2, i + 2);
        } else {
            split_blank_line_join(a, b, st, i + 1);
        }
    }
}

/// Scanning `p + y` from the start of `y` with the piece starting at 0 gives
/// the pieces of `y`, the first one after `p`.
pub proof fn split_prefix_first(p: Seq<char>, y: Seq<char>, pat: Seq<char>, b: int)
    requires
        pat.len() > 0,
        0 <= b <= y.len(),
    ensures
        split_from(p + y, pat, 0, p.len() + b) == prepend_first(p, split_from(y, pat, 0, b)),
    decreases y.len() - b,
{
    let t = p + y;
    let j = p.len() + b;
    if b + pat.len() > y.len() {
        assert(t.subrange(0, t.len() as int) =~= p + y.subrange(0, y.len() as int));
        assert(split_from(t, pat, 0, j) =~= prepend_first(p, split_from(y, pat, 0, b)));
    } else {
        assert(t.subrange(j, j + pat.len()) =~= y.subrange(b, b + pat.len()));
        if y.subrange(b, b + pat.len()) == pat {
            assert(t.subrange(0, j) =~= p + y.subrange(0, b));
            split_from_shift(p, y, pat, b + pat.len(), b + pat.len());
            assert(split_from(t, pat, 0, j) =~= prepend_first(p, split_from(y, pat, 0, b)));
        } else {
            split_prefix_first(p, y, pat, b + 1);
        }
    }
}

/// Where `x` does not end in a line feed, a line feed after it joins its
/// last piece.
pub proof fn split_append_newline(x: Seq<char>, st: int, i: int)
    requires
        0 <= st <= i <= x.len(),
        x.len() == 0 || x.last() != '\n',
    ensures
        split_from(x + seq!['\n'], blank_line(), st, i) == append_last(
            split_from(x, blank_line(), st, i),
            seq!['\n'],
        ),
    decreases x.len() - i,
{
    let pat = blank_line();
    let t = x + seq!['\n'];
    if i == x.len() {
        assert(t.subrange(st, t.len() as int) =~= x.subrange(st, x.len() as int) + seq!['\n']);
        assert(split_from(t, pat, st, i) =~= append_last(split_from(x, pat, st, i), seq!['\n']));
    } else if i + 2 > x.len() {
        assert(t.subrange(i, i + 2)[0] == x.last());
        split_append_newline(x, st, i + 1);
    } else {
        assert(t.subrange(i, i + 2) =~= x.subrange(i, i + 2));
        if x.subrange(i, i + 2) == pat {
            assert(t.subrange(st, i) =~= x.subrange(st, i));
            split_append_newline(x, i + 2, i + 2);
            split_nonempty(x, pat, i + 2, i + 2);
            let r = split_from(x, pat, i + 2, i + 2);
            assert(append_last(seq![x.subrange(st, i)] + r, seq!['\n']) =~= seq![
                x.subrange(st, i),
            ] + append_last(r, seq!['\n']));
        } else {
            split_append_newline(x, st, i + 1);
        }
    }
}

/// Trimming ignores a leading line feed.
pub proof fn trim_leading_newline(s: Seq<char>)
    ensures
        trim(seq!['\n'] + s) == trim(s),
{
    assert((seq!['\n'] + s).drop_first() =~= s);
}

/// `trim_start` of `s` with one more character.
proof fn trim_start_push(s: Seq<char>, w: char)
    ensures
        trim_start(s.push(w)) == if trim_start(s).len() == 0 {
            trim_start(seq![w])
        } else {
            trim_start(s).push(w)
        },
    decreases s.len(),
{
    if s.len() == 0 {
        assert(s.push(w) =~= seq![w]);
    } else if is_white_space(s[0]) {
        assert(s.push(w).drop_first() =~= s.drop_first().push(w));
        trim_start_push(s.drop_first(), w);
    }
}

/// Trimming ignores a trailing line feed.
pub proof fn trim_trailing_newline(s: Seq<char>)
    ensures
        trim(s + seq!['\n']) == trim(s),
{
    assert(s + seq!['\n'] =~= s.push('\n'));
    trim_start_push(s, '\n');
    assert(is_white_space('\n'));
    assert(seq!['\n'].drop_first() =~= Seq::<char>::empty());
    assert(trim_start(seq!['\n']) == trim_start(Seq::<char>::empty()));
    assert(trim_start(Seq::<char>::empty()) == Seq::<char>::empty());
    let u = trim_start(s);
    if u.len() > 0 {
        assert(u.push('\n').last() == '\n');
        assert(u.push('\n').drop_last() =~= u);
        assert(trim_end(u.push('\n')) == trim_end(u));
    } else {
        assert(u =~= Seq::<char>::empty());
        assert(trim_end(Seq::<char>::empty()) == Seq::<char>::empty());
    }
}

/// `split_from` always gives at least one piece.
pub proof fn split_nonempty(s: Seq<char>, pat: Seq<char>, start: int, i: int)
    ensures
        split_from(s, pat, start, i).len() >= 1,
    decreases s.len() - i,
{
    if pat.len() == 0 || i < 0 || i + pat.len() > s.len() {
    } else if s.subrange(i, i + pat.len()) == pat {
        split_nonempty(s, pat, i + pat.len(), i + pat.len());
    } else {
        split_nonempty(s, pat, start, i + 1);
    }
}

/// `char::is_whitespace`.
pub fn white_space(c: char) -> (res: bool)
    ensures
        res == is_white_space(c),
{
    ('\u{9}' <= c && c <= '\u{d}') || c == ' ' || c == '\u{85}' || c == '\u{a0}' || c
        == '\u{1680}' || ('\u{2000}' <= c && c <= '\u{200a}') || c == '\u{2028}' || c
        == '\u{2029}' || c == '\u{202f}' || c == '\u{205f}' || c == '\u{3000}'
}

/// Trimming the first `k` characters, all white space, leaves the same result.
proof fn trim_start_skip(s: Seq<char>, k: int)
    requires
        0 <= k <= s.len(),
        forall|j: int| 0 <= j < k ==> is_white_space(#[trigger] s[j]),
    ensures
        trim_start(s) == trim_start(s.skip(k)),
    decreases k,
{
    if k > 0 {
        assert(s.drop_first().skip(k - 1) =~= s.skip(k));
        trim_start_skip(s.drop_first(), k - 1);
    } else {
        assert(s.skip(0) =~= s);
    }
}

/// Trimming the last characters from `k` on, all white space, leaves the same result.
proof fn trim_end_take(s: Seq<char>, k: int)
    requires
        0 <= k <= s.len(),
        forall|j: int| k <= j < s.len() ==> is_white_space(#[trigger] s[j]),
    ensures
        trim_end(s) == trim_end(s.take(k)),
    decreases s.len() - k,
{
    if k < s.len() {
        assert(s.drop_last().take(k) =~= s.take(k));
        trim_end_take(s.drop_last(), k);
    } else {
        assert(s.take(k) =~= s);
    }
}

/// `str::trim`.
pub fn trim_chars(s: &Vec<char>) -> (res: Vec<char>)
    ensures
        res@ == trim(s@),
{
    let mut a: usize = 0;
    while a < s.len() && white_space(s[a])
        invariant
            a <= s.len(),
            forall|j: int| 0 <= j < a ==> is_white_space(#[trigger] s@[j]),
        decreases s.len() - a,
    {
        a = a + 1;
    }
    proof {
        trim_start_skip(s@, a as int);
        if a < s.len() {
            assert(s@.skip(a as int)[0] == s@[a as int]);
        }
        assert(trim_start(s@.skip(a as int)) == s@.skip(a as int));
    }
    let mut b: usize = s.len();
    while b > a && white_space(s[b - 1])
        invariant
            a <= b <= s.len(),
            forall|j: int| b <= j < s.len() ==> is_white_space(#[trigger] s@[j]),
        decreases b,
    {
        b = b - 1;
    }
    proof {
        let t = s@.skip(a as int);
        assert forall|j: int| (b - a) <= j < t.len() implies is_white_space(#[trigger] t[j]) by {
            assert(t[j] == s@[j + a]);
        }
        trim_end_take(t, b - a);
        let u = t.take(b - a);
        assert(u =~= s@.subrange(a as int, b as int));
        if b > a {
            assert(u.last() == s@[b - 1]);
        }
        assert(trim_end(u) == u);
    }
    slice_chars(s, a, b)
}

/// Where `last_index_of` points: at a `c`, after which none follows.
pub proof fn last_index_of_facts(s: Seq<char>, c: char)
    ensures
        match last_index_of(s, c) {
            Some(i) => 0 <= i < s.len() && s[i] == c && forall|j: int|
                i < j < s.len() ==> s[j] != c,
            None => forall|j: int| 0 <= j < s.len() ==> s[j] != c,
        },
    decreases s.len(),
{
    if s.len() > 0 && s.last() != c {
        let d = s.drop_last();
        last_index_of_facts(d, c);
        assert forall|j: int| 0 <= j < d.len() implies d[j] == s[j] by {}
        match last_index_of(d, c) {
            Some(i) => {
                assert forall|j: int| i < j < s.len() implies s[j] != c by {
                    if j < d.len() {
                        assert(d[j] == s[j]);
                    }
                }
            },
            None => {
                assert forall|j: int| 0 <= j < s.len() implies s[j] != c by {
                    if j < d.len() {
                        assert(d[j] == s[j]);
                    }
                }
            },
        }
    }
}

/// A position holding `c` with no `c` after it is the last position of `c`.
pub proof fn last_index_of_at(s: Seq<char>, c: char, i: int)
    requires
        0 <= i < s.len(),
        s[i] == c,
        forall|j: int| i < j < s.len() ==> s[j] != c,
    ensures
        last_index_of(s, c) == Some(i),
    decreases s.len(),
{
    if i < s.len() - 1 {
        let d = s.drop_last();
        assert forall|j: int| i < j < d.len() implies d[j] != c by {
            assert(d[j] == s[j]);
        }
        last_index_of_at(d, c, i);
    }
}

/// The position of the last `c` in `s`.
pub fn find_last(s: &Vec<char>, c: char) -> (res: Option<usize>)
    ensures
        match res {
            Some(i) => last_index_of(s@, c) == Some(i as int) && i < s.len(),
            None => last_index_of(s@, c) is None,
        },
{
    proof {
        last_index_of_facts(s@, c);
    }
    let mut k = s.len();
    assert(s@.take(k as int) =~= s@);
    while k > 0
        invariant
            k <= s.len(),
            last_index_of(s@, c) == last_index_of(s@.take(k as int), c),
        decreases k,
    {
        assert(s@.take(k as int).drop_last() =~= s@.take(k - 1));
        if s[k - 1] == c {
            return Some(k - 1);
        }
        k = k - 1;
    }
    None
}

} // verus!
