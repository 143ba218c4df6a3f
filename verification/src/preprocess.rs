//! Source preprocessor: strips marker-delimited sections from a snippet
//! before it is submitted to the remote engine.
//!
//! The text is split on newlines; a line whose trimmed form is exactly the
//! exclude marker turns filtering on, one matching the include marker turns
//! it off, and both marker lines are dropped. Every other line is kept
//! unless filtering is on. Markers do not nest: the most recent marker
//! wins. The kept lines are rejoined with single newlines.
use vstd::prelude::*;
use vstd::string::StrSliceExecFns;
use vstd::string::StringExecFns;

verus! {

/// Whitespace ignored at the ends of a line when comparing it to a marker.
pub open spec fn is_space(c: char) -> bool {
    c == ' ' || c == '\t' || c == '\r' || c == '\u{b}' || c == '\u{c}'
}

pub open spec fn drop_leading(s: Seq<char>) -> Seq<char>
    decreases s.len(),
{
    if s.len() > 0 && is_space(s[0]) {
        drop_leading(s.drop_first())
    } else {
        s
    }
}

pub open spec fn drop_trailing(s: Seq<char>) -> Seq<char>
    decreases s.len(),
{
    if s.len() > 0 && is_space(s.last()) {
        drop_trailing(s.drop_last())
    } else {
        s
    }
}

/// A line with leading and trailing whitespace removed.
pub open spec fn trim_spec(s: Seq<char>) -> Seq<char> {
    drop_trailing(drop_leading(s))
}

/// Index of the first occurrence of `c` in `s`, or `s.len()` if absent.
pub open spec fn find_char(s: Seq<char>, c: char) -> int
    decreases s.len(),
{
    if s.len() == 0 {
        0
    } else if s[0] == c {
        0
    } else {
        1 + find_char(s.drop_first(), c)
    }
}

/// The segments of `s` between newline characters; rejoining them with
/// newlines restores `s` exactly.
pub open spec fn split_lines(s: Seq<char>) -> Seq<Seq<char>>
    decreases s.len(),
    via split_lines_decreases
{
    let i = find_char(s, '\n');
    if i == s.len() {
        seq![s]
    } else {
        seq![s.take(i)] + split_lines(s.skip(i + 1))
    }
}

#[via_fn]
proof fn split_lines_decreases(s: Seq<char>) {
    lemma_find_char_bounds(s, '\n');
}

pub open spec fn join_lines(ls: Seq<Seq<char>>) -> Seq<char>
    decreases ls.len(),
{
    if ls.len() == 0 {
        Seq::empty()
    } else if ls.len() == 1 {
        ls[0]
    } else {
        join_lines(ls.drop_last()) + seq!['\n'] + ls.last()
    }
}

pub open spec fn exclude_marker() -> Seq<char> {
    "// brichka: exclude"@
}

pub open spec fn include_marker() -> Seq<char> {
    "// brichka: include"@
}

/// The marker state machine over a list of lines: both marker lines are
/// dropped, other lines are kept exactly when filtering is off.
pub open spec fn keep_lines(ls: Seq<Seq<char>>, excluding: bool) -> Seq<Seq<char>>
    decreases ls.len(),
{
    if ls.len() == 0 {
        Seq::empty()
    } else {
        let t = trim_spec(ls[0]);
        if t == exclude_marker() {
            keep_lines(ls.drop_first(), true)
        } else if t == include_marker() {
            keep_lines(ls.drop_first(), false)
        } else if excluding {
            keep_lines(ls.drop_first(), excluding)
        } else {
            seq![ls[0]] + keep_lines(ls.drop_first(), excluding)
        }
    }
}

/// What the preprocessor returns for a given input.
pub open spec fn filter_spec(s: Seq<char>) -> Seq<char> {
    join_lines(keep_lines(split_lines(s), false))
}

proof fn lemma_find_char_bounds(s: Seq<char>, c: char)
    ensures
        0 <= find_char(s, c) <= s.len(),
        forall|j: int| 0 <= j < find_char(s, c) ==> s[j] != c,
        find_char(s, c) < s.len() ==> s[find_char(s, c)] == c,
    decreases s.len(),
{
    if s.len() > 0 && s[0] != c {
        lemma_find_char_bounds(s.drop_first(), c);
        assert forall|j: int| 0 <= j < find_char(s, c) implies s[j] != c by {
            if j > 0 {
                assert(s.drop_first()[j - 1] == s[j]);
            }
        }
    }
}

proof fn lemma_find_char_at(s: Seq<char>, c: char, k: int)
    requires
        0 <= k <= s.len(),
        forall|j: int| 0 <= j < k ==> s[j] != c,
        k < s.len() ==> s[k] == c,
    ensures
        find_char(s, c) == k,
    decreases s.len(),
{
    if s.len() > 0 && s[0] != c {
        lemma_find_char_at(s.drop_first(), c, k - 1);
    }
}

pub(crate) proof fn lemma_drop_leading(s: Seq<char>, lo: int)
    requires
        0 <= lo <= s.len(),
        forall|j: int| 0 <= j < lo ==> is_space(s[j]),
        lo < s.len() ==> !is_space(s[lo]),
    ensures
        drop_leading(s) == s.skip(lo),
    decreases lo,
{
    if lo == 0 {
        assert(s.skip(0) =~= s);
    } else {
        lemma_drop_leading(s.drop_first(), lo - 1);
        assert(s.drop_first().skip(lo - 1) =~= s.skip(lo));
    }
}

proof fn lemma_drop_trailing(s: Seq<char>, hi: int)
    requires
        0 <= hi <= s.len(),
        forall|j: int| hi <= j < s.len() ==> is_space(s[j]),
        hi > 0 ==> !is_space(s[hi - 1]),
    ensures
        drop_trailing(s) == s.take(hi),
    decreases s.len() - hi,
{
    if hi == s.len() {
        assert(s.take(hi) =~= s);
    } else {
        lemma_drop_trailing(s.drop_last(), hi);
        assert(s.drop_last().take(hi) =~= s.take(hi));
    }
}

/// Bounds of the trimmed portion of `s`: everything outside `[r.0, r.1)`
/// is whitespace, and the trimmed line is exactly that range.
fn trim_bounds(s: &str) -> (r: (usize, usize))
    ensures
        r.0 <= r.1 <= s@.len(),
        trim_spec(s@) == s@.subrange(r.0 as int, r.1 as int),
{
    let n = s.unicode_len();
    let mut lo: usize = 0;
    while lo < n && is_space_exec(s.get_char(lo))
        invariant
            lo <= n,
            n == s@.len(),
            forall|j: int| 0 <= j < lo ==> is_space(s@[j]),
        decreases n - lo,
    {
        lo += 1;
    }
    proof {
        lemma_drop_leading(s@, lo as int);
    }
    if lo == n {
        proof {
            assert(s@.skip(n as int) =~= Seq::<char>::empty());
            lemma_drop_trailing(s@.skip(n as int), 0);
            assert(s@.skip(n as int).take(0) =~= s@.subrange(n as int, n as int));
        }
        return (n, n);
    }
    let mut hi: usize = n;
    while hi > lo && is_space_exec(s.get_char(hi - 1))
        invariant
            lo <= hi <= n,
            n == s@.len(),
            lo < n && !is_space(s@[lo as int]),
            forall|j: int| hi <= j < n ==> is_space(s@[j]),
        decreases hi,
    {
        hi -= 1;
    }
    proof {
        lemma_drop_trailing(s@.skip(lo as int), hi - lo);
        assert(s@.skip(lo as int).take(hi - lo) =~= s@.subrange(lo as int, hi as int));
    }
    (lo, hi)
}

pub(crate) fn is_space_exec(c: char) -> (r: bool)
    ensures
        r == is_space(c),
{
    c == ' ' || c == '\t' || c == '\r' || c == '\u{b}' || c == '\u{c}'
}

/// Whether `s[lo..hi)` equals the marker `m`, character for character.
fn range_eq(s: &str, lo: usize, hi: usize, m: &str) -> (r: bool)
    requires
        lo <= hi <= s@.len(),
    ensures
        r == (s@.subrange(lo as int, hi as int) == m@),
{
    let mlen = m.unicode_len();
    if hi - lo != mlen {
        return false;
    }
    let mut k: usize = 0;
    while k < mlen
        invariant
            lo <= hi <= s@.len(),
            mlen == m@.len(),
            hi - lo == mlen,
            k <= mlen,
            forall|j: int| 0 <= j < k ==> s@[lo + j] == m@[j],
        decreases mlen - k,
    {
        if s.get_char(lo + k) != m.get_char(k) {
            return false;
        }
        k += 1;
    }
    proof {
        assert(s@.subrange(lo as int, hi as int) =~= m@);
    }
    true
}

fn split_into_lines<'a>(s: &'a str) -> (lines: Vec<&'a str>)
    ensures
        lines@.map_values(|l: &str| l@) == split_lines(s@),
        lines@.len() > 0,
{
    let n = s.unicode_len();
    let mut lines: Vec<&'a str> = Vec::new();
    let mut start: usize = 0;
    let mut i: usize = 0;
    proof {
        assert(s@.skip(0) =~= s@);
        assert(lines@.map_values(|l: &str| l@) =~= Seq::<Seq<char>>::empty());
        assert(Seq::<Seq<char>>::empty() + split_lines(s@) =~= split_lines(s@));
    }
    while i < n
        invariant
            start <= i <= n,
            n == s@.len(),
            forall|j: int| start <= j < i ==> s@[j] != '\n',
            split_lines(s@) == lines@.map_values(|l: &str| l@) + split_lines(s@.skip(start as int)),
        decreases n - i,
    {
        if s.get_char(i) == '\n' {
            let ghost old_lines = lines@;
            let line = s.substring_char(start, i);
            lines.push(line);
            proof {
                let rem = s@.skip(start as int);
                lemma_find_char_at(rem, '\n', i - start);
                assert(rem.take(i - start) =~= line@);
                assert(rem.skip(i - start + 1) =~= s@.skip(i + 1));
                assert(lines@.map_values(|l: &str| l@) =~= old_lines.map_values(|l: &str| l@)
                    + seq![line@]);
                assert(old_lines.map_values(|l: &str| l@) + (seq![line@] + split_lines(
                    s@.skip(i + 1),
                )) =~= (old_lines.map_values(|l: &str| l@) + seq![line@]) + split_lines(
                    s@.skip(i + 1),
                ));
            }
            start = i + 1;
        }
        i += 1;
    }
    let ghost old_lines = lines@;
    let line = s.substring_char(start, n);
    lines.push(line);
    proof {
        let rem = s@.skip(start as int);
        lemma_find_char_at(rem, '\n', n - start);
        assert(rem =~= line@);
        assert(lines@.map_values(|l: &str| l@) =~= old_lines.map_values(|l: &str| l@) + seq![
            line@,
        ]);
    }
    lines
}

fn keep_included<'a>(lines: &Vec<&'a str>) -> (kept: Vec<&'a str>)
    ensures
        kept@.map_values(|l: &str| l@) == keep_lines(lines@.map_values(|l: &str| l@), false),
{
    let ghost all = lines@.map_values(|l: &str| l@);
    let mut kept: Vec<&'a str> = Vec::new();
    let mut excluding = false;
    let mut i: usize = 0;
    proof {
        assert(all.skip(0) =~= all);
        assert(kept@.map_values(|l: &str| l@) =~= Seq::<Seq<char>>::empty());
        assert(Seq::<Seq<char>>::empty() + keep_lines(all, false) =~= keep_lines(all, false));
    }
    while i < lines.len()
        invariant
            i <= lines@.len(),
            all == lines@.map_values(|l: &str| l@),
            keep_lines(all, false) == kept@.map_values(|l: &str| l@) + keep_lines(
                all.skip(i as int),
                excluding,
            ),
        decreases lines@.len() - i,
    {
        let line = lines[i];
        let (lo, hi) = trim_bounds(line);
        let ghost rest = all.skip(i as int);
        proof {
            assert(rest[0] == line@);
            assert(rest.drop_first() =~= all.skip(i + 1));
        }
        if range_eq(line, lo, hi, "// brichka: exclude") {
            excluding = true;
        } else if range_eq(line, lo, hi, "// brichka: include") {
            excluding = false;
        } else if !excluding {
            let ghost old_kept = kept@;
            kept.push(line);
            proof {
                assert(kept@.map_values(|l: &str| l@) =~= old_kept.map_values(|l: &str| l@)
                    + seq![line@]);
                assert(old_kept.map_values(|l: &str| l@) + (seq![line@] + keep_lines(
                    all.skip(i + 1),
                    excluding,
                )) =~= (old_kept.map_values(|l: &str| l@) + seq![line@]) + keep_lines(
                    all.skip(i + 1),
                    excluding,
                ));
            }
        }
        i += 1;
    }
    proof {
        assert(all.skip(i as int) =~= Seq::<Seq<char>>::empty());
        assert(kept@.map_values(|l: &str| l@) + Seq::<Seq<char>>::empty() =~= kept@.map_values(
            |l: &str| l@,
        ));
    }
    kept
}

fn join_with_newlines(kept: &Vec<&str>) -> (out: String)
    ensures
        out@ == join_lines(kept@.map_values(|l: &str| l@)),
{
    let ghost all = kept@.map_values(|l: &str| l@);
    let mut out = String::new();
    let mut i: usize = 0;
    while i < kept.len()
        invariant
            i <= kept@.len(),
            all == kept@.map_values(|l: &str| l@),
            out@ == join_lines(all.take(i as int)),
        decreases kept@.len() - i,
    {
        if i > 0 {
            out.append("\n");
            proof {
                reveal_strlit("\n");
            }
        }
        out.append(kept[i]);
        proof {
            assert(all.take(i + 1).drop_last() =~= all.take(i as int));
            assert(all.take(i + 1).last() == all[i as int]);
            assert("\n"@ =~= seq!['\n']) by {
                reveal_strlit("\n");
            }
        }
        i += 1;
    }
    proof {
        assert(all.take(kept@.len() as int) =~= all);
    }
    out
}

proof fn lemma_split_nonempty(s: Seq<char>)
    ensures
        split_lines(s).len() > 0,
{
    lemma_find_char_bounds(s, '\n');
}

proof fn lemma_join_cons(a: Seq<char>, ls: Seq<Seq<char>>)
    ensures
        join_lines(seq![a] + ls) == if ls.len() == 0 {
            a
        } else {
            a + seq!['\n'] + join_lines(ls)
        },
    decreases ls.len(),
{
    assert(join_lines(seq![a]) == a) by {
        assert(seq![a].len() == 1);
        assert(seq![a][0] == a);
    }
    if ls.len() == 0 {
        assert(seq![a] + ls =~= seq![a]);
    } else if ls.len() == 1 {
        assert((seq![a] + ls).drop_last() =~= seq![a]);
        assert((seq![a] + ls).last() == ls[0]);
    } else {
        lemma_join_cons(a, ls.drop_last());
        assert((seq![a] + ls).drop_last() =~= seq![a] + ls.drop_last());
        assert((seq![a] + ls).last() == ls.last());
        assert((a + seq!['\n'] + join_lines(ls.drop_last())) + seq!['\n'] + ls.last() =~= a + seq![
            '\n',
        ] + (join_lines(ls.drop_last()) + seq!['\n'] + ls.last()));
    }
}

/// Rejoining the split of a text with newlines restores the text exactly.
proof fn lemma_join_split(s: Seq<char>)
    ensures
        join_lines(split_lines(s)) == s,
    decreases s.len(),
{
    lemma_find_char_bounds(s, '\n');
    let i = find_char(s, '\n');
    if i < s.len() {
        lemma_join_split(s.skip(i + 1));
        lemma_split_nonempty(s.skip(i + 1));
        lemma_join_cons(s.take(i), split_lines(s.skip(i + 1)));
        assert(s.take(i) + seq!['\n'] + s.skip(i + 1) =~= s);
    }
}

proof fn lemma_keep_all(ls: Seq<Seq<char>>)
    requires
        forall|i: int|
            0 <= i < ls.len() ==> trim_spec(#[trigger] ls[i]) != exclude_marker() && trim_spec(
                ls[i],
            ) != include_marker(),
    ensures
        keep_lines(ls, false) == ls,
    decreases ls.len(),
{
    if ls.len() > 0 {
        assert forall|i: int| 0 <= i < ls.drop_first().len() implies trim_spec(
            #[trigger] ls.drop_first()[i],
        ) != exclude_marker() && trim_spec(ls.drop_first()[i]) != include_marker() by {
            assert(ls.drop_first()[i] == ls[i + 1]);
        }
        lemma_keep_all(ls.drop_first());
        assert(seq![ls[0]] + ls.drop_first() =~= ls);
    }
}

/// Law: an input none of whose lines trims to a marker line is returned
/// unchanged, character for character.
pub proof fn lemma_no_markers_identity(s: Seq<char>)
    requires
        forall|i: int|
            0 <= i < split_lines(s).len() ==> trim_spec(#[trigger] split_lines(s)[i])
                != exclude_marker() && trim_spec(split_lines(s)[i]) != include_marker(),
    ensures
        filter_spec(s) == s,
{
    lemma_keep_all(split_lines(s));
    lemma_join_split(s);
}

/// Removes the sections of `command` between an exclude marker line and the
/// next include marker line (or the end of input), dropping the marker
/// lines themselves; everything else is returned rejoined with newlines.
pub fn filter_excluded_sections(command: &str) -> (r: String)
    ensures
        r@ == filter_spec(command@),
{
    let lines = split_into_lines(command);
    let kept = keep_included(&lines);
    join_with_newlines(&kept)
}

} // verus!
