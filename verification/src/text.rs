//! Line-oriented text trimming.
//!
//! A sprite is stored as one string whose rows are separated by `'\n'`.
//! Before a sprite is drawn near the right or left edge of the terminal,
//! each of its rows is trimmed so that the drawn region stays inside the
//! screen. The model here is `split_lines` / `join_lines`, with the two
//! trimming operations stated per row.

use vstd::prelude::*;

verus! {

/// The rows of `s`: maximal runs of characters between `'\n'` separators.
/// A terminating `'\n'` closes the last row without opening an empty one,
/// so `"a\nb\n"` has the same rows as `"a\nb"`.
pub open spec fn split_lines(s: Seq<char>) -> Seq<Seq<char>>
    decreases s.len(),
{
    if s.len() == 0 {
        Seq::empty()
    } else if s[0] == '\n' {
        seq![Seq::<char>::empty()].add(split_lines(s.subrange(1, s.len() as int)))
    } else {
        let rest = split_lines(s.subrange(1, s.len() as int));
        if rest.len() == 0 {
            seq![s]
        } else {
            seq![seq![s[0]].add(rest[0])].add(rest.subrange(1, rest.len() as int))
        }
    }
}

/// Rows joined back into one string with a single `'\n'` between rows
/// (and none after the last row).
pub open spec fn join_lines(ls: Seq<Seq<char>>) -> Seq<char>
    decreases ls.len(),
{
    if ls.len() == 0 {
        Seq::empty()
    } else if ls.len() == 1 {
        ls[0]
    } else {
        join_lines(ls.drop_last()).add(seq!['\n']).add(ls.last())
    }
}

/// A row trimmed to at most `n` characters by dropping characters from its
/// end: a long row keeps exactly its first `n` characters.
pub open spec fn trim_line_end(l: Seq<char>, n: int) -> Seq<char> {
    if l.len() <= n {
        l
    } else if n <= 0 {
        Seq::empty()
    } else {
        l.subrange(0, n)
    }
}

/// A row trimmed to at most `n` characters by dropping characters from its
/// start: a long row keeps exactly its last `n` characters, in order.
pub open spec fn trim_line_start(l: Seq<char>, n: int) -> Seq<char> {
    if l.len() <= n {
        l
    } else if n <= 0 {
        Seq::empty()
    } else {
        l.subrange(l.len() - n, l.len() as int)
    }
}

/// Every row of a multi-row string trimmed from the end to at most `n`
/// characters, rejoined.
pub open spec fn trim_all_end(s: Seq<char>, n: int) -> Seq<char> {
    join_lines(split_lines(s).map_values(|l: Seq<char>| trim_line_end(l, n)))
}

/// Every row of a multi-row string trimmed from the start to at most `n`
/// characters, rejoined.
pub open spec fn trim_all_start(s: Seq<char>, n: int) -> Seq<char> {
    join_lines(split_lines(s).map_values(|l: Seq<char>| trim_line_start(l, n)))
}

/// Splitting at the first `'\n'` yields the prefix row and the rows of the
/// remainder.
proof fn lemma_split_lines_at_nl(s: Seq<char>, k: int)
    requires
        0 <= k < s.len(),
        s[k] == '\n',
        forall|j: int| 0 <= j < k ==> s[j] != '\n',
    ensures
        split_lines(s) =~= seq![s.subrange(0, k)].add(
            split_lines(s.subrange(k + 1, s.len() as int)),
        ),
    decreases k,
{
    if k == 0 {
        assert(s.subrange(0, 0) =~= Seq::<char>::empty());
    } else {
        let t = s.subrange(1, s.len() as int);
        lemma_split_lines_at_nl(t, k - 1);
        let rest = split_lines(t);
        assert(t.subrange(0, k - 1) =~= s.subrange(1, k));
        assert(t.subrange(k, t.len() as int) =~= s.subrange(k + 1, s.len() as int));
        assert(rest =~= seq![s.subrange(1, k)].add(
            split_lines(s.subrange(k + 1, s.len() as int)),
        ));
        assert(seq![s[0]].add(rest[0]) =~= s.subrange(0, k));
        assert(rest.subrange(1, rest.len() as int) =~= split_lines(
            s.subrange(k + 1, s.len() as int),
        ));
    }
}

/// A nonempty string without `'\n'` is a single row.
proof fn lemma_split_lines_no_nl(s: Seq<char>)
    requires
        s.len() > 0,
        forall|j: int| 0 <= j < s.len() ==> s[j] != '\n',
    ensures
        split_lines(s) =~= seq![s],
    decreases s.len(),
{
    let t = s.subrange(1, s.len() as int);
    assert(s[0] != '\n');
    if s.len() == 1 {
        assert(t.len() == 0);
        assert(split_lines(t) =~= Seq::<Seq<char>>::empty());
    } else {
        assert forall|j: int| 0 <= j < t.len() implies t[j] != '\n' by {
            assert(t[j] == s[j + 1]);
        }
        lemma_split_lines_no_nl(t);
        let rest = split_lines(t);
        assert(rest.len() == 1);
        assert(rest[0] == t);
        assert(seq![s[0]].add(t) =~= s);
        assert(rest.subrange(1, 1) =~= Seq::<Seq<char>>::empty());
    }
}

/// No row produced by `split_lines` contains `'\n'`.
proof fn lemma_split_lines_rows_free_of_nl(s: Seq<char>)
    ensures
        forall|i: int, j: int|
            0 <= i < split_lines(s).len() && 0 <= j < split_lines(s)[i].len()
                ==> split_lines(s)[i][j] != '\n',
    decreases s.len(),
{
    if s.len() == 0 {
    } else {
        let t = s.subrange(1, s.len() as int);
        lemma_split_lines_rows_free_of_nl(t);
        let rest = split_lines(t);
        let rows = split_lines(s);
        if s[0] == '\n' {
            assert forall|i: int, j: int|
                0 <= i < rows.len() && 0 <= j < rows[i].len() implies rows[i][j] != '\n' by {
                assert(i >= 1);
                assert(rows[i] == rest[i - 1]);
            }
        } else if rest.len() == 0 {
            assert(t.len() == 0);
            assert(s.len() == 1);
            assert forall|i: int, j: int|
                0 <= i < rows.len() && 0 <= j < rows[i].len() implies rows[i][j] != '\n' by {
                assert(rows[i] == s);
                assert(s[j] == s[0]);
            }
        } else {
            assert forall|i: int, j: int|
                0 <= i < rows.len() && 0 <= j < rows[i].len() implies rows[i][j] != '\n' by {
                if i == 0 {
                    assert(rows[0] == seq![s[0]].add(rest[0]));
                    if j == 0 {
                        assert(rows[0][0] == s[0]);
                    } else {
                        assert(rows[0][j] == rest[0][j - 1]);
                    }
                } else {
                    assert(rows[i] == rest.subrange(1, rest.len() as int)[i - 1]);
                    assert(rows[i] == rest[i]);
                }
            }
        }
    }
}

/// `join_lines` can also be unfolded at the front: the first row, a
/// separator, then the join of the remaining rows.
proof fn lemma_join_lines_cons(ls: Seq<Seq<char>>)
    requires
        ls.len() >= 2,
    ensures
        join_lines(ls) =~= ls[0].add(seq!['\n']).add(join_lines(ls.drop_first())),
    decreases ls.len(),
{
    if ls.len() == 2 {
        assert(ls.drop_last() =~= seq![ls[0]]);
        assert(ls.drop_first() =~= seq![ls[1]]);
        assert(join_lines(seq![ls[0]]) == ls[0]);
        assert(join_lines(seq![ls[1]]) == ls[1]);
        assert(join_lines(ls.drop_last()) == ls[0]);
        assert(join_lines(ls.drop_first()) == ls[1]);
    } else {
        let dl = ls.drop_last();
        lemma_join_lines_cons(dl);
        let df = ls.drop_first();
        assert(dl.drop_first() =~= df.drop_last());
        assert(df.last() == ls.last());
        assert(dl[0] == ls[0]);
        assert(df.len() >= 2);
        assert(join_lines(df) == join_lines(df.drop_last()).add(seq!['\n']).add(df.last()));
        assert(join_lines(ls) == join_lines(dl).add(seq!['\n']).add(ls.last()));
        assert(join_lines(dl) == dl[0].add(seq!['\n']).add(join_lines(dl.drop_first())));
    }
}

/// Joining rows that are free of `'\n'`, the last of them nonempty, then
/// splitting again, recovers the rows exactly.
proof fn lemma_split_of_join(ls: Seq<Seq<char>>)
    requires
        forall|i: int, j: int|
            0 <= i < ls.len() && 0 <= j < ls[i].len() ==> ls[i][j] != '\n',
        ls.len() > 0 ==> ls.last().len() > 0,
    ensures
        split_lines(join_lines(ls)) =~= ls,
    decreases ls.len(),
{
    if ls.len() == 0 {
    } else if ls.len() == 1 {
        lemma_split_lines_no_nl(ls[0]);
        assert(join_lines(ls) == ls[0]);
    } else {
        lemma_join_lines_cons(ls);
        let t = join_lines(ls);
        let k = ls[0].len() as int;
        let rest = join_lines(ls.drop_first());
        assert(t =~= ls[0].add(seq!['\n']).add(rest));
        assert(t[k] == '\n');
        assert(forall|j: int| 0 <= j < k ==> t[j] == ls[0][j]);
        lemma_split_lines_at_nl(t, k);
        assert(t.subrange(0, k) =~= ls[0]);
        assert(t.subrange(k + 1, t.len() as int) =~= rest);
        assert(ls.drop_first().last() == ls.last());
        lemma_split_of_join(ls.drop_first());
        assert(seq![ls[0]].add(ls.drop_first()) =~= ls);
    }
}

/// The rows of `s`, each as its own string.
pub fn lines_of(s: &str) -> (r: Vec<String>)
    ensures
        r@.map_values(|t: String| t@) == split_lines(s@),
{
    let len = s.unicode_len();
    let mut out: Vec<String> = Vec::new();
    let mut start: usize = 0;
    let mut i: usize = 0;
    proof {
        assert(s@.subrange(0, len as int) =~= s@);
        assert(out@.map_values(|t: String| t@) =~= Seq::<Seq<char>>::empty());
    }
    while i < len
        invariant
            len == s@.len(),
            0 <= start <= i <= len,
            forall|j: int| start <= j < i ==> s@[j] != '\n',
            split_lines(s@) =~= out@.map_values(|t: String| t@).add(
                split_lines(s@.subrange(start as int, len as int)),
            ),
        decreases len - i,
    {
        if s.get_char(i) == '\n' {
            let line = s.substring_char(start, i).to_owned();
            proof {
                let tail = s@.subrange(start as int, len as int);
                lemma_split_lines_at_nl(tail, i - start);
                assert(tail.subrange(0, i - start) =~= s@.subrange(start as int, i as int));
                assert(tail.subrange(i - start + 1, tail.len() as int) =~= s@.subrange(
                    i + 1,
                    len as int,
                ));
                assert(out@.push(line).map_values(|t: String| t@) =~= out@.map_values(
                    |t: String| t@,
                ).push(line@));
            }
            out.push(line);
            start = i + 1;
        }
        i += 1;
    }
    if start < len {
        let line = s.substring_char(start, len).to_owned();
        proof {
            lemma_split_lines_no_nl(s@.subrange(start as int, len as int));
            assert(out@.push(line).map_values(|t: String| t@) =~= out@.map_values(
                |t: String| t@,
            ).push(line@));
        }
        out.push(line);
    } else {
        proof {
            assert(s@.subrange(start as int, len as int).len() == 0);
        }
    }
    proof {
        assert(split_lines(s@) =~= out@.map_values(|t: String| t@));
    }
    out
}

/// The rows joined with `'\n'` between them.
pub fn join_of(v: &Vec<String>) -> (r: String)
    ensures
        r@ == join_lines(v@.map_values(|t: String| t@)),
{
    let ghost ls = v@.map_values(|t: String| t@);
    let mut out = String::new();
    let mut i: usize = 0;
    while i < v.len()
        invariant
            ls == v@.map_values(|t: String| t@),
            i <= v@.len(),
            out@ == join_lines(ls.take(i as int)),
        decreases v@.len() - i,
    {
        if i > 0 {
            out.append("\n");
        }
        out.append(v[i].as_str());
        i += 1;
        proof {
            reveal_strlit("\n");
            assert("\n"@ =~= seq!['\n']);
            assert(ls.take(i as int).drop_last() =~= ls.take(i as int - 1));
            assert(ls.take(i as int).last() == ls[i as int - 1]);
            if i == 1 {
                assert(out@ =~= join_lines(ls.take(1)));
            }
        }
    }
    proof {
        assert(ls.take(v@.len() as int) =~= ls);
    }
    out
}

/// One row trimmed from its end to at most `length` characters.
pub fn trim_line_end_exec(line: &str, length: usize) -> (r: String)
    ensures
        r@ == trim_line_end(line@, length as int),
{
    let n = line.unicode_len();
    if n <= length {
        line.to_owned()
    } else {
        line.substring_char(0, length).to_owned()
    }
}

/// One row trimmed from its start to at most `length` characters.
pub fn trim_line_start_exec(line: &str, length: usize) -> (r: String)
    ensures
        r@ == trim_line_start(line@, length as int),
{
    let n = line.unicode_len();
    if n <= length {
        line.to_owned()
    } else {
        line.substring_char(n - length, n).to_owned()
    }
}

/// Every row of `lines` trimmed from its end to at most `length` characters.
/// A row longer than `length` keeps exactly its first `length` characters;
/// a shorter row is kept as it is. Row count and order are unchanged before
/// the rows are rejoined.
pub fn trim_lines_to_length(lines: String, length: usize) -> (r: String)
    ensures
        r@ == trim_all_end(lines@, length as int),
{
    let ls = lines_of(lines.as_str());
    let ghost rows = split_lines(lines@);
    let mut trimmed: Vec<String> = Vec::new();
    let mut i: usize = 0;
    while i < ls.len()
        invariant
            rows == split_lines(lines@),
            ls@.map_values(|t: String| t@) == rows,
            i <= ls@.len(),
            trimmed@.len() == i,
            forall|j: int|
                0 <= j < i ==> #[trigger] trimmed@[j]@ == trim_line_end(
                    rows[j],
                    length as int,
                ),
        decreases ls@.len() - i,
    {
        trimmed.push(trim_line_end_exec(ls[i].as_str(), length));
        i += 1;
    }
    proof {
        assert(trimmed@.map_values(|t: String| t@) =~= rows.map_values(
            |l: Seq<char>| trim_line_end(l, length as int),
        ));
    }
    join_of(&trimmed)
}

/// Every row of `lines` trimmed from its start to at most `length`
/// characters. A row longer than `length` keeps exactly its last `length`
/// characters, in their original order; a shorter row is kept as it is.
pub fn trim_lines_to_length_from_end(lines: String, length: usize) -> (r: String)
    ensures
        r@ == trim_all_start(lines@, length as int),
{
    let ls = lines_of(lines.as_str());
    let ghost rows = split_lines(lines@);
    let mut trimmed: Vec<String> = Vec::new();
    let mut i: usize = 0;
    while i < ls.len()
        invariant
            rows == split_lines(lines@),
            ls@.map_values(|t: String| t@) == rows,
            i <= ls@.len(),
            trimmed@.len() == i,
            forall|j: int|
                0 <= j < i ==> #[trigger] trimmed@[j]@ == trim_line_start(
                    rows[j],
                    length as int,
                ),
        decreases ls@.len() - i,
    {
        trimmed.push(trim_line_start_exec(ls[i].as_str(), length));
        i += 1;
    }
    proof {
        assert(trimmed@.map_values(|t: String| t@) =~= rows.map_values(
            |l: Seq<char>| trim_line_start(l, length as int),
        ));
    }
    join_of(&trimmed)
}

/// Trimming a row longer than `width` keeps exactly `width` characters:
/// the first `width` of them when trimming from the end, the last `width`
/// of them when trimming from the start.
pub proof fn lemma_trim_long_line(l: Seq<char>, width: int)
    requires
        0 <= width < l.len(),
    ensures
        trim_line_end(l, width) =~= l.subrange(0, width),
        trim_line_end(l, width).len() == width,
        trim_line_start(l, width) =~= l.subrange(l.len() - width, l.len() as int),
        trim_line_start(l, width).len() == width,
{
}

/// Trimming a row no longer than `width` changes nothing, from either end.
pub proof fn lemma_trim_short_line_identity(l: Seq<char>, width: int)
    requires
        l.len() <= width,
    ensures
        trim_line_end(l, width) == l,
        trim_line_start(l, width) == l,
{
}

/// Trimming a multi-row string keeps its row count and row order: row `i`
/// of the result is row `i` of the input, trimmed. This asks for a positive
/// width and for a nonempty final row, since trimming that leaves the final
/// row empty would merge it into the terminating separator.
pub proof fn lemma_trim_preserves_line_structure(s: Seq<char>, width: int)
    requires
        width >= 1,
        split_lines(s).len() > 0 ==> split_lines(s).last().len() > 0,
    ensures
        split_lines(trim_all_end(s, width)) =~= split_lines(s).map_values(
            |l: Seq<char>| trim_line_end(l, width),
        ),
        split_lines(trim_all_start(s, width)) =~= split_lines(s).map_values(
            |l: Seq<char>| trim_line_start(l, width),
        ),
{
    let rows = split_lines(s);
    let me = rows.map_values(|l: Seq<char>| trim_line_end(l, width));
    let ms = rows.map_values(|l: Seq<char>| trim_line_start(l, width));
    lemma_split_lines_rows_free_of_nl(s);
    if rows.len() > 0 {
        assert(me.last() == trim_line_end(rows.last(), width));
        assert(ms.last() == trim_line_start(rows.last(), width));
    }
    lemma_split_of_join(me);
    lemma_split_of_join(ms);
}

} // verus!
