//! Line splitting (`str::lines`) and joining (`[S]::join`).
use vstd::prelude::*;
use crate::text::slice_vec;

verus! {

/// Position of the first `c` in `s`, or `s.len()` when there is none.
pub open spec fn find_char(s: Seq<char>, c: char) -> int
    decreases s.len(),
{
    if s.len() == 0 {
        0
    } else if s[0] == c {
        0
    } else {
        1 + find_char(s.drop_first(), c)
    }
}

/// One line with a final carriage return removed.
pub open spec fn strip_cr(s: Seq<char>) -> Seq<char> {
    if s.len() > 0 && s.last() == '\r' {
        s.drop_last()
    } else {
        s
    }
}

/// The lines of `s` as `str::lines` yields them: split at `\n`, a `\r`
/// before each `\n` removed, no empty line after a final `\n`.
pub open spec fn lines_seq(s: Seq<char>) -> Seq<Seq<char>>
    decreases s.len(),
{
    if s.len() == 0 {
        seq![]
    } else {
        let i = find_char(s, '\n');
        if i >= s.len() {
            seq![s]
        } else {
            proof {
                lemma_find_char_bounds(s, '\n');
            }
            seq![strip_cr(s.take(i))] + lines_seq(s.skip(i + 1))
        }
    }
}

/// Joins `parts` with `sep` between consecutive elements.
pub open spec fn join_seq(parts: Seq<Seq<char>>, sep: Seq<char>) -> Seq<char>
    decreases parts.len(),
{
    if parts.len() == 0 {
        seq![]
    } else if parts.len() == 1 {
        parts[0]
    } else {
        join_seq(parts.drop_last(), sep) + sep + parts.last()
    }
}

pub proof fn lemma_find_char_bounds(s: Seq<char>, c: char)
    ensures
        0 <= find_char(s, c) <= s.len(),
        find_char(s, c) < s.len() ==> s[find_char(s, c)] == c,
        forall|k: int| 0 <= k < find_char(s, c) ==> s[k] != c,
    decreases s.len(),
{
    if s.len() > 0 && s[0] != c {
        lemma_find_char_bounds(s.drop_first(), c);
        assert forall|k: int| 0 <= k < find_char(s, c) implies s[k] != c by {
            if k > 0 {
                assert(s[k] == s.drop_first()[k - 1]);
            }
        }
    }
}

pub proof fn lemma_find_char_unique(s: Seq<char>, c: char, i: int)
    requires
        0 <= i <= s.len(),
        i < s.len() ==> s[i] == c,
        forall|k: int| 0 <= k < i ==> s[k] != c,
    ensures
        find_char(s, c) == i,
    decreases s.len(),
{
    if s.len() > 0 && i > 0 {
        assert(s[0] != c);
        assert forall|k: int| 0 <= k < i - 1 implies s.drop_first()[k] != c by {
            assert(s.drop_first()[k] == s[k + 1]);
        }
        lemma_find_char_unique(s.drop_first(), c, i - 1);
    }
}

/// Position of the first `c` in `v` at or after `from`, or `v.len()`.
pub fn find_char_from(v: &[char], c: char, from: usize) -> (i: usize)
    requires
        from <= v.len(),
    ensures
        from <= i <= v.len(),
        i < v.len() ==> v@[i as int] == c,
        forall|k: int| from <= k < i ==> v@[k] != c,
        i as int - from == find_char(v@.skip(from as int), c),
{
    let mut i = from;
    while i < v.len() && v[i] != c
        invariant
            from <= i <= v.len(),
            forall|k: int| from <= k < i ==> v@[k] != c,
        decreases v.len() - i,
    {
        i += 1;
    }
    proof {
        let t = v@.skip(from as int);
        assert forall|k: int| 0 <= k < i - from implies t[k] != c by {
            assert(t[k] == v@[k + from]);
        }
        lemma_find_char_unique(t, c, i - from);
    }
    i
}

/// The nested view of a vector of character vectors.
pub open spec fn vv(v: Seq<Vec<char>>) -> Seq<Seq<char>> {
    v.map_values(|x: Vec<char>| x@)
}

/// The lines of `v`, as `str::lines` splits them.
pub fn split_lines(v: &[char]) -> (out: Vec<Vec<char>>)
    ensures
        vv(out@) == lines_seq(v@),
{
    let mut out: Vec<Vec<char>> = Vec::new();
    let mut pos: usize = 0;
    assert(v@.skip(0) =~= v@);
    assert(vv(out@) + lines_seq(v@) =~= lines_seq(v@));
    while pos < v.len()
        invariant
            pos <= v.len(),
            lines_seq(v@) == vv(out@) + lines_seq(v@.skip(pos as int)),
        decreases v.len() - pos,
    {
        let i = find_char_from(v, '\n', pos);
        let ghost rest = v@.skip(pos as int);
        let ghost before = vv(out@);
        if i >= v.len() {
            let line = slice_vec(v, pos, v.len());
            assert(line@ =~= rest);
            assert(lines_seq(rest) == seq![rest]);
            out.push(line);
            assert(vv(out@) =~= before + seq![rest]);
            pos = v.len();
            assert(v@.skip(pos as int) =~= Seq::<char>::empty());
            assert(lines_seq(v@.skip(pos as int)) == Seq::<Seq<char>>::empty());
            assert(vv(out@) + Seq::<Seq<char>>::empty() =~= vv(out@));
        } else {
            let mut line = slice_vec(v, pos, i);
            let ghost raw = line@;
            if line.len() > 0 && line[line.len() - 1] == '\r' {
                line.pop();
                assert(line@ =~= raw.drop_last());
            }
            proof {
                assert(rest.take(i - pos) =~= v@.subrange(pos as int, i as int));
                assert(rest.skip(i - pos + 1) =~= v@.skip(i + 1));
                assert(line@ == strip_cr(rest.take(i - pos)));
                assert(lines_seq(rest) == seq![strip_cr(rest.take(i - pos))] + lines_seq(
                    v@.skip(i + 1),
                ));
            }
            out.push(line);
            assert(vv(out@) =~= before + seq![line@]);
            pos = i + 1;
        }
    }
    out
}

} // verus!

verus! {

/// Joins the parts with `sep` between consecutive elements.
pub fn join_vecs(parts: &[Vec<char>], sep: &[char]) -> (out: Vec<char>)
    ensures
        out@ == join_seq(vv(parts@), sep@),
{
    let mut out: Vec<char> = Vec::new();
    let mut i: usize = 0;
    while i < parts.len()
        invariant
            i <= parts.len(),
            out@ == join_seq(vv(parts@.take(i as int)), sep@),
        decreases parts.len() - i,
    {
        proof {
            let pre = vv(parts@.take(i as int));
            let nxt = vv(parts@.take(i + 1));
            assert(nxt.drop_last() =~= pre);
            assert(nxt.last() == parts@[i as int]@);
        }
        if i > 0 {
            crate::text::append_chars(&mut out, sep);
        } else {
            assert(vv(parts@.take(0)).len() == 0);
        }
        crate::text::append_chars(&mut out, &parts[i]);
        i += 1;
    }
    assert(parts@.take(parts.len() as int) =~= parts@);
    out
}

} // verus!
