//! The mathematical model of text as lines: splitting on `'\n'` and joining back.
use vstd::prelude::*;

verus! {

/// The pieces of `s` between line feeds; there is always at least one, and a
/// trailing line feed leaves an empty last piece.
pub open spec fn split_lines(s: Seq<char>) -> Seq<Seq<char>>
    decreases s.len(),
{
    if s.len() == 0 {
        seq![Seq::<char>::empty()]
    } else {
        let r = split_lines(s.drop_last());
        if s.last() == '\n' {
            r.push(Seq::<char>::empty())
        } else {
            r.update(r.len() - 1, r.last().push(s.last()))
        }
    }
}

/// The lines written one after another with a line feed between each two.
pub open spec fn join_lines(ls: Seq<Seq<char>>) -> Seq<char>
    decreases ls.len(),
{
    if ls.len() == 0 {
        Seq::<char>::empty()
    } else if ls.len() == 1 {
        ls[0]
    } else {
        join_lines(ls.drop_last()) + seq!['\n'] + ls.last()
    }
}

pub open spec fn no_newline(s: Seq<char>) -> bool {
    forall|i: int| 0 <= i < s.len() ==> s[i] != '\n'
}

/// A valid list of lines: never empty, no line holds a line feed, and every
/// count fits in a `usize`.
pub open spec fn lines_wf(ls: Seq<Seq<char>>) -> bool {
    &&& 1 <= ls.len() <= usize::MAX
    &&& forall|i: int| 0 <= i < ls.len() ==> #[trigger] no_newline(ls[i])
    &&& forall|i: int| 0 <= i < ls.len() ==> #[trigger] ls[i].len() <= usize::MAX
}

pub proof fn lemma_split_basics(s: Seq<char>)
    ensures
        split_lines(s).len() >= 1,
        split_lines(s).len() <= s.len() + 1,
        forall|i: int| 0 <= i < split_lines(s).len() ==> #[trigger] no_newline(split_lines(s)[i]),
        forall|i: int| 0 <= i < split_lines(s).len() ==> #[trigger] split_lines(s)[i].len() <= s.len(),
    decreases s.len(),
{
    if s.len() > 0 {
        lemma_split_basics(s.drop_last());
        let r = split_lines(s.drop_last());
        let t = split_lines(s);
        if s.last() != '\n' {
            assert forall|i: int| 0 <= i < t.len() implies #[trigger] no_newline(t[i]) by {
                if i == r.len() - 1 {
                    assert(t[i] == r.last().push(s.last()));
                    assert(no_newline(r[r.len() - 1]));
                    assert forall|j: int| 0 <= j < t[i].len() implies t[i][j] != '\n' by {
                        if j < r.last().len() {
                            assert(t[i][j] == r.last()[j]);
                        } else {
                            assert(t[i][j] == s.last());
                        }
                    }
                } else {
                    assert(t[i] == r[i]);
                }
            }
        }
    }
}

/// The lines of text with no line feed: the text itself.
pub proof fn lemma_split_single(s: Seq<char>)
    requires
        no_newline(s),
    ensures
        split_lines(s) == seq![s],
    decreases s.len(),
{
    if s.len() == 0 {
        assert(s =~= Seq::<char>::empty());
    } else {
        assert(s.last() == s[s.len() - 1]);
        assert(s.last() != '\n');
        assert(no_newline(s.drop_last()));
        lemma_split_single(s.drop_last());
        assert(s.drop_last().push(s.last()) =~= s);
        assert(split_lines(s) =~= seq![s]);
    }
}

/// Joining where only the last line grew appends the growth to the text.
pub proof fn lemma_join_extend_last(ls: Seq<Seq<char>>, y: Seq<char>)
    requires
        ls.len() >= 1,
    ensures
        join_lines(ls.update(ls.len() - 1, ls.last() + y)) == join_lines(ls) + y,
{
    let u = ls.update(ls.len() - 1, ls.last() + y);
    if ls.len() == 1 {
        assert(u[0] == ls[0] + y);
    } else {
        assert(u.drop_last() =~= ls.drop_last());
        assert(u.last() == ls.last() + y);
        assert(join_lines(u) =~= join_lines(ls) + y);
    }
}

/// Joining where only the first line grew at its front prepends the growth.
pub proof fn lemma_join_extend_first(ls: Seq<Seq<char>>, x: Seq<char>)
    requires
        ls.len() >= 1,
    ensures
        join_lines(ls.update(0, x + ls[0])) == x + join_lines(ls),
    decreases ls.len(),
{
    let u = ls.update(0, x + ls[0]);
    if ls.len() == 1 {
        assert(u[0] == x + ls[0]);
    } else {
        lemma_join_extend_first(ls.drop_last(), x);
        assert(u.drop_last() =~= ls.drop_last().update(0, x + ls[0]));
        assert(u.last() == ls.last());
        assert(join_lines(u) =~= x + join_lines(ls));
    }
}

/// Joining lines and splitting the text again recovers the text.
pub proof fn lemma_join_split(s: Seq<char>)
    ensures
        join_lines(split_lines(s)) == s,
    decreases s.len(),
{
    if s.len() > 0 {
        lemma_join_split(s.drop_last());
        lemma_split_basics(s.drop_last());
        let r = split_lines(s.drop_last());
        if s.last() == '\n' {
            let t = r.push(Seq::<char>::empty());
            assert(t.drop_last() =~= r);
            assert(join_lines(t) =~= s.drop_last() + seq!['\n']);
            assert(s =~= s.drop_last() + seq!['\n']);
        } else {
            lemma_join_extend_last(r, seq![s.last()]);
            assert(r.last().push(s.last()) =~= r.last() + seq![s.last()]);
            assert(s =~= s.drop_last() + seq![s.last()]);
        }
    }
}

/// Splitting a concatenation: the last line of the left text and the first line of
/// the right text become one line.
pub proof fn lemma_split_concat(x: Seq<char>, y: Seq<char>)
    ensures
        split_lines(x + y) == split_lines(x).drop_last() + seq![
            split_lines(x).last() + split_lines(y)[0],
        ] + split_lines(y).drop_first(),
    decreases y.len(),
{
    lemma_split_basics(x);
    let sx = split_lines(x);
    if y.len() == 0 {
        assert(x + y =~= x);
        assert(split_lines(y) =~= seq![Seq::<char>::empty()]);
        assert(sx.last() + Seq::<char>::empty() =~= sx.last());
        assert(sx.drop_last() + seq![sx.last()] =~= sx);
        assert(split_lines(y).drop_first() =~= Seq::<Seq<char>>::empty());
    } else {
        let y2 = y.drop_last();
        let c = y.last();
        lemma_split_concat(x, y2);
        lemma_split_basics(y2);
        assert((x + y).drop_last() =~= x + y2);
        assert((x + y).last() == c);
        let sy2 = split_lines(y2);
        let a2 = sx.drop_last() + seq![sx.last() + sy2[0]] + sy2.drop_first();
        let sy = split_lines(y);
        if c == '\n' {
            assert(sy =~= sy2.push(Seq::<char>::empty()));
            assert(sy[0] == sy2[0]);
            assert(sy.drop_first() =~= sy2.drop_first().push(Seq::<char>::empty()));
            assert(split_lines(x + y) =~= a2.push(Seq::<char>::empty()));
        } else {
            assert(sy =~= sy2.update(sy2.len() - 1, sy2.last().push(c)));
            assert(split_lines(x + y) =~= a2.update(a2.len() - 1, a2.last().push(c)));
            if sy2.len() == 1 {
                assert(sy[0] == sy2[0].push(c));
                assert((sx.last() + sy2[0]).push(c) =~= sx.last() + sy2[0].push(c));
                assert(sy.drop_first() =~= Seq::<Seq<char>>::empty());
                assert(split_lines(x + y) =~= sx.drop_last() + seq![sx.last() + sy[0]]
                    + sy.drop_first());
            } else {
                assert(sy[0] == sy2[0]);
                assert(sy.drop_first() =~= sy2.drop_first().update(
                    sy2.len() - 2,
                    sy2.last().push(c),
                ));
                assert(split_lines(x + y) =~= sx.drop_last() + seq![sx.last() + sy[0]]
                    + sy.drop_first());
            }
        }
    }
}

/// Splitting the join of valid lines gives back the lines.
pub proof fn lemma_split_join(ls: Seq<Seq<char>>)
    requires
        ls.len() >= 1,
        forall|i: int| 0 <= i < ls.len() ==> #[trigger] no_newline(ls[i]),
    ensures
        split_lines(join_lines(ls)) == ls,
    decreases ls.len(),
{
    if ls.len() == 1 {
        lemma_split_single(ls[0]);
        assert(split_lines(join_lines(ls)) =~= ls);
    } else {
        let init = ls.drop_last();
        assert forall|i: int| 0 <= i < init.len() implies #[trigger] no_newline(init[i]) by {
            assert(init[i] == ls[i]);
        }
        lemma_split_join(init);
        let x = join_lines(init) + seq!['\n'];
        let y = ls.last();
        assert(no_newline(ls[ls.len() - 1]));
        lemma_split_single(y);
        lemma_split_concat(x, y);
        assert(x.drop_last() =~= join_lines(init));
        assert(x.last() == '\n');
        assert(split_lines(x) =~= init.push(Seq::<char>::empty()));
        assert(join_lines(ls) == x + y);
        assert(Seq::<char>::empty() + y =~= y);
        assert(split_lines(join_lines(ls)) =~= ls);
    }
}

/// The lines of `a + t + b` when neither `a` nor `b` holds a line feed: the lines of
/// `t`, with `a` in front of the first and `b` after the last.
pub proof fn lemma_split_framed(a: Seq<char>, t: Seq<char>, b: Seq<char>)
    requires
        no_newline(a),
        no_newline(b),
    ensures
        ({
            let p = split_lines(t);
            let m = split_lines(a + t + b);
            &&& m.len() == p.len()
            &&& p.len() == 1 ==> m[0] == a + p[0] + b
            &&& p.len() > 1 ==> m[0] == a + p[0] && m[m.len() - 1] == p.last() + b
            &&& forall|i: int| 0 < i < p.len() - 1 ==> #[trigger] m[i] == p[i]
        }),
{
    lemma_split_single(a);
    lemma_split_single(b);
    lemma_split_basics(t);
    lemma_split_concat(a, t);
    lemma_split_concat(a + t, b);
    let p = split_lines(t);
    let at = split_lines(a + t);
    assert(at =~= seq![a + p[0]] + p.drop_first());
    let m = split_lines(a + t + b);
    assert(m =~= at.drop_last() + seq![at.last() + b]);
    if p.len() == 1 {
        assert(at =~= seq![a + p[0]]);
        assert(m[0] == a + p[0] + b);
    } else {
        assert forall|i: int| 0 < i < p.len() - 1 implies #[trigger] m[i] == p[i] by {
            assert(m[i] == at[i]);
        }
        assert(m[m.len() - 1] == at.last() + b);
        assert(at.last() == p.last());
    }
}

/// Joining two non-empty lists of lines: the two joins with a line feed between.
pub proof fn lemma_join_concat(a: Seq<Seq<char>>, b: Seq<Seq<char>>)
    requires
        a.len() >= 1,
        b.len() >= 1,
    ensures
        join_lines(a + b) == join_lines(a) + seq!['\n'] + join_lines(b),
    decreases b.len(),
{
    if b.len() == 1 {
        assert((a + b).drop_last() =~= a);
        assert((a + b).last() == b[0]);
    } else {
        lemma_join_concat(a, b.drop_last());
        assert((a + b).drop_last() =~= a + b.drop_last());
        assert((a + b).last() == b.last());
        assert(join_lines(a + b) =~= join_lines(a) + seq!['\n'] + join_lines(b));
    }
}

} // verus!
