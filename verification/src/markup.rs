//! Reasoning about where a run of three characters can occur in a text
//! built from pieces: the runs that open the tags and fields of the admin
//! pages. A piece that lacks the run's first character holds none, and a
//! run cannot span two pieces when the first one does not end in its
//! beginning; so the runs of the whole text are those of its pieces. On
//! that ground, what a form field of a page is prefilled with.

use vstd::prelude::*;

verus! {

/// Whether `s` holds the characters of `t`, in a row, from index `i` on.
pub open spec fn triple_at(s: Seq<char>, i: int, t: (char, char, char)) -> bool {
    0 <= i && i + 3 <= s.len() && s[i] == t.0 && s[i + 1] == t.1 && s[i + 2] == t.2
}

/// Whether `s` ends in no beginning of `t`: neither in its first character
/// nor in its first two.
pub open spec fn clean_end(s: Seq<char>, t: (char, char, char)) -> bool {
    &&& s.len() >= 1 ==> s[s.len() - 1] != t.0
    &&& s.len() >= 2 ==> !(s[s.len() - 2] == t.0 && s[s.len() - 1] == t.1)
}

/// Whether `c` occurs nowhere in `s`.
pub open spec fn lacks(s: Seq<char>, c: char) -> bool {
    forall|i: int| 0 <= i < s.len() ==> #[trigger] s[i] != c
}

/// The pieces, one after another.
pub open spec fn concat_all(ps: Seq<Seq<char>>) -> Seq<char>
    decreases ps.len(),
{
    if ps.len() == 0 {
        Seq::empty()
    } else {
        concat_all(ps.drop_last()) + ps.last()
    }
}

/// Where piece `i` starts in the pieces put one after another.
pub open spec fn piece_start(ps: Seq<Seq<char>>, i: int) -> int {
    concat_all(ps.subrange(0, i)).len() as int
}

/// A text without the first character of `t` holds no `t` and ends clean.
pub proof fn lemma_lacking_is_clean(s: Seq<char>, t: (char, char, char))
    requires
        lacks(s, t.0),
    ensures
        clean_end(s, t),
        forall|k: int| !#[trigger] triple_at(s, k, t),
{
    if s.len() >= 1 {
        assert(s[s.len() - 1] != t.0);
    }
    if s.len() >= 2 {
        assert(s[s.len() - 2] != t.0);
    }
    assert forall|k: int| !#[trigger] triple_at(s, k, t) by {
        if 0 <= k < s.len() {
            assert(s[k] != t.0);
        }
    }
}

proof fn lemma_clean_concat(a: Seq<char>, b: Seq<char>, t: (char, char, char))
    requires
        clean_end(a, t),
        clean_end(b, t),
    ensures
        clean_end(a + b, t),
{
    let s = a + b;
    if b.len() >= 2 {
        assert(s[s.len() - 1] == b[b.len() - 1]);
        assert(s[s.len() - 2] == b[b.len() - 2]);
    } else if b.len() == 1 {
        assert(s[s.len() - 1] == b[0]);
        if a.len() >= 1 {
            assert(s[s.len() - 2] == a[a.len() - 1]);
        }
    }
}

proof fn lemma_split_triple(a: Seq<char>, b: Seq<char>, t: (char, char, char), k: int)
    requires
        clean_end(a, t),
        triple_at(a + b, k, t),
    ensures
        triple_at(a, k, t) || triple_at(b, k - a.len(), t),
{
    let s = a + b;
    if k + 3 <= a.len() {
        assert(s[k] == a[k] && s[k + 1] == a[k + 1] && s[k + 2] == a[k + 2]);
    } else if k >= a.len() {
        assert(s[k] == b[k - a.len()] && s[k + 1] == b[k + 1 - a.len()] && s[k + 2] == b[k + 2
            - a.len()]);
    } else if k == a.len() - 1 {
        assert(s[k] == a[a.len() - 1]);
    } else {
        assert(k == a.len() - 2);
        assert(s[k] == a[a.len() - 2] && s[k + 1] == a[a.len() - 1]);
    }
}

/// The pieces put one after another end clean when each piece does, and
/// then every run `t` in them lies within one piece.
pub proof fn lemma_triples_lie_in_pieces(ps: Seq<Seq<char>>, t: (char, char, char), k: int)
    requires
        forall|i: int| 0 <= i < ps.len() ==> clean_end(#[trigger] ps[i], t),
    ensures
        clean_end(concat_all(ps), t),
        triple_at(concat_all(ps), k, t) ==> exists|i: int|
            0 <= i < ps.len() && #[trigger] triple_at(ps[i], k - piece_start(ps, i), t),
    decreases ps.len(),
{
    if ps.len() > 0 {
        let q = ps.drop_last();
        let last = ps.len() - 1;
        assert forall|i: int| 0 <= i < q.len() implies clean_end(#[trigger] q[i], t) by {
            assert(q[i] == ps[i]);
        }
        lemma_triples_lie_in_pieces(q, t, k);
        assert(clean_end(ps[last], t));
        lemma_clean_concat(concat_all(q), ps.last(), t);
        if triple_at(concat_all(ps), k, t) {
            lemma_split_triple(concat_all(q), ps.last(), t, k);
            if triple_at(concat_all(q), k, t) {
                let i = choose|i: int|
                    0 <= i < q.len() && #[trigger] triple_at(q[i], k - piece_start(q, i), t);
                assert(q.subrange(0, i) =~= ps.subrange(0, i));
                assert(q[i] == ps[i]);
                assert(triple_at(ps[i], k - piece_start(ps, i), t));
            } else {
                assert(ps.subrange(0, last) =~= q);
                assert(triple_at(ps[last], k - piece_start(ps, last), t));
            }
        }
    }
}

pub proof fn lemma_concat_all_append(a: Seq<Seq<char>>, b: Seq<Seq<char>>)
    ensures
        concat_all(a + b) == concat_all(a) + concat_all(b),
    decreases b.len(),
{
    if b.len() == 0 {
        assert(a + b =~= a);
        assert(concat_all(a) + concat_all(b) =~= concat_all(a));
    } else {
        lemma_concat_all_append(a, b.drop_last());
        assert((a + b).drop_last() =~= a + b.drop_last());
        assert((a + b).last() == b.last());
        assert(concat_all(a) + concat_all(b) =~= concat_all(a) + concat_all(b.drop_last())
            + b.last());
    }
}

/// Piece `i` stands in the pieces put one after another from
/// `piece_start(ps, i)` on, and the next piece starts right after it.
pub proof fn lemma_piece_in_place(ps: Seq<Seq<char>>, i: int)
    requires
        0 <= i < ps.len(),
    ensures
        0 <= piece_start(ps, i),
        piece_start(ps, i + 1) == piece_start(ps, i) + ps[i].len(),
        piece_start(ps, i) + ps[i].len() <= concat_all(ps).len(),
        concat_all(ps).subrange(piece_start(ps, i), piece_start(ps, i) + ps[i].len()) == ps[i],
        forall|j: int|
            0 <= j < ps[i].len() ==> #[trigger] concat_all(ps)[piece_start(ps, i) + j] == ps[i][j],
{
    let a = ps.subrange(0, i);
    let c = ps.subrange(i + 1, ps.len() as int);
    assert(ps.subrange(0, i + 1).drop_last() =~= a);
    assert(ps.subrange(0, i + 1).last() == ps[i]);
    assert(ps =~= ps.subrange(0, i + 1) + c);
    lemma_concat_all_append(ps.subrange(0, i + 1), c);
    let whole = concat_all(a) + ps[i] + concat_all(c);
    assert(concat_all(ps) == whole);
    let st = concat_all(a).len() as int;
    assert(whole.subrange(st, st + ps[i].len()) =~= ps[i]);
    assert forall|j: int| 0 <= j < ps[i].len() implies #[trigger] concat_all(ps)[st + j]
        == ps[i][j] by {
        assert(whole[st + j] == ps[i][j]);
    }
}


/// Whether `p` occurs in `s` from index `k` on.
pub open spec fn occurs_at(s: Seq<char>, p: Seq<char>, k: int) -> bool {
    0 <= k && k + p.len() <= s.len() && s.subrange(k, k + p.len()) == p
}

/// The opening of a form field named `name`, up to where its value starts.
pub open spec fn input_opening(name: Seq<char>) -> Seq<char> {
    "<input name=\""@ + name + "\" value=\""@
}

/// Whether the first field named `name` in `page` is prefilled with `v`, as
/// a browser reads the page: `v` is what follows the first opening of such
/// a field, up to the `"` that closes the value.
pub open spec fn prefilled_with(page: Seq<char>, name: Seq<char>, v: Seq<char>) -> bool {
    exists|k: int|
        {
            &&& #[trigger] occurs_at(page, input_opening(name), k)
            &&& forall|j: int| 0 <= j < k ==> !occurs_at(page, input_opening(name), j)
            &&& lacks(v, '"')
            &&& occurs_at(page, v.push('"'), k + input_opening(name).len())
        }
}

/// A page made of pieces, in which every `<in` opens a field and only
/// piece `f` opens the field named `name` (any other `<in` names a field
/// whose name starts otherwise), prefills that field with piece `f + 1`
/// when that piece holds no `"` and piece `f + 2` starts with one; and
/// with nothing else.
pub proof fn lemma_prefilled_field(ps: Seq<Seq<char>>, name: Seq<char>, f: int, at: int, w: Seq<char>)
    requires
        0 <= f && f + 2 < ps.len(),
        name.len() > 0,
        forall|i: int| 0 <= i < ps.len() ==> clean_end(#[trigger] ps[i], ('<', 'i', 'n')),
        forall|i: int, j: int|
            0 <= i < ps.len() && #[trigger] triple_at(ps[i], j, ('<', 'i', 'n')) ==> (i == f && j
                == at) || (j + 13 < ps[i].len() && ps[i][j + 13] != name[0]),
        0 <= at,
        ps[f].len() == at + input_opening(name).len(),
        ps[f].subrange(at, ps[f].len() as int) == input_opening(name),
        lacks(ps[f + 1], '"'),
        ps[f + 2].len() > 0,
        ps[f + 2][0] == '"',
    ensures
        prefilled_with(concat_all(ps), name, w) <==> w == ps[f + 1],
{
    reveal_strlit("<input name=\"");
    reveal_strlit("\" value=\"");
    broadcast use vstd::string::group_string_axioms;
    let t = ('<', 'i', 'n');
    let page = concat_all(ps);
    let op = input_opening(name);
    let v = ps[f + 1];
    assert(op.len() == 22 + name.len());
    assert(op[0] == '<' && op[1] == 'i' && op[2] == 'n' && op[13] == name[0]);
    lemma_piece_in_place(ps, f);
    lemma_piece_in_place(ps, f + 1);
    lemma_piece_in_place(ps, f + 2);
    let start = piece_start(ps, f);
    let K = start + at;
    let P = piece_start(ps, f + 1);
    assert(P == K + op.len());
    assert(page.subrange(K, K + op.len()) =~= op) by {
        assert forall|x: int| 0 <= x < op.len() implies page.subrange(K, K + op.len())[x]
            == op[x] by {
            assert(page[start + (at + x)] == ps[f][at + x]);
            assert(ps[f].subrange(at, ps[f].len() as int)[x] == ps[f][at + x]);
        }
    }
    assert(occurs_at(page, op, K));
    // Every occurrence of the opening is the one at `K`.
    assert forall|j: int| occurs_at(page, op, j) implies j == K by {
        let found = page.subrange(j, j + op.len());
        assert(found[0] == page[j] && found[1] == page[j + 1] && found[2] == page[j + 2]);
        assert(found[13] == page[j + 13]);
        assert(triple_at(page, j, t));
        lemma_triples_lie_in_pieces(ps, t, j);
        let i = choose|i: int| 0 <= i < ps.len() && #[trigger] triple_at(ps[i], j - piece_start(ps, i), t);
        lemma_piece_in_place(ps, i);
        let jj = j - piece_start(ps, i);
        if !(i == f && jj == at) {
            assert(page[piece_start(ps, i) + (jj + 13)] == ps[i][jj + 13]);
            assert(false);
        }
    }
    // What follows the opening: the value piece, then a `"`.
    assert(page.subrange(P, P + v.len() + 1) =~= v.push('"')) by {
        assert forall|x: int| 0 <= x < v.len() + 1 implies page.subrange(P, P + v.len() + 1)[x]
            == v.push('"')[x] by {
            if x < v.len() {
                assert(page[P + x] == v[x]);
            } else {
                assert(page[piece_start(ps, f + 2) + 0] == ps[f + 2][0]);
            }
        }
    }
    assert(occurs_at(page, v.push('"'), K + op.len()));
    if w == v {
        assert(prefilled_with(page, name, w));
    }
    if prefilled_with(page, name, w) {
        let k = choose|k: int|
            {
                &&& #[trigger] occurs_at(page, input_opening(name), k)
                &&& forall|j: int| 0 <= j < k ==> !occurs_at(page, input_opening(name), j)
                &&& lacks(w, '"')
                &&& occurs_at(page, w.push('"'), k + input_opening(name).len())
            };
        assert(k == K);
        let read = page.subrange(P, P + w.len() + 1);
        assert(read == w.push('"'));
        if w.len() < v.len() {
            assert(read[w.len() as int] == page[P + w.len()]);
            assert(page[P + w.len()] == v[w.len() as int]);
            assert(false);
        } else if w.len() > v.len() {
            assert(read[v.len() as int] == page[P + v.len()]);
            assert(page[piece_start(ps, f + 2) + 0] == ps[f + 2][0]);
            assert(w[v.len() as int] == read[v.len() as int]);
            assert(false);
        }
        assert forall|x: int| 0 <= x < w.len() implies w[x] == v[x] by {
            assert(read[x] == page[P + x]);
            assert(page[P + x] == v[x]);
        }
        assert(w =~= v);
    }
}


/// Two runs of a text that meet make one run.
pub proof fn lemma_runs_meet(s: Seq<char>, a: int, b: int, c: int, x: Seq<char>, y: Seq<char>)
    requires
        0 <= a <= b <= c <= s.len(),
        s.subrange(a, b) == x,
        s.subrange(b, c) == y,
    ensures
        s.subrange(a, c) == x + y,
{
    assert forall|i: int| 0 <= i < c - a implies #[trigger] s.subrange(a, c)[i] == (x + y)[i] by {
        if i < b - a {
            assert(s.subrange(a, b)[i] == s[a + i]);
        } else {
            assert(s.subrange(b, c)[i - (b - a)] == s[a + i]);
        }
    }
    assert(s.subrange(a, c) =~= x + y);
}

} // verus!
