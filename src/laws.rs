use vstd::prelude::*;
use crate::whitespace::white_space;
use crate::words::{lemma_spaced_push, lemma_words_plain, normalized, plain_words, spaced, words};

verus! {

/// Spacing plain words gives text that starts and ends with a word character
/// and never holds two whitespace characters side by side.
proof fn lemma_spaced_shape(ws: Seq<Seq<char>>)
    requires
        plain_words(ws),
    ensures
        spaced(ws).len() == 0 <==> ws.len() == 0,
        spaced(ws).len() > 0 ==> !white_space(spaced(ws)[0]) && !white_space(spaced(ws).last()),
        forall|i: int|
            0 <= i < spaced(ws).len() - 1 ==> !(white_space(#[trigger] spaced(ws)[i])
                && white_space(spaced(ws)[i + 1])),
    decreases ws.len(),
{
    if ws.len() == 1 {
        assert(ws[0][0] == spaced(ws)[0]);
        assert forall|i: int|
            0 <= i < spaced(ws).len() - 1 implies !(white_space(#[trigger] spaced(ws)[i])
                && white_space(spaced(ws)[i + 1])) by {
            assert(ws[0][i] == spaced(ws)[i]);
        }
    } else if ws.len() > 1 {
        let v = ws.drop_last();
        let t = ws.last();
        let r = spaced(ws);
        let a = spaced(v);
        assert(plain_words(v)) by {
            assert forall|k: int| 0 <= k < v.len() implies (#[trigger] v[k]).len() > 0 by {
                assert(v[k] == ws[k]);
            }
            assert forall|k: int, j: int|
                0 <= k < v.len() && 0 <= j < v[k].len() implies !white_space(
                    #[trigger] v[k][j],
                ) by {
                assert(v[k] == ws[k]);
            }
        }
        lemma_spaced_shape(v);
        assert(ws[ws.len() - 1] == t);
        assert(t.len() > 0);
        assert(r == a + seq![' '] + t);
        assert(r[0] == a[0]);
        assert(r.last() == t[t.len() - 1]);
        assert(!white_space(t[t.len() - 1]));
        assert forall|i: int|
            0 <= i < r.len() - 1 implies !(white_space(#[trigger] r[i]) && white_space(
                r[i + 1],
            )) by {
            if i < a.len() - 1 {
                assert(r[i] == a[i] && r[i + 1] == a[i + 1]);
            } else if i == a.len() - 1 {
                assert(r[i] == a.last());
            } else {
                assert(r[i + 1] == t[i + 1 - a.len() - 1]);
                assert(!white_space(t[i + 1 - a.len() - 1]));
            }
        }
    }
}

/// Appending a word after whitespace (or at the start) appends it to the words.
proof fn lemma_words_extend(x: Seq<char>, t: Seq<char>)
    requires
        t.len() > 0,
        x.len() == 0 || white_space(x.last()),
        forall|k: int| 0 <= k < t.len() ==> !white_space(#[trigger] t[k]),
    ensures
        words(x + t) == words(x).push(t),
    decreases t.len(),
{
    let s = x + t;
    let n = s.len() - 1;
    if t.len() == 1 {
        assert(s.drop_last() =~= x);
        assert(s[n] == t[0]);
        if n > 0 {
            assert(s[n - 1] == x.last());
        }
        assert(seq![t[0]] =~= t);
    } else {
        let u = t.drop_last();
        assert(s.drop_last() =~= x + u);
        assert forall|k: int| 0 <= k < u.len() implies !white_space(#[trigger] u[k]) by {
            assert(u[k] == t[k]);
        }
        lemma_words_extend(x, u);
        assert(s[n] == t[t.len() - 1]);
        assert(s[n - 1] == t[t.len() - 2]);
        assert(u.push(t.last()) =~= t);
        assert(words(x).push(u).update(words(x).len() as int, u.push(t.last())) =~= words(
            x,
        ).push(t));
    }
}

/// Splitting spaced plain words into words gives them back.
proof fn lemma_words_of_spaced(ws: Seq<Seq<char>>)
    requires
        plain_words(ws),
    ensures
        words(spaced(ws)) == ws,
    decreases ws.len(),
{
    if ws.len() == 0 {
    } else {
        let v = ws.drop_last();
        let t = ws.last();
        assert(ws[ws.len() - 1] == t);
        assert forall|k: int| 0 <= k < t.len() implies !white_space(#[trigger] t[k]) by {
            assert(!white_space(ws[ws.len() - 1][k]));
        }
        if ws.len() == 1 {
            assert(Seq::<char>::empty() + t =~= t);
            lemma_words_extend(Seq::<char>::empty(), t);
            assert(ws =~= seq![t]);
        } else {
            assert(plain_words(v)) by {
                assert forall|k: int| 0 <= k < v.len() implies (#[trigger] v[k]).len() > 0 by {
                    assert(v[k] == ws[k]);
                }
                assert forall|k: int, j: int|
                    0 <= k < v.len() && 0 <= j < v[k].len() implies !white_space(
                        #[trigger] v[k][j],
                    ) by {
                    assert(v[k] == ws[k]);
                }
            }
            lemma_words_of_spaced(v);
            let x = spaced(v) + seq![' '];
            assert(x.drop_last() =~= spaced(v));
            assert(words(x) == words(spaced(v)));
            lemma_words_extend(x, t);
            assert(ws =~= v.push(t));
        }
    }
}

/// The result has no leading and no trailing whitespace.
pub proof fn law_no_outer_whitespace(s: Seq<char>)
    ensures
        normalized(s).len() > 0 ==> !white_space(normalized(s)[0]) && !white_space(
            normalized(s).last(),
        ),
{
    lemma_words_plain(s);
    lemma_spaced_shape(words(s));
}

/// The result never holds two whitespace characters side by side.
pub proof fn law_no_adjacent_whitespace(s: Seq<char>)
    ensures
        forall|i: int|
            0 <= i < normalized(s).len() - 1 ==> !(white_space(#[trigger] normalized(s)[i])
                && white_space(normalized(s)[i + 1])),
{
    lemma_words_plain(s);
    lemma_spaced_shape(words(s));
}

/// The result has the same words as the input, in the same order.
pub proof fn law_words_kept(s: Seq<char>)
    ensures
        words(normalized(s)) == words(s),
{
    lemma_words_plain(s);
    lemma_words_of_spaced(words(s));
}

/// Normalising twice gives what normalising once gives.
pub proof fn law_idempotent(s: Seq<char>)
    ensures
        normalized(normalized(s)) == normalized(s),
{
    law_words_kept(s);
}

/// Text that is empty or all whitespace normalises to the empty text.
pub proof fn law_blank_input(s: Seq<char>)
    requires
        forall|i: int| 0 <= i < s.len() ==> white_space(#[trigger] s[i]),
    ensures
        normalized(s) == Seq::<char>::empty(),
    decreases s.len(),
{
    if s.len() > 0 {
        let p = s.drop_last();
        assert forall|i: int| 0 <= i < p.len() implies white_space(#[trigger] p[i]) by {
            assert(p[i] == s[i]);
        }
        law_blank_input(p);
        lemma_words_plain(p);
        lemma_spaced_shape(words(p));
    }
}

} // verus!
