use vstd::prelude::*;
use crate::whitespace::white_space;

verus! {

/// The words of `s`, left to right: its maximal runs of characters that are
/// not whitespace.
pub open spec fn words(s: Seq<char>) -> Seq<Seq<char>>
    decreases s.len(),
{
    if s.len() == 0 {
        seq![]
    } else {
        let n = s.len() - 1;
        let w = words(s.drop_last());
        if white_space(s[n]) {
            w
        } else if n > 0 && !white_space(s[n - 1]) {
            w.update(w.len() - 1, w.last().push(s[n]))
        } else {
            w.push(seq![s[n]])
        }
    }
}

/// The words `ws` written one after another, with one space between each two.
pub open spec fn spaced(ws: Seq<Seq<char>>) -> Seq<char>
    decreases ws.len(),
{
    if ws.len() == 0 {
        seq![]
    } else if ws.len() == 1 {
        ws[0]
    } else {
        spaced(ws.drop_last()) + seq![' '] + ws.last()
    }
}

/// `s` with outer whitespace removed and each inner run of whitespace
/// replaced by a single space.
pub open spec fn normalized(s: Seq<char>) -> Seq<char> {
    spaced(words(s))
}

/// Every word is non-empty and holds no whitespace.
pub open spec fn plain_words(ws: Seq<Seq<char>>) -> bool {
    &&& forall|k: int| 0 <= k < ws.len() ==> (#[trigger] ws[k]).len() > 0
    &&& forall|k: int, j: int|
        0 <= k < ws.len() && 0 <= j < ws[k].len() ==> !white_space(#[trigger] ws[k][j])
}

/// The words of any text are plain, and text that ends in a word character
/// has at least one word.
pub proof fn lemma_words_plain(s: Seq<char>)
    ensures
        plain_words(words(s)),
        s.len() > 0 && !white_space(s.last()) ==> words(s).len() > 0,
    decreases s.len(),
{
    if s.len() > 0 {
        let n = s.len() - 1;
        let w = words(s.drop_last());
        lemma_words_plain(s.drop_last());
        if n > 0 {
            assert(s.drop_last().last() == s[n - 1]);
        }
        if !white_space(s[n]) {
            let r = words(s);
            assert forall|k: int, j: int|
                0 <= k < r.len() && 0 <= j < r[k].len() implies !white_space(
                    #[trigger] r[k][j],
                ) by {
                if k == w.len() - 1 && n > 0 && !white_space(s[n - 1]) && j == w[k].len() {
                    assert(r[k][j] == s[n]);
                } else if k < w.len() && 0 <= j < w[k].len() {
                    assert(r[k][j] == w[k][j]);
                }
            }
        }
    }
}

/// Adding a character to the last word adds it to the end of the text.
pub proof fn lemma_spaced_grow_last(ws: Seq<Seq<char>>, c: char)
    requires
        ws.len() > 0,
    ensures
        spaced(ws.update(ws.len() - 1, ws.last().push(c))) == spaced(ws).push(c),
{
    let u = ws.update(ws.len() - 1, ws.last().push(c));
    if ws.len() > 1 {
        assert(u.drop_last() =~= ws.drop_last());
        assert(spaced(u) =~= spaced(ws).push(c));
    }
}

/// A new word comes after a space, unless it is the first.
pub proof fn lemma_spaced_push(ws: Seq<Seq<char>>, t: Seq<char>)
    ensures
        ws.len() == 0 ==> spaced(ws.push(t)) == t,
        ws.len() > 0 ==> spaced(ws.push(t)) == spaced(ws) + seq![' '] + t,
{
    assert(ws.push(t).drop_last() =~= ws);
}

} // verus!
