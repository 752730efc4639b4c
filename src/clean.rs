use vstd::prelude::*;
use crate::whitespace::{is_white_space, white_space};
use crate::words::{lemma_spaced_grow_last, lemma_spaced_push, normalized, spaced, words};

verus! {

/// Relies on `String`'s `FromIterator<char>`: the characters, in order.
#[verifier::external_body]
fn string_of_chars(v: Vec<char>) -> (r: String)
    ensures
        r@ == v@,
{
    v.into_iter().collect()
}

/// `text` with leading and trailing whitespace removed and each inner run of
/// whitespace replaced by a single space.
pub fn clean_text(text: &str) -> (r: String)
    ensures
        r@ == normalized(text@),
{
    let mut out: Vec<char> = Vec::new();
    // some word has been written to `out`
    let mut any: bool = false;
    // the character before this one is part of a word
    let mut in_word: bool = false;
    for c in it: text.chars()
        invariant
            it.seq() == text@,
            out@ == spaced(words(text@.subrange(0, it.index() as int))),
            any == (words(text@.subrange(0, it.index() as int)).len() > 0),
            in_word == (it.index() > 0 && !white_space(text@[it.index() - 1])),
            in_word ==> any,
    {
        let ghost i = it.index() as int;
        let ghost p = text@.subrange(0, i);
        let ghost q = text@.subrange(0, i + 1);
        proof {
            assert(q.drop_last() =~= p);
            assert(c == text@[i]);
            if i > 0 {
                assert(q[i - 1] == text@[i - 1]);
            }
        }
        if is_white_space(c) {
            in_word = false;
        } else if in_word {
            proof {
                lemma_spaced_grow_last(words(p), c);
            }
            out.push(c);
        } else {
            proof {
                lemma_spaced_push(words(p), seq![c]);
            }
            if any {
                out.push(' ');
            }
            out.push(c);
            proof {
                assert(out@ =~= spaced(words(q)));
            }
            any = true;
            in_word = true;
        }
    }
    proof {
        assert(text@.subrange(0, text@.len() as int) =~= text@);
    }
    string_of_chars(out)
}

} // verus!
