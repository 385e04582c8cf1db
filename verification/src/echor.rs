//! Repeating the words given, with blanks between them.

use crate::text::{join_with, texts};
use vstd::prelude::*;
use vstd::string::StringExecFns;

verus! {

/// What is printed for `words`: the words with one blank between
/// neighbours, and a line feed at the end unless it is left out.
pub open spec fn echo_text(words: Seq<Seq<char>>, omit_newline: bool) -> Seq<char> {
    join_with(words, ' ') + if omit_newline {
        Seq::<char>::empty()
    } else {
        seq!['\n']
    }
}

/// The text to print for `words`.
pub fn echo(words: &[String], omit_newline: bool) -> (out: String)
    ensures
        out@ == echo_text(texts(words@), omit_newline),
{
    let mut out = String::new();
    let mut i: usize = 0;
    while i < words.len()
        invariant
            0 <= i <= words@.len(),
            out@ == join_with(texts(words@).take(i as int), ' '),
        decreases words@.len() - i,
    {
        proof {
            let next = texts(words@).take(i + 1);
            assert(next.drop_last() =~= texts(words@).take(i as int));
            assert(next.last() == words@[i as int]@);
            if i == 0 {
                assert(next[0] == words@[0]@);
            }
        }
        if i > 0 {
            out.append(" ");
            proof {
                reveal_strlit(" ");
                assert(" "@ =~= seq![' ']);
            }
        }
        out.append(words[i].as_str());
        assert(out@ =~= join_with(texts(words@).take(i + 1), ' '));
        i = i + 1;
    }
    assert(texts(words@).take(i as int) =~= texts(words@));
    if !omit_newline {
        out.append("\n");
        proof {
            reveal_strlit("\n");
            assert("\n"@ =~= seq!['\n']);
        }
    }
    assert(out@ =~= echo_text(texts(words@), omit_newline));
    out
}

} // verus!
