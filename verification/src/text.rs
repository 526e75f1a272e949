//! The text that the rewriter writes, as sequences of characters.

use crate::token::{Token, TokenView};
use vstd::prelude::*;

verus! {

/// The texts of `tokens`, in order, each followed by one space: how the
/// tokens outside the body are copied.
pub open spec fn spaced(tokens: Seq<TokenView>) -> Seq<char>
    decreases tokens.len(),
{
    if tokens.len() == 0 {
        Seq::empty()
    } else {
        spaced(tokens.drop_last()) + tokens.last().text() + " "@
    }
}

/// The statement that binds `__func__` to `name`, on a line of its own.
pub open spec fn declaration(name: Seq<char>) -> Seq<char> {
    "    const __func__: &str = \""@ + name + "\";\n"@
}

/// The body of a function called `name` whose body was `stream`: the
/// declaration of `__func__` first, then `stream` as it was.
pub open spec fn block(name: Seq<char>, stream: Seq<char>) -> Seq<char> {
    "{\n"@ + declaration(name) + stream + "\n}"@
}

/// Copying two sequences one after the other copies their concatenation.
pub proof fn lemma_spaced_concat(left: Seq<TokenView>, right: Seq<TokenView>)
    ensures
        spaced(left + right) == spaced(left) + spaced(right),
    decreases right.len(),
{
    if right.len() == 0 {
        assert(left + right =~= left);
        assert(spaced(left) + spaced(right) =~= spaced(left));
    } else {
        lemma_spaced_concat(left, right.drop_last());
        assert((left + right).drop_last() =~= left + right.drop_last());
        assert((left + right).last() == right.last());
        assert(spaced(left + right) =~= spaced(left) + spaced(right));
    }
}

/// Appends the text of `token` and then one space to `output`.
pub fn push_token(output: &mut String, token: &Token)
    ensures
        final(output)@ == old(output)@ + token@.text() + " "@,
{
    output.append(token.text());
    output.append(" ");
}

/// Appends to `output` the rewritten body of the function called `name`
/// whose body was `stream`.
pub fn push_block(output: &mut String, name: &str, stream: &str)
    ensures
        final(output)@ == old(output)@ + block(name@, stream@),
{
    output.append("{\n");
    output.append("    const __func__: &str = \"");
    output.append(name);
    output.append("\";\n");
    output.append(stream);
    output.append("\n}");
    assert(output@ =~= old(output)@ + block(name@, stream@));
}

} // verus!
