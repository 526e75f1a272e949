//! Where the parts of a function definition stand in a sequence of tokens.

use crate::token::TokenView;
use vstd::prelude::*;

verus! {

/// The index of the first token at or after `from` that `wanted` holds of.
pub open spec fn first_position(
    tokens: Seq<TokenView>,
    from: int,
    wanted: spec_fn(TokenView) -> bool,
) -> Option<int>
    decreases tokens.len(),
{
    if tokens.len() == 0 || tokens.len() <= from {
        None
    } else {
        match first_position(tokens.drop_last(), from, wanted) {
            Some(index) => Some(index),
            None => if wanted(tokens.last()) {
                Some(tokens.len() - 1)
            } else {
                None
            },
        }
    }
}

/// The index of the first keyword among `tokens`.
pub open spec fn keyword_position(tokens: Seq<TokenView>) -> Option<int> {
    first_position(tokens, 0, |token: TokenView| token.is_keyword())
}

/// The index of the first group in curly braces at or after `from`.
pub open spec fn block_position(tokens: Seq<TokenView>, from: int) -> Option<int> {
    first_position(tokens, from, |token: TokenView| token.is_block())
}

/// `index` is at or after `from`, `wanted` holds of the token there, and of
/// none between `from` and it.
pub open spec fn is_first(
    tokens: Seq<TokenView>,
    from: int,
    wanted: spec_fn(TokenView) -> bool,
    index: int,
) -> bool {
    &&& from <= index < tokens.len()
    &&& wanted(tokens[index])
    &&& forall|j: int| from <= j < index ==> !wanted(#[trigger] tokens[j])
}

/// `first_position` gives the least index that fits, and none exactly when
/// no token at or after `from` fits.
pub proof fn lemma_first_position(
    tokens: Seq<TokenView>,
    from: int,
    wanted: spec_fn(TokenView) -> bool,
)
    requires
        0 <= from,
    ensures
        match first_position(tokens, from, wanted) {
            Some(index) => is_first(tokens, from, wanted, index),
            None => forall|j: int| from <= j < tokens.len() ==> !wanted(#[trigger] tokens[j]),
        },
    decreases tokens.len(),
{
    if tokens.len() == 0 || tokens.len() <= from {
    } else {
        let front = tokens.drop_last();
        lemma_first_position(front, from, wanted);
        assert(forall|j: int| 0 <= j < front.len() ==> front[j] == tokens[j]);
        match first_position(front, from, wanted) {
            Some(index) => {
                assert(is_first(tokens, from, wanted, index));
            },
            None => {
                assert forall|j: int| from <= j < tokens.len() - 1 implies !wanted(
                    #[trigger] tokens[j],
                ) by {
                    assert(tokens[j] == front[j]);
                }
            },
        }
    }
}

/// The least index that fits is what `first_position` gives.
pub proof fn lemma_first_is_found(
    tokens: Seq<TokenView>,
    from: int,
    wanted: spec_fn(TokenView) -> bool,
    index: int,
)
    requires
        0 <= from,
        is_first(tokens, from, wanted, index),
    ensures
        first_position(tokens, from, wanted) == Some(index),
{
    lemma_first_position(tokens, from, wanted);
}

/// Tokens put in front move what is found after them, and nothing else:
/// the search that starts `from` tokens into `tokens` finds in
/// `front + tokens` what it finds in `tokens`, further on by the length of
/// `front`.
pub proof fn lemma_first_position_shifted(
    front: Seq<TokenView>,
    tokens: Seq<TokenView>,
    from: int,
    wanted: spec_fn(TokenView) -> bool,
)
    requires
        0 <= from,
    ensures
        first_position(front + tokens, front.len() + from, wanted) == match first_position(
            tokens,
            from,
            wanted,
        ) {
            Some(index) => Some(front.len() + index),
            None => None,
        },
{
    let all = front + tokens;
    let start = front.len() + from;
    lemma_first_position(tokens, from, wanted);
    lemma_first_position(all, start, wanted);
    assert forall|j: int| 0 <= j < tokens.len() implies tokens[j] == all[front.len() + j] by {}
    match first_position(tokens, from, wanted) {
        Some(index) => {
            assert forall|j: int| start <= j < front.len() + index implies !wanted(
                #[trigger] all[j],
            ) by {
                assert(all[j] == tokens[j - front.len()]);
            }
            lemma_first_is_found(all, start, wanted, front.len() + index);
        },
        None => {
            if let Some(index) = first_position(all, start, wanted) {
                assert(all[index] == tokens[index - front.len()]);
            }
        },
    }
}

/// Tokens put in front that are not wanted move what is found from the
/// start, and nothing else.
pub proof fn lemma_first_position_skips(
    front: Seq<TokenView>,
    tokens: Seq<TokenView>,
    wanted: spec_fn(TokenView) -> bool,
)
    requires
        forall|i: int| 0 <= i < front.len() ==> !wanted(#[trigger] front[i]),
    ensures
        first_position(front + tokens, 0, wanted) == match first_position(tokens, 0, wanted) {
            Some(index) => Some(front.len() + index),
            None => None,
        },
{
    let all = front + tokens;
    lemma_first_position_shifted(front, tokens, 0, wanted);
    lemma_first_position(all, 0, wanted);
    lemma_first_position(all, front.len() as int, wanted);
    assert forall|j: int| 0 <= j < front.len() implies !wanted(#[trigger] all[j]) by {
        assert(all[j] == front[j]);
    }
    match first_position(all, front.len() as int, wanted) {
        Some(index) => {
            lemma_first_is_found(all, 0, wanted, index);
        },
        None => {},
    }
}

} // verus!
