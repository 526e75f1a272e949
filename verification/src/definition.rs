//! The shape of a function definition among tokens.

use crate::locate::{
    block_position, keyword_position, lemma_first_is_found, lemma_first_position,
};
use crate::text::spaced;
use crate::token::TokenView;
use vstd::prelude::*;

verus! {

/// The parts of a function definition, in the order in which they stand.
pub struct Definition {
    /// What stands before the keyword: attributes, visibility, qualifiers.
    pub qualifiers: Seq<TokenView>,
    /// The identifier after the keyword.
    pub name: Seq<char>,
    /// What stands between the name and the body: generic parameters,
    /// parameters, the return type, a `where` clause.
    pub signature: Seq<TokenView>,
    /// The group in curly braces that holds the statements.
    pub body: TokenView,
    /// What stands after the body.
    pub rest: Seq<TokenView>,
}

impl Definition {
    /// The parts are what their names say: no keyword among the qualifiers,
    /// no group in curly braces in the signature, and such a group as body.
    pub open spec fn valid(self) -> bool {
        &&& forall|i: int|
            0 <= i < self.qualifiers.len() ==> !(#[trigger] self.qualifiers[i]).is_keyword()
        &&& forall|i: int|
            0 <= i < self.signature.len() ==> !(#[trigger] self.signature[i]).is_block()
        &&& self.body.is_block()
    }

    /// The tokens of the definition.
    pub open spec fn tokens(self) -> Seq<TokenView> {
        self.qualifiers + seq![TokenView::Ident("fn"@), TokenView::Ident(self.name)]
            + self.signature + seq![self.body] + self.rest
    }

    /// The index of the keyword among the tokens.
    pub open spec fn keyword_index(self) -> int {
        self.qualifiers.len() as int
    }

    /// The index of the body among the tokens.
    pub open spec fn body_index(self) -> int {
        self.keyword_index() + 2 + self.signature.len()
    }

    /// The text of everything up to the body, as the rewriter copies it.
    pub open spec fn head(self) -> Seq<char> {
        spaced(self.qualifiers) + "fn "@ + self.name + " "@ + spaced(self.signature)
    }

    /// The text of everything after the body, as the rewriter copies it.
    pub open spec fn tail(self) -> Seq<char> {
        spaced(self.rest)
    }
}

/// The definition that `tokens` hold: there is one where a keyword is
/// followed by an identifier and, somewhere after it, by a group in curly
/// braces.
pub open spec fn definition_of(tokens: Seq<TokenView>) -> Option<Definition> {
    match keyword_position(tokens) {
        Some(keyword) if keyword + 1 < tokens.len() => match (
            tokens[keyword + 1],
            block_position(tokens, keyword + 2),
        ) {
            (TokenView::Ident(name), Some(body)) => Some(
                Definition {
                    qualifiers: tokens.take(keyword),
                    name,
                    signature: tokens.subrange(keyword + 2, body),
                    body: tokens[body],
                    rest: tokens.skip(body + 1),
                },
            ),
            _ => None,
        },
        _ => None,
    }
}

/// In the tokens of a valid definition the keyword and the body are found
/// where the definition has them.
pub proof fn lemma_positions(definition: Definition)
    requires
        definition.valid(),
    ensures
        keyword_position(definition.tokens()) == Some(definition.keyword_index()),
        block_position(definition.tokens(), definition.keyword_index() + 2) == Some(
            definition.body_index(),
        ),
{
    let tokens = definition.tokens();
    let keyword = definition.keyword_index();
    let body = definition.body_index();
    assert(tokens[keyword] == TokenView::Ident("fn"@));
    assert forall|j: int| 0 <= j < keyword implies !(#[trigger] tokens[j]).is_keyword() by {
        assert(tokens[j] == definition.qualifiers[j]);
    }
    lemma_first_is_found(tokens, 0, |token: TokenView| token.is_keyword(), keyword);
    assert(tokens[body] == definition.body);
    assert forall|j: int| keyword + 2 <= j < body implies !(#[trigger] tokens[j]).is_block() by {
        assert(tokens[j] == definition.signature[j - keyword - 2]);
    }
    lemma_first_is_found(tokens, keyword + 2, |token: TokenView| token.is_block(), body);
}

/// The tokens of a valid definition hold that definition.
pub proof fn lemma_definition_found(definition: Definition)
    requires
        definition.valid(),
    ensures
        definition_of(definition.tokens()) == Some(definition),
{
    let tokens = definition.tokens();
    let keyword = definition.keyword_index();
    let body = definition.body_index();
    lemma_positions(definition);
    assert(tokens[keyword + 1] == TokenView::Ident(definition.name));
    assert(tokens[body] == definition.body);
    assert(tokens.take(keyword) =~= definition.qualifiers);
    assert(tokens.subrange(keyword + 2, body) =~= definition.signature);
    assert(tokens.skip(body + 1) =~= definition.rest);
}

/// The definition that tokens hold is valid, and its tokens are those.
pub proof fn lemma_definition_holds(tokens: Seq<TokenView>)
    requires
        definition_of(tokens) is Some,
    ensures
        definition_of(tokens)->0.valid(),
        definition_of(tokens)->0.tokens() == tokens,
{
    let definition = definition_of(tokens)->0;
    let keyword = keyword_position(tokens)->0;
    lemma_first_position(tokens, 0, |token: TokenView| token.is_keyword());
    lemma_first_position(tokens, keyword + 2, |token: TokenView| token.is_block());
    let body = block_position(tokens, keyword + 2)->0;
    assert(tokens[keyword] == TokenView::Ident("fn"@));
    assert(definition.tokens() =~= tokens);
}

} // verus!
