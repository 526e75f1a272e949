//! What holds of every rewriting.

use crate::definition::{
    definition_of, lemma_definition_holds, lemma_positions, Definition,
};
use crate::diagnostic::{AnchorView, DiagnosticView};
use crate::locate::{
    block_position, keyword_position, lemma_first_is_found, lemma_first_position,
    lemma_first_position_shifted, lemma_first_position_skips,
};
use crate::rewrite::{item_text, rewritten};
use crate::text::{block, declaration, lemma_spaced_concat, spaced};
use crate::token::TokenView;
use vstd::prelude::*;

verus! {

/// Rewriting a valid definition gives its head, then its body with the
/// declaration of `__func__`, then its tail.
pub proof fn lemma_definition_rewritten(definition: Definition)
    requires
        definition.valid(),
    ensures
        rewritten(definition.tokens()) == Ok::<Seq<char>, DiagnosticView>(
            definition.head() + block(definition.name, definition.body->stream)
                + definition.tail(),
        ),
{
    let tokens = definition.tokens();
    let keyword = definition.keyword_index();
    let body = definition.body_index();
    lemma_positions(definition);
    assert(tokens[keyword + 1] == TokenView::Ident(definition.name));
    assert(tokens[body] == definition.body);
    assert(tokens.take(keyword) =~= definition.qualifiers);
    assert(tokens.subrange(keyword + 2, body) =~= definition.signature);
    assert(tokens.skip(body + 1) =~= definition.rest);
    assert(item_text(tokens, keyword, definition.name) =~= definition.head() + block(
        definition.name,
        definition.body->stream,
    ) + definition.tail());
}

/// Whatever input holds a definition is rewritten as that definition is.
pub proof fn lemma_input_rewritten(tokens: Seq<TokenView>)
    requires
        definition_of(tokens) is Some,
    ensures
        ({
            let definition = definition_of(tokens)->0;
            rewritten(tokens) == Ok::<Seq<char>, DiagnosticView>(
                definition.head() + block(definition.name, definition.body->stream)
                    + definition.tail(),
            )
        }),
{
    lemma_definition_holds(tokens);
    lemma_definition_rewritten(definition_of(tokens)->0);
}

/// Outside the body every token is copied alike, its text and one space:
/// the text is the copy of the tokens before the body, the rewritten body
/// and the copy of the tokens after it, and without a body the copy of all
/// tokens.
pub proof fn lemma_copied_alike(tokens: Seq<TokenView>)
    requires
        rewritten(tokens) is Ok,
    ensures
        ({
            let keyword = keyword_position(tokens)->0;
            rewritten(tokens)->Ok_0 == match block_position(tokens, keyword + 2) {
                Some(body) => spaced(tokens.take(body)) + block(
                    tokens[keyword + 1]->Ident_0,
                    tokens[body]->stream,
                ) + spaced(tokens.skip(body + 1)),
                None => spaced(tokens),
            }
        }),
{
    let keyword = keyword_position(tokens)->0;
    lemma_first_position(tokens, 0, |token: TokenView| token.is_keyword());
    lemma_first_position(tokens, keyword + 2, |token: TokenView| token.is_block());
    assert(0 <= keyword && keyword + 1 < tokens.len());
    assert(tokens[keyword].is_keyword());
    let name = tokens[keyword + 1]->Ident_0;
    let end = match block_position(tokens, keyword + 2) {
        Some(body) => body,
        None => tokens.len() as int,
    };
    let front = tokens.take(keyword);
    let pair = seq![tokens[keyword], tokens[keyword + 1]];
    let back = tokens.subrange(keyword + 2, end);
    assert(tokens.take(end) =~= front + pair + back);
    lemma_spaced_concat(front + pair, back);
    lemma_spaced_concat(front, pair);
    assert(spaced(pair) =~= "fn "@ + name + " "@) by {
        reveal_strlit("fn");
        reveal_strlit(" ");
        reveal_strlit("fn ");
        let single = pair.drop_last();
        assert(single =~= seq![tokens[keyword]]);
        assert(single.drop_last() =~= Seq::<TokenView>::empty());
        assert(spaced(single.drop_last()) =~= Seq::<char>::empty());
        assert(single.last().text() == "fn"@);
        assert(spaced(single) =~= "fn"@ + " "@);
        assert(pair.last().text() == name);
        assert("fn"@ + " "@ =~= "fn "@);
    }
    assert(spaced(tokens.take(end)) =~= spaced(front) + "fn "@ + name + " "@ + spaced(back));
    if block_position(tokens, keyword + 2) is None {
        assert(tokens.take(end) =~= tokens);
        assert(tokens.skip(keyword + 2) =~= back);
    }
}

/// There is a text exactly when an identifier follows the first keyword:
/// without a name nothing of the input is given back.
pub proof fn lemma_text_needs_name(tokens: Seq<TokenView>)
    ensures
        rewritten(tokens) is Ok <==> exists|keyword: int|
            {
                &&& 0 <= keyword
                &&& keyword + 1 < tokens.len()
                &&& #[trigger] tokens[keyword].is_keyword()
                &&& forall|i: int| 0 <= i < keyword ==> !(#[trigger] tokens[i]).is_keyword()
                &&& tokens[keyword + 1] is Ident
            },
{
    lemma_first_position(tokens, 0, |token: TokenView| token.is_keyword());
    if rewritten(tokens) is Ok {
        let keyword = keyword_position(tokens)->0;
        assert(tokens[keyword].is_keyword());
    }
    assert forall|keyword: int|
        {
            &&& 0 <= keyword
            &&& keyword + 1 < tokens.len()
            &&& #[trigger] tokens[keyword].is_keyword()
            &&& forall|i: int| 0 <= i < keyword ==> !(#[trigger] tokens[i]).is_keyword()
            &&& tokens[keyword + 1] is Ident
        } implies rewritten(tokens) is Ok by {
        lemma_first_is_found(tokens, 0, |token: TokenView| token.is_keyword(), keyword);
    }
}

/// The text that `__func__` is bound to is the identifier that follows the
/// keyword, and nothing of what comes after that identifier, whatever
/// stands before the keyword and whatever the signature holds.
pub proof fn lemma_name_fidelity(definition: Definition)
    requires
        definition.valid(),
    ensures
        definition.tokens()[definition.keyword_index() + 1] == TokenView::Ident(definition.name),
        rewritten(definition.tokens()) == Ok::<Seq<char>, DiagnosticView>(
            definition.head() + "{\n"@ + ("    const __func__: &str = \""@ + definition.name
                + "\";\n"@) + definition.body->stream + "\n}"@ + definition.tail(),
        ),
{
    lemma_definition_rewritten(definition);
    let text = definition.head() + "{\n"@ + ("    const __func__: &str = \""@ + definition.name
        + "\";\n"@) + definition.body->stream + "\n}"@ + definition.tail();
    assert(text =~= definition.head() + block(definition.name, definition.body->stream)
        + definition.tail());
}

/// The rewritten text with the declaration taken out is the definition
/// copied as it stands, and up to the body's opening brace the rewritten
/// text is that copy.
pub proof fn lemma_structure_preserved(definition: Definition)
    requires
        definition.valid(),
    ensures
        ({
            let text = rewritten(definition.tokens())->Ok_0;
            let copied = definition.head() + "{\n"@ + definition.body->stream + "\n}"@
                + definition.tail();
            let at = definition.head().len() + "{\n"@.len();
            let end = at + declaration(definition.name).len();
            &&& rewritten(definition.tokens()) is Ok
            &&& end <= text.len()
            &&& text.subrange(at as int, end as int) == declaration(definition.name)
            &&& text.take(at as int) + text.skip(end as int) == copied
            &&& text.take(at as int) == copied.take(at as int)
        }),
{
    lemma_definition_rewritten(definition);
    let text = rewritten(definition.tokens())->Ok_0;
    let copied = definition.head() + "{\n"@ + definition.body->stream + "\n}"@
        + definition.tail();
    let at = definition.head().len() + "{\n"@.len();
    let end = at + declaration(definition.name).len();
    assert(text =~= definition.head() + "{\n"@ + declaration(definition.name)
        + definition.body->stream + "\n}"@ + definition.tail());
    assert(text.subrange(at as int, end as int) =~= declaration(definition.name));
    assert(text.take(at as int) + text.skip(end as int) =~= copied);
    assert(text.take(at as int) =~= copied.take(at as int));
}

/// The rewritten body opens with the declaration, and the statements that
/// the body held follow it, all of them.
pub proof fn lemma_declaration_first(definition: Definition)
    requires
        definition.valid(),
    ensures
        ({
            let text = rewritten(definition.tokens())->Ok_0;
            let opening = definition.head() + "{\n"@;
            &&& rewritten(definition.tokens()) is Ok
            &&& opening.len() <= text.len()
            &&& text.take(opening.len() as int) == opening
            &&& text.skip(opening.len() as int) == declaration(definition.name)
                + definition.body->stream + "\n}"@ + definition.tail()
        }),
{
    lemma_definition_rewritten(definition);
    let text = rewritten(definition.tokens())->Ok_0;
    let opening = definition.head() + "{\n"@;
    assert(text =~= opening + (declaration(definition.name) + definition.body->stream + "\n}"@
        + definition.tail()));
    assert(text.take(opening.len() as int) =~= opening);
    assert(text.skip(opening.len() as int) =~= declaration(definition.name)
        + definition.body->stream + "\n}"@ + definition.tail());
}

/// Qualifiers change nothing but their own text: with tokens in front that
/// hold no keyword, the rewriter writes those tokens and then what it
/// writes without them, or gives the diagnostic it gives without them, at
/// the token it gives it at.
pub proof fn lemma_qualifiers_pass_through(qualifiers: Seq<TokenView>, tokens: Seq<TokenView>)
    requires
        forall|i: int| 0 <= i < qualifiers.len() ==> !(#[trigger] qualifiers[i]).is_keyword(),
    ensures
        rewritten(qualifiers + tokens) == match rewritten(tokens) {
            Ok(text) => Ok(spaced(qualifiers) + text),
            Err(diagnostic) => Err(diagnostic.shifted(qualifiers.len())),
        },
{
    let all = qualifiers + tokens;
    let by = qualifiers.len() as int;
    lemma_first_position_skips(qualifiers, tokens, |token: TokenView| token.is_keyword());
    lemma_first_position(tokens, 0, |token: TokenView| token.is_keyword());
    if let Some(keyword) = keyword_position(tokens) {
        if keyword + 1 < tokens.len() {
            assert(all[by + keyword + 1] == tokens[keyword + 1]);
            if let TokenView::Ident(name) = tokens[keyword + 1] {
                lemma_first_position_shifted(
                    qualifiers,
                    tokens,
                    keyword + 2,
                    |token: TokenView| token.is_block(),
                );
                lemma_first_position(tokens, keyword + 2, |token: TokenView| token.is_block());
                assert(all.take(by + keyword) =~= qualifiers + tokens.take(keyword));
                lemma_spaced_concat(qualifiers, tokens.take(keyword));
                match block_position(tokens, keyword + 2) {
                    Some(body) => {
                        assert(all[by + body] == tokens[body]);
                        assert(all.subrange(by + keyword + 2, by + body) =~= tokens.subrange(
                            keyword + 2,
                            body,
                        ));
                        assert(all.skip(by + body + 1) =~= tokens.skip(body + 1));
                    },
                    None => {
                        assert(all.skip(by + keyword + 2) =~= tokens.skip(keyword + 2));
                    },
                }
                assert(item_text(all, by + keyword, name) =~= spaced(qualifiers) + item_text(
                    tokens,
                    keyword,
                    name,
                ));
            }
        }
    }
}

/// A keyword that nothing follows: the diagnostic is that of the missing
/// name, it points at the keyword and says that no function name follows.
pub proof fn lemma_missing_name(tokens: Seq<TokenView>)
    requires
        tokens.len() > 0,
        tokens.last().is_keyword(),
        forall|i: int| 0 <= i < tokens.len() - 1 ==> !(#[trigger] tokens[i]).is_keyword(),
    ensures
        rewritten(tokens) == Err::<Seq<char>, DiagnosticView>(
            DiagnosticView::MissingFunctionName { keyword: (tokens.len() - 1) as nat },
        ),
        rewritten(tokens)->Err_0.anchor() == AnchorView::Token((tokens.len() - 1) as nat),
        rewritten(tokens)->Err_0.message() == "no function name follows"@,
{
    lemma_first_is_found(tokens, 0, |token: TokenView| token.is_keyword(), tokens.len() - 1);
}

/// A keyword followed by anything but an identifier: the diagnostic is that
/// of the unexpected token, it points at that token and says that an
/// identifier was expected.
pub proof fn lemma_unexpected_token(tokens: Seq<TokenView>, keyword: int)
    requires
        0 <= keyword,
        keyword + 1 < tokens.len(),
        tokens[keyword].is_keyword(),
        forall|i: int| 0 <= i < keyword ==> !(#[trigger] tokens[i]).is_keyword(),
        !(tokens[keyword + 1] is Ident),
    ensures
        rewritten(tokens) == Err::<Seq<char>, DiagnosticView>(
            DiagnosticView::UnexpectedToken { index: (keyword + 1) as nat },
        ),
        rewritten(tokens)->Err_0.anchor() == AnchorView::Token((keyword + 1) as nat),
        rewritten(tokens)->Err_0.message() == "expected identifier"@,
{
    lemma_first_is_found(tokens, 0, |token: TokenView| token.is_keyword(), keyword);
}

} // verus!
