//! The rewriting of one function definition, and what it gives.

use crate::diagnostic::{Diagnostic, DiagnosticView};
use crate::locate::{block_position, keyword_position, lemma_first_position};
use crate::scanner::{
    lemma_failure_is_final, outcome, scanned, PhaseView, Scanner, ScannerView,
};
use crate::text::{block, spaced};
use crate::token::{Token, TokenView};
use vstd::prelude::*;

verus! {

/// The text of the function called `name` whose keyword stands at index
/// `keyword` of `tokens`.
///
/// The tokens before the keyword, the keyword and the name come first,
/// each followed by one space. What follows the name is copied in the same
/// way up to the first group in curly braces, which is the body and gets the
/// declaration of `__func__`; what follows the body is copied after it.
/// Without such a group all that follows the name is copied.
pub open spec fn item_text(tokens: Seq<TokenView>, keyword: int, name: Seq<char>) -> Seq<char> {
    let head = spaced(tokens.take(keyword)) + "fn "@ + name + " "@;
    match block_position(tokens, keyword + 2) {
        Some(body) => head + spaced(tokens.subrange(keyword + 2, body)) + block(
            name,
            tokens[body]->stream,
        ) + spaced(tokens.skip(body + 1)),
        None => head + spaced(tokens.skip(keyword + 2)),
    }
}

/// What rewriting `tokens` gives.
///
/// The first keyword decides. Without one there is no function; with
/// nothing after it there is no name; with anything but an identifier after
/// it the name is not one. Else the identifier is the name, and the text is
/// [`item_text`].
pub open spec fn rewritten(tokens: Seq<TokenView>) -> Result<Seq<char>, DiagnosticView> {
    match keyword_position(tokens) {
        None => Err(DiagnosticView::NoFunctionFound),
        Some(keyword) => if keyword + 1 >= tokens.len() {
            Err(DiagnosticView::MissingFunctionName { keyword: keyword as nat })
        } else {
            match tokens[keyword + 1] {
                TokenView::Ident(name) => Ok(item_text(tokens, keyword, name)),
                _ => Err(DiagnosticView::UnexpectedToken { index: (keyword + 1) as nat }),
            }
        },
    }
}

/// The scanner that has read `tokens`, told from where the keyword, the
/// name and the body stand.
pub open spec fn state_after(tokens: Seq<TokenView>) -> ScannerView {
    let (phase, output) = match keyword_position(tokens) {
        None => (PhaseView::ScanningPrefix, spaced(tokens)),
        Some(keyword) => if keyword + 1 >= tokens.len() {
            (
                PhaseView::CapturingName { keyword: keyword as nat },
                spaced(tokens.take(keyword)) + "fn "@,
            )
        } else {
            match tokens[keyword + 1] {
                TokenView::Ident(name) => (
                    if block_position(tokens, keyword + 2) is Some {
                        PhaseView::RewritingBody
                    } else {
                        PhaseView::CopyingSignature { name }
                    },
                    item_text(tokens, keyword, name),
                ),
                _ => (
                    PhaseView::Failed(
                        DiagnosticView::UnexpectedToken { index: (keyword + 1) as nat },
                    ),
                    spaced(tokens.take(keyword)) + "fn "@,
                ),
            }
        },
    };
    ScannerView { phase, consumed: tokens.len(), output }
}

/// Reading the tokens one by one leads to the state that the positions of
/// the keyword, the name and the body tell.
pub proof fn lemma_scanned(tokens: Seq<TokenView>)
    ensures
        scanned(tokens) == state_after(tokens),
    decreases tokens.len(),
{
    if tokens.len() == 0 {
        assert(scanned(tokens).output =~= state_after(tokens).output);
    } else {
        let front = tokens.drop_last();
        let token = tokens.last();
        lemma_scanned(front);
        lemma_first_position(front, 0, |token: TokenView| token.is_keyword());
        match keyword_position(front) {
            None => {
                if token.is_keyword() {
                    assert(tokens.take(tokens.len() - 1) =~= front);
                }
            },
            Some(keyword) => {
                assert(tokens.take(keyword) =~= front.take(keyword));
                if keyword + 1 >= front.len() {
                    if let TokenView::Ident(name) = token {
                        assert(tokens.skip(keyword + 2) =~= Seq::empty());
                        assert(state_after(tokens).output =~= scanned(tokens).output);
                    }
                } else {
                    assert(tokens[keyword + 1] == front[keyword + 1]);
                    if let TokenView::Ident(name) = front[keyword + 1] {
                        lemma_first_position(
                            front,
                            keyword + 2,
                            |token: TokenView| token.is_block(),
                        );
                        match block_position(front, keyword + 2) {
                            None => {
                                if token.is_block() {
                                    assert(tokens.subrange(keyword + 2, tokens.len() - 1)
                                        =~= front.skip(keyword + 2));
                                    assert(tokens.skip(tokens.len() as int) =~= Seq::empty());
                                    assert(state_after(tokens).output =~= scanned(
                                        tokens,
                                    ).output);
                                } else {
                                    assert(tokens.skip(keyword + 2).drop_last() =~= front.skip(
                                        keyword + 2,
                                    ));
                                    assert(state_after(tokens).output =~= scanned(
                                        tokens,
                                    ).output);
                                }
                            },
                            Some(body) => {
                                assert(tokens.subrange(keyword + 2, body) =~= front.subrange(
                                    keyword + 2,
                                    body,
                                ));
                                assert(tokens[body] == front[body]);
                                assert(tokens.skip(body + 1).drop_last() =~= front.skip(
                                    body + 1,
                                ));
                                assert(state_after(tokens).output =~= scanned(tokens).output);
                            },
                        }
                    }
                }
            },
        }
    }
}

/// Ending the scan of `tokens` gives what rewriting them gives.
pub proof fn lemma_scan_rewrites(tokens: Seq<TokenView>)
    ensures
        scanned(tokens).finish() == rewritten(tokens),
        scanned(tokens).consumed == tokens.len(),
{
    lemma_scanned(tokens);
}

/// Rewrites the tokens of one function definition: the text of the
/// definition with `__func__` declared first in its body, or the diagnostic
/// that says why `tokens` hold no such definition.
pub fn rewrite(tokens: &[Token]) -> (result: Result<String, Diagnostic>)
    ensures
        outcome(result) == rewritten(tokens.deep_view()),
{
    let ghost input = tokens.deep_view();
    let mut scanner = Scanner::new();
    let mut index: usize = 0;
    while index < tokens.len() && !scanner.failed()
        invariant
            index <= tokens.len(),
            input == tokens.deep_view(),
            scanner@ == scanned(input.take(index as int)),
        decreases tokens.len() - index,
    {
        proof {
            lemma_scan_rewrites(input.take(index as int));
            assert(input.take(index + 1).drop_last() =~= input.take(index as int));
            assert(input.take(index + 1).last() == tokens[index as int]@);
        }
        scanner.step(&tokens[index]);
        index = index + 1;
    }
    proof {
        if index == tokens.len() {
            assert(input.take(index as int) =~= input);
        } else {
            lemma_failure_is_final(input, index as int);
        }
        lemma_scan_rewrites(input);
    }
    scanner.finish()
}

} // verus!
