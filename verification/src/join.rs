//! Punctuation that was written as one operator.
//!
//! A tokenizer hands out an operator of several characters, such as `->`,
//! character by character, and marks each character that was written
//! directly before the next. The same mark stands on the quote of a
//! lifetime. Copied with a space after each of them these would be other
//! tokens than were written, so they are joined first: a marked punctuation
//! and the punctuation after it, and a marked quote and the identifier after
//! it, become one token with the text of both.

use crate::token::{Token, TokenView};
use vstd::prelude::*;

verus! {

/// A token as the tokenizer hands it out.
#[derive(Debug, PartialEq, Eq)]
pub struct Piece {
    /// The token.
    pub token: Token,
    /// Whether the token is punctuation written directly before the token
    /// after it.
    pub joint: bool,
}

/// The mathematical value of a [`Piece`].
pub struct PieceView {
    pub token: TokenView,
    pub joint: bool,
}

impl View for Piece {
    type V = PieceView;

    open spec fn view(&self) -> PieceView {
        PieceView { token: self.token@, joint: self.joint }
    }
}

impl DeepView for Piece {
    type V = PieceView;

    open spec fn deep_view(&self) -> PieceView {
        self@
    }
}

/// The tokens that the pieces make, and where each of them starts.
#[derive(Debug, PartialEq, Eq)]
pub struct Joined {
    /// The tokens, in order.
    pub tokens: Vec<Token>,
    /// For each token the index of the first piece that it is made of.
    pub starts: Vec<usize>,
}

/// Whether the piece at `index` belongs to the token of the piece before
/// it: that piece is punctuation marked as joint, and this one is
/// punctuation too, or it is an identifier and that piece is the quote of a
/// lifetime.
pub open spec fn continues(pieces: Seq<PieceView>, index: int) -> bool {
    &&& 0 < index < pieces.len()
    &&& pieces[index - 1].token is Punct
    &&& pieces[index - 1].joint
    &&& (pieces[index].token is Punct || (pieces[index].token is Ident && pieces[index
        - 1].token.text() == "'"@))
}

/// The tokens that `pieces` make: a piece that continues the one before it
/// adds its text to that token, which is punctuation, and every other piece
/// is a token as it is.
pub open spec fn joined_tokens(pieces: Seq<PieceView>) -> Seq<TokenView>
    decreases pieces.len(),
{
    if pieces.len() == 0 {
        Seq::empty()
    } else {
        let front = joined_tokens(pieces.drop_last());
        if continues(pieces, pieces.len() - 1) && front.len() > 0 {
            front.drop_last().push(
                TokenView::Punct(front.last().text() + pieces.last().token.text()),
            )
        } else {
            front.push(pieces.last().token)
        }
    }
}

/// For each token that `pieces` make, the index of its first piece.
pub open spec fn token_starts(pieces: Seq<PieceView>) -> Seq<int>
    decreases pieces.len(),
{
    if pieces.len() == 0 {
        Seq::empty()
    } else {
        let front = token_starts(pieces.drop_last());
        if continues(pieces, pieces.len() - 1) && front.len() > 0 {
            front
        } else {
            front.push(pieces.len() - 1)
        }
    }
}

/// The texts of `pieces`, one directly after the other.
pub open spec fn piece_texts(pieces: Seq<PieceView>) -> Seq<char>
    decreases pieces.len(),
{
    if pieces.len() == 0 {
        Seq::empty()
    } else {
        piece_texts(pieces.drop_last()) + pieces.last().token.text()
    }
}

/// The texts of `tokens`, one directly after the other.
pub open spec fn token_texts(tokens: Seq<TokenView>) -> Seq<char>
    decreases tokens.len(),
{
    if tokens.len() == 0 {
        Seq::empty()
    } else {
        token_texts(tokens.drop_last()) + tokens.last().text()
    }
}

/// Every token has a start, the starts are indices of pieces, and they go
/// up from token to token.
pub proof fn lemma_starts(pieces: Seq<PieceView>)
    ensures
        token_starts(pieces).len() == joined_tokens(pieces).len(),
        pieces.len() > 0 ==> token_starts(pieces).len() > 0,
        forall|k: int|
            0 <= k < token_starts(pieces).len() ==> 0 <= #[trigger] token_starts(pieces)[k]
                < pieces.len(),
        forall|j: int, k: int|
            0 <= j < k < token_starts(pieces).len() ==> token_starts(pieces)[j] < token_starts(
                pieces,
            )[k],
    decreases pieces.len(),
{
    if pieces.len() > 0 {
        lemma_starts(pieces.drop_last());
    }
}

/// Joining loses and adds no text: the tokens read one after the other as
/// the pieces do.
pub proof fn lemma_texts_kept(pieces: Seq<PieceView>)
    ensures
        token_texts(joined_tokens(pieces)) == piece_texts(pieces),
    decreases pieces.len(),
{
    if pieces.len() > 0 {
        lemma_texts_kept(pieces.drop_last());
        let front = joined_tokens(pieces.drop_last());
        let tokens = joined_tokens(pieces);
        if continues(pieces, pieces.len() - 1) && front.len() > 0 {
            assert(tokens.drop_last() =~= front.drop_last());
            assert(token_texts(tokens) =~= token_texts(front) + pieces.last().token.text());
        } else {
            assert(tokens.drop_last() =~= front);
        }
    }
}

/// Where no piece is marked as joint, the tokens are the pieces.
pub proof fn lemma_unmarked_pieces_stay(pieces: Seq<PieceView>)
    requires
        forall|i: int| 0 <= i < pieces.len() ==> !(#[trigger] pieces[i]).joint,
    ensures
        joined_tokens(pieces) == pieces.map_values(|piece: PieceView| piece.token),
        token_starts(pieces) == Seq::new(pieces.len(), |i: int| i),
    decreases pieces.len(),
{
    if pieces.len() > 0 {
        lemma_unmarked_pieces_stay(pieces.drop_last());
        assert(joined_tokens(pieces) =~= pieces.map_values(|piece: PieceView| piece.token));
        assert(token_starts(pieces) =~= Seq::new(pieces.len(), |i: int| i));
    }
}

/// Whether `text` is the quote that begins a lifetime.
pub fn is_quote(text: &str) -> (found: bool)
    ensures
        found == (text@ == "'"@),
{
    proof {
        reveal_strlit("'");
    }
    let found = text.unicode_len() == 1 && text.get_char(0) == '\'';
    assert(found ==> text@ =~= "'"@);
    found
}

/// Joins the pieces that were written as one token.
pub fn join(pieces: &[Piece]) -> (joined: Joined)
    ensures
        joined.tokens.deep_view() == joined_tokens(pieces.deep_view()),
        joined.starts@.map_values(|start: usize| start as int) == token_starts(
            pieces.deep_view(),
        ),
{
    let ghost input = pieces.deep_view();
    let mut tokens: Vec<Token> = Vec::new();
    let mut starts: Vec<usize> = Vec::new();
    let mut index: usize = 0;
    assert(input.take(0) =~= Seq::<PieceView>::empty());
    assert(tokens.deep_view() =~= joined_tokens(input.take(0)));
    assert(starts@.map_values(|start: usize| start as int) =~= token_starts(input.take(0)));
    while index < pieces.len()
        invariant
            index <= pieces.len(),
            input == pieces.deep_view(),
            tokens.deep_view() == joined_tokens(input.take(index as int)),
            starts@.map_values(|start: usize| start as int) == token_starts(
                input.take(index as int),
            ),
        decreases pieces.len() - index,
    {
        let ghost read = input.take(index + 1);
        let ghost before = tokens.deep_view();
        let ghost starts_before = starts@.map_values(|start: usize| start as int);
        proof {
            assert(read.drop_last() =~= input.take(index as int));
            assert(read.last() == pieces[index as int]@);
            if index > 0 {
                assert(read[index - 1] == pieces[index - 1]@);
            }
            lemma_starts(input.take(index as int));
        }
        let piece = &pieces[index];
        let follows = index > 0 && pieces[index - 1].joint && pieces[index - 1].token.is_punct()
            && (piece.token.is_punct() || (piece.token.is_ident() && is_quote(
            pieces[index - 1].token.text(),
        )));
        assert(follows == continues(read, index as int));
        let previous = if follows {
            tokens.pop()
        } else {
            None
        };
        match previous {
            Some(token) => {
                let mut text = token.into_text();
                text.append(piece.token.text());
                tokens.push(Token::Punct(text));
                assert(tokens.deep_view() =~= joined_tokens(read));
            },
            None => {
                tokens.push(piece.token.clone());
                starts.push(index);
                assert(tokens.deep_view() =~= joined_tokens(read));
                assert(starts@.map_values(|start: usize| start as int) =~= token_starts(read));
            },
        }
        index = index + 1;
    }
    assert(input.take(index as int) =~= input);
    Joined { tokens, starts }
}

} // verus!
