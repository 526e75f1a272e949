//! Tokens as plain values.

use vstd::prelude::*;

verus! {

/// How a group of tokens is delimited.
#[derive(Clone, Copy, Debug, PartialEq, Eq, Structural)]
pub enum Delimiter {
    /// `( ... )`
    Parenthesis,
    /// `{ ... }`
    Brace,
    /// `[ ... ]`
    Bracket,
    /// No visible delimiter.
    Invisible,
}

/// One token of the input, with the text that stands for it in the output.
#[derive(Debug, PartialEq, Eq)]
pub enum Token {
    /// An identifier or a keyword.
    Ident(String),
    /// Punctuation as it was written: an operator of one or more
    /// characters, or a lifetime with its quote.
    Punct(String),
    /// A literal.
    Literal(String),
    /// A delimited sequence of tokens: `text` is the whole group, delimiters
    /// included, and `stream` is what stands between the delimiters.
    Group { delimiter: Delimiter, text: String, stream: String },
}

/// The mathematical value of a [`Token`]: its texts are sequences of characters.
pub enum TokenView {
    Ident(Seq<char>),
    Punct(Seq<char>),
    Literal(Seq<char>),
    Group { delimiter: Delimiter, text: Seq<char>, stream: Seq<char> },
}

impl TokenView {
    /// The text that copies this token to the output.
    pub open spec fn text(self) -> Seq<char> {
        match self {
            TokenView::Ident(text) => text,
            TokenView::Punct(text) => text,
            TokenView::Literal(text) => text,
            TokenView::Group { text, .. } => text,
        }
    }

    /// Whether this token is the keyword that introduces a function.
    pub open spec fn is_keyword(self) -> bool {
        self == TokenView::Ident("fn"@)
    }

    /// Whether this token is a group in curly braces.
    pub open spec fn is_block(self) -> bool {
        self matches TokenView::Group { delimiter, .. } && delimiter == Delimiter::Brace
    }
}

impl View for Token {
    type V = TokenView;

    open spec fn view(&self) -> TokenView {
        match *self {
            Token::Ident(text) => TokenView::Ident(text@),
            Token::Punct(text) => TokenView::Punct(text@),
            Token::Literal(text) => TokenView::Literal(text@),
            Token::Group { delimiter, text, stream } => TokenView::Group {
                delimiter,
                text: text@,
                stream: stream@,
            },
        }
    }
}

impl DeepView for Token {
    type V = TokenView;

    open spec fn deep_view(&self) -> TokenView {
        self@
    }
}

impl Clone for Token {
    /// A token of the same kind with the same texts.
    fn clone(&self) -> (copy: Token)
        ensures
            copy@ == self@,
    {
        match self {
            Token::Ident(text) => Token::Ident(text.clone()),
            Token::Punct(text) => Token::Punct(text.clone()),
            Token::Literal(text) => Token::Literal(text.clone()),
            Token::Group { delimiter, text, stream } => Token::Group {
                delimiter: *delimiter,
                text: text.clone(),
                stream: stream.clone(),
            },
        }
    }
}

impl Token {
    /// The text that copies this token to the output.
    pub fn text(&self) -> (text: &str)
        ensures
            text@ == self@.text(),
    {
        match self {
            Token::Ident(text) => text.as_str(),
            Token::Punct(text) => text.as_str(),
            Token::Literal(text) => text.as_str(),
            Token::Group { text, .. } => text.as_str(),
        }
    }

    /// The text of this token, taken out of it.
    pub fn into_text(self) -> (text: String)
        ensures
            text@ == self@.text(),
    {
        match self {
            Token::Ident(text) => text,
            Token::Punct(text) => text,
            Token::Literal(text) => text,
            Token::Group { text, .. } => text,
        }
    }

    /// Whether this token is an identifier.
    pub fn is_ident(&self) -> (found: bool)
        ensures
            found == (self@ is Ident),
    {
        match self {
            Token::Ident(_) => true,
            _ => false,
        }
    }

    /// Whether this token is punctuation.
    pub fn is_punct(&self) -> (found: bool)
        ensures
            found == (self@ is Punct),
    {
        match self {
            Token::Punct(_) => true,
            _ => false,
        }
    }

    /// Whether this token is the keyword that introduces a function.
    pub fn is_keyword(&self) -> (found: bool)
        ensures
            found == self@.is_keyword(),
    {
        match self {
            Token::Ident(text) => {
                proof {
                    reveal_strlit("fn");
                }
                let text = text.as_str();
                let found = text.unicode_len() == 2 && text.get_char(0) == 'f' && text.get_char(1)
                    == 'n';
                assert(found ==> text@ =~= "fn"@);
                found
            },
            _ => false,
        }
    }

    /// Whether this token is a group in curly braces.
    pub fn is_block(&self) -> (found: bool)
        ensures
            found == self@.is_block(),
    {
        match self {
            Token::Group { delimiter, .. } => *delimiter == Delimiter::Brace,
            _ => false,
        }
    }
}

} // verus!
