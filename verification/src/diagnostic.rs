//! What the rewriter reports when its input is not a function definition.
//!
//! A failure is a value, not a panic: a [`Diagnostic`] names what is wrong
//! and where, and [`error_item`] gives the text of an item that makes the
//! compiler report it. The item is one string literal whatever the message
//! and the source text hold: their double quotes and backslashes are
//! escaped.

use crate::literal::{
    escaped, lemma_escaped_concat, lemma_escaped_is_literal, lemma_escaped_plain,
    lemma_quotes_escaped, literal_value, push_escaped, well_escaped,
};
use vstd::prelude::*;

verus! {

/// The place in the source that a diagnostic points at.
#[derive(Clone, Copy, Debug, PartialEq, Eq, Structural)]
pub enum Anchor {
    /// The place where the rewriter was invoked.
    CallSite,
    /// The token at this index of the input.
    Token(usize),
}

/// The mathematical value of an [`Anchor`].
pub enum AnchorView {
    CallSite,
    Token(nat),
}

impl View for Anchor {
    type V = AnchorView;

    open spec fn view(&self) -> AnchorView {
        match *self {
            Anchor::CallSite => AnchorView::CallSite,
            Anchor::Token(index) => AnchorView::Token(index as nat),
        }
    }
}

/// Why no rewritten function can be given.
#[derive(Debug, PartialEq, Eq)]
pub enum Diagnostic {
    /// The input ends with the keyword at index `keyword`.
    MissingFunctionName { keyword: usize },
    /// The token at `index` follows the keyword and is not an identifier.
    UnexpectedToken { index: usize },
    /// The input holds no keyword.
    NoFunctionFound,
    /// The tokenizer refused the rewritten text `output`, and said `error`.
    CodegenInvalid { error: String, output: String },
}

/// The mathematical value of a [`Diagnostic`].
pub enum DiagnosticView {
    MissingFunctionName { keyword: nat },
    UnexpectedToken { index: nat },
    NoFunctionFound,
    CodegenInvalid { error: Seq<char>, output: Seq<char> },
}

impl DiagnosticView {
    /// Where the diagnostic points: at the keyword that nothing follows, at
    /// the token that should have been a name, and else at the call site.
    pub open spec fn anchor(self) -> AnchorView {
        match self {
            DiagnosticView::MissingFunctionName { keyword } => AnchorView::Token(keyword),
            DiagnosticView::UnexpectedToken { index } => AnchorView::Token(index),
            DiagnosticView::NoFunctionFound => AnchorView::CallSite,
            DiagnosticView::CodegenInvalid { .. } => AnchorView::CallSite,
        }
    }

    /// The diagnostic of an input that has `by` more tokens in front: it
    /// points at the same token, which stands further on.
    pub open spec fn shifted(self, by: nat) -> DiagnosticView {
        match self {
            DiagnosticView::MissingFunctionName { keyword } => {
                DiagnosticView::MissingFunctionName { keyword: keyword + by }
            },
            DiagnosticView::UnexpectedToken { index } => DiagnosticView::UnexpectedToken {
                index: index + by,
            },
            DiagnosticView::NoFunctionFound => self,
            DiagnosticView::CodegenInvalid { .. } => self,
        }
    }

    /// The explanation shown to the author.
    pub open spec fn message(self) -> Seq<char> {
        match self {
            DiagnosticView::MissingFunctionName { .. } => "no function name follows"@,
            DiagnosticView::UnexpectedToken { .. } => "expected identifier"@,
            DiagnosticView::NoFunctionFound => "No function name found, please write valid code"@,
            DiagnosticView::CodegenInvalid { error, output } => {
                "codegen generated unexpectedly invalid code:\n"@ + error + "\n-----Output:\n"@
                    + output
            },
        }
    }
}

impl View for Diagnostic {
    type V = DiagnosticView;

    open spec fn view(&self) -> DiagnosticView {
        match *self {
            Diagnostic::MissingFunctionName { keyword } => DiagnosticView::MissingFunctionName {
                keyword: keyword as nat,
            },
            Diagnostic::UnexpectedToken { index } => DiagnosticView::UnexpectedToken {
                index: index as nat,
            },
            Diagnostic::NoFunctionFound => DiagnosticView::NoFunctionFound,
            Diagnostic::CodegenInvalid { error, output } => DiagnosticView::CodegenInvalid {
                error: error@,
                output: output@,
            },
        }
    }
}

impl Clone for Diagnostic {
    /// The same diagnostic.
    fn clone(&self) -> (copy: Diagnostic)
        ensures
            copy@ == self@,
    {
        match self {
            Diagnostic::MissingFunctionName { keyword } => Diagnostic::MissingFunctionName {
                keyword: *keyword,
            },
            Diagnostic::UnexpectedToken { index } => Diagnostic::UnexpectedToken { index: *index },
            Diagnostic::NoFunctionFound => Diagnostic::NoFunctionFound,
            Diagnostic::CodegenInvalid { error, output } => Diagnostic::CodegenInvalid {
                error: error.clone(),
                output: output.clone(),
            },
        }
    }
}

impl Diagnostic {
    /// Where the diagnostic points.
    pub fn anchor(&self) -> (anchor: Anchor)
        ensures
            anchor@ == self@.anchor(),
    {
        match self {
            Diagnostic::MissingFunctionName { keyword } => Anchor::Token(*keyword),
            Diagnostic::UnexpectedToken { index } => Anchor::Token(*index),
            Diagnostic::NoFunctionFound => Anchor::CallSite,
            Diagnostic::CodegenInvalid { .. } => Anchor::CallSite,
        }
    }

    /// The explanation shown to the author.
    pub fn message(&self) -> (message: String)
        ensures
            message@ == self@.message(),
    {
        match self {
            Diagnostic::MissingFunctionName { .. } => "no function name follows".to_owned(),
            Diagnostic::UnexpectedToken { .. } => "expected identifier".to_owned(),
            Diagnostic::NoFunctionFound => {
                "No function name found, please write valid code".to_owned()
            },
            Diagnostic::CodegenInvalid { error, output } => {
                let mut message = "codegen generated unexpectedly invalid code:\n".to_owned();
                message.append(error.as_str());
                message.append("\n-----Output:\n");
                message.append(output.as_str());
                message
            },
        }
    }

    /// The item that makes the compiler report this diagnostic, given the
    /// source text at its anchor where that text can be had.
    pub fn construct(&self, source: Option<&str>) -> (text: String)
        ensures
            text@ == error_item_text(
                match source {
                    Some(source) => Some(source@),
                    None => None,
                },
                self@.message(),
            ),
    {
        let message = self.message();
        error_item(source, message.as_str())
    }
}

/// What the author is shown: the source text, where there is one, then an
/// empty line, then the explanation.
pub open spec fn shown_text(source: Option<Seq<char>>, error: Seq<char>) -> Seq<char> {
    match source {
        Some(source) => source + "\n\n"@ + error,
        None => error,
    }
}

/// The text of an item that makes the compiler stop with a message: one
/// call of `compile_error!` on one string literal, between whose quotes the
/// source text and the explanation stand escaped.
pub open spec fn error_item_text(source: Option<Seq<char>>, error: Seq<char>) -> Seq<char> {
    match source {
        Some(source) => "compile_error!(\""@ + escaped(source) + "\n\n"@ + escaped(error)
            + "\");"@,
        None => "compile_error!(\""@ + escaped(error) + "\");"@,
    }
}

/// The item is one string literal that reads as what is shown: between the
/// opening and the closing quote stands the shown text escaped, in which
/// every backslash escapes the character after it and no double quote
/// stands without a backslash before it.
pub proof fn lemma_error_item_is_one_literal(source: Option<Seq<char>>, error: Seq<char>)
    ensures
        ({
            let body = escaped(shown_text(source, error));
            &&& error_item_text(source, error) == "compile_error!(\""@ + body + "\");"@
            &&& well_escaped(body)
            &&& literal_value(body) == shown_text(source, error)
            &&& forall|i: int|
                0 <= i < body.len() && #[trigger] body[i] == '"' ==> i > 0 && body[i - 1]
                    == '\\'
        }),
{
    let body = escaped(shown_text(source, error));
    lemma_escaped_is_literal(shown_text(source, error));
    lemma_quotes_escaped(shown_text(source, error));
    if let Some(source) = source {
        reveal_strlit("\n\n");
        lemma_escaped_plain("\n\n"@);
        lemma_escaped_concat(source, "\n\n"@);
        lemma_escaped_concat(source + "\n\n"@, error);
        assert(error_item_text(Some(source), error) =~= "compile_error!(\""@ + body + "\");"@);
    }
}

/// Writes the item that makes the compiler stop with `error`, shown below
/// the source text it is about where `source` holds that text.
pub fn error_item(source: Option<&str>, error: &str) -> (text: String)
    ensures
        text@ == error_item_text(
            match source {
                Some(source) => Some(source@),
                None => None,
            },
            error@,
        ),
{
    let mut text = "compile_error!(\"".to_owned();
    if let Some(source) = source {
        push_escaped(&mut text, source);
        text.append("\n\n");
    }
    push_escaped(&mut text, error);
    text.append("\");");
    text
}

} // verus!
