//! The rewriter as a machine that reads one token at a time.
//!
//! A [`Scanner`] starts out looking for the keyword, takes the token after
//! it as the function's name, copies the signature, rewrites the first group
//! in curly braces as the body and copies what is left. Every token that it
//! copies is followed by one space. A token that cannot be the name makes it
//! fail, and a failed scanner stays failed.

use crate::diagnostic::{Diagnostic, DiagnosticView};
use crate::text::{block, push_block, push_token};
use crate::token::{Delimiter, Token, TokenView};
use vstd::prelude::*;

verus! {

/// What a [`Scanner`] is doing.
#[derive(Debug, PartialEq, Eq)]
pub enum Phase {
    /// Copying tokens until the keyword comes.
    ScanningPrefix,
    /// The keyword came at index `keyword`; the next token is the name.
    CapturingName { keyword: usize },
    /// Copying the signature of the function `name` until its body comes.
    CopyingSignature { name: String },
    /// The body is rewritten; what still comes is copied after it.
    RewritingBody,
    /// The input is no function definition.
    Failed(Diagnostic),
}

/// The mathematical value of a [`Phase`].
pub enum PhaseView {
    ScanningPrefix,
    CapturingName { keyword: nat },
    CopyingSignature { name: Seq<char> },
    RewritingBody,
    Failed(DiagnosticView),
}

impl PhaseView {
    /// How far the phase is on the way from the prefix to the end: a scan
    /// never goes back to a phase that it has left.
    pub open spec fn rank(self) -> nat {
        match self {
            PhaseView::ScanningPrefix => 0,
            PhaseView::CapturingName { .. } => 1,
            PhaseView::CopyingSignature { .. } => 2,
            PhaseView::RewritingBody => 3,
            PhaseView::Failed(_) => 4,
        }
    }
}

impl View for Phase {
    type V = PhaseView;

    open spec fn view(&self) -> PhaseView {
        match *self {
            Phase::ScanningPrefix => PhaseView::ScanningPrefix,
            Phase::CapturingName { keyword } => PhaseView::CapturingName {
                keyword: keyword as nat,
            },
            Phase::CopyingSignature { name } => PhaseView::CopyingSignature { name: name@ },
            Phase::RewritingBody => PhaseView::RewritingBody,
            Phase::Failed(diagnostic) => PhaseView::Failed(diagnostic@),
        }
    }
}

impl Clone for Phase {
    /// The same phase.
    fn clone(&self) -> (copy: Phase)
        ensures
            copy@ == self@,
    {
        match self {
            Phase::ScanningPrefix => Phase::ScanningPrefix,
            Phase::CapturingName { keyword } => Phase::CapturingName { keyword: *keyword },
            Phase::CopyingSignature { name } => Phase::CopyingSignature { name: name.clone() },
            Phase::RewritingBody => Phase::RewritingBody,
            Phase::Failed(diagnostic) => Phase::Failed(diagnostic.clone()),
        }
    }
}

/// A single pass over the tokens of one item.
#[derive(Debug)]
pub struct Scanner {
    phase: Phase,
    consumed: usize,
    output: String,
}

/// The mathematical value of a [`Scanner`]: its phase, the number of tokens
/// it has read and the text it has written.
pub struct ScannerView {
    pub phase: PhaseView,
    pub consumed: nat,
    pub output: Seq<char>,
}

impl ScannerView {
    /// The scanner that has read nothing.
    pub open spec fn initial() -> ScannerView {
        ScannerView { phase: PhaseView::ScanningPrefix, consumed: 0, output: Seq::empty() }
    }

    /// The scanner after it has read `token`.
    pub open spec fn step(self, token: TokenView) -> ScannerView {
        let (phase, output) = match self.phase {
            PhaseView::ScanningPrefix => if token.is_keyword() {
                (PhaseView::CapturingName { keyword: self.consumed }, self.output + "fn "@)
            } else {
                (self.phase, self.output + token.text() + " "@)
            },
            PhaseView::CapturingName { .. } => match token {
                TokenView::Ident(name) => (
                    PhaseView::CopyingSignature { name },
                    self.output + name + " "@,
                ),
                _ => (
                    PhaseView::Failed(DiagnosticView::UnexpectedToken { index: self.consumed }),
                    self.output,
                ),
            },
            PhaseView::CopyingSignature { name } => match token {
                TokenView::Group { delimiter: Delimiter::Brace, stream, .. } => (
                    PhaseView::RewritingBody,
                    self.output + block(name, stream),
                ),
                _ => (self.phase, self.output + token.text() + " "@),
            },
            PhaseView::RewritingBody => (self.phase, self.output + token.text() + " "@),
            PhaseView::Failed(_) => (self.phase, self.output),
        };
        ScannerView { phase, consumed: self.consumed + 1, output }
    }

    /// What the scanner has to give when the input ends here.
    pub open spec fn finish(self) -> Result<Seq<char>, DiagnosticView> {
        match self.phase {
            PhaseView::ScanningPrefix => Err(DiagnosticView::NoFunctionFound),
            PhaseView::CapturingName { keyword } => Err(
                DiagnosticView::MissingFunctionName { keyword },
            ),
            PhaseView::CopyingSignature { .. } => Ok(self.output),
            PhaseView::RewritingBody => Ok(self.output),
            PhaseView::Failed(diagnostic) => Err(diagnostic),
        }
    }
}

/// The scanner after it has read all of `tokens`, from the first.
pub open spec fn scanned(tokens: Seq<TokenView>) -> ScannerView
    decreases tokens.len(),
{
    if tokens.len() == 0 {
        ScannerView::initial()
    } else {
        scanned(tokens.drop_last()).step(tokens.last())
    }
}

/// The phases come in one order: a token moves the scanner to a later
/// phase or leaves it in the one it is in.
pub proof fn lemma_phases_ordered(state: ScannerView, token: TokenView)
    ensures
        state.phase.rank() <= state.step(token).phase.rank(),
{
}

/// A failed scanner stays failed: the tokens that it still reads change
/// neither its diagnostic nor its text.
pub proof fn lemma_failed_stays(state: ScannerView, token: TokenView)
    requires
        state.phase is Failed,
    ensures
        state.step(token).phase == state.phase,
        state.step(token).output == state.output,
        state.step(token).finish() == state.finish(),
{
}

/// Once the scanner has failed on the first `read` of `tokens`, reading
/// the others gives the same diagnostic.
pub proof fn lemma_failure_is_final(tokens: Seq<TokenView>, read: int)
    requires
        0 <= read <= tokens.len(),
        scanned(tokens.take(read)).phase is Failed,
    ensures
        scanned(tokens).phase == scanned(tokens.take(read)).phase,
        scanned(tokens).finish() == scanned(tokens.take(read)).finish(),
    decreases tokens.len(),
{
    if read == tokens.len() {
        assert(tokens.take(read) =~= tokens);
    } else {
        let front = tokens.drop_last();
        assert(front.take(read) =~= tokens.take(read));
        lemma_failure_is_final(front, read);
        lemma_failed_stays(scanned(front), tokens.last());
    }
}

/// The mathematical value of what a scan gives: the text, or the diagnostic.
pub open spec fn outcome(result: Result<String, Diagnostic>) -> Result<Seq<char>, DiagnosticView> {
    match result {
        Ok(text) => Ok(text@),
        Err(diagnostic) => Err(diagnostic@),
    }
}

impl View for Scanner {
    type V = ScannerView;

    closed spec fn view(&self) -> ScannerView {
        ScannerView { phase: self.phase@, consumed: self.consumed as nat, output: self.output@ }
    }
}

impl Scanner {
    /// A scanner that has read nothing.
    pub fn new() -> (scanner: Scanner)
        ensures
            scanner@ == ScannerView::initial(),
    {
        Scanner { phase: Phase::ScanningPrefix, consumed: 0, output: String::new() }
    }

    /// What the scanner is doing.
    pub fn phase(&self) -> (phase: &Phase)
        ensures
            phase@ == self@.phase,
    {
        &self.phase
    }

    /// Whether the scanner has failed, so that no token can change what it
    /// gives.
    pub fn failed(&self) -> (failed: bool)
        ensures
            failed == (self@.phase is Failed),
    {
        match self.phase {
            Phase::Failed(_) => true,
            _ => false,
        }
    }

    /// The number of tokens read.
    pub fn consumed(&self) -> (consumed: usize)
        ensures
            consumed == self@.consumed,
    {
        self.consumed
    }

    /// The text written.
    pub fn output(&self) -> (output: &str)
        ensures
            output@ == self@.output,
    {
        self.output.as_str()
    }

    /// Reads the next token of the input.
    pub fn step(&mut self, token: &Token)
        requires
            old(self)@.consumed < usize::MAX,
        ensures
            final(self)@ == old(self)@.step(token@),
    {
        match &self.phase {
            Phase::ScanningPrefix => {
                if token.is_keyword() {
                    self.output.append("fn ");
                    self.phase = Phase::CapturingName { keyword: self.consumed };
                } else {
                    push_token(&mut self.output, token);
                }
            },
            Phase::CapturingName { .. } => {
                match token {
                    Token::Ident(name) => {
                        push_token(&mut self.output, token);
                        self.phase = Phase::CopyingSignature { name: name.clone() };
                    },
                    _ => {
                        self.phase = Phase::Failed(
                            Diagnostic::UnexpectedToken { index: self.consumed },
                        );
                    },
                }
            },
            Phase::CopyingSignature { name } => {
                match token {
                    Token::Group { delimiter: Delimiter::Brace, stream, .. } => {
                        push_block(&mut self.output, name.as_str(), stream.as_str());
                        self.phase = Phase::RewritingBody;
                    },
                    _ => {
                        push_token(&mut self.output, token);
                    },
                }
            },
            Phase::RewritingBody => {
                push_token(&mut self.output, token);
            },
            Phase::Failed(_) => {},
        }
        self.consumed = self.consumed + 1;
    }

    /// Ends the scan: the rewritten text, or why there is none.
    pub fn finish(self) -> (result: Result<String, Diagnostic>)
        ensures
            outcome(result) == self@.finish(),
    {
        match self.phase {
            Phase::ScanningPrefix => Err(Diagnostic::NoFunctionFound),
            Phase::CapturingName { keyword } => Err(Diagnostic::MissingFunctionName { keyword }),
            Phase::CopyingSignature { .. } => Ok(self.output),
            Phase::RewritingBody => Ok(self.output),
            Phase::Failed(diagnostic) => Err(diagnostic),
        }
    }
}

} // verus!
