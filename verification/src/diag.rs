//! Diagnostics: the values each stage hands back instead of writing to a
//! process-wide error flag, and their rendered report lines.

use vstd::prelude::*;

use crate::text::dec_digits;
use crate::text::line_string_of;
use crate::token::Token;
use crate::token_type::TokenType;

verus! {

/// One lexical or syntactic diagnostic: the 1-based source line, the locus
/// text spliced after the word `Error` (empty, ` at end`, or ` at '...'`),
/// and the message.
#[derive(Debug)]
pub struct Diag {
    pub line: usize,
    pub locus: String,
    pub message: String,
}

/// The mathematical shape of a diagnostic.
pub struct SpecDiag {
    pub line: int,
    pub locus: Seq<char>,
    pub message: Seq<char>,
}

impl View for Diag {
    type V = SpecDiag;

    open spec fn view(&self) -> SpecDiag {
        SpecDiag { line: self.line as int, locus: self.locus@, message: self.message@ }
    }
}

impl DeepView for Diag {
    type V = SpecDiag;

    open spec fn deep_view(&self) -> SpecDiag {
        self.view()
    }
}

impl Clone for Diag {
    fn clone(&self) -> (r: Self)
        ensures
            r@ == self@,
    {
        Diag { line: self.line, locus: self.locus.clone(), message: self.message.clone() }
    }
}

/// A diagnostic at a bare line, as the scanner reports them.
pub fn error(line: usize, message: String) -> (r: Diag)
    ensures
        r@ == (SpecDiag { line: line as int, locus: Seq::empty(), message: message@ }),
{
    Diag { line, locus: String::new(), message }
}

/// The locus text of a diagnostic tied to a token: `at end` for the
/// end-of-input token, otherwise `at` with the token's lexeme quoted.
pub open spec fn spec_locus(kind: TokenType, lexeme: Seq<char>) -> Seq<char> {
    if kind == TokenType::EOF {
        " at end"@
    } else {
        " at '"@ + lexeme + "'"@
    }
}

/// A diagnostic tied to the token where the failure was noticed, as the
/// parser reports them.
pub fn error_token(token: &Token, message: String) -> (r: Diag)
    ensures
        r@ == (SpecDiag {
            line: token@.line,
            locus: spec_locus(token@.kind, token@.lexeme),
            message: message@,
        }),
{
    let locus: String = match token.kind {
        TokenType::EOF => String::from_str(" at end"),
        _ => {
            let mut s = String::from_str(" at '");
            s.append(token.lexeme.as_str());
            s.append("'");
            s
        },
    };
    Diag { line: token.line, locus, message }
}

/// The report line a diagnostic renders as.
pub open spec fn spec_render_diag(d: SpecDiag) -> Seq<char> {
    "[line "@ + dec_digits(d.line) + "] Error"@ + d.locus + ": "@ + d.message
}

/// The report line a runtime error renders as: the message, then the line.
pub open spec fn spec_render_runtime(t: crate::token::SpecToken, message: Seq<char>) -> Seq<char> {
    message + "\n[line "@ + dec_digits(t.line) + "]"@
}

impl Diag {
    /// Render this diagnostic as its report line.
    pub fn render(&self) -> (r: String)
        ensures
            r@ == spec_render_diag(self@),
    {
        let mut s = String::from_str("[line ");
        let line_text = line_string_of(self.line);
        s.append(line_text.as_str());
        s.append("] Error");
        s.append(self.locus.as_str());
        s.append(": ");
        s.append(self.message.as_str());
        s
    }
}

/// Render a runtime error as its report line.
pub fn render_runtime_error(err: &(Token, String)) -> (r: String)
    ensures
        r@ == spec_render_runtime(err.0@, err.1@),
{
    let mut s = err.1.clone();
    s.append("\n[line ");
    let line_text = line_string_of(err.0.line);
    s.append(line_text.as_str());
    s.append("]");
    s
}

} // verus!
