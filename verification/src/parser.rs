//! The parser state machine: the token window (current and previous),
//! error accumulation, and panic-mode suppression of cascading reports.

use vstd::prelude::*;

use crate::is_extension_of;
use crate::token::Token;
use crate::token::TokenKind;
use crate::token::token_wf;
use crate::token::tokens_wf;

verus! {

/// Where an error report points, mirroring the rendering
/// `[line L] Error<at end | at 'lexeme' | >: message`.
#[derive(Debug)]
pub enum ErrorContext {
    /// The token was end of input: rendered as `at end`.
    AtEnd,
    /// An ordinary token: rendered as `at '<lexeme>'`.
    AtLexeme(String),
    /// A scanner error token: its message is the content, so the `at`
    /// clause is omitted entirely.
    Bare,
}

/// One recorded compile error.
#[derive(Debug)]
pub struct CompileError {
    pub line: u32,
    pub at: ErrorContext,
    pub message: String,
}

/// `e` is the record that reporting `message` at token `t` produces.
pub open spec fn is_error_record(e: CompileError, t: Token, message: Seq<char>) -> bool {
    &&& e.line == t.line
    &&& e.message@ == message
    &&& (t.kind == TokenKind::Eof ==> e.at is AtEnd)
    &&& (t.kind == TokenKind::Error ==> e.at is Bare)
    &&& (t.kind != TokenKind::Eof && t.kind != TokenKind::Error ==> (e.at matches
        ErrorContext::AtLexeme(l) && l@ == t.lexeme@))
}

/// The parser over a pre-scanned token stream.  `had_error` accumulates
/// for the whole compilation; `panic_mode` suppresses cascading reports
/// after the first one.
pub struct Parser {
    pub tokens: Vec<Token>,
    pub pos: usize,
    pub current: Token,
    pub previous: Token,
    pub had_error: bool,
    pub panic_mode: bool,
    pub errors: Vec<CompileError>,
}

/// The first index at or after `i` whose token the scanner did not mark
/// as a lexical error (or the end of the stream).
pub open spec fn skip_errors(ts: Seq<Token>, i: int) -> int
    decreases ts.len() - i,
{
    if i < 0 || i >= ts.len() {
        i
    } else if ts[i].kind != TokenKind::Error {
        i
    } else {
        skip_errors(ts, i + 1)
    }
}

pub proof fn lemma_skip_errors(ts: Seq<Token>, i: int)
    requires
        0 <= i <= ts.len(),
        ts.len() > 0,
        ts.last().kind == TokenKind::Eof,
    ensures
        i <= skip_errors(ts, i) <= ts.len(),
        i < ts.len() ==> skip_errors(ts, i) < ts.len() && ts[skip_errors(ts, i)].kind
            != TokenKind::Error,
        i == ts.len() ==> skip_errors(ts, i) == i,
        forall|m: int| i <= m < skip_errors(ts, i) ==> ts[m].kind == TokenKind::Error,
    decreases ts.len() - i,
{
    if i < ts.len() && ts[i].kind == TokenKind::Error {
        lemma_skip_errors(ts, i + 1);
    }
}

/// The transition that reporting `message` at token `t` makes on the
/// parser: under panic mode nothing changes; otherwise both flags are set
/// and exactly one record is appended.  Either way the error flag is set
/// afterwards, and the token window does not move.
pub open spec fn reports_error(pre: Parser, post: Parser, t: Token, message: Seq<char>) -> bool {
    &&& post.tokens == pre.tokens
    &&& post.pos == pre.pos
    &&& post.current == pre.current
    &&& post.previous == pre.previous
    &&& post.had_error
    &&& (pre.panic_mode ==> post == pre)
    &&& (!pre.panic_mode ==> {
        &&& post.panic_mode
        &&& post.errors@.len() == pre.errors@.len() + 1
        &&& post.errors@.drop_last() == pre.errors@
        &&& is_error_record(post.errors@.last(), t, message)
    })
}

/// The transition one `advance` makes: the current token is shifted into
/// `previous`, every scanner error token from the read position on is
/// reported (the first one records, the rest are collapsed by panic
/// mode) and discarded, and the next real token becomes current.  Past
/// the end of the stream, end of input is reported as an `Eof` token.
pub open spec fn advanced(pre: Parser, post: Parser) -> bool {
    let j = skip_errors(pre.tokens@, pre.pos as int);
    &&& post.tokens == pre.tokens
    &&& post.previous == pre.current
    &&& post.pos >= pre.pos
    &&& is_extension_of(post.errors@, pre.errors@)
    &&& (pre.had_error ==> post.had_error)
    &&& (pre.panic_mode ==> post.panic_mode)
    &&& (j < pre.tokens@.len() ==> post.current == pre.tokens@[j] && post.pos == j + 1)
    &&& (j >= pre.tokens@.len() ==> post.current.kind == TokenKind::Eof && post.pos == j)
    &&& (j == pre.pos ==> post.errors == pre.errors && post.had_error == pre.had_error
        && post.panic_mode == pre.panic_mode)
    &&& (j > pre.pos ==> {
        &&& post.had_error
        &&& post.panic_mode
        &&& (pre.panic_mode ==> post.errors == pre.errors)
        &&& (!pre.panic_mode ==> post.errors@.len() == pre.errors@.len() + 1
            && post.errors@.drop_last() == pre.errors@
            && is_error_record(post.errors@.last(), pre.tokens@[pre.pos as int],
                pre.tokens@[pre.pos as int].lexeme@))
    })
}

impl Parser {
    /// The parser's own invariant: the stream ends in `Eof`, the read
    /// position never leaves the stream, the window holds well-formed
    /// non-error tokens, and the error flag agrees with the records.
    pub open spec fn wf(self) -> bool {
        &&& self.tokens@.len() > 0
        &&& self.tokens@.last().kind == TokenKind::Eof
        &&& self.pos <= self.tokens@.len()
        &&& (self.current.kind != TokenKind::Eof ==> self.pos < self.tokens@.len())
        &&& self.current.kind != TokenKind::Error
        &&& token_wf(self.current)
        &&& token_wf(self.previous)
        &&& tokens_wf(self.tokens@)
        &&& self.flags_wf()
    }

    /// A fresh parser over a stream; nothing is read until the first
    /// advance primes the window.
    pub fn new(tokens: Vec<Token>) -> (p: Parser)
        requires
            tokens@.len() > 0,
            tokens@.last().kind == TokenKind::Eof,
            tokens_wf(tokens@),
        ensures
            p.wf(),
            p.tokens == tokens,
            p.pos == 0,
            p.errors@ == Seq::<CompileError>::empty(),
            !p.had_error,
            !p.panic_mode,
            p.current.kind == TokenKind::Eof,
            p.current.lexeme@ == Seq::<char>::empty(),
            p.current.line == 0,
            p.previous.kind == TokenKind::Eof,
            p.previous.lexeme@ == Seq::<char>::empty(),
            p.previous.line == 0,
    {
        Parser {
            tokens,
            pos: 0,
            current: Token::new(),
            previous: Token::new(),
            had_error: false,
            panic_mode: false,
            errors: Vec::new(),
        }
    }

    /// The coupling between the error flags and the records, which every
    /// operation preserves even while the token window is mid-shift.
    pub open spec fn flags_wf(self) -> bool {
        &&& (self.had_error <==> self.errors@.len() > 0)
        &&& (self.panic_mode ==> self.had_error)
    }

    /// Report an error at the current token.
    pub fn error_at_current(&mut self, message: &str)
        requires
            old(self).flags_wf(),
        ensures
            final(self).flags_wf(),
            reports_error(*old(self), *final(self), old(self).current, message@),
    {
        self.error_at(true, message);
    }

    /// Report an error at the previous token.
    pub fn error_at_previous(&mut self, message: &str)
        requires
            old(self).flags_wf(),
        ensures
            final(self).flags_wf(),
            reports_error(*old(self), *final(self), old(self).previous, message@),
    {
        self.error_at(false, message);
    }

    /// The single reporting funnel: a no-op under panic mode, otherwise
    /// it sets panic mode and the error flag and appends one record for
    /// the chosen token of the window.
    pub fn error_at(&mut self, at_current: bool, message: &str)
        requires
            old(self).flags_wf(),
        ensures
            final(self).flags_wf(),
            reports_error(
                *old(self),
                *final(self),
                if at_current { old(self).current } else { old(self).previous },
                message@,
            ),
    {
        if self.panic_mode {
            return;
        }
        let kind = if at_current { self.current.kind } else { self.previous.kind };
        let line = if at_current { self.current.line } else { self.previous.line };
        let at = if kind == TokenKind::Eof {
            ErrorContext::AtEnd
        } else if kind == TokenKind::Error {
            ErrorContext::Bare
        } else if at_current {
            ErrorContext::AtLexeme(self.current.lexeme.clone())
        } else {
            ErrorContext::AtLexeme(self.previous.lexeme.clone())
        };
        self.panic_mode = true;
        self.had_error = true;
        let record = CompileError { line, at, message: message.to_owned() };
        self.errors.push(record);
        proof {
            assert(self.errors@.drop_last() =~= old(self).errors@);
        }
    }

    /// Shift the window one real token forward, reporting and discarding
    /// every scanner error token on the way.
    pub fn advance(&mut self)
        requires
            old(self).wf(),
        ensures
            final(self).wf(),
            advanced(*old(self), *final(self)),
    {
        proof {
            lemma_skip_errors(self.tokens@, self.pos as int);
        }
        let ghost j = skip_errors(self.tokens@, self.pos as int);
        self.previous = self.current.clone();
        let mut done = false;
        while !done
            invariant
                old(self).wf(),
                j == skip_errors(old(self).tokens@, old(self).pos as int),
                self.tokens == old(self).tokens,
                self.previous == old(self).current,
                old(self).pos <= self.pos,
                self.pos <= self.tokens@.len(),
                is_extension_of(self.errors@, old(self).errors@),
                self.had_error <==> self.errors@.len() > 0,
                self.panic_mode ==> self.had_error,
                token_wf(self.previous),
                !done ==> self.pos as int <= j && skip_errors(self.tokens@, self.pos as int)
                    == j,
                done ==> {
                    &&& (j < self.tokens@.len() ==> self.current == self.tokens@[j]
                        && self.pos == j + 1)
                    &&& (j >= self.tokens@.len() ==> self.current.kind == TokenKind::Eof
                        && self.pos == j)
                    &&& self.current.kind != TokenKind::Error
                    &&& token_wf(self.current)
                    &&& (self.current.kind != TokenKind::Eof ==> self.pos
                        < self.tokens@.len())
                },
                self.pos == old(self).pos ==> self.errors == old(self).errors
                    && self.had_error == old(self).had_error && self.panic_mode == old(
                    self,
                ).panic_mode,
                self.pos > old(self).pos && j == old(self).pos ==> self.errors == old(
                    self,
                ).errors && self.had_error == old(self).had_error && self.panic_mode == old(
                    self,
                ).panic_mode,
                self.pos > old(self).pos && j > old(self).pos ==> {
                    &&& self.had_error
                    &&& self.panic_mode
                    &&& (old(self).panic_mode ==> self.errors == old(self).errors)
                    &&& (!old(self).panic_mode ==> self.errors@.len() == old(
                        self,
                    ).errors@.len() + 1 && self.errors@.drop_last() == old(self).errors@
                        && is_error_record(self.errors@.last(),
                        old(self).tokens@[old(self).pos as int],
                        old(self).tokens@[old(self).pos as int].lexeme@))
                },
            decreases self.tokens@.len() - self.pos + (if done { 0int } else { 1int }),
        {
            if self.pos < self.tokens.len() {
                let ghost p0 = self.pos as int;
                let t = self.tokens[self.pos].clone();
                self.pos = self.pos + 1;
                if t.kind != TokenKind::Error {
                    self.current = t;
                    done = true;
                    proof {
                        lemma_skip_errors(self.tokens@, p0);
                        assert(skip_errors(self.tokens@, p0) == p0);
                    }
                } else {
                    self.current = t;
                    proof {
                        assert(self.tokens@[p0].kind == TokenKind::Error);
                        assert(skip_errors(self.tokens@, p0) == skip_errors(
                            self.tokens@,
                            p0 + 1,
                        ));
                        lemma_skip_errors(self.tokens@, p0 + 1);
                    }
                    let message = self.current.lexeme.clone();
                    self.error_at_current(message.as_str());
                }
            } else {
                let line = self.previous.line;
                self.current = Token { kind: TokenKind::Eof, lexeme: String::new(), line };
                done = true;
            }
        }
    }

    /// Require the current token to be of the expected category: advance
    /// past it when it is, report `message` at it when it is not.  This
    /// is the sole mechanism for required-token grammar constraints.
    pub fn consume(&mut self, kind: TokenKind, message: &str)
        requires
            old(self).wf(),
        ensures
            final(self).wf(),
            old(self).current.kind == kind ==> advanced(*old(self), *final(self)),
            old(self).current.kind != kind ==> reports_error(*old(self), *final(self),
                old(self).current, message@),
    {
        if self.current.kind == kind {
            self.advance();
            return;
        }
        self.error_at_current(message);
    }
}

} // verus!
