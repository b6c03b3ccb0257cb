//! The compilation driver, the code generator, and the
//! precedence-climbing engine.

use vstd::prelude::*;
use vstd::string::StrSliceExecFns;

use crate::chunk::Chunk;
use crate::chunk::OP_ADD;
use crate::chunk::OP_CONSTANT;
use crate::chunk::OP_DIVIDE;
use crate::chunk::OP_FALSE;
use crate::chunk::OP_EQUAL;
use crate::chunk::OP_GREATER;
use crate::chunk::OP_LESS;
use crate::chunk::OP_MULTIPLY;
use crate::chunk::OP_NEGATE;
use crate::chunk::OP_NIL;
use crate::chunk::OP_NOT;
use crate::chunk::OP_RETURN;
use crate::chunk::OP_SUBTRACT;
use crate::chunk::OP_TRUE;
use crate::chunk::code_wf;
use crate::chunk::lemma_code_wf_append;
use crate::chunk::lemma_code_wf_mono;
use crate::chunk::lemma_code_wf_simple;
use crate::chunk::lemma_code_wf_two;
use crate::chunk::simple_opcode;
use crate::grammar::action_code;
use crate::grammar::action_end;
use crate::grammar::binary_op_bytes;
use crate::grammar::expr_code;
use crate::grammar::expr_end;
use crate::grammar::infix_code;
use crate::grammar::infix_end;
use crate::grammar::infix_level;
use crate::grammar::is_const_site;
use crate::grammar::lemma_action_end_bounds;
use crate::grammar::lemma_infix_end_bounds;
use crate::grammar::lemma_n_consts_nonneg;
use crate::grammar::lemma_n_consts_split;
use crate::grammar::lemma_nth_const_site_shift;
use crate::grammar::lemma_pooled_entry_mono;
use crate::grammar::lexically_clean;
use crate::grammar::lit_bytes;
use crate::grammar::n_consts;
use crate::grammar::no_error_tokens;
use crate::grammar::nth_const_site;
use crate::grammar::pooled_entry_for;
use crate::grammar::unary_op_bytes;
use crate::interner::Interner;
use crate::is_extension_of;
use crate::parser::CompileError;
use crate::parser::Parser;
use crate::parser::is_error_record;
use crate::parser::lemma_skip_errors;
use crate::parser::reports_error;
use crate::parser::skip_errors;
use crate::rules::ParseAction;
use crate::rules::ParseRule;
use crate::rules::Precedence;
use crate::rules::get_rule;
use crate::rules::increment_prec;
use crate::rules::prec_ge;
use crate::rules::prec_level;
use crate::rules::spec_rule;
use crate::token::Token;
use crate::token::TokenKind;
use crate::token::tokens_wf;
use crate::value::Value;

verus! {

/// A failed compilation: the recorded error reports.  No bytecode leaves
/// the driver on failure.
#[derive(Debug)]
pub struct CompileFailure {
    pub errors: Vec<CompileError>,
}

/// Hard bound on expression nesting depth: each level of grouping, unary
/// operation or binary right operand descends one level, and exceeding
/// the bound is reported as a compile error instead of exhausting the
/// call stack.
pub const MAX_NESTING: u32 = 64;

/// What code generation may do to the parser: record errors.  The token
/// window and the stream never move.
pub open spec fn emits_only(pre: Parser, post: Parser) -> bool {
    &&& post.tokens == pre.tokens
    &&& post.pos == pre.pos
    &&& post.current == pre.current
    &&& post.previous == pre.previous
    &&& is_extension_of(post.errors@, pre.errors@)
    &&& (pre.had_error ==> post.had_error)
    &&& (pre.panic_mode ==> post.panic_mode)
}

/// What any parse step may do to the whole compiler: consume tokens
/// forward, append code, constants and error records, and only ever raise
/// the error flags.
pub open spec fn extends(pre: Compiler, post: Compiler) -> bool {
    &&& post.parser.tokens == pre.parser.tokens
    &&& is_extension_of(post.chunk.code@, pre.chunk.code@)
    &&& is_extension_of(post.chunk.constants@, pre.chunk.constants@)
    &&& is_extension_of(post.parser.errors@, pre.parser.errors@)
    &&& post.parser.pos >= pre.parser.pos
    &&& (pre.parser.had_error ==> post.parser.had_error)
    &&& (pre.parser.panic_mode ==> post.parser.panic_mode)
}

/// The parser window agrees with the read position: the current token is
/// the one at `pos - 1`.
pub open spec fn synced(p: Parser) -> bool {
    &&& 1 <= p.pos <= p.tokens@.len()
    &&& p.current == p.tokens@[p.pos - 1]
}

/// An engine state in which no error has been recorded and the window is
/// in step with the stream.
pub open spec fn owed_scan(pre: Compiler) -> bool {
    &&& synced(pre.parser)
    &&& !pre.parser.had_error
}

/// As `owed_scan`, on a stream the scanner found no lexical error in:
/// from here the engine owes a full parse of what the grammar accepts.
pub open spec fn owed_parse(pre: Compiler) -> bool {
    &&& lexically_clean(pre.parser.tokens@)
    &&& owed_scan(pre)
}

/// Exactly what a no-error run of one parse step pins down, starting
/// from `pre`: the grammar's end `end_of` is exactly where the window
/// stopped, the consumed range held no scanner error token, the emitted
/// instructions are `emitted`, and the pool grew by one entry per
/// constant site — `site` of them for the selecting (previous) token
/// itself, the rest for the consumed range, each entry fixed by its
/// token and resolvable through the interning table `table`.
pub open spec fn parsed_output(
    pre: Compiler,
    post: Compiler,
    end_of: Option<int>,
    emitted: Seq<u8>,
    site: int,
    table: Seq<Seq<char>>,
) -> bool {
    let ts = pre.parser.tokens@;
    let i = pre.parser.pos - 1;
    let end = post.parser.pos - 1;
    &&& end_of == Some(end)
    &&& synced(post.parser)
    &&& (end == i ==> post.parser.previous == pre.parser.previous)
    &&& (end > i ==> post.parser.previous == ts[end - 1])
    &&& no_error_tokens(ts, i, end)
    &&& post.chunk.code@ == pre.chunk.code@ + emitted
    &&& post.chunk.constants@.len() == pre.chunk.constants@.len() + site + n_consts(ts, i, end)
    &&& (site == 1 ==> pooled_entry_for(
        post.chunk.constants@[pre.chunk.constants@.len() as int],
        pre.parser.previous,
        table,
    ))
    &&& forall|m: int| 0 <= m < n_consts(ts, i, end) ==> pooled_entry_for(
        post.chunk.constants@[pre.chunk.constants@.len() + site + m],
        ts[nth_const_site(ts, i, m)],
        table,
    )
}

/// The compiler: parser state plus the chunk being filled.
pub struct Compiler {
    pub chunk: Chunk,
    pub parser: Parser,
}

impl Compiler {
    /// The compiler's invariant: a well-formed parser, one line entry per
    /// emitted byte, a constant pool within the one-byte operand range,
    /// and instruction bytes that decode into whole instructions whose
    /// operands all lie inside the pool.
    pub open spec fn wf(self) -> bool {
        &&& self.parser.wf()
        &&& self.chunk.lines@.len() == self.chunk.code@.len()
        &&& self.chunk.constants@.len() <= 256
        &&& code_wf(self.chunk.code@, self.chunk.constants@.len() as int)
    }

    /// Compile one expression from a scanned token stream into a chunk.
    ///
    /// The stream must be scanner-shaped: non-empty, with end of input
    /// signaled exactly once, by its final `Eof` token.  The result is
    /// `Ok` exactly when the stream is lexically clean, one expression of
    /// the grammar spans it, and its constant sites fit the one-byte
    /// pool; the chunk is then exactly the spec-level compilation of the
    /// stream — `expr_code` followed by `Return`, with one pool entry per
    /// constant site, each resolvable through the interner — a
    /// well-formed instruction sequence whose operands index the pool,
    /// with one line per byte.  On failure at least one error is
    /// recorded and no chunk is handed out.
    pub fn compile(tokens: Vec<Token>, interner: &mut Interner) -> (result: Result<
        Chunk,
        CompileFailure,
    >)
        requires
            tokens@.len() > 0,
            tokens@.last().kind == TokenKind::Eof,
            forall|k: int| 0 <= k < tokens@.len() - 1 ==> (#[trigger] tokens@[k]).kind
                != TokenKind::Eof,
            tokens_wf(tokens@),
            old(interner).wf(),
        ensures
            final(interner).wf(),
            is_extension_of(final(interner)@, old(interner)@),
            match result {
                Ok(chunk) => {
                    &&& chunk.lines@.len() == chunk.code@.len()
                    &&& chunk.code@.len() > 0
                    &&& chunk.code@.last() == OP_RETURN
                    &&& chunk.constants@.len() <= 256
                    &&& code_wf(chunk.code@, chunk.constants@.len() as int)
                },
                Err(failure) => failure.errors@.len() > 0,
            },
            (result is Ok <==> (lexically_clean(tokens@) && expr_end(
                tokens@,
                0,
                prec_level(Precedence::Assignment),
                MAX_NESTING as nat,
            ) == Some((tokens@.len() - 1) as int) && n_consts(tokens@, 0, tokens@.len() - 1)
                <= 256)),
            (match result {
                Ok(chunk) => {
                    &&& chunk.code@ == expr_code(
                        tokens@,
                        0,
                        prec_level(Precedence::Assignment),
                        MAX_NESTING as nat,
                        0,
                    ) + seq![OP_RETURN]
                    &&& chunk.constants@.len() == n_consts(tokens@, 0, tokens@.len() - 1)
                    &&& forall|m: int| 0 <= m < chunk.constants@.len() ==> pooled_entry_for(
                        chunk.constants@[m],
                        tokens@[nth_const_site(tokens@, 0, m)],
                        final(interner)@,
                    )
                },
                Err(_) => true,
            }),
    {
        let ghost ts = tokens@;
        let ghost minl = prec_level(Precedence::Assignment);
        let ghost fl = MAX_NESTING as nat;
        let ghost accepted = lexically_clean(ts) && expr_end(ts, 0, minl, fl) == Some(
            (ts.len() - 1) as int,
        ) && n_consts(ts, 0, ts.len() - 1) <= 256;
        let parser = Parser::new(tokens);
        let mut compiler = Compiler { chunk: Chunk::new(), parser };
        proof {
            lemma_skip_errors(ts, 0);
            if accepted {
                assert(ts[0].kind != TokenKind::Error);
                assert(skip_errors(ts, 0) == 0);
            }
        }
        compiler.parser.advance();
        proof {
            if !compiler.parser.had_error {
                if ts[0].kind == TokenKind::Error {
                    lemma_skip_errors(ts, 1);
                    assert(false);
                }
                assert(skip_errors(ts, 0) == 0);
            }
        }
        compiler.expression(interner, MAX_NESTING);
        let ghost mid = compiler;
        proof {
            assert(skip_errors(ts, ts.len() as int) == ts.len() as int);
            if !mid.parser.had_error {
                if mid.parser.current.kind != TokenKind::Eof {
                } else {
                    assert(ts[mid.parser.pos - 1].kind == TokenKind::Eof);
                    if mid.parser.pos - 1 < ts.len() - 1 {
                        assert(false);
                    }
                }
            }
        }
        compiler.parser.consume(TokenKind::Eof, "Expect end of expression.");
        proof {
            if !compiler.parser.had_error {
                assert(mid.parser.current.kind == TokenKind::Eof);
                assert(mid.parser.pos == ts.len());
                assert(expr_end(ts, 0, minl, fl) == Some((ts.len() - 1) as int));
                assert forall|k: int| 0 <= k < ts.len() implies (#[trigger] ts[k]).kind
                    != TokenKind::Error by {
                    if k < ts.len() - 1 {
                        assert(ts[k].kind != TokenKind::Error);
                    } else {
                        assert(ts[k].kind == TokenKind::Eof);
                    }
                }
                assert(mid.chunk.code@ =~= Seq::<u8>::empty() + expr_code(ts, 0, minl, fl, 0));
                assert(mid.chunk.code@ =~= expr_code(ts, 0, minl, fl, 0));
            }
        }
        compiler.end();
        if compiler.parser.had_error {
            proof {
                if accepted {
                    assert(!mid.parser.had_error);
                    assert(mid.parser.pos == ts.len() && mid.parser.current.kind
                        == TokenKind::Eof);
                    assert(!compiler.parser.had_error);
                }
            }
            Err(CompileFailure { errors: compiler.parser.errors })
        } else {
            proof {
                assert(compiler.chunk.code@ =~= expr_code(ts, 0, minl, fl, 0) + seq![
                    OP_RETURN,
                ]);
            }
            Ok(compiler.chunk)
        }
    }

    /// Finish the chunk: the whole unit is one evaluated expression, so
    /// it ends in a `Return` instruction.
    fn end(&mut self)
        requires
            old(self).wf(),
        ensures
            final(self).wf(),
            final(self).chunk.code@ == old(self).chunk.code@.push(OP_RETURN),
            final(self).chunk.constants == old(self).chunk.constants,
            final(self).parser == old(self).parser,
    {
        self.emit_return();
    }

    /// Look up a token category's rule.
    fn get_rule(&self, kind: TokenKind) -> (r: ParseRule)
        ensures
            r == spec_rule(kind),
    {
        get_rule(kind)
    }

    /// An expression is parsed at the lowest binding level above none, so
    /// every token category with any rule participates.
    fn expression(&mut self, interner: &mut Interner, depth: u32)
        requires
            old(self).wf(),
            old(interner).wf(),
        ensures
            final(self).wf(),
            final(interner).wf(),
            extends(*old(self), *final(self)),
            is_extension_of(final(interner)@, old(interner)@),
            (owed_scan(*old(self)) && !final(self).parser.had_error) ==> parsed_output(
                *old(self),
                *final(self),
                expr_end(
                    old(self).parser.tokens@,
                    old(self).parser.pos - 1,
                    prec_level(Precedence::Assignment),
                    depth as nat,
                ),
                expr_code(
                    old(self).parser.tokens@,
                    old(self).parser.pos - 1,
                    prec_level(Precedence::Assignment),
                    depth as nat,
                    old(self).chunk.constants@.len() as int,
                ),
                0,
                final(interner)@,
            ),
            ({
                let ts = old(self).parser.tokens@;
                let i = old(self).parser.pos - 1;
                let r = expr_end(ts, i, prec_level(Precedence::Assignment), depth as nat);
                (owed_parse(*old(self)) && r is Some && old(self).chunk.constants@.len()
                    + n_consts(ts, i, r->Some_0) <= 256) ==> !final(self).parser.had_error
            }),
        decreases depth, 4int,
    {
        self.parse_precedence(interner, Precedence::Assignment, depth);
    }

    /// The precedence-climbing engine: consume one prefix term, then fold
    /// in every infix operator that binds at least as tightly as
    /// `min_prec`.  Binary operators recurse one level above their own
    /// precedence, which makes every operator left-associative.  A token
    /// with no prefix rule in expression position is reported as
    /// "Expect expression" and stops only this recursive call.
    fn parse_precedence(&mut self, interner: &mut Interner, min_prec: Precedence, depth: u32)
        requires
            old(self).wf(),
            old(interner).wf(),
            prec_level(min_prec) >= 1,
        ensures
            final(self).wf(),
            final(interner).wf(),
            extends(*old(self), *final(self)),
            is_extension_of(final(interner)@, old(interner)@),
            (owed_scan(*old(self)) && !final(self).parser.had_error) ==> parsed_output(
                *old(self),
                *final(self),
                expr_end(
                    old(self).parser.tokens@,
                    old(self).parser.pos - 1,
                    prec_level(min_prec),
                    depth as nat,
                ),
                expr_code(
                    old(self).parser.tokens@,
                    old(self).parser.pos - 1,
                    prec_level(min_prec),
                    depth as nat,
                    old(self).chunk.constants@.len() as int,
                ),
                0,
                final(interner)@,
            ),
            ({
                let ts = old(self).parser.tokens@;
                let i = old(self).parser.pos - 1;
                let r = expr_end(ts, i, prec_level(min_prec), depth as nat);
                (owed_parse(*old(self)) && r is Some && old(self).chunk.constants@.len()
                    + n_consts(ts, i, r->Some_0) <= 256) ==> !final(self).parser.had_error
            }),
            (owed_parse(*old(self)) && depth >= 1 && spec_rule(
                old(self).parser.current.kind,
            ).prefix is None) ==> {
                &&& final(self).chunk == old(self).chunk
                &&& final(self).parser.had_error
                &&& final(self).parser.pos == (if old(self).parser.pos
                    < old(self).parser.tokens@.len() {
                    old(self).parser.pos + 1
                } else {
                    old(self).parser.pos as int
                })
                &&& final(self).parser.errors@.len() == old(self).parser.errors@.len() + 1
                &&& final(self).parser.errors@.drop_last() == old(self).parser.errors@
                &&& is_error_record(final(self).parser.errors@.last(),
                    old(self).parser.current, "Expect expression"@)
            },
        decreases depth, 3int,
    {
        let ghost ts = old(self).parser.tokens@;
        let ghost i0 = old(self).parser.pos - 1;
        let ghost fuel = depth as nat;
        let ghost minlvl = prec_level(min_prec);
        let ghost base0 = old(self).chunk.constants@.len() as int;
        let ghost r = expr_end(ts, i0, minlvl, fuel);
        let ghost hyp = owed_parse(*old(self)) && r is Some && base0 + n_consts(
            ts,
            i0,
            r->Some_0,
        ) <= 256;
        if depth == 0 {
            self.parser.error_at_current("Expression nesting too deep.");
            return;
        }
        proof {
            if owed_parse(*old(self)) {
                if old(self).parser.pos < ts.len() {
                    assert(ts[old(self).parser.pos as int].kind != TokenKind::Error);
                }
                assert(skip_errors(ts, old(self).parser.pos as int) == old(
                    self,
                ).parser.pos as int);
            }
        }
        self.parser.advance();
        proof {
            if owed_scan(*old(self)) && !self.parser.had_error {
                lemma_skip_errors(ts, old(self).parser.pos as int);
                if old(self).parser.pos < ts.len() && ts[old(self).parser.pos as int].kind
                    == TokenKind::Error {
                    lemma_skip_errors(ts, old(self).parser.pos + 1);
                    assert(false);
                }
                assert(skip_errors(ts, old(self).parser.pos as int) == old(
                    self,
                ).parser.pos as int);
            }
        }
        let prefix = self.get_rule(self.parser.previous.kind).prefix;
        match prefix {
            Some(action) => {
                proof {
                    if hyp {
                        assert(ts[i0].kind != TokenKind::Eof);
                        let a = spec_rule(ts[i0].kind).prefix->Some_0;
                        lemma_action_end_bounds(ts, a, ts[i0].kind, i0 + 1, fuel);
                        let jmid = action_end(ts, a, ts[i0].kind, i0 + 1, fuel)->Some_0;
                        let jend = r->Some_0;
                        lemma_infix_end_bounds(ts, jmid, minlvl, fuel);
                        lemma_n_consts_split(ts, i0, i0 + 1, jmid);
                        lemma_n_consts_split(ts, i0, jmid, jend);
                        lemma_n_consts_nonneg(ts, jmid, jend);
                        assert(n_consts(ts, i0, i0) == 0);
                        assert(n_consts(ts, i0, i0 + 1) == (if is_const_site(ts[i0].kind) {
                            1int
                        } else {
                            0int
                        }));
                    }
                }
                self.dispatch(interner, action, depth);
                proof {
                    if owed_scan(*old(self)) && !self.parser.had_error {
                        let jmid = self.parser.pos - 1;
                        assert(ts[i0].kind != TokenKind::Error);
                        lemma_n_consts_split(ts, i0, i0 + 1, jmid);
                        assert(n_consts(ts, i0, i0) == 0);
                        assert(n_consts(ts, i0, i0 + 1) == (if is_const_site(ts[i0].kind) {
                            1int
                        } else {
                            0int
                        }));
                        assert(expr_end(ts, i0, minlvl, fuel) == infix_end(
                            ts,
                            jmid,
                            minlvl,
                            fuel,
                        ));
                        assert(expr_code(ts, i0, minlvl, fuel, base0) == action_code(
                            ts,
                            spec_rule(ts[i0].kind).prefix->Some_0,
                            ts[i0].kind,
                            i0 + 1,
                            fuel,
                            base0,
                        ) + infix_code(ts, jmid, minlvl, fuel, base0 + n_consts(
                            ts,
                            i0,
                            jmid,
                        )));
                        assert(old(self).chunk.code@ + expr_code(ts, i0, minlvl, fuel, base0)
                            =~= self.chunk.code@ + infix_code(ts, jmid, minlvl, fuel, base0
                            + n_consts(ts, i0, jmid)));
                        let site = if is_const_site(ts[i0].kind) {
                            1int
                        } else {
                            0int
                        };
                        assert forall|m: int| 0 <= m < n_consts(ts, i0, jmid) implies
                            pooled_entry_for(self.chunk.constants@[base0 + m], ts[
                            nth_const_site(ts, i0, m)], interner@) by {
                            if is_const_site(ts[i0].kind) {
                                if m == 0 {
                                    assert(nth_const_site(ts, i0, 0) == i0);
                                } else {
                                    assert(nth_const_site(ts, i0, m) == nth_const_site(
                                        ts,
                                        i0 + 1,
                                        m - 1,
                                    ));
                                }
                            } else {
                                assert(nth_const_site(ts, i0, m) == nth_const_site(
                                    ts,
                                    i0 + 1,
                                    m,
                                ));
                            }
                        }
                    }
                }
            },
            None => {
                self.parser.error_at_previous("Expect expression");
                return;
            },
        }
        let mut more = prec_ge(self.get_rule(self.parser.current.kind).precedence, min_prec);
        while more
            invariant
                self.wf(),
                interner.wf(),
                extends(*old(self), *self),
                is_extension_of(interner@, old(interner)@),
                prec_level(min_prec) >= 1,
                depth >= 1,
                minlvl == prec_level(min_prec),
                fuel == depth as nat,
                base0 == old(self).chunk.constants@.len() as int,
                ts == old(self).parser.tokens@,
                i0 == old(self).parser.pos - 1,
                r == expr_end(ts, i0, minlvl, fuel),
                hyp == (owed_parse(*old(self)) && r is Some && base0 + n_consts(
                    ts,
                    i0,
                    r->Some_0,
                ) <= 256),
                more ==> prec_level(spec_rule(self.parser.current.kind).precedence)
                    >= prec_level(min_prec),
                (owed_scan(*old(self)) && !self.parser.had_error) ==> {
                    &&& synced(self.parser)
                    &&& self.parser.pos >= i0 + 2
                    &&& self.parser.previous == ts[self.parser.pos - 2]
                    &&& no_error_tokens(ts, i0, self.parser.pos - 1)
                    &&& infix_end(ts, self.parser.pos - 1, minlvl, fuel) == expr_end(
                        ts,
                        i0,
                        minlvl,
                        fuel,
                    )
                    &&& self.chunk.constants@.len() == base0 + n_consts(ts, i0,
                    self.parser.pos - 1)
                    &&& (forall|m: int| 0 <= m < n_consts(ts, i0, self.parser.pos - 1)
                        ==> pooled_entry_for(self.chunk.constants@[base0 + m],
                        ts[nth_const_site(ts, i0, m)], interner@))
                    &&& old(self).chunk.code@ + expr_code(ts, i0, minlvl, fuel, base0)
                        =~= self.chunk.code@ + infix_code(ts, self.parser.pos - 1, minlvl,
                    fuel, base0 + n_consts(ts, i0, self.parser.pos - 1))
                    &&& more == (infix_level(ts[self.parser.pos - 1].kind) >= minlvl)
                },
                hyp ==> !self.parser.had_error,
            decreases self.parser.tokens@.len() - self.parser.pos + (if more {
                1int
            } else {
                0int
            }),
        {
            proof {
                lemma_skip_errors(self.parser.tokens@, self.parser.pos as int);
            }
            let ghost jc = self.parser.pos - 1;
            let ghost basec = self.chunk.constants@.len() as int;
            let ghost precnt = n_consts(ts, i0, jc);
            let ghost snap = *self;
            let ghost it0 = interner@;
            self.parser.advance();
            proof {
                if owed_scan(*old(self)) && !self.parser.had_error {
                    lemma_skip_errors(ts, snap.parser.pos as int);
                    if snap.parser.pos < ts.len() && ts[snap.parser.pos as int].kind
                        == TokenKind::Error {
                        lemma_skip_errors(ts, snap.parser.pos + 1);
                        assert(false);
                    }
                    assert(skip_errors(ts, snap.parser.pos as int)
                        == snap.parser.pos as int);
                    assert(spec_rule(ts[jc].kind).infix == Some(ParseAction::Binary));
                    assert(!is_const_site(ts[jc].kind));
                    assert(n_consts(ts, i0, jc + 1) == n_consts(ts, i0, jc));
                }
            }
            let infix = self.get_rule(self.parser.previous.kind).infix;
            match infix {
                Some(action) => {
                    proof {
                        if hyp {
                            let lv = infix_level(ts[jc].kind);
                            let j2r = expr_end(ts, jc + 1, lv + 1, (fuel - 1) as nat)->Some_0;
                            let jend = r->Some_0;
                            lemma_infix_end_bounds(ts, j2r, minlvl, fuel);
                            lemma_n_consts_split(ts, i0, jc + 1, j2r);
                            lemma_n_consts_split(ts, i0, j2r, jend);
                            lemma_n_consts_nonneg(ts, j2r, jend);
                        }
                    }
                    self.dispatch(interner, action, depth);
                    proof {
                        if owed_scan(*old(self)) && !self.parser.had_error {
                            let j2 = self.parser.pos - 1;
                            let lv = infix_level(ts[jc].kind);
                            lemma_n_consts_split(ts, i0, jc + 1, j2);
                            assert(infix_end(ts, jc, minlvl, fuel) == infix_end(
                                ts,
                                j2,
                                minlvl,
                                fuel,
                            ));
                            assert(infix_code(ts, jc, minlvl, fuel, base0 + precnt)
                                == expr_code(ts, jc + 1, lv + 1, (fuel - 1) as nat, base0
                                + precnt) + binary_op_bytes(ts[jc].kind) + infix_code(
                                ts,
                                j2,
                                minlvl,
                                fuel,
                                base0 + precnt + n_consts(ts, jc + 1, j2),
                            ));
                            assert(old(self).chunk.code@ + expr_code(ts, i0, minlvl, fuel,
                            base0) =~= self.chunk.code@ + infix_code(ts, j2, minlvl, fuel,
                            base0 + n_consts(ts, i0, j2)));
                            assert forall|m: int| 0 <= m < n_consts(ts, i0, j2) implies
                                pooled_entry_for(self.chunk.constants@[base0 + m], ts[
                                nth_const_site(ts, i0, m)], interner@) by {
                                if m < precnt {
                                    assert(pooled_entry_for(snap.chunk.constants@[base0 + m],
                                        ts[nth_const_site(ts, i0, m)], it0));
                                    assert(self.chunk.constants@[base0 + m]
                                        == snap.chunk.constants@[base0 + m]);
                                    lemma_pooled_entry_mono(
                                        self.chunk.constants@[base0 + m],
                                        ts[nth_const_site(ts, i0, m)],
                                        it0,
                                        interner@,
                                    );
                                } else {
                                    lemma_n_consts_nonneg(ts, i0, jc);
                                    lemma_nth_const_site_shift(ts, i0, jc + 1, m - precnt);
                                }
                            }
                        }
                    }
                },
                None => {
                    self.parser.error_at_previous("Expect expression");
                    return;
                },
            }
            more = prec_ge(self.get_rule(self.parser.current.kind).precedence, min_prec);
        }
        proof {
            if owed_scan(*old(self)) && !self.parser.had_error {
                assert(infix_end(ts, self.parser.pos - 1, minlvl, fuel) == Some(
                    self.parser.pos - 1,
                ));
                assert(infix_code(ts, self.parser.pos - 1, minlvl, fuel, base0 + n_consts(
                    ts,
                    i0,
                    self.parser.pos - 1,
                )) =~= Seq::<u8>::empty());
                assert(self.chunk.code@ + Seq::<u8>::empty() =~= self.chunk.code@);
                assert(self.chunk.code@ =~= old(self).chunk.code@ + expr_code(
                    ts,
                    i0,
                    minlvl,
                    fuel,
                    base0,
                ));
            }
        }
    }

    /// Run the parse action a rule named, through one total match.
    fn dispatch(&mut self, interner: &mut Interner, action: ParseAction, depth: u32)
        requires
            old(self).wf(),
            old(interner).wf(),
            depth >= 1,
            action == ParseAction::StringLit ==> old(self).parser.previous.kind
                == TokenKind::Str,
        ensures
            final(self).wf(),
            final(interner).wf(),
            extends(*old(self), *final(self)),
            is_extension_of(final(interner)@, old(interner)@),
            ({
                let ts = old(self).parser.tokens@;
                let i = old(self).parser.pos - 1;
                let op = old(self).parser.previous.kind;
                (owed_scan(*old(self)) && (spec_rule(op).prefix == Some(action) || spec_rule(
                    op,
                ).infix == Some(action)) && !final(self).parser.had_error) ==> parsed_output(
                    *old(self),
                    *final(self),
                    action_end(ts, action, op, i, depth as nat),
                    action_code(ts, action, op, i, depth as nat,
                    old(self).chunk.constants@.len() as int),
                    if is_const_site(op) {
                        1int
                    } else {
                        0int
                    },
                    final(interner)@,
                )
            }),
            ({
                let ts = old(self).parser.tokens@;
                let i = old(self).parser.pos - 1;
                let op = old(self).parser.previous.kind;
                let r = action_end(ts, action, op, i, depth as nat);
                (owed_parse(*old(self)) && (spec_rule(op).prefix == Some(action) || spec_rule(
                    op,
                ).infix == Some(action)) && r is Some && old(self).chunk.constants@.len() + (
                if is_const_site(op) {
                    1int
                } else {
                    0int
                }) + n_consts(ts, i, r->Some_0) <= 256) ==> !final(self).parser.had_error
            }),
        decreases depth, 2int,
    {
        let ghost ts = old(self).parser.tokens@;
        let ghost i = old(self).parser.pos - 1;
        let ghost op = old(self).parser.previous.kind;
        let ghost base = old(self).chunk.constants@.len() as int;
        let ghost rm = spec_rule(op).prefix == Some(action) || spec_rule(op).infix == Some(
            action,
        );
        match action {
            ParseAction::Grouping => self.grouping(interner, depth),
            ParseAction::Unary => self.unary(interner, depth),
            ParseAction::Binary => self.binary(interner, depth),
            ParseAction::Number => self.number(),
            ParseAction::StringLit => self.string(interner),
            ParseAction::Literal => self.literal(),
        }
        proof {
            if owed_scan(*old(self)) && rm && !self.parser.had_error {
                assert(n_consts(ts, i, i) == 0);
                match action {
                    ParseAction::Number => {
                        assert(!is_const_site(op) ==> false);
                        assert(old(self).chunk.constants@.len() < 256);
                        assert(self.chunk.code@ =~= old(self).chunk.code@ + action_code(
                            ts,
                            action,
                            op,
                            i,
                            depth as nat,
                            base,
                        ));
                    },
                    ParseAction::StringLit => {
                        assert(old(self).chunk.constants@.len() < 256);
                        assert(self.chunk.code@ =~= old(self).chunk.code@ + action_code(
                            ts,
                            action,
                            op,
                            i,
                            depth as nat,
                            base,
                        ));
                    },
                    ParseAction::Literal => {
                        assert(!is_const_site(op));
                        assert(self.chunk.code@ =~= old(self).chunk.code@ + action_code(
                            ts,
                            action,
                            op,
                            i,
                            depth as nat,
                            base,
                        ));
                    },
                    _ => {
                        assert(!is_const_site(op));
                    },
                }
            }
        }
    }

    /// A parenthesized expression: compile the inner expression, then
    /// require the matching close parenthesis.
    fn grouping(&mut self, interner: &mut Interner, depth: u32)
        requires
            old(self).wf(),
            old(interner).wf(),
            depth >= 1,
        ensures
            final(self).wf(),
            final(interner).wf(),
            extends(*old(self), *final(self)),
            is_extension_of(final(interner)@, old(interner)@),
            (owed_scan(*old(self)) && !final(self).parser.had_error) ==> parsed_output(
                *old(self),
                *final(self),
                action_end(
                    old(self).parser.tokens@,
                    ParseAction::Grouping,
                    old(self).parser.previous.kind,
                    old(self).parser.pos - 1,
                    depth as nat,
                ),
                action_code(
                    old(self).parser.tokens@,
                    ParseAction::Grouping,
                    old(self).parser.previous.kind,
                    old(self).parser.pos - 1,
                    depth as nat,
                    old(self).chunk.constants@.len() as int,
                ),
                0,
                final(interner)@,
            ),
            ({
                let ts = old(self).parser.tokens@;
                let i = old(self).parser.pos - 1;
                let r = action_end(ts, ParseAction::Grouping, old(self).parser.previous.kind,
                i, depth as nat);
                (owed_parse(*old(self)) && r is Some && old(self).chunk.constants@.len()
                    + n_consts(ts, i, r->Some_0) <= 256) ==> !final(self).parser.had_error
            }),
        decreases depth, 1int,
    {
        let ghost ts = old(self).parser.tokens@;
        let ghost i = old(self).parser.pos - 1;
        proof {
            if owed_parse(*old(self)) && action_end(ts, ParseAction::Grouping,
            old(self).parser.previous.kind, i, depth as nat) is Some {
                let j = expr_end(ts, i, prec_level(Precedence::Assignment), (depth
                    - 1) as nat)->Some_0;
                assert(n_consts(ts, i, j + 1) == n_consts(ts, i, j));
            }
        }
        self.expression(interner, depth - 1);
        let ghost mid = *self;
        proof {
            if owed_parse(*old(self)) && !self.parser.had_error {
                let j = self.parser.pos - 1;
                if j + 1 < ts.len() {
                    assert(ts[(j + 1) as int].kind != TokenKind::Error);
                }
                assert(skip_errors(ts, j + 1) == j + 1);
            }
            if owed_scan(*old(self)) && !self.parser.had_error {
                lemma_skip_errors(ts, self.parser.pos as int);
            }
        }
        self.parser.consume(TokenKind::RightParen, "Expect ')' after expression.");
        proof {
            if owed_scan(*old(self)) && !self.parser.had_error {
                let j = mid.parser.pos - 1;
                assert(mid.parser.current.kind == TokenKind::RightParen);
                assert(ts[j].kind == TokenKind::RightParen);
                assert(j < ts.len() - 1);
                if ts[(j + 1) as int].kind == TokenKind::Error {
                    lemma_skip_errors(ts, j + 2);
                    assert(false);
                }
                assert(skip_errors(ts, j + 1) == j + 1);
                assert(n_consts(ts, i, j + 1) == n_consts(ts, i, j));
                assert(action_end(ts, ParseAction::Grouping, old(self).parser.previous.kind,
                i, depth as nat) == Some(j + 1));
            }
        }
    }

    /// A unary operator: compile the operand at unary precedence — so the
    /// operator binds tighter than any binary operator — then emit its
    /// instruction.
    fn unary(&mut self, interner: &mut Interner, depth: u32)
        requires
            old(self).wf(),
            old(interner).wf(),
            depth >= 1,
        ensures
            final(self).wf(),
            final(interner).wf(),
            extends(*old(self), *final(self)),
            is_extension_of(final(interner)@, old(interner)@),
            ({
                let ops = unary_op_bytes(old(self).parser.previous.kind);
                &&& final(self).chunk.code@.len() >= old(self).chunk.code@.len() + ops.len()
                &&& final(self).chunk.code@.subrange(
                    final(self).chunk.code@.len() - ops.len(),
                    final(self).chunk.code@.len() as int,
                ) == ops
            }),
            (owed_scan(*old(self)) && !final(self).parser.had_error) ==> parsed_output(
                *old(self),
                *final(self),
                action_end(
                    old(self).parser.tokens@,
                    ParseAction::Unary,
                    old(self).parser.previous.kind,
                    old(self).parser.pos - 1,
                    depth as nat,
                ),
                action_code(
                    old(self).parser.tokens@,
                    ParseAction::Unary,
                    old(self).parser.previous.kind,
                    old(self).parser.pos - 1,
                    depth as nat,
                    old(self).chunk.constants@.len() as int,
                ),
                0,
                final(interner)@,
            ),
            ({
                let ts = old(self).parser.tokens@;
                let i = old(self).parser.pos - 1;
                let r = action_end(ts, ParseAction::Unary, old(self).parser.previous.kind, i,
                depth as nat);
                (owed_parse(*old(self)) && r is Some && old(self).chunk.constants@.len()
                    + n_consts(ts, i, r->Some_0) <= 256) ==> !final(self).parser.had_error
            }),
        decreases depth, 1int,
    {
        let ghost ts = old(self).parser.tokens@;
        let ghost i = old(self).parser.pos - 1;
        let ghost base = old(self).chunk.constants@.len() as int;
        let operator = self.parser.previous.kind;
        self.parse_precedence(interner, Precedence::Unary, depth - 1);
        match operator {
            TokenKind::Minus => self.emit_byte(OP_NEGATE),
            TokenKind::Bang => self.emit_byte(OP_NOT),
            _ => (),
        }
        proof {
            let ops = unary_op_bytes(operator);
            assert(self.chunk.code@.subrange(
                self.chunk.code@.len() - ops.len(),
                self.chunk.code@.len() as int,
            ) =~= ops);
            if owed_scan(*old(self)) && !self.parser.had_error {
                assert(self.chunk.code@ =~= old(self).chunk.code@ + (expr_code(
                    ts,
                    i,
                    prec_level(Precedence::Unary),
                    (depth - 1) as nat,
                    base,
                ) + unary_op_bytes(operator)));
            }
        }
    }

    /// A binary operator: compile the right operand one level above the
    /// operator's own precedence (left-associativity), then emit the
    /// operator's instructions — for `<=`, `>=` and `!=` the documented
    /// complement-and-negate idiom.
    fn binary(&mut self, interner: &mut Interner, depth: u32)
        requires
            old(self).wf(),
            old(interner).wf(),
            depth >= 1,
        ensures
            final(self).wf(),
            final(interner).wf(),
            extends(*old(self), *final(self)),
            is_extension_of(final(interner)@, old(interner)@),
            ({
                let ops = binary_op_bytes(old(self).parser.previous.kind);
                &&& final(self).chunk.code@.len() >= old(self).chunk.code@.len() + ops.len()
                &&& final(self).chunk.code@.subrange(
                    final(self).chunk.code@.len() - ops.len(),
                    final(self).chunk.code@.len() as int,
                ) == ops
            }),
            (owed_scan(*old(self)) && !final(self).parser.had_error) ==> parsed_output(
                *old(self),
                *final(self),
                action_end(
                    old(self).parser.tokens@,
                    ParseAction::Binary,
                    old(self).parser.previous.kind,
                    old(self).parser.pos - 1,
                    depth as nat,
                ),
                action_code(
                    old(self).parser.tokens@,
                    ParseAction::Binary,
                    old(self).parser.previous.kind,
                    old(self).parser.pos - 1,
                    depth as nat,
                    old(self).chunk.constants@.len() as int,
                ),
                0,
                final(interner)@,
            ),
            ({
                let ts = old(self).parser.tokens@;
                let i = old(self).parser.pos - 1;
                let r = action_end(ts, ParseAction::Binary, old(self).parser.previous.kind,
                i, depth as nat);
                (owed_parse(*old(self)) && r is Some && old(self).chunk.constants@.len()
                    + n_consts(ts, i, r->Some_0) <= 256) ==> !final(self).parser.had_error
            }),
        decreases depth, 1int,
    {
        let ghost ts = old(self).parser.tokens@;
        let ghost i = old(self).parser.pos - 1;
        let ghost base = old(self).chunk.constants@.len() as int;
        let operator = self.parser.previous.kind;
        let rule = self.get_rule(operator);
        let next = increment_prec(rule.precedence);
        self.parse_precedence(interner, next, depth - 1);
        match operator {
            TokenKind::Plus => self.emit_byte(OP_ADD),
            TokenKind::Minus => self.emit_byte(OP_SUBTRACT),
            TokenKind::Star => self.emit_byte(OP_MULTIPLY),
            TokenKind::Slash => self.emit_byte(OP_DIVIDE),
            TokenKind::BangEqual => self.emit_bytes(OP_EQUAL, OP_NOT),
            TokenKind::EqualEqual => self.emit_byte(OP_EQUAL),
            TokenKind::Greater => self.emit_byte(OP_GREATER),
            TokenKind::GreaterEqual => self.emit_bytes(OP_LESS, OP_NOT),
            TokenKind::Less => self.emit_byte(OP_LESS),
            TokenKind::LessEqual => self.emit_bytes(OP_GREATER, OP_NOT),
            _ => (),
        }
        proof {
            let ops = binary_op_bytes(operator);
            assert(self.chunk.code@.subrange(
                self.chunk.code@.len() - ops.len(),
                self.chunk.code@.len() as int,
            ) =~= ops);
            assert(prec_level(next) == infix_level(operator) + 1);
            if owed_scan(*old(self)) && !self.parser.had_error {
                assert(self.chunk.code@ =~= old(self).chunk.code@ + (expr_code(
                    ts,
                    i,
                    infix_level(operator) + 1,
                    (depth - 1) as nat,
                    base,
                ) + binary_op_bytes(operator)));
            }
        }
    }

    /// A `false`/`nil`/`true` literal: one dedicated zero-operand opcode,
    /// no constant-pool entry.
    fn literal(&mut self)
        requires
            old(self).wf(),
        ensures
            final(self).wf(),
            final(self).chunk.code@ == old(self).chunk.code@ + lit_bytes(
                old(self).parser.previous.kind,
            ),
            final(self).chunk.constants == old(self).chunk.constants,
            final(self).parser == old(self).parser,
    {
        match self.parser.previous.kind {
            TokenKind::False => self.emit_byte(OP_FALSE),
            TokenKind::Nil => self.emit_byte(OP_NIL),
            TokenKind::True => self.emit_byte(OP_TRUE),
            _ => (),
        }
        proof {
            assert(self.chunk.code@ =~= old(self).chunk.code@ + lit_bytes(
                old(self).parser.previous.kind,
            ));
        }
    }

    /// A number literal: its source text becomes a constant-pool entry,
    /// loaded by a constant instruction.
    fn number(&mut self)
        requires
            old(self).wf(),
        ensures
            final(self).wf(),
            emits_only(old(self).parser, final(self).parser),
            is_extension_of(final(self).chunk.code@, old(self).chunk.code@),
            old(self).chunk.constants@.len() < 256 ==> {
                &&& final(self).chunk.constants@ == old(self).chunk.constants@.push(
                    Value::Num(old(self).parser.previous.lexeme),
                )
                &&& final(self).chunk.code@ == old(self).chunk.code@ + seq![
                    OP_CONSTANT,
                    old(self).chunk.constants@.len() as u8,
                ]
                &&& final(self).parser == old(self).parser
            },
            old(self).chunk.constants@.len() >= 256 ==> {
                &&& final(self).chunk.constants == old(self).chunk.constants
                &&& final(self).parser.had_error
            },
    {
        let lexeme = self.parser.previous.lexeme.clone();
        self.emit_constant(Value::Num(lexeme));
    }

    /// A string literal: strip the enclosing quotes, intern the content,
    /// and pool the returned handle.  The pooled handle always resolves,
    /// through the interner, to exactly the unquoted text.
    fn string(&mut self, interner: &mut Interner)
        requires
            old(self).wf(),
            old(interner).wf(),
            old(self).parser.previous.kind == TokenKind::Str,
        ensures
            final(self).wf(),
            final(interner).wf(),
            emits_only(old(self).parser, final(self).parser),
            is_extension_of(final(self).chunk.code@, old(self).chunk.code@),
            is_extension_of(final(interner)@, old(interner)@),
            ({
                let text = old(self).parser.previous.lexeme@.subrange(
                    1,
                    old(self).parser.previous.lexeme@.len() - 1,
                );
                &&& (old(self).chunk.constants@.len() < 256 ==> {
                    &&& final(self).chunk.constants@.len() == old(self).chunk.constants@.len()
                        + 1
                    &&& final(self).chunk.constants@.drop_last() == old(self).chunk.constants@
                    &&& (final(self).chunk.constants@.last() matches Value::Str(h)
                        && h < final(interner)@.len() && final(interner)@[h as int] == text)
                    &&& final(self).chunk.code@ == old(self).chunk.code@ + seq![
                        OP_CONSTANT,
                        old(self).chunk.constants@.len() as u8,
                    ]
                    &&& final(self).parser == old(self).parser
                })
                &&& (old(self).chunk.constants@.len() >= 256 ==> {
                    &&& final(self).chunk.constants == old(self).chunk.constants
                    &&& final(self).parser.had_error
                })
            }),
    {
        let lexeme = self.parser.previous.lexeme.clone();
        let n = lexeme.as_str().unicode_len();
        let inner = lexeme.as_str().substring_char(1, n - 1);
        let text: String = inner.to_owned();
        let h = interner.intern(text);
        self.emit_constant(Value::Str(h));
    }

    /// Pool a value and return its index, enforcing the one-byte operand
    /// limit: a full pool is a compile error, never a wrapped index.
    fn make_constant(&mut self, value: Value) -> (idx: usize)
        requires
            old(self).wf(),
        ensures
            final(self).wf(),
            emits_only(old(self).parser, final(self).parser),
            final(self).chunk.code == old(self).chunk.code,
            final(self).chunk.lines == old(self).chunk.lines,
            idx < 256,
            idx < final(self).chunk.constants@.len(),
            old(self).chunk.constants@.len() < 256 ==> {
                &&& final(self).chunk.constants@ == old(self).chunk.constants@.push(value)
                &&& idx == old(self).chunk.constants@.len()
                &&& final(self).parser == old(self).parser
            },
            old(self).chunk.constants@.len() >= 256 ==> {
                &&& final(self).chunk.constants == old(self).chunk.constants
                &&& idx == 0
                &&& final(self).parser.had_error
                &&& reports_error(old(self).parser, final(self).parser,
                    old(self).parser.previous, "Too many constants in one chunk."@)
            },
    {
        if self.chunk.constants.len() < 256 {
            let idx = self.chunk.add_constant(value);
            proof {
                lemma_code_wf_mono(
                    self.chunk.code@,
                    old(self).chunk.constants@.len() as int,
                    self.chunk.constants@.len() as int,
                );
            }
            idx
        } else {
            self.parser.error_at_previous("Too many constants in one chunk.");
            0
        }
    }

    /// Pool a value and emit the instruction that loads it.
    fn emit_constant(&mut self, value: Value)
        requires
            old(self).wf(),
        ensures
            final(self).wf(),
            emits_only(old(self).parser, final(self).parser),
            is_extension_of(final(self).chunk.code@, old(self).chunk.code@),
            old(self).chunk.constants@.len() < 256 ==> {
                &&& final(self).chunk.constants@ == old(self).chunk.constants@.push(value)
                &&& final(self).chunk.code@ == old(self).chunk.code@ + seq![
                    OP_CONSTANT,
                    old(self).chunk.constants@.len() as u8,
                ]
                &&& final(self).parser == old(self).parser
            },
            old(self).chunk.constants@.len() >= 256 ==> {
                &&& final(self).chunk.constants == old(self).chunk.constants
                &&& final(self).parser.had_error
            },
    {
        let idx = self.make_constant(value);
        let operand = idx as u8;
        self.emit_bytes(OP_CONSTANT, operand);
        proof {
            assert(self.chunk.code@ =~= old(self).chunk.code@ + seq![OP_CONSTANT, operand]);
        }
    }

    fn emit_return(&mut self)
        requires
            old(self).wf(),
        ensures
            final(self).wf(),
            final(self).chunk.code@ == old(self).chunk.code@.push(OP_RETURN),
            final(self).chunk.constants == old(self).chunk.constants,
            final(self).parser == old(self).parser,
    {
        self.emit_byte(OP_RETURN);
    }

    /// Append one zero-operand instruction, tagged with the line of the
    /// token that produced it.
    fn emit_byte(&mut self, byte: u8)
        requires
            old(self).wf(),
            simple_opcode(byte),
        ensures
            final(self).wf(),
            final(self).chunk.code@ == old(self).chunk.code@.push(byte),
            final(self).chunk.lines@ == old(self).chunk.lines@.push(
                old(self).parser.previous.line,
            ),
            final(self).chunk.constants == old(self).chunk.constants,
            final(self).parser == old(self).parser,
    {
        let line = self.parser.previous.line;
        self.chunk.write_byte(byte, line);
        proof {
            let npool = self.chunk.constants@.len() as int;
            lemma_code_wf_simple(byte, npool);
            lemma_code_wf_append(old(self).chunk.code@, seq![byte], npool);
            assert(self.chunk.code@ =~= old(self).chunk.code@ + seq![byte]);
        }
    }

    /// Append one two-byte instruction (a pair of zero-operand opcodes,
    /// or a constant load with an in-range operand).
    fn emit_bytes(&mut self, byte1: u8, byte2: u8)
        requires
            old(self).wf(),
            (simple_opcode(byte1) && simple_opcode(byte2)) || (byte1 == OP_CONSTANT && (
            byte2 as int) < old(self).chunk.constants@.len()),
        ensures
            final(self).wf(),
            final(self).chunk.code@ == old(self).chunk.code@ + seq![byte1, byte2],
            final(self).chunk.lines@ == old(self).chunk.lines@ + seq![
                old(self).parser.previous.line,
                old(self).parser.previous.line,
            ],
            final(self).chunk.constants == old(self).chunk.constants,
            final(self).parser == old(self).parser,
    {
        let line = self.parser.previous.line;
        self.chunk.write_byte(byte1, line);
        self.chunk.write_byte(byte2, line);
        proof {
            let npool = self.chunk.constants@.len() as int;
            lemma_code_wf_two(byte1, byte2, npool);
            lemma_code_wf_append(old(self).chunk.code@, seq![byte1, byte2], npool);
            assert(self.chunk.code@ =~= old(self).chunk.code@ + seq![byte1, byte2]);
            assert(self.chunk.lines@ =~= old(self).chunk.lines@ + seq![
                old(self).parser.previous.line,
                old(self).parser.previous.line,
            ]);
        }
    }
}

} // verus!
