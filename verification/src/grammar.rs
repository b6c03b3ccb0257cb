//! The expression grammar and its compilation, stated over token
//! sequences alone: which streams the compiler owes a successful
//! compilation for, and exactly what it then emits.
//!
//! `expr_end(ts, i, min, fuel)` is the index just past the well-formed
//! expression that starts at index `i` and binds at least as tightly as
//! `min`, or `None` when no such expression starts there within `fuel`
//! nesting levels.  `expr_code` is the instruction sequence that
//! expression compiles to, and `nth_const_site` maps each constant-pool
//! ordinal back to the literal token that fills it.  The driver owes
//! success exactly on streams whose expression spans the whole input
//! (see `Compiler::compile`).

use vstd::prelude::*;

use crate::chunk::OP_ADD;
use crate::chunk::OP_CONSTANT;
use crate::chunk::OP_DIVIDE;
use crate::chunk::OP_EQUAL;
use crate::chunk::OP_FALSE;
use crate::chunk::OP_GREATER;
use crate::chunk::OP_LESS;
use crate::chunk::OP_MULTIPLY;
use crate::chunk::OP_NEGATE;
use crate::chunk::OP_NIL;
use crate::chunk::OP_NOT;
use crate::chunk::OP_SUBTRACT;
use crate::chunk::OP_TRUE;
use crate::is_extension_of;
use crate::rules::ParseAction;
use crate::rules::Precedence;
use crate::rules::prec_level;
use crate::rules::spec_rule;
use crate::token::Token;
use crate::token::TokenKind;
use crate::value::Value;

verus! {

/// No token of `ts[a..b)` is a scanner error token.
pub open spec fn no_error_tokens(ts: Seq<Token>, a: int, b: int) -> bool {
    forall|k: int| a <= k < b ==> (#[trigger] ts[k]).kind != TokenKind::Error
}

/// The scanner found no lexical error in the stream.
pub open spec fn lexically_clean(ts: Seq<Token>) -> bool {
    no_error_tokens(ts, 0, ts.len() as int)
}

/// A token category that occupies one constant-pool slot when compiled.
pub open spec fn is_const_site(kind: TokenKind) -> bool {
    kind == TokenKind::Number || kind == TokenKind::Str
}

/// How many constant-pool slots the tokens of `ts[a..b)` occupy.
pub open spec fn n_consts(ts: Seq<Token>, a: int, b: int) -> int
    decreases b - a,
{
    if a >= b {
        0
    } else {
        n_consts(ts, a, b - 1) + if is_const_site(ts[b - 1].kind) {
            1int
        } else {
            0int
        }
    }
}

pub proof fn lemma_n_consts_nonneg(ts: Seq<Token>, a: int, b: int)
    ensures
        0 <= n_consts(ts, a, b),
    decreases b - a,
{
    if a < b {
        lemma_n_consts_nonneg(ts, a, b - 1);
    }
}

/// Constant-site counting is additive over adjacent ranges.
pub proof fn lemma_n_consts_split(ts: Seq<Token>, a: int, b: int, c: int)
    requires
        a <= b <= c,
    ensures
        n_consts(ts, a, c) == n_consts(ts, a, b) + n_consts(ts, b, c),
    decreases c - b,
{
    if b < c {
        lemma_n_consts_split(ts, a, b, c - 1);
    }
}

/// The binding level of a token category used as an infix operator.
pub open spec fn infix_level(kind: TokenKind) -> int {
    prec_level(spec_rule(kind).precedence)
}

/// Index just past the expression starting at `i`, parsed with minimum
/// binding level `min`, within `fuel` nesting levels.
pub open spec fn expr_end(ts: Seq<Token>, i: int, min: int, fuel: nat) -> Option<int>
    decreases fuel, 2int, 0int,
{
    if fuel == 0 || i < 0 || i >= ts.len() {
        None
    } else {
        match spec_rule(ts[i].kind).prefix {
            Some(action) => match action_end(ts, action, ts[i].kind, i + 1, fuel) {
                Some(j) => infix_end(ts, j, min, fuel),
                None => None,
            },
            None => None,
        }
    }
}

/// Index just past what a prefix or infix action consumes, given the
/// token `op` that selected it; `i` is the first unconsumed index.
pub open spec fn action_end(ts: Seq<Token>, action: ParseAction, op: TokenKind, i: int, fuel: nat) -> Option<int>
    decreases fuel, 1int, 0int,
{
    if fuel == 0 {
        None
    } else {
        match action {
            ParseAction::Number => Some(i),
            ParseAction::StringLit => Some(i),
            ParseAction::Literal => Some(i),
            ParseAction::Unary => expr_end(ts, i, prec_level(Precedence::Unary), (fuel - 1) as nat),
            ParseAction::Binary => expr_end(ts, i, infix_level(op) + 1, (fuel - 1) as nat),
            ParseAction::Grouping => match expr_end(
                ts,
                i,
                prec_level(Precedence::Assignment),
                (fuel - 1) as nat,
            ) {
                Some(j) => if j < ts.len() && ts[j].kind == TokenKind::RightParen {
                    Some(j + 1)
                } else {
                    None
                },
                None => None,
            },
        }
    }
}

/// Index just past the chain of infix operators of level at least `min`
/// whose left operand ends just before `i`.
pub open spec fn infix_end(ts: Seq<Token>, i: int, min: int, fuel: nat) -> Option<int>
    decreases fuel, 0int, ts.len() - i,
{
    if fuel == 0 || i < 0 || i >= ts.len() {
        None
    } else if infix_level(ts[i].kind) < min {
        Some(i)
    } else {
        match expr_end(ts, i + 1, infix_level(ts[i].kind) + 1, (fuel - 1) as nat) {
            Some(j) => if i < j <= ts.len() {
                infix_end(ts, j, min, fuel)
            } else {
                None
            },
            None => None,
        }
    }
}

/// A recognized expression consumes at least its first token and never
/// runs past the stream.
pub proof fn lemma_expr_end_bounds(ts: Seq<Token>, i: int, min: int, fuel: nat)
    requires
        expr_end(ts, i, min, fuel) is Some,
    ensures
        i < expr_end(ts, i, min, fuel)->Some_0 <= ts.len(),
    decreases fuel, 2int, 0int,
{
    let action = spec_rule(ts[i].kind).prefix->Some_0;
    lemma_action_end_bounds(ts, action, ts[i].kind, i + 1, fuel);
    let j = action_end(ts, action, ts[i].kind, i + 1, fuel)->Some_0;
    lemma_infix_end_bounds(ts, j, min, fuel);
}

pub proof fn lemma_action_end_bounds(ts: Seq<Token>, action: ParseAction, op: TokenKind, i: int, fuel: nat)
    requires
        action_end(ts, action, op, i, fuel) is Some,
        0 <= i <= ts.len(),
    ensures
        i <= action_end(ts, action, op, i, fuel)->Some_0 <= ts.len(),
    decreases fuel, 1int, 0int,
{
    match action {
        ParseAction::Unary => {
            lemma_expr_end_bounds(ts, i, prec_level(Precedence::Unary), (fuel - 1) as nat);
        },
        ParseAction::Binary => {
            lemma_expr_end_bounds(ts, i, infix_level(op) + 1, (fuel - 1) as nat);
        },
        ParseAction::Grouping => {
            lemma_expr_end_bounds(
                ts,
                i,
                prec_level(Precedence::Assignment),
                (fuel - 1) as nat,
            );
        },
        _ => {},
    }
}

pub proof fn lemma_infix_end_bounds(ts: Seq<Token>, i: int, min: int, fuel: nat)
    requires
        infix_end(ts, i, min, fuel) is Some,
    ensures
        i <= infix_end(ts, i, min, fuel)->Some_0 <= ts.len(),
    decreases fuel, 0int, ts.len() - i,
{
    if infix_level(ts[i].kind) >= min {
        let j = expr_end(ts, i + 1, infix_level(ts[i].kind) + 1, (fuel - 1) as nat)->Some_0;
        lemma_infix_end_bounds(ts, j, min, fuel);
    }
}

/// The index of the `m`-th constant-site token at or after `a`.
pub open spec fn nth_const_site(ts: Seq<Token>, a: int, m: int) -> int
    decreases ts.len() - a,
{
    if a < 0 || a >= ts.len() {
        a
    } else if is_const_site(ts[a].kind) {
        if m == 0 {
            a
        } else {
            nth_const_site(ts, a + 1, m - 1)
        }
    } else {
        nth_const_site(ts, a + 1, m)
    }
}

/// Site numbering is relative: skipping a whole range skips exactly its
/// constant-site count.
pub proof fn lemma_nth_const_site_shift(ts: Seq<Token>, a: int, b: int, m: int)
    requires
        0 <= a <= b <= ts.len(),
        0 <= m,
    ensures
        nth_const_site(ts, a, n_consts(ts, a, b) + m) == nth_const_site(ts, b, m),
    decreases b - a,
{
    if a < b {
        lemma_n_consts_split(ts, a, a + 1, b);
        lemma_n_consts_nonneg(ts, a + 1, b);
        assert(n_consts(ts, a, a) == 0);
        assert(n_consts(ts, a, a + 1) == (if is_const_site(ts[a].kind) {
            1int
        } else {
            0int
        }));
        lemma_nth_const_site_shift(ts, a + 1, b, m);
    }
}

/// The pool entry a literal token compiles to: a number keeps its source
/// text; a string is a handle that resolves through the interning table
/// to the token's unquoted text.
pub open spec fn pooled_entry_for(v: Value, t: Token, table: Seq<Seq<char>>) -> bool {
    if t.kind == TokenKind::Number {
        v matches Value::Num(s) && s@ == t.lexeme@
    } else if t.kind == TokenKind::Str {
        v matches Value::Str(h) && h < table.len() && table[h as int] == t.lexeme@.subrange(
            1,
            t.lexeme@.len() - 1,
        )
    } else {
        false
    }
}

/// A pool entry stays valid as the interning table grows.
pub proof fn lemma_pooled_entry_mono(v: Value, t: Token, small: Seq<Seq<char>>, big: Seq<
    Seq<char>,
>)
    requires
        pooled_entry_for(v, t, small),
        is_extension_of(big, small),
    ensures
        pooled_entry_for(v, t, big),
{
    if t.kind == TokenKind::Str {
        assert(big[v->Str_0 as int] == small[v->Str_0 as int]);
    }
}

/// The zero-operand instruction a `false`/`nil`/`true` literal compiles to.
pub open spec fn lit_bytes(kind: TokenKind) -> Seq<u8> {
    match kind {
        TokenKind::False => seq![OP_FALSE],
        TokenKind::Nil => seq![OP_NIL],
        TokenKind::True => seq![OP_TRUE],
        _ => Seq::<u8>::empty(),
    }
}

/// The instruction a unary operator compiles to, after its operand.
pub open spec fn unary_op_bytes(kind: TokenKind) -> Seq<u8> {
    match kind {
        TokenKind::Minus => seq![OP_NEGATE],
        TokenKind::Bang => seq![OP_NOT],
        _ => Seq::<u8>::empty(),
    }
}

/// The instructions a binary operator compiles to, after its right
/// operand.  `<=`, `>=` and `!=` have no opcode of their own: each is the
/// two-instruction idiom built from its complementary operator and `Not`.
pub open spec fn binary_op_bytes(kind: TokenKind) -> Seq<u8> {
    match kind {
        TokenKind::Plus => seq![OP_ADD],
        TokenKind::Minus => seq![OP_SUBTRACT],
        TokenKind::Star => seq![OP_MULTIPLY],
        TokenKind::Slash => seq![OP_DIVIDE],
        TokenKind::BangEqual => seq![OP_EQUAL, OP_NOT],
        TokenKind::EqualEqual => seq![OP_EQUAL],
        TokenKind::Greater => seq![OP_GREATER],
        TokenKind::GreaterEqual => seq![OP_LESS, OP_NOT],
        TokenKind::Less => seq![OP_LESS],
        TokenKind::LessEqual => seq![OP_GREATER, OP_NOT],
        _ => Seq::<u8>::empty(),
    }
}

/// The instructions the expression starting at `i` compiles to, when the
/// constant pool already holds `base` entries at its start.  Meaningful
/// on the streams `expr_end` accepts; empty where it rejects.
pub open spec fn expr_code(ts: Seq<Token>, i: int, min: int, fuel: nat, base: int) -> Seq<u8>
    decreases fuel, 2int, 0int,
{
    if fuel == 0 || i < 0 || i >= ts.len() {
        Seq::<u8>::empty()
    } else {
        match spec_rule(ts[i].kind).prefix {
            Some(action) => match action_end(ts, action, ts[i].kind, i + 1, fuel) {
                Some(j) => action_code(ts, action, ts[i].kind, i + 1, fuel, base)
                    + infix_code(ts, j, min, fuel, base + n_consts(ts, i, j)),
                None => Seq::<u8>::empty(),
            },
            None => Seq::<u8>::empty(),
        }
    }
}

/// The instructions one parse action emits, selected by token `op`, with
/// the first unconsumed index `i` and `base` pool entries already filled.
pub open spec fn action_code(
    ts: Seq<Token>,
    action: ParseAction,
    op: TokenKind,
    i: int,
    fuel: nat,
    base: int,
) -> Seq<u8>
    decreases fuel, 1int, 0int,
{
    if fuel == 0 {
        Seq::<u8>::empty()
    } else {
        match action {
            ParseAction::Number => seq![OP_CONSTANT, base as u8],
            ParseAction::StringLit => seq![OP_CONSTANT, base as u8],
            ParseAction::Literal => lit_bytes(op),
            ParseAction::Unary => expr_code(ts, i, prec_level(Precedence::Unary), (fuel
                - 1) as nat, base) + unary_op_bytes(op),
            ParseAction::Binary => expr_code(ts, i, infix_level(op) + 1, (fuel - 1) as nat, base)
                + binary_op_bytes(op),
            ParseAction::Grouping => expr_code(
                ts,
                i,
                prec_level(Precedence::Assignment),
                (fuel - 1) as nat,
                base,
            ),
        }
    }
}

/// The instructions the infix-operator chain starting at `i` emits.
pub open spec fn infix_code(ts: Seq<Token>, i: int, min: int, fuel: nat, base: int) -> Seq<u8>
    decreases fuel, 0int, ts.len() - i,
{
    if fuel == 0 || i < 0 || i >= ts.len() {
        Seq::<u8>::empty()
    } else if infix_level(ts[i].kind) < min {
        Seq::<u8>::empty()
    } else {
        match expr_end(ts, i + 1, infix_level(ts[i].kind) + 1, (fuel - 1) as nat) {
            Some(j) => if i < j <= ts.len() {
                expr_code(ts, i + 1, infix_level(ts[i].kind) + 1, (fuel - 1) as nat, base)
                    + binary_op_bytes(ts[i].kind) + infix_code(ts, j, min, fuel, base + n_consts(
                    ts,
                    i + 1,
                    j,
                ))
            } else {
                Seq::<u8>::empty()
            },
            None => Seq::<u8>::empty(),
        }
    }
}

} // verus!
