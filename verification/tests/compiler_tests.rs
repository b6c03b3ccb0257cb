use compiler::Chunk;
use compiler::CompileFailure;
use compiler::Compiler;
use compiler::ErrorContext;
use compiler::Interner;
use compiler::Token;
use compiler::TokenKind;
use compiler::Value;
use compiler::chunk::OP_ADD;
use compiler::chunk::OP_CONSTANT;
use compiler::chunk::OP_DIVIDE;
use compiler::chunk::OP_EQUAL;
use compiler::chunk::OP_FALSE;
use compiler::chunk::OP_GREATER;
use compiler::chunk::OP_LESS;
use compiler::chunk::OP_MULTIPLY;
use compiler::chunk::OP_NEGATE;
use compiler::chunk::OP_NIL;
use compiler::chunk::OP_NOT;
use compiler::chunk::OP_RETURN;
use compiler::chunk::OP_SUBTRACT;
use compiler::chunk::OP_TRUE;

fn tok(kind: TokenKind, lexeme: &str, line: u32) -> Token {
    Token { kind, lexeme: lexeme.to_string(), line }
}

/// A minimal scanner for the expression grammar, standing in for the
/// external one: it ends every stream with an Eof token and encodes
/// lexical errors as Error tokens carrying the message as their lexeme.
fn lex(src: &str) -> Vec<Token> {
    let chars: Vec<char> = src.chars().collect();
    let mut toks = Vec::new();
    let mut line: u32 = 1;
    let mut i = 0;
    while i < chars.len() {
        let c = chars[i];
        match c {
            ' ' | '\t' | '\r' => i += 1,
            '\n' => {
                line += 1;
                i += 1;
            }
            '(' => {
                toks.push(tok(TokenKind::LeftParen, "(", line));
                i += 1;
            }
            ')' => {
                toks.push(tok(TokenKind::RightParen, ")", line));
                i += 1;
            }
            '+' => {
                toks.push(tok(TokenKind::Plus, "+", line));
                i += 1;
            }
            '-' => {
                toks.push(tok(TokenKind::Minus, "-", line));
                i += 1;
            }
            '*' => {
                toks.push(tok(TokenKind::Star, "*", line));
                i += 1;
            }
            '/' => {
                toks.push(tok(TokenKind::Slash, "/", line));
                i += 1;
            }
            '!' => {
                if i + 1 < chars.len() && chars[i + 1] == '=' {
                    toks.push(tok(TokenKind::BangEqual, "!=", line));
                    i += 2;
                } else {
                    toks.push(tok(TokenKind::Bang, "!", line));
                    i += 1;
                }
            }
            '=' => {
                if i + 1 < chars.len() && chars[i + 1] == '=' {
                    toks.push(tok(TokenKind::EqualEqual, "==", line));
                    i += 2;
                } else {
                    toks.push(tok(TokenKind::Equal, "=", line));
                    i += 1;
                }
            }
            '<' => {
                if i + 1 < chars.len() && chars[i + 1] == '=' {
                    toks.push(tok(TokenKind::LessEqual, "<=", line));
                    i += 2;
                } else {
                    toks.push(tok(TokenKind::Less, "<", line));
                    i += 1;
                }
            }
            '>' => {
                if i + 1 < chars.len() && chars[i + 1] == '=' {
                    toks.push(tok(TokenKind::GreaterEqual, ">=", line));
                    i += 2;
                } else {
                    toks.push(tok(TokenKind::Greater, ">", line));
                    i += 1;
                }
            }
            '"' => {
                let start = i;
                i += 1;
                while i < chars.len() && chars[i] != '"' {
                    i += 1;
                }
                assert!(i < chars.len(), "unterminated string in test source");
                i += 1;
                let lexeme: String = chars[start..i].iter().collect();
                toks.push(tok(TokenKind::Str, &lexeme, line));
            }
            '0'..='9' => {
                let start = i;
                while i < chars.len() && chars[i].is_ascii_digit() {
                    i += 1;
                }
                if i + 1 < chars.len() && chars[i] == '.' && chars[i + 1].is_ascii_digit() {
                    i += 1;
                    while i < chars.len() && chars[i].is_ascii_digit() {
                        i += 1;
                    }
                }
                let lexeme: String = chars[start..i].iter().collect();
                toks.push(tok(TokenKind::Number, &lexeme, line));
            }
            _ if c.is_ascii_alphabetic() || c == '_' => {
                let start = i;
                while i < chars.len() && (chars[i].is_ascii_alphanumeric() || chars[i] == '_') {
                    i += 1;
                }
                let lexeme: String = chars[start..i].iter().collect();
                let kind = match lexeme.as_str() {
                    "true" => TokenKind::True,
                    "false" => TokenKind::False,
                    "nil" => TokenKind::Nil,
                    "and" => TokenKind::And,
                    "or" => TokenKind::Or,
                    _ => TokenKind::Identifier,
                };
                toks.push(tok(kind, &lexeme, line));
            }
            _ => {
                toks.push(tok(TokenKind::Error, "Unexpected character.", line));
                i += 1;
            }
        }
    }
    toks.push(tok(TokenKind::Eof, "", line));
    toks
}

fn compile_src(src: &str) -> (Result<Chunk, CompileFailure>, Interner) {
    let mut interner = Interner::new();
    let result = Compiler::compile(lex(src), &mut interner);
    (result, interner)
}

fn compile_ok(src: &str) -> Chunk {
    let (result, _) = compile_src(src);
    result.unwrap_or_else(|f| panic!("compilation of {:?} failed: {:?}", src, f.errors))
}

fn compile_err(src: &str) -> Vec<String> {
    let (result, _) = compile_src(src);
    match result {
        Ok(_) => panic!("compilation of {:?} unexpectedly succeeded", src),
        Err(failure) => failure.errors.iter().map(|e| e.message.clone()).collect(),
    }
}

/// The runtime value model of the paired stack machine, for tests only.
#[derive(Debug, Clone, PartialEq)]
enum Val {
    Num(f64),
    Bool(bool),
    Nil,
    Str(usize),
}

fn falsey(v: &Val) -> bool {
    matches!(v, Val::Nil | Val::Bool(false))
}

/// A reference stack machine over the chunk layout.
fn eval(chunk: &Chunk) -> Val {
    let mut stack: Vec<Val> = Vec::new();
    let mut ip = 0;
    loop {
        let op = chunk.code[ip];
        ip += 1;
        match op {
            OP_CONSTANT => {
                let idx = chunk.code[ip] as usize;
                ip += 1;
                let v = match &chunk.constants[idx] {
                    Value::Num(text) => Val::Num(text.parse::<f64>().unwrap()),
                    Value::Bool(b) => Val::Bool(*b),
                    Value::Nil => Val::Nil,
                    Value::Str(h) => Val::Str(*h),
                };
                stack.push(v);
            }
            OP_NIL => stack.push(Val::Nil),
            OP_TRUE => stack.push(Val::Bool(true)),
            OP_FALSE => stack.push(Val::Bool(false)),
            OP_NOT => {
                let a = stack.pop().unwrap();
                stack.push(Val::Bool(falsey(&a)));
            }
            OP_NEGATE => match stack.pop().unwrap() {
                Val::Num(n) => stack.push(Val::Num(-n)),
                other => panic!("negate applied to {:?}", other),
            },
            OP_EQUAL => {
                let b = stack.pop().unwrap();
                let a = stack.pop().unwrap();
                stack.push(Val::Bool(a == b));
            }
            OP_RETURN => return stack.pop().unwrap(),
            _ => {
                let b = match stack.pop().unwrap() {
                    Val::Num(n) => n,
                    other => panic!("arithmetic on {:?}", other),
                };
                let a = match stack.pop().unwrap() {
                    Val::Num(n) => n,
                    other => panic!("arithmetic on {:?}", other),
                };
                let v = match op {
                    OP_ADD => Val::Num(a + b),
                    OP_SUBTRACT => Val::Num(a - b),
                    OP_MULTIPLY => Val::Num(a * b),
                    OP_DIVIDE => Val::Num(a / b),
                    OP_GREATER => Val::Bool(a > b),
                    OP_LESS => Val::Bool(a < b),
                    _ => panic!("unknown opcode {}", op),
                };
                stack.push(v);
            }
        }
    }
}

fn eval_src(src: &str) -> Val {
    eval(&compile_ok(src))
}

#[test]
fn arithmetic_matches_infix_evaluation() {
    assert_eq!(eval_src("1 + 2"), Val::Num(3.0));
    assert_eq!(eval_src("2 * 3 + 4"), Val::Num(10.0));
    assert_eq!(eval_src("2 + 3 * 4"), Val::Num(14.0));
    assert_eq!(eval_src("(1 + 2) * 3"), Val::Num(9.0));
    assert_eq!(eval_src("10 / 4"), Val::Num(2.5));
    assert_eq!(eval_src("1 + 2 - 3 * 4 / 2"), Val::Num(-3.0));
    assert_eq!(eval_src("2.5 * 4"), Val::Num(10.0));
}

#[test]
fn left_associativity_subtraction() {
    assert_eq!(eval_src("1 - 2 - 3"), Val::Num(-4.0));
    assert_eq!(eval_src("100 / 10 / 2"), Val::Num(5.0));
}

#[test]
fn precedence_factor_over_term() {
    assert_eq!(eval_src("1 + 2 * 3"), Val::Num(7.0));
    assert_eq!(eval_src("1 + (2 * 3)"), Val::Num(7.0));
}

#[test]
fn unary_binds_tighter_than_binary() {
    assert_eq!(eval_src("-1 + 2"), Val::Num(1.0));
    assert_eq!(eval_src("-(1 + 2)"), Val::Num(-3.0));
}

#[test]
fn double_negation_round_trips_booleans() {
    assert_eq!(eval_src("!!true"), Val::Bool(true));
    assert_eq!(eval_src("!!false"), Val::Bool(false));
    assert_eq!(eval_src("!true"), Val::Bool(false));
    assert_eq!(eval_src("!nil"), Val::Bool(true));
}

#[test]
fn less_equal_compiles_to_greater_not() {
    let chunk = compile_ok("1 <= 2");
    assert_eq!(
        chunk.code,
        vec![OP_CONSTANT, 0, OP_CONSTANT, 1, OP_GREATER, OP_NOT, OP_RETURN]
    );
}

#[test]
fn greater_equal_compiles_to_less_not() {
    let chunk = compile_ok("1 >= 2");
    assert_eq!(
        chunk.code,
        vec![OP_CONSTANT, 0, OP_CONSTANT, 1, OP_LESS, OP_NOT, OP_RETURN]
    );
}

#[test]
fn not_equal_compiles_to_equal_not() {
    let chunk = compile_ok("1 != 2");
    assert_eq!(
        chunk.code,
        vec![OP_CONSTANT, 0, OP_CONSTANT, 1, OP_EQUAL, OP_NOT, OP_RETURN]
    );
}

#[test]
fn synthesized_operators_evaluate_as_complements() {
    let pairs = [(1.0, 2.0), (2.0, 1.0), (2.0, 2.0)];
    for (a, b) in pairs {
        let le = eval_src(&format!("{} <= {}", a, b));
        let gt = eval_src(&format!("{} > {}", a, b));
        assert_eq!(le, Val::Bool(a <= b));
        assert_eq!(gt, Val::Bool(!(a <= b)));
        let ge = eval_src(&format!("{} >= {}", a, b));
        let lt = eval_src(&format!("{} < {}", a, b));
        assert_eq!(ge, Val::Bool(a >= b));
        assert_eq!(lt, Val::Bool(!(a >= b)));
        let ne = eval_src(&format!("{} != {}", a, b));
        let eq = eval_src(&format!("{} == {}", a, b));
        assert_eq!(ne, Val::Bool(a != b));
        assert_eq!(eq, Val::Bool(!(a != b)));
    }
}

#[test]
fn literal_keywords_compile_to_dedicated_opcodes() {
    assert_eq!(compile_ok("true").code, vec![OP_TRUE, OP_RETURN]);
    assert_eq!(compile_ok("false").code, vec![OP_FALSE, OP_RETURN]);
    assert_eq!(compile_ok("nil").code, vec![OP_NIL, OP_RETURN]);
    assert!(compile_ok("true").constants.is_empty());
}

#[test]
fn string_literal_round_trips_through_interner() {
    let (result, interner) = compile_src("\"abc\"");
    let chunk = result.unwrap();
    assert_eq!(chunk.code, vec![OP_CONSTANT, 0, OP_RETURN]);
    assert_eq!(chunk.constants.len(), 1);
    match chunk.constants[0] {
        Value::Str(h) => assert_eq!(interner.lookup(h).as_str(), "abc"),
        ref other => panic!("expected a string constant, found {:?}", other),
    }
}

#[test]
fn repeated_string_literal_interns_to_one_handle() {
    let (result, _) = compile_src("\"abc\" == \"abc\"");
    let chunk = result.unwrap();
    assert_eq!(chunk.constants.len(), 2);
    let h0 = match chunk.constants[0] {
        Value::Str(h) => h,
        ref other => panic!("expected a string constant, found {:?}", other),
    };
    let h1 = match chunk.constants[1] {
        Value::Str(h) => h,
        ref other => panic!("expected a string constant, found {:?}", other),
    };
    assert_eq!(h0, h1);
}

#[test]
fn string_equality_by_handle() {
    assert_eq!(eval_src("\"abc\" == \"abc\""), Val::Bool(true));
    assert_eq!(eval_src("\"abc\" == \"abd\""), Val::Bool(false));
}

#[test]
fn missing_close_paren_is_reported() {
    let messages = compile_err("(1 + 2");
    assert!(messages.iter().any(|m| m == "Expect ')' after expression."), "{:?}", messages);
}

#[test]
fn missing_close_paren_points_at_end() {
    let (result, _) = compile_src("(1 + 2");
    let failure = match result {
        Ok(_) => panic!("expected failure"),
        Err(f) => f,
    };
    assert!(matches!(failure.errors[0].at, ErrorContext::AtEnd));
}

#[test]
fn dangling_operator_is_reported() {
    let messages = compile_err("1 + ");
    assert!(messages.iter().any(|m| m == "Expect expression"), "{:?}", messages);
}

#[test]
fn trailing_tokens_are_reported() {
    let messages = compile_err("1 2");
    assert!(messages.iter().any(|m| m == "Expect end of expression."), "{:?}", messages);
}

#[test]
fn scanner_error_token_is_surfaced() {
    let tokens = vec![
        tok(TokenKind::Error, "Unexpected character.", 1),
        tok(TokenKind::Number, "1", 1),
        tok(TokenKind::Eof, "", 1),
    ];
    let mut interner = Interner::new();
    let result = Compiler::compile(tokens, &mut interner);
    let failure = match result {
        Ok(_) => panic!("expected failure"),
        Err(f) => f,
    };
    assert_eq!(failure.errors[0].message, "Unexpected character.");
    assert!(matches!(failure.errors[0].at, ErrorContext::Bare));
}

#[test]
fn panic_mode_collapses_cascading_reports() {
    let messages = compile_err("+ + +");
    assert_eq!(messages.len(), 1);
    assert_eq!(messages[0], "Expect expression");
}

#[test]
fn constant_pool_overflow_is_a_compile_error() {
    let mut src = String::from("0");
    for n in 1..257 {
        src.push_str(&format!(" + {}", n));
    }
    let messages = compile_err(&src);
    assert!(
        messages.iter().any(|m| m == "Too many constants in one chunk."),
        "{:?}",
        messages
    );
}

#[test]
fn constant_pool_of_256_entries_still_compiles() {
    let mut src = String::from("0");
    for n in 1..256 {
        src.push_str(&format!(" + {}", n));
    }
    let chunk = compile_ok(&src);
    assert_eq!(chunk.constants.len(), 256);
    assert_eq!(eval(&chunk), Val::Num((0..256).sum::<i32>() as f64));
}

#[test]
fn nesting_past_the_bound_is_a_compile_error() {
    let deep = format!("{}1{}", "(".repeat(70), ")".repeat(70));
    let messages = compile_err(&deep);
    assert!(
        messages.iter().any(|m| m == "Expression nesting too deep."),
        "{:?}",
        messages
    );
}

#[test]
fn moderate_nesting_compiles() {
    let src = format!("{}1{}", "(".repeat(20), ")".repeat(20));
    assert_eq!(eval_src(&src), Val::Num(1.0));
}

#[test]
fn line_table_parallels_code() {
    let chunk = compile_ok("1 +\n2");
    assert_eq!(chunk.lines.len(), chunk.code.len());
    assert_eq!(chunk.lines[0], 1);
}

#[test]
fn chunk_ends_with_return() {
    let chunk = compile_ok("1 + 2 * 3");
    assert_eq!(*chunk.code.last().unwrap(), OP_RETURN);
}

#[test]
fn number_constants_keep_their_source_text() {
    let chunk = compile_ok("2.5");
    match &chunk.constants[0] {
        Value::Num(text) => assert_eq!(text, "2.5"),
        other => panic!("expected a number constant, found {:?}", other),
    }
}
