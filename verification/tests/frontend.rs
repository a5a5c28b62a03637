//! End-to-end and per-stage tests of the front end: span classification,
//! macro expansion, tokenization, and parsing.

use rcc::ast::control::If;
use rcc::ast::expr::Expression;
use rcc::ast::parser::{parse_if, parse_top_level_expression};
use rcc::ast::tree::{Declarator, Statement};
use rcc::lexer::parse_tokens;
use rcc::lexer::token::{Ident, Keyword, Literal, Token, TokenKind};
use rcc::lexer::TokenStream;
use rcc::preprocessor::iterator::PreprocessorTokenIter;
use rcc::preprocessor::{preprocess, Macro, PreprocessorExecutor, SpanType};
use rcc::span::Span;
use rcc::{is_valid_for_ident, parse_source, FatalError};

fn chars(s: &str) -> Vec<char> {
    s.chars().collect()
}

fn tokenize(source: &str) -> Result<Vec<TokenKind>, FatalError> {
    let ex = preprocess(chars(source))?;
    let mut ti = parse_tokens(ex);
    let toks = ti.collect_tokens()?;
    Ok(toks.into_iter().map(|t| t.kind).collect())
}

fn parse(source: &str) -> Result<Vec<Statement>, FatalError> {
    parse_source(chars(source))
}

fn ident(name: &str) -> Ident {
    Ident::new(chars(name))
}

#[test]
fn test_span() {
    let input = chars("hello world");
    let span = Span::new_with(&input, 0, 5, SpanType::Unclassified);
    assert_eq!(span.get(&input), chars("hello"));
    assert_eq!(span.len(), 5);
}

#[test]
fn test_span_text_equality() {
    let input = chars("int a; int b;");
    let first = Span::new_with(&input, 0, 3, SpanType::Identifier);
    let second = Span::new_with(&input, 7, 10, SpanType::Identifier);
    let other = Span::new_with(&input, 4, 5, SpanType::Identifier);
    assert!(first.text_equals(&second, &input));
    assert!(!first.text_equals(&other, &input));
    assert_eq!(first.start(), 0);
    assert_eq!(first.end(), 3);
    assert!(!first.is_empty());
    assert!(Span::new(&input, 2, 2).is_empty());
    let retagged = first.with(SpanType::Unclassified);
    assert!(matches!(retagged.tag, SpanType::Unclassified));
}

#[test]
fn test_parse_ident() {
    let source = chars("main");
    let ident_kind = TokenKind::Ident(Ident::new(chars("main")));
    let ident_token = Token::new(ident_kind, Span::new_remaining(&source, 0));
    let mut tokens = parse_tokens(preprocess(chars("main")).expect("Expected token"));
    let token = tokens.next().expect("Expected token").expect("Expected token");
    assert_eq!(token.kind, ident_token.kind);
}

#[test]
fn test_whitespace_only_source_classifies_to_one_span() {
    let mut iter = PreprocessorTokenIter::new(chars(" \t \n  "));
    let first = iter.next().unwrap().expect("expected a span");
    assert!(matches!(first.tag, SpanType::Whitespace));
    assert_eq!(first.start(), 0);
    assert_eq!(first.end(), 6);
    let second = iter.next().unwrap().expect("expected end-of-input span");
    assert!(matches!(second.tag, SpanType::Eof));
    assert!(second.is_empty());
    assert!(iter.next().unwrap().is_none());
}

#[test]
fn test_single_identifier_tokenizes_to_itself() {
    assert_eq!(
        tokenize("counter_1").unwrap(),
        vec![TokenKind::Ident(ident("counter_1")), TokenKind::Eof]
    );
    assert_eq!(
        tokenize("typedef").unwrap(),
        vec![TokenKind::Keyword(Keyword::Typedef), TokenKind::Eof]
    );
    assert_eq!(tokenize("if").unwrap(), vec![TokenKind::Keyword(Keyword::If), TokenKind::Eof]);
    assert_eq!(tokenize("else").unwrap(), vec![TokenKind::Keyword(Keyword::Else), TokenKind::Eof]);
}

#[test]
fn test_expansion_without_defines_is_identity() {
    let mut iter = PreprocessorTokenIter::new(chars("int x = 1; { y == 2; }"));
    let direct = iter.collect_spans().unwrap();
    let mut engine = preprocess(chars("int x = 1; { y == 2; }")).unwrap();
    let mut via_engine: Vec<Span> = Vec::new();
    while let Some(sp) = engine.next().unwrap() {
        via_engine.push(sp);
    }
    assert_eq!(direct.len(), via_engine.len());
    for (a, b) in direct.iter().zip(via_engine.iter()) {
        assert_eq!(a.start(), b.start());
        assert_eq!(a.end(), b.end());
    }
}

#[test]
fn test_object_like_macro_substitution() {
    assert_eq!(
        tokenize("#define FOO 42\nFOO;").unwrap(),
        vec![
            TokenKind::Literal(Literal::Int(42)),
            TokenKind::SemiColon,
            TokenKind::Eof,
        ]
    );
}

#[test]
fn test_function_like_macro_preserves_argument_order() {
    assert_eq!(
        tokenize("#define PAIR(a,b) a b\nPAIR(x,y);").unwrap(),
        vec![
            TokenKind::Ident(ident("x")),
            TokenKind::Ident(ident("y")),
            TokenKind::SemiColon,
            TokenKind::Eof,
        ]
    );
}

#[test]
fn test_macro_redefinition_last_wins() {
    assert_eq!(
        tokenize("#define N 1\n#define N 2\nN;").unwrap(),
        vec![
            TokenKind::Literal(Literal::Int(2)),
            TokenKind::SemiColon,
            TokenKind::Eof,
        ]
    );
}

#[test]
fn test_macro_expansion_is_not_recursive() {
    // A body naming another macro is emitted literally, with no second pass.
    assert_eq!(
        tokenize("#define A B\n#define B 1\nA;").unwrap(),
        vec![TokenKind::Ident(ident("B")), TokenKind::SemiColon, TokenKind::Eof]
    );
}

#[test]
fn test_macro_argument_count_mismatch_is_fatal() {
    assert_eq!(
        tokenize("#define ONE(a) a\nONE(x,y);").unwrap_err(),
        FatalError::ArgumentCountMismatch
    );
}

#[test]
fn test_macro_parsed_from_define() {
    let mut iter = PreprocessorTokenIter::new(chars("#define PAIR(a,b) a b\n"));
    let source = chars("#define PAIR(a,b) a b\n");
    let spans = iter.collect_spans().unwrap();
    let (mac, resume) = Macro::new_from(&source, &spans, 2).unwrap();
    assert_eq!(mac.name(), &chars("PAIR"));
    assert_eq!(mac.args(), 2);
    assert!(mac.is_function_like());
    assert!(mac.has_body());
    // body: the space after `)`, `a`, the inner space, `b`
    assert_eq!(mac.value().len(), 4);
    assert!(matches!(spans[resume].tag, SpanType::Eof));
}

#[test]
fn test_object_like_macro_is_not_function_like() {
    let source = chars("#define FOO (1)\n");
    let mut iter = PreprocessorTokenIter::new(source.clone());
    let spans = iter.collect_spans().unwrap();
    let (mac, _) = Macro::new_from(&source, &spans, 2).unwrap();
    // The `(` is separated from the name by whitespace, so this is an
    // object-like macro whose body starts with `(`.
    assert!(!mac.is_function_like());
    assert_eq!(mac.args(), 0);
}

#[test]
fn test_executor_passes_plain_spans_through() {
    let iter = PreprocessorTokenIter::new(chars("x;"));
    let mut engine = PreprocessorExecutor::new(iter).unwrap();
    let first = engine.next().unwrap().unwrap();
    assert!(matches!(first.tag, SpanType::Identifier));
    let second = engine.next().unwrap().unwrap();
    assert!(matches!(second.tag, SpanType::Punctuation));
    let third = engine.next().unwrap().unwrap();
    assert!(matches!(third.tag, SpanType::Eof));
    assert!(engine.next().unwrap().is_none());
}

#[test]
fn test_parse_empty_main() {
    let program = parse("int main() {}").unwrap();
    assert_eq!(
        program,
        vec![Statement::new_func_decl(ident("int"), ident("main"), vec![], vec![])]
    );
}

#[test]
fn test_parse_main_with_void_params() {
    let program = parse("int main(void) {}").unwrap();
    assert_eq!(
        program,
        vec![Statement::new_func_decl(ident("int"), ident("main"), vec![], vec![])]
    );
}

#[test]
fn test_var_decl() {
    if let [t] = parse("typedef int int32_t;").unwrap().as_slice() {
        let ty = t.as_typedef().expect("Expected typedef");
        assert_eq!(ty.ty, vec![ident("int")]);
        assert_eq!(ty.name, ident("int32_t"));
    } else {
        panic!("Expected one statement")
    }
}

#[test]
fn test_simple_equals() {
    let ex = preprocess(chars("x == y")).unwrap();
    let mut ti = parse_tokens(ex);
    let toks = ti.collect_tokens().unwrap();
    let stream = TokenStream::new(toks);
    let (rest, parsed) =
        parse_top_level_expression(&stream, 0).expect("Could not parse expression");
    assert_eq!(rest + 1, stream.input_len());
    assert!(matches!(stream.index(rest).kind, TokenKind::Eof));
    if let Expression::Equals { lhs, rhs } = parsed {
        assert_eq!(*lhs, Expression::Ident(ident("x")));
        assert_eq!(*rhs, Expression::Ident(ident("y")));
    } else {
        panic!("Expected equals expression")
    }
}

#[test]
fn test_parse_if() {
    let empty: Vec<char> = Vec::new();
    let sp = Span::new(&empty, 0, 0);
    let kinds = vec![
        TokenKind::Keyword(Keyword::If),
        TokenKind::OpenParen,
        TokenKind::Ident(ident("a")),
        TokenKind::CloseParen,
        TokenKind::OpenBrace,
        TokenKind::Ident(ident("int")),
        TokenKind::Ident(ident("b")),
        TokenKind::SemiColon,
        TokenKind::CloseBrace,
    ];
    let tokens: Vec<Token> = kinds.into_iter().map(|k| Token::new(k, sp)).collect();
    let stream = TokenStream::new(tokens);
    let (rest, parsed) = parse_if(&stream, 0).expect("Could not parse token stream");
    assert_eq!(rest, stream.input_len());
    if let Expression::Ident(id) = &parsed.condition {
        assert_eq!(*id, ident("a"));
    } else {
        panic!("Expected ident");
    }
    let body = match parsed.body.as_slice() {
        [body] => body,
        _ => panic!("Expected one statement"),
    };
    assert_eq!(
        body,
        &Statement::new_var_decl(ident("int"), Declarator::Ident(ident("b")), None)
    );
}

#[test]
fn test_parse_if_with_equals_condition() {
    let program = parse("if (x == y) { int x = y; }").unwrap();
    let expected = Statement::If(If {
        condition: Expression::new_equals((
            Expression::Ident(ident("x")),
            Expression::Ident(ident("y")),
        )),
        body: vec![Statement::new_var_decl(
            ident("int"),
            Declarator::Ident(ident("x")),
            Some(Expression::Ident(ident("y"))),
        )],
        else_body: None,
    });
    assert_eq!(program, vec![expected]);
}

#[test]
fn test_parse_if_else() {
    let program = parse("if (x) y = 1; else y = 2;").unwrap();
    match program.as_slice() {
        [Statement::If(c)] => {
            assert_eq!(c.body.len(), 1);
            let eb = c.else_body.as_ref().expect("expected else body");
            assert_eq!(eb.len(), 1);
        }
        _ => panic!("Expected one if statement"),
    }
}

#[test]
fn test_declarator_nesting() {
    let program = parse("int main(char** argv) {}").unwrap();
    match program.as_slice() {
        [Statement::FuncDecl(f)] => {
            assert_eq!(f.ret, ident("int"));
            assert_eq!(f.name, ident("main"));
            assert_eq!(f.args.len(), 1);
            let (ty, decl) = &f.args[0];
            assert_eq!(*ty, ident("char"));
            assert_eq!(
                *decl,
                Declarator::Pointer(Box::new(Declarator::Pointer(Box::new(Declarator::Ident(
                    ident("argv")
                )))))
            );
            assert!(f.body.is_empty());
        }
        _ => panic!("Expected one function declaration"),
    }
}

#[test]
fn test_parse_function_with_body_and_params() {
    let program = parse("int pair(int a, int b) { c = a == b; }").unwrap();
    match program.as_slice() {
        [Statement::FuncDecl(f)] => {
            assert_eq!(f.args.len(), 2);
            assert_eq!(f.body.len(), 1);
            match &f.body[0] {
                Statement::Assign(a) => {
                    assert_eq!(a.lhs, ident("c"));
                }
                _ => panic!("Expected assignment in body"),
            }
        }
        _ => panic!("Expected one function declaration"),
    }
}

#[test]
fn test_typedef_multiple_type_idents() {
    if let [t] = parse("typedef unsigned int uint32_t;").unwrap().as_slice() {
        let ty = t.as_typedef().expect("Expected typedef");
        assert_eq!(ty.ty, vec![ident("unsigned"), ident("int")]);
        assert_eq!(ty.name, ident("uint32_t"));
    } else {
        panic!("Expected one statement")
    }
}

#[test]
fn test_var_decl_with_initializer() {
    let program = parse("int x = 2;").unwrap();
    assert_eq!(
        program,
        vec![Statement::new_var_decl(
            ident("int"),
            Declarator::Ident(ident("x")),
            Some(Expression::Literal(Literal::Int(2)))
        )]
    );
}

#[test]
fn test_pointer_var_decl() {
    let program = parse("int *ptr;").unwrap();
    assert_eq!(
        program,
        vec![Statement::new_var_decl(
            ident("int"),
            Declarator::Pointer(Box::new(Declarator::Ident(ident("ptr")))),
            None
        )]
    );
}

#[test]
fn test_negative_literal() {
    let program = parse("x = -42;").unwrap();
    match program.as_slice() {
        [Statement::Assign(a)] => {
            assert_eq!(a.rhs, Expression::Literal(Literal::Int(-42)));
        }
        _ => panic!("Expected one assignment"),
    }
}

#[test]
fn test_literal_bounds() {
    let program = parse("x = 9223372036854775807;").unwrap();
    match program.as_slice() {
        [Statement::Assign(a)] => {
            assert_eq!(a.rhs, Expression::Literal(Literal::Int(i64::MAX)));
        }
        _ => panic!("Expected one assignment"),
    }
    assert_eq!(
        parse("x = 9223372036854775808;").unwrap_err(),
        FatalError::LiteralOutOfRange
    );
    let program = parse("x = -9223372036854775808;").unwrap();
    match program.as_slice() {
        [Statement::Assign(a)] => {
            assert_eq!(a.rhs, Expression::Literal(Literal::Int(i64::MIN)));
        }
        _ => panic!("Expected one assignment"),
    }
    assert_eq!(
        parse("x = -9223372036854775809;").unwrap_err(),
        FatalError::LiteralOutOfRange
    );
}

#[test]
fn test_unknown_character_is_fatal() {
    assert_eq!(parse("int $x;").unwrap_err(), FatalError::UnknownCharacter);
}

#[test]
fn test_unterminated_string_is_fatal() {
    assert_eq!(parse("\"abc").unwrap_err(), FatalError::UnterminatedString);
    assert_eq!(parse("\"abc\ndef\"").unwrap_err(), FatalError::UnterminatedString);
}

#[test]
fn test_invalid_escape_is_fatal() {
    assert_eq!(parse("\"a\\q\"").unwrap_err(), FatalError::InvalidEscape);
}

#[test]
fn test_unknown_directive_is_fatal() {
    assert_eq!(parse("#include x\n").unwrap_err(), FatalError::UnknownDirective);
}

#[test]
fn test_define_without_name_is_fatal() {
    assert_eq!(parse("#define\nint x;").unwrap_err(), FatalError::ExpectedMacroName);
}

#[test]
fn test_malformed_parameter_list_is_fatal() {
    assert_eq!(parse("#define F(a; b) a\n").unwrap_err(), FatalError::MalformedDefine);
}

#[test]
fn test_missing_argument_list_is_fatal() {
    assert_eq!(
        parse("#define F(a) a\nF;").unwrap_err(),
        FatalError::MissingArgumentList
    );
}

#[test]
fn test_unterminated_argument_list_is_fatal() {
    assert_eq!(
        parse("#define F(a) a\nF(x").unwrap_err(),
        FatalError::UnterminatedArgumentList
    );
}

#[test]
fn test_unexpected_span_is_fatal() {
    assert_eq!(parse("?").unwrap_err(), FatalError::UnexpectedSpan);
}

#[test]
fn test_leftover_tokens_are_a_syntax_error() {
    assert_eq!(parse("int").unwrap_err(), FatalError::SyntaxError);
    assert_eq!(parse("int x; }").unwrap_err(), FatalError::SyntaxError);
}

#[test]
fn test_token_kind_accessors() {
    let kw = TokenKind::Keyword(Keyword::If);
    assert_eq!(kw.as_keyword(), Some(&Keyword::If));
    assert!(kw.as_ident().is_none());
    assert!(kw.as_literal().is_none());
    let id = TokenKind::Ident(ident("x"));
    assert_eq!(id.as_ident(), Some(&ident("x")));
    assert!(id.as_keyword().is_none());
    let lit = TokenKind::Literal(Literal::Int(7));
    assert_eq!(lit.as_literal(), Some(&Literal::Int(7)));
}

#[test]
fn test_is_valid_for_ident() {
    assert!(is_valid_for_ident('a'));
    assert!(is_valid_for_ident('Z'));
    assert!(is_valid_for_ident('0'));
    assert!(is_valid_for_ident('_'));
    assert!(!is_valid_for_ident(' '));
    assert!(!is_valid_for_ident('-'));
    assert!(!is_valid_for_ident('#'));
}

#[test]
fn test_two_statements_parse_in_order() {
    let program = parse("int x; int y;").unwrap();
    assert_eq!(
        program,
        vec![
            Statement::new_var_decl(ident("int"), Declarator::Ident(ident("x")), None),
            Statement::new_var_decl(ident("int"), Declarator::Ident(ident("y")), None),
        ]
    );
}

#[test]
fn test_macro_inside_function_body() {
    let program = parse("#define VALUE 3\nint main() { int x = VALUE; }").unwrap();
    match program.as_slice() {
        [Statement::FuncDecl(f)] => {
            assert_eq!(
                f.body,
                vec![Statement::new_var_decl(
                    ident("int"),
                    Declarator::Ident(ident("x")),
                    Some(Expression::Literal(Literal::Int(3)))
                )]
            );
        }
        _ => panic!("Expected one function declaration"),
    }
}
