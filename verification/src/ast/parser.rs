//! The executable parser: each function mirrors one production of the
//! grammar and is proved to return exactly what the grammar says, consuming
//! nothing on failure (the cursor position is only ever advanced on success).

use vstd::prelude::*;
use crate::FatalError;
use crate::lexer::stream::TokenStream;
use crate::lexer::token::{Ident, Keyword, Literal, TokenKind};
use super::control::If;
use super::expr::{expr_view, Expression};
use super::grammar::{
    sp_assignment, sp_block_or_stmt, sp_declarator, sp_fn, sp_fn_params, sp_ident, sp_idents,
    sp_if, sp_literal, sp_param_list, sp_param_pair, sp_statement, sp_stmt_list, sp_stream,
    sp_top_expr, sp_typedef, sp_value, sp_var_decl, void_chars,
};
use super::tree::{
    args_view, decl_view, idents_view, stmt_view, stmts_view, Assignment, Declarator, FuncDecl,
    Statement, Typedef, VarDecl,
};

verus! {

/// One identifier token.
pub fn parse_ident(stream: &TokenStream, pos: usize) -> (r: Option<(usize, Ident)>)
    ensures
        match r {
            Some((p, id)) => sp_ident(stream.kinds(), pos as int) == Some((p as int, id@))
                && pos < p <= stream.tokens@.len(),
            None => sp_ident(stream.kinds(), pos as int) is None,
        },
{
    if pos < stream.input_len() {
        match &stream.index(pos).kind {
            TokenKind::Ident(id) => Some((pos + 1, id.dup())),
            _ => None,
        }
    } else {
        None
    }
}

/// One integer literal token.
pub fn parse_literal(stream: &TokenStream, pos: usize) -> (r: Option<(usize, Literal)>)
    ensures
        match r {
            Some((p, l)) => sp_literal(stream.kinds(), pos as int) == Some((p as int, l))
                && pos < p <= stream.tokens@.len(),
            None => sp_literal(stream.kinds(), pos as int) is None,
        },
{
    if pos < stream.input_len() {
        match &stream.index(pos).kind {
            TokenKind::Literal(l) => Some((pos + 1, *l)),
            _ => None,
        }
    } else {
        None
    }
}

/// A value: an integer literal or an identifier.
pub fn parse_value(stream: &TokenStream, pos: usize) -> (r: Option<(usize, Expression)>)
    ensures
        match r {
            Some((p, e)) => sp_value(stream.kinds(), pos as int) == Some((p as int, expr_view(e)))
                && pos < p <= stream.tokens@.len(),
            None => sp_value(stream.kinds(), pos as int) is None,
        },
{
    match parse_literal(stream, pos) {
        Some((p, l)) => Some((p, Expression::Literal(l))),
        None => match parse_ident(stream, pos) {
            Some((p, id)) => Some((p, Expression::Ident(id))),
            None => None,
        },
    }
}

/// Whether the token at `pos` is of the given payload-free kind.
fn at_kind(stream: &TokenStream, pos: usize, kind: TokenKind) -> (r: bool)
    requires
        !(kind is Keyword || kind is Ident || kind is Literal),
    ensures
        r == (pos < stream.tokens@.len() && stream.kinds()[pos as int] == kind@),
{
    if pos < stream.input_len() {
        let k = &stream.index(pos).kind;
        match (k, &kind) {
            (TokenKind::OpenParen, TokenKind::OpenParen) => true,
            (TokenKind::CloseParen, TokenKind::CloseParen) => true,
            (TokenKind::OpenBrace, TokenKind::OpenBrace) => true,
            (TokenKind::CloseBrace, TokenKind::CloseBrace) => true,
            (TokenKind::Equals, TokenKind::Equals) => true,
            (TokenKind::Assign, TokenKind::Assign) => true,
            (TokenKind::SemiColon, TokenKind::SemiColon) => true,
            (TokenKind::Comma, TokenKind::Comma) => true,
            (TokenKind::Star, TokenKind::Star) => true,
            (TokenKind::Eof, TokenKind::Eof) => true,
            _ => false,
        }
    } else {
        false
    }
}

/// Whether the token at `pos` is the given keyword.
fn at_keyword(stream: &TokenStream, pos: usize, kw: Keyword) -> (r: bool)
    ensures
        r == (pos < stream.tokens@.len() && stream.kinds()[pos as int]
            == crate::lexer::token::TokenKindV::Keyword(kw)),
{
    if pos < stream.input_len() {
        match &stream.index(pos).kind {
            TokenKind::Keyword(w) => *w == kw,
            _ => false,
        }
    } else {
        false
    }
}

/// A top-level expression: `value == value`, or failing that a bare value.
pub fn parse_top_level_expression(stream: &TokenStream, pos: usize) -> (r: Option<(
    usize,
    Expression,
)>)
    ensures
        match r {
            Some((p, e)) => sp_top_expr(stream.kinds(), pos as int) == Some((p as int, expr_view(
                e))) && pos < p <= stream.tokens@.len(),
            None => sp_top_expr(stream.kinds(), pos as int) is None,
        },
{
    proof {
        vstd::std_specs::vec::axiom_spec_len(&stream.tokens);
    }
    match parse_value(stream, pos) {
        None => None,
        Some((p, l)) => {
            if at_kind(stream, p, TokenKind::Equals) {
                match parse_value(stream, p + 1) {
                    Some((q, r2)) => Some((q, Expression::new_equals((l, r2)))),
                    None => Some((p, l)),
                }
            } else {
                Some((p, l))
            }
        },
    }
}

/// A declarator: an identifier, or `*` wrapping another declarator.
pub fn parse_declarator(stream: &TokenStream, pos: usize) -> (r: Option<(usize, Declarator)>)
    ensures
        match r {
            Some((p, d)) => sp_declarator(stream.kinds(), pos as int) == Some((p as int,
                decl_view(d))) && pos < p <= stream.tokens@.len(),
            None => sp_declarator(stream.kinds(), pos as int) is None,
        },
    decreases stream.tokens@.len() - pos, 1int,
{
    proof {
        vstd::std_specs::vec::axiom_spec_len(&stream.tokens);
    }
    match parse_ident(stream, pos) {
        Some((p, id)) => Some((p, Declarator::Ident(id))),
        None => {
            if at_kind(stream, pos, TokenKind::Star) {
                match parse_declarator(stream, pos + 1) {
                    Some((p, d)) => Some((p, Declarator::Pointer(Box::new(d)))),
                    None => None,
                }
            } else {
                None
            }
        },
    }
}

/// A greedy run of identifiers.
pub fn parse_idents(stream: &TokenStream, pos: usize) -> (r: (usize, Vec<Ident>))
    requires
        pos <= stream.tokens@.len(),
    ensures
        ({
            let run = sp_idents(stream.kinds(), pos as int);
            r.0 == run.0 && idents_view(r.1@) == run.1 && pos <= r.0 <= stream.tokens@.len()
        }),
    decreases stream.tokens@.len() - pos, 1int,
{
    proof {
        vstd::std_specs::vec::axiom_spec_len(&stream.tokens);
    }
    match parse_ident(stream, pos) {
        None => {
            let out: Vec<Ident> = Vec::new();
            proof {
                assert(idents_view(out@) =~= Seq::<Seq<char>>::empty());
            }
            (pos, out)
        },
        Some((p, id)) => {
            let ghost idg = id;
            let (q, mut rest) = parse_idents(stream, p);
            let ghost restv = rest@;
            rest.insert(0, id);
            proof {
                assert(rest@ =~= seq![idg] + restv);
                assert(idents_view(rest@) =~= seq![idg@] + idents_view(restv));
            }
            (q, rest)
        },
    }
}

/// One parameter: a type identifier followed by a declarator.
pub fn parse_param_pair(stream: &TokenStream, pos: usize) -> (r: Option<(
    usize,
    (Ident, Declarator),
)>)
    ensures
        match r {
            Some((p, pr)) => sp_param_pair(stream.kinds(), pos as int) == Some((p as int, (pr.0@,
                decl_view(pr.1)))) && pos < p <= stream.tokens@.len(),
            None => sp_param_pair(stream.kinds(), pos as int) is None,
        },
    decreases stream.tokens@.len() - pos, 2int,
{
    proof {
        vstd::std_specs::vec::axiom_spec_len(&stream.tokens);
    }
    match parse_ident(stream, pos) {
        None => None,
        Some((p, ty)) => match parse_declarator(stream, p) {
            None => None,
            Some((q, d)) => Some((q, (ty, d))),
        },
    }
}

/// A possibly empty comma-separated parameter list.
pub fn parse_param_list(stream: &TokenStream, pos: usize) -> (r: (
    usize,
    Vec<(Ident, Declarator)>,
))
    requires
        pos <= stream.tokens@.len(),
    ensures
        ({
            let run = sp_param_list(stream.kinds(), pos as int);
            r.0 == run.0 && args_view(r.1@) == run.1 && pos <= r.0 <= stream.tokens@.len()
        }),
    decreases stream.tokens@.len() - pos, 3int,
{
    proof {
        vstd::std_specs::vec::axiom_spec_len(&stream.tokens);
    }
    match parse_param_pair(stream, pos) {
        None => {
            let out: Vec<(Ident, Declarator)> = Vec::new();
            proof {
                assert(args_view(out@) =~= Seq::<(Seq<char>, crate::ast::tree::DeclV)>::empty());
            }
            (pos, out)
        },
        Some((p, pr)) => {
            let ghost prg = pr;
            if at_kind(stream, p, TokenKind::Comma) {
                match parse_param_pair(stream, p + 1) {
                    Some(_) => {
                        let (q, mut rest) = parse_param_list(stream, p + 1);
                        let ghost restv = rest@;
                        rest.insert(0, pr);
                        proof {
                            assert(rest@ =~= seq![prg] + restv);
                            assert(args_view(rest@) =~= seq![(prg.0@, decl_view(prg.1))]
                                + args_view(restv));
                        }
                        (q, rest)
                    },
                    None => {
                        let mut out: Vec<(Ident, Declarator)> = Vec::new();
                        out.push(pr);
                        proof {
                            assert(out@ =~= seq![prg]);
                            assert(args_view(out@) =~= seq![(prg.0@, decl_view(prg.1))]);
                        }
                        (p, out)
                    },
                }
            } else {
                let mut out: Vec<(Ident, Declarator)> = Vec::new();
                out.push(pr);
                proof {
                    assert(out@ =~= seq![prg]);
                    assert(args_view(out@) =~= seq![(prg.0@, decl_view(prg.1))]);
                }
                (p, out)
            }
        },
    }
}

/// The inside of a function declaration's parentheses: `void` for an empty
/// list, or a comma-separated parameter list.
pub fn parse_fn_params(stream: &TokenStream, pos: usize) -> (r: (usize, Vec<(Ident, Declarator)>))
    requires
        pos <= stream.tokens@.len(),
    ensures
        ({
            let run = sp_fn_params(stream.kinds(), pos as int);
            r.0 == run.0 && args_view(r.1@) == run.1 && pos <= r.0 <= stream.tokens@.len()
        }),
    decreases stream.tokens@.len() - pos, 4int,
{
    proof {
        vstd::std_specs::vec::axiom_spec_len(&stream.tokens);
    }
    match parse_ident(stream, pos) {
        Some((p, id)) => {
            if crate::span::texts_equal(id.text(), &void_text()) {
                let out: Vec<(Ident, Declarator)> = Vec::new();
                proof {
                    assert(args_view(out@) =~= Seq::<(Seq<char>, crate::ast::tree::DeclV)>::empty());
                }
                (p, out)
            } else {
                parse_param_list(stream, pos)
            }
        },
        None => parse_param_list(stream, pos),
    }
}

/// The characters of the parameter-list word `void`.
fn void_text() -> (r: Vec<char>)
    ensures
        r@ == void_chars(),
{
    let mut v: Vec<char> = Vec::new();
    v.push('v');
    v.push('o');
    v.push('i');
    v.push('d');
    proof {
        assert(v@ =~= void_chars());
    }
    v
}

/// A function declaration.
pub fn parse_fn(stream: &TokenStream, pos: usize) -> (r: Option<(usize, FuncDecl)>)
    ensures
        match r {
            Some((p, f)) => sp_fn(stream.kinds(), pos as int) == Some((p as int, stmt_view(
                Statement::FuncDecl(f))->FuncDecl_0)) && pos < p <= stream.tokens@.len(),
            None => sp_fn(stream.kinds(), pos as int) is None,
        },
    decreases stream.tokens@.len() - pos, 5int,
{
    proof {
        vstd::std_specs::vec::axiom_spec_len(&stream.tokens);
    }
    match parse_ident(stream, pos) {
        None => None,
        Some((p1, ret)) => match parse_ident(stream, p1) {
            None => None,
            Some((p2, name)) => {
                if at_kind(stream, p2, TokenKind::OpenParen) {
                    let (p3, args) = parse_fn_params(stream, p2 + 1);
                    if at_kind(stream, p3, TokenKind::CloseParen) && at_kind(stream, p3 + 1,
                        TokenKind::OpenBrace) {
                        let (p4, body) = parse_stmt_list(stream, p3 + 2);
                        if at_kind(stream, p4, TokenKind::CloseBrace) {
                            Some((p4 + 1, FuncDecl { ret, name, args, body }))
                        } else {
                            None
                        }
                    } else {
                        None
                    }
                } else {
                    None
                }
            },
        },
    }
}

/// A variable declaration.
pub fn parse_var_decl(stream: &TokenStream, pos: usize) -> (r: Option<(usize, VarDecl)>)
    ensures
        match r {
            Some((p, v)) => sp_var_decl(stream.kinds(), pos as int) == Some((p as int, stmt_view(
                Statement::VarDecl(v))->VarDecl_0)) && pos < p <= stream.tokens@.len(),
            None => sp_var_decl(stream.kinds(), pos as int) is None,
        },
    decreases stream.tokens@.len() - pos, 5int,
{
    proof {
        vstd::std_specs::vec::axiom_spec_len(&stream.tokens);
    }
    match parse_ident(stream, pos) {
        None => None,
        Some((p1, ty)) => match parse_declarator(stream, p1) {
            None => None,
            Some((p2, d)) => {
                if at_kind(stream, p2, TokenKind::Assign) {
                    match parse_top_level_expression(stream, p2 + 1) {
                        None => None,
                        Some((p3, e)) => {
                            if at_kind(stream, p3, TokenKind::SemiColon) {
                                Some((p3 + 1, VarDecl { ty, name: d, value: Some(e) }))
                            } else {
                                None
                            }
                        },
                    }
                } else {
                    if at_kind(stream, p2, TokenKind::SemiColon) {
                        Some((p2 + 1, VarDecl { ty, name: d, value: None }))
                    } else {
                        None
                    }
                }
            },
        },
    }
}

/// A typedef.
pub fn parse_typedef(stream: &TokenStream, pos: usize) -> (r: Option<(usize, Typedef)>)
    ensures
        match r {
            Some((p, t)) => sp_typedef(stream.kinds(), pos as int) == Some((p as int, stmt_view(
                Statement::Typedef(t))->Typedef_0)) && pos < p <= stream.tokens@.len(),
            None => sp_typedef(stream.kinds(), pos as int) is None,
        },
    decreases stream.tokens@.len() - pos, 5int,
{
    proof {
        vstd::std_specs::vec::axiom_spec_len(&stream.tokens);
    }
    if at_keyword(stream, pos, Keyword::Typedef) {
        let (p, mut ids) = parse_idents(stream, pos + 1);
        if ids.len() >= 2 && at_kind(stream, p, TokenKind::SemiColon) {
            let ghost idsv = ids@;
            let name = match ids.pop() {
                Some(n) => n,
                None => {
                    proof {
                        assert(false);
                    }
                    Ident::new(Vec::new())
                },
            };
            proof {
                assert(idents_view(ids@) =~= idents_view(idsv).drop_last());
                assert(name@ == idents_view(idsv).last());
            }
            Some((p + 1, Typedef { ty: ids, name }))
        } else {
            None
        }
    } else {
        None
    }
}

/// An `if` statement.
pub fn parse_if(stream: &TokenStream, pos: usize) -> (r: Option<(usize, If)>)
    ensures
        match r {
            Some((p, c)) => sp_if(stream.kinds(), pos as int) == Some((p as int, stmt_view(
                Statement::If(c))->If_0)) && pos < p <= stream.tokens@.len(),
            None => sp_if(stream.kinds(), pos as int) is None,
        },
    decreases stream.tokens@.len() - pos, 5int,
{
    proof {
        vstd::std_specs::vec::axiom_spec_len(&stream.tokens);
    }
    if at_keyword(stream, pos, Keyword::If) && at_kind(stream, pos + 1, TokenKind::OpenParen) {
        match parse_top_level_expression(stream, pos + 2) {
            None => None,
            Some((p, cond)) => {
                if at_kind(stream, p, TokenKind::CloseParen) {
                    match parse_block_or_stmt(stream, p + 1) {
                        None => None,
                        Some((q, then_body)) => {
                            if at_keyword(stream, q, Keyword::Else) {
                                match parse_block_or_stmt(stream, q + 1) {
                                    Some((w, eb)) => Some((w, If {
                                        condition: cond,
                                        body: then_body,
                                        else_body: Some(eb),
                                    })),
                                    None => Some((q, If {
                                        condition: cond,
                                        body: then_body,
                                        else_body: None,
                                    })),
                                }
                            } else {
                                Some((q, If { condition: cond, body: then_body, else_body: None }))
                            }
                        },
                    }
                } else {
                    None
                }
            },
        }
    } else {
        None
    }
}

/// An assignment.
pub fn parse_assignment(stream: &TokenStream, pos: usize) -> (r: Option<(usize, Assignment)>)
    ensures
        match r {
            Some((p, a)) => sp_assignment(stream.kinds(), pos as int) == Some((p as int,
                stmt_view(Statement::Assign(a))->Assign_0)) && pos < p <= stream.tokens@.len(),
            None => sp_assignment(stream.kinds(), pos as int) is None,
        },
    decreases stream.tokens@.len() - pos, 5int,
{
    proof {
        vstd::std_specs::vec::axiom_spec_len(&stream.tokens);
    }
    match parse_ident(stream, pos) {
        None => None,
        Some((p, lhs)) => {
            if at_kind(stream, p, TokenKind::Assign) {
                match parse_top_level_expression(stream, p + 1) {
                    None => None,
                    Some((q, rhs)) => {
                        if at_kind(stream, q, TokenKind::SemiColon) {
                            Some((q + 1, Assignment { lhs, rhs }))
                        } else {
                            None
                        }
                    },
                }
            } else {
                None
            }
        },
    }
}

/// A statement: the five productions tried in order, first match wins.
pub fn parse_statement(stream: &TokenStream, pos: usize) -> (r: Option<(usize, Statement)>)
    ensures
        match r {
            Some((p, s)) => sp_statement(stream.kinds(), pos as int) == Some((p as int, stmt_view(
                s))) && pos < p <= stream.tokens@.len(),
            None => sp_statement(stream.kinds(), pos as int) is None,
        },
    decreases stream.tokens@.len() - pos, 6int,
{
    proof {
        vstd::std_specs::vec::axiom_spec_len(&stream.tokens);
    }
    match parse_fn(stream, pos) {
        Some((p, f)) => Some((p, Statement::FuncDecl(f))),
        None => match parse_var_decl(stream, pos) {
            Some((p, v)) => Some((p, Statement::VarDecl(v))),
            None => match parse_typedef(stream, pos) {
                Some((p, t)) => Some((p, Statement::Typedef(t))),
                None => match parse_if(stream, pos) {
                    Some((p, c)) => Some((p, Statement::If(c))),
                    None => match parse_assignment(stream, pos) {
                        Some((p, a)) => Some((p, Statement::Assign(a))),
                        None => None,
                    },
                },
            },
        },
    }
}

/// A greedy run of statements.
pub fn parse_stmt_list(stream: &TokenStream, pos: usize) -> (r: (usize, Vec<Statement>))
    requires
        pos <= stream.tokens@.len(),
    ensures
        ({
            let run = sp_stmt_list(stream.kinds(), pos as int);
            r.0 == run.0 && stmts_view(r.1@) == run.1 && pos <= r.0 <= stream.tokens@.len()
        }),
    decreases stream.tokens@.len() - pos, 7int,
{
    proof {
        vstd::std_specs::vec::axiom_spec_len(&stream.tokens);
    }
    match parse_statement(stream, pos) {
        None => {
            let out: Vec<Statement> = Vec::new();
            proof {
                assert(stmts_view(out@) =~= Seq::<crate::ast::tree::StmtV>::empty());
            }
            (pos, out)
        },
        Some((p, s)) => {
            let ghost sg = s;
            let (q, mut rest) = parse_stmt_list(stream, p);
            let ghost restv = rest@;
            rest.insert(0, s);
            proof {
                assert(rest@ =~= seq![sg] + restv);
                assert(rest@[0] == sg);
                assert(rest@.subrange(1, rest@.len() as int) =~= restv);
                assert(stmts_view(rest@) =~= seq![stmt_view(sg)] + stmts_view(restv));
            }
            (q, rest)
        },
    }
}

/// A brace-delimited statement sequence, or a single statement as a
/// one-element sequence.
pub fn parse_block_or_stmt(stream: &TokenStream, pos: usize) -> (r: Option<(
    usize,
    Vec<Statement>,
)>)
    ensures
        match r {
            Some((p, b)) => sp_block_or_stmt(stream.kinds(), pos as int) == Some((p as int,
                stmts_view(b@))) && pos < p <= stream.tokens@.len(),
            None => sp_block_or_stmt(stream.kinds(), pos as int) is None,
        },
    decreases stream.tokens@.len() - pos, 8int,
{
    proof {
        vstd::std_specs::vec::axiom_spec_len(&stream.tokens);
    }
    if at_kind(stream, pos, TokenKind::OpenBrace) {
        let (p, body) = parse_stmt_list(stream, pos + 1);
        if at_kind(stream, p, TokenKind::CloseBrace) {
            Some((p + 1, body))
        } else {
            None
        }
    } else {
        match parse_statement(stream, pos) {
            Some((p, s)) => {
                let ghost sv = stmt_view(s);
                let mut out: Vec<Statement> = Vec::new();
                out.push(s);
                proof {
                    assert(out@.subrange(1, out@.len() as int) =~= Seq::<Statement>::empty());
                    assert(stmts_view(Seq::<Statement>::empty()) =~= Seq::<
                        crate::ast::tree::StmtV>::empty());
                    assert(stmts_view(out@) =~= seq![sv]);
                }
                Some((p, out))
            },
            None => None,
        }
    }
}

/// Parses a whole translation unit: statements until end-of-input. Leftover
/// tokens after the parse, or a position where no production matches, are a
/// syntax error.
pub fn parse_stream(tokens: &TokenStream) -> (r: Result<Vec<Statement>, FatalError>)
    ensures
        match r {
            Ok(v) => sp_stream(tokens.kinds()) == Ok::<Seq<crate::ast::tree::StmtV>, FatalError>(
                stmts_view(v@)),
            Err(e) => sp_stream(tokens.kinds()) == Err::<Seq<crate::ast::tree::StmtV>,
                FatalError>(e),
        },
{
    proof {
        vstd::std_specs::vec::axiom_spec_len(&tokens.tokens);
    }
    let (p, prog) = parse_stmt_list(tokens, 0);
    if at_kind(tokens, p, TokenKind::Eof) && p + 1 == tokens.input_len() {
        Ok(prog)
    } else {
        Err(FatalError::SyntaxError)
    }
}

} // verus!
