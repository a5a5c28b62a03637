//! The grammar, as deterministic parsing functions over token kinds. Each
//! function reads from a position and either returns the next position with
//! the parsed node's view, or fails having consumed nothing. Alternatives are
//! tried in a fixed order and the first match wins. These functions are the
//! specification the executable parser is verified against.

use vstd::prelude::*;
use crate::FatalError;
use crate::lexer::token::{Keyword, Literal, TokenKindV};
use super::control::IfV;
use super::expr::ExprV;
use super::tree::{AssignV, DeclV, FuncDeclV, StmtV, TypedefV, VarDeclV};

verus! {

/// The parameter-list text that means an empty parameter list.
pub open spec fn void_chars() -> Seq<char> {
    seq!['v', 'o', 'i', 'd']
}

/// One identifier token.
pub open spec fn sp_ident(toks: Seq<TokenKindV>, i: int) -> Option<(int, Seq<char>)> {
    if 0 <= i < toks.len() && toks[i] is Ident {
        Some((i + 1, toks[i]->Ident_0))
    } else {
        None
    }
}

/// One integer literal token.
pub open spec fn sp_literal(toks: Seq<TokenKindV>, i: int) -> Option<(int, Literal)> {
    if 0 <= i < toks.len() && toks[i] is Literal {
        Some((i + 1, toks[i]->Literal_0))
    } else {
        None
    }
}

/// A value: an integer literal or an identifier.
pub open spec fn sp_value(toks: Seq<TokenKindV>, i: int) -> Option<(int, ExprV)>
    decreases toks.len() - i, 1int,
{
    match sp_literal(toks, i) {
        Some(pr) => Some((pr.0, ExprV::Literal(pr.1))),
        None => match sp_ident(toks, i) {
            Some(pr) => Some((pr.0, ExprV::Ident(pr.1))),
            None => None,
        },
    }
}

/// A top-level expression: `value == value`, or failing that a bare value.
/// Equality does not nest.
pub open spec fn sp_top_expr(toks: Seq<TokenKindV>, i: int) -> Option<(int, ExprV)>
    decreases toks.len() - i, 2int,
{
    match sp_value(toks, i) {
        None => None,
        Some((p, l)) => {
            if p < toks.len() && toks[p] is Equals {
                match sp_value(toks, p + 1) {
                    Some((q, r)) => Some((q, ExprV::Equals { lhs: Box::new(l), rhs: Box::new(r) })),
                    None => Some((p, l)),
                }
            } else {
                Some((p, l))
            }
        },
    }
}

/// A declarator: an identifier, or `*` wrapping another declarator.
pub open spec fn sp_declarator(toks: Seq<TokenKindV>, i: int) -> Option<(int, DeclV)>
    decreases toks.len() - i, 1int,
{
    match sp_ident(toks, i) {
        Some(pr) => Some((pr.0, DeclV::Ident(pr.1))),
        None => {
            if 0 <= i < toks.len() && toks[i] is Star {
                match sp_declarator(toks, i + 1) {
                    Some((p, d)) => Some((p, DeclV::Pointer(Box::new(d)))),
                    None => None,
                }
            } else {
                None
            }
        },
    }
}

/// A greedy run of identifiers.
pub open spec fn sp_idents(toks: Seq<TokenKindV>, i: int) -> (int, Seq<Seq<char>>)
    decreases toks.len() - i, 1int,
{
    match sp_ident(toks, i) {
        None => (i, Seq::empty()),
        Some((p, id)) => {
            let rest = sp_idents(toks, p);
            (rest.0, seq![id] + rest.1)
        },
    }
}

/// One parameter: a type identifier followed by a declarator.
pub open spec fn sp_param_pair(toks: Seq<TokenKindV>, i: int) -> Option<(int, (Seq<char>, DeclV))>
    decreases toks.len() - i, 2int,
{
    match sp_ident(toks, i) {
        None => None,
        Some((p, ty)) => match sp_declarator(toks, p) {
            None => None,
            Some((q, d)) => Some((q, (ty, d))),
        },
    }
}

/// A possibly empty comma-separated parameter list. A trailing comma is not
/// consumed: the list ends before the first comma not followed by a
/// parameter.
pub open spec fn sp_param_list(toks: Seq<TokenKindV>, i: int) -> (int, Seq<(Seq<char>, DeclV)>)
    decreases toks.len() - i, 3int,
{
    match sp_param_pair(toks, i) {
        None => (i, Seq::empty()),
        Some((p, pr)) => {
            if p < toks.len() && toks[p] is Comma && i < p + 1 && p + 1 <= toks.len() {
                if sp_param_pair(toks, p + 1) is Some {
                    let rest = sp_param_list(toks, p + 1);
                    (rest.0, seq![pr] + rest.1)
                } else {
                    (p, seq![pr])
                }
            } else {
                (p, seq![pr])
            }
        },
    }
}

/// The inside of a function declaration's parentheses: the single identifier
/// `void` meaning an empty list, or a comma-separated parameter list.
pub open spec fn sp_fn_params(toks: Seq<TokenKindV>, i: int) -> (int, Seq<(Seq<char>, DeclV)>)
    decreases toks.len() - i, 4int,
{
    match sp_ident(toks, i) {
        Some(pr) => {
            if pr.1 == void_chars() {
                (pr.0, Seq::empty())
            } else {
                sp_param_list(toks, i)
            }
        },
        None => sp_param_list(toks, i),
    }
}

/// A function declaration:
/// `Ident(type) Ident(name) "(" params ")" "{" statement* "}"`.
pub open spec fn sp_fn(toks: Seq<TokenKindV>, i: int) -> Option<(int, FuncDeclV)>
    decreases toks.len() - i, 5int,
{
    match sp_ident(toks, i) {
        None => None,
        Some((p1, ret)) => match sp_ident(toks, p1) {
            None => None,
            Some((p2, name)) => {
                if p2 < toks.len() && toks[p2] is OpenParen {
                    let pa = sp_fn_params(toks, p2 + 1);
                    let p3 = pa.0;
                    if p3 < toks.len() && toks[p3] is CloseParen && p3 + 1 < toks.len()
                        && toks[p3 + 1] is OpenBrace && i < p3 + 2 && p3 + 2 <= toks.len() {
                        let bl = sp_stmt_list(toks, p3 + 2);
                        let p4 = bl.0;
                        if p4 < toks.len() && toks[p4] is CloseBrace {
                            Some((p4 + 1, FuncDeclV { ret, name, args: pa.1, body: bl.1 }))
                        } else {
                            None
                        }
                    } else {
                        None
                    }
                } else {
                    None
                }
            },
        },
    }
}

/// A variable declaration: `Ident(type) Declarator ["=" expr] ";"`.
pub open spec fn sp_var_decl(toks: Seq<TokenKindV>, i: int) -> Option<(int, VarDeclV)>
    decreases toks.len() - i, 5int,
{
    match sp_ident(toks, i) {
        None => None,
        Some((p1, ty)) => match sp_declarator(toks, p1) {
            None => None,
            Some((p2, d)) => {
                if p2 < toks.len() && toks[p2] is Assign && i < p2 + 1 && p2 + 1 <= toks.len() {
                    match sp_top_expr(toks, p2 + 1) {
                        None => None,
                        Some((p3, e)) => {
                            if p3 < toks.len() && toks[p3] is SemiColon {
                                Some((p3 + 1, VarDeclV { ty, name: d, value: Some(e) }))
                            } else {
                                None
                            }
                        },
                    }
                } else {
                    if p2 < toks.len() && toks[p2] is SemiColon {
                        Some((p2 + 1, VarDeclV { ty, name: d, value: None }))
                    } else {
                        None
                    }
                }
            },
        },
    }
}

/// A typedef: the `typedef` keyword, at least two identifiers, and `;`. The
/// last identifier is the new name; the preceding ones form the aliased type.
pub open spec fn sp_typedef(toks: Seq<TokenKindV>, i: int) -> Option<(int, TypedefV)>
    decreases toks.len() - i, 5int,
{
    if 0 <= i < toks.len() && toks[i] == TokenKindV::Keyword(Keyword::Typedef) {
        let run = sp_idents(toks, i + 1);
        let p = run.0;
        if run.1.len() >= 2 && p < toks.len() && toks[p] is SemiColon {
            Some((p + 1, TypedefV { ty: run.1.drop_last(), name: run.1.last() }))
        } else {
            None
        }
    } else {
        None
    }
}

/// An `if` statement: `"if" "(" expr ")" block-or-stmt ["else" block-or-stmt]`.
/// An `else` keyword whose body fails to parse is left unconsumed.
pub open spec fn sp_if(toks: Seq<TokenKindV>, i: int) -> Option<(int, IfV)>
    decreases toks.len() - i, 5int,
{
    if 0 <= i < toks.len() && toks[i] == TokenKindV::Keyword(Keyword::If) && i + 1 < toks.len()
        && toks[i + 1] is OpenParen {
        match sp_top_expr(toks, i + 2) {
            None => None,
            Some((p, cond)) => {
                if p < toks.len() && toks[p] is CloseParen && i < p + 1 && p + 1 <= toks.len() {
                    match sp_block_or_stmt(toks, p + 1) {
                        None => None,
                        Some((q, then_body)) => {
                            if q < toks.len() && toks[q] == TokenKindV::Keyword(Keyword::Else)
                                && i < q + 1 && q + 1 <= toks.len() {
                                match sp_block_or_stmt(toks, q + 1) {
                                    Some((w, eb)) => Some((w, IfV {
                                        condition: cond,
                                        body: then_body,
                                        else_body: Some(eb),
                                    })),
                                    None => Some((q, IfV {
                                        condition: cond,
                                        body: then_body,
                                        else_body: None,
                                    })),
                                }
                            } else {
                                Some((q, IfV { condition: cond, body: then_body, else_body: None }))
                            }
                        },
                    }
                } else {
                    None
                }
            },
        }
    } else {
        None
    }
}

/// An assignment: `Ident "=" expr ";"`.
pub open spec fn sp_assignment(toks: Seq<TokenKindV>, i: int) -> Option<(int, AssignV)>
    decreases toks.len() - i, 5int,
{
    match sp_ident(toks, i) {
        None => None,
        Some((p, lhs)) => {
            if p < toks.len() && toks[p] is Assign {
                match sp_top_expr(toks, p + 1) {
                    None => None,
                    Some((q, rhs)) => {
                        if q < toks.len() && toks[q] is SemiColon {
                            Some((q + 1, AssignV { lhs, rhs }))
                        } else {
                            None
                        }
                    },
                }
            } else {
                None
            }
        },
    }
}

/// A statement: the productions tried in fixed order — function declaration,
/// variable declaration, typedef, `if`, assignment — with the first match
/// winning.
pub open spec fn sp_statement(toks: Seq<TokenKindV>, i: int) -> Option<(int, StmtV)>
    decreases toks.len() - i, 6int,
{
    match sp_fn(toks, i) {
        Some((p, f)) => Some((p, StmtV::FuncDecl(f))),
        None => match sp_var_decl(toks, i) {
            Some((p, v)) => Some((p, StmtV::VarDecl(v))),
            None => match sp_typedef(toks, i) {
                Some((p, t)) => Some((p, StmtV::Typedef(t))),
                None => match sp_if(toks, i) {
                    Some((p, c)) => Some((p, StmtV::If(c))),
                    None => match sp_assignment(toks, i) {
                        Some((p, a)) => Some((p, StmtV::Assign(a))),
                        None => None,
                    },
                },
            },
        },
    }
}

/// A greedy run of statements.
pub open spec fn sp_stmt_list(toks: Seq<TokenKindV>, i: int) -> (int, Seq<StmtV>)
    decreases toks.len() - i, 7int,
{
    match sp_statement(toks, i) {
        None => (i, Seq::empty()),
        Some((p, s)) => {
            if i < p && p <= toks.len() {
                let rest = sp_stmt_list(toks, p);
                (rest.0, seq![s] + rest.1)
            } else {
                (i, Seq::empty())
            }
        },
    }
}

/// A brace-delimited statement sequence, or a single statement treated as a
/// one-element sequence.
pub open spec fn sp_block_or_stmt(toks: Seq<TokenKindV>, i: int) -> Option<(int, Seq<StmtV>)>
    decreases toks.len() - i, 8int,
{
    if 0 <= i < toks.len() && toks[i] is OpenBrace {
        let bl = sp_stmt_list(toks, i + 1);
        if bl.0 < toks.len() && toks[bl.0] is CloseBrace {
            Some((bl.0 + 1, bl.1))
        } else {
            None
        }
    } else {
        match sp_statement(toks, i) {
            Some((p, s)) => Some((p, seq![s])),
            None => None,
        }
    }
}

/// A whole translation unit: statements up to the end-of-input token, which
/// must be the last token. Any other leftover is a syntax error, as is a
/// position where no statement production matches before end-of-input.
pub open spec fn sp_stream(toks: Seq<TokenKindV>) -> Result<Seq<StmtV>, FatalError> {
    let bl = sp_stmt_list(toks, 0);
    if bl.0 < toks.len() && toks[bl.0] is Eof && bl.0 + 1 == toks.len() {
        Ok(bl.1)
    } else {
        Err(FatalError::SyntaxError)
    }
}

} // verus!
