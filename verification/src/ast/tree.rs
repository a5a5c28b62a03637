//! The syntax tree: declarators, declarations, typedefs, assignments and
//! statements, together with their mathematical views.

use vstd::prelude::*;
use crate::lexer::token::Ident;
use super::control::{If, IfV};
use super::expr::{expr_view, ExprV, Expression};

verus! {

/// The shape of a declared name: a bare identifier, or a pointer wrapping
/// another declarator. Each `*` wraps everything that follows it.
#[derive(Debug, PartialEq, Eq)]
pub enum Declarator {
    Ident(Ident),
    Pointer(Box<Declarator>),
}

/// The mathematical view of a declarator.
pub enum DeclV {
    Ident(Seq<char>),
    Pointer(Box<DeclV>),
}

/// The view of a declarator.
pub open spec fn decl_view(d: Declarator) -> DeclV
    decreases d,
{
    match d {
        Declarator::Ident(id) => DeclV::Ident(id@),
        Declarator::Pointer(inner) => DeclV::Pointer(Box::new(decl_view(*inner))),
    }
}

/// A function declaration: return type, name, parameters, body.
#[derive(Debug, PartialEq, Eq)]
pub struct FuncDecl {
    pub ret: Ident,
    pub name: Ident,
    pub args: Vec<(Ident, Declarator)>,
    pub body: Vec<Statement>,
}

/// The mathematical view of a function declaration.
pub struct FuncDeclV {
    pub ret: Seq<char>,
    pub name: Seq<char>,
    pub args: Seq<(Seq<char>, DeclV)>,
    pub body: Seq<StmtV>,
}

/// A variable declaration: type, declarator, optional initializer.
#[derive(Debug, PartialEq, Eq)]
pub struct VarDecl {
    pub ty: Ident,
    pub name: Declarator,
    pub value: Option<Expression>,
}

/// The mathematical view of a variable declaration.
pub struct VarDeclV {
    pub ty: Seq<char>,
    pub name: DeclV,
    pub value: Option<ExprV>,
}

/// A typedef: the aliased type's identifiers and the new name.
#[derive(Debug, PartialEq, Eq)]
pub struct Typedef {
    pub ty: Vec<Ident>,
    pub name: Ident,
}

/// The mathematical view of a typedef.
pub struct TypedefV {
    pub ty: Seq<Seq<char>>,
    pub name: Seq<char>,
}

impl Typedef {
    /// A typedef of the given aliased type and new name.
    pub fn new(ty: Vec<Ident>, name: Ident) -> (r: Typedef)
        ensures
            r == (Typedef { ty, name }),
    {
        Typedef { ty, name }
    }
}

/// An assignment statement: target identifier and assigned expression.
#[derive(Debug, PartialEq, Eq)]
pub struct Assignment {
    pub lhs: Ident,
    pub rhs: Expression,
}

/// The mathematical view of an assignment.
pub struct AssignV {
    pub lhs: Seq<char>,
    pub rhs: ExprV,
}

/// A top-level statement of the syntax tree.
#[derive(Debug, PartialEq, Eq)]
pub enum Statement {
    FuncDecl(FuncDecl),
    VarDecl(VarDecl),
    Typedef(Typedef),
    If(If),
    Assign(Assignment),
}

/// The mathematical view of a statement.
pub enum StmtV {
    FuncDecl(FuncDeclV),
    VarDecl(VarDeclV),
    Typedef(TypedefV),
    If(IfV),
    Assign(AssignV),
}

/// The views of a sequence of identifiers.
pub open spec fn idents_view(ii: Seq<Ident>) -> Seq<Seq<char>> {
    ii.map_values(|i: Ident| i@)
}

/// The views of a parameter list: type identifier and declarator pairs.
pub open spec fn args_view(aa: Seq<(Ident, Declarator)>) -> Seq<(Seq<char>, DeclV)> {
    aa.map_values(|p: (Ident, Declarator)| (p.0@, decl_view(p.1)))
}

/// The view of a statement tree.
pub open spec fn stmt_view(s: Statement) -> StmtV
    decreases s,
{
    match s {
        Statement::FuncDecl(f) => StmtV::FuncDecl(FuncDeclV {
            ret: f.ret@,
            name: f.name@,
            args: args_view(f.args@),
            body: stmts_view(f.body@),
        }),
        Statement::VarDecl(v) => StmtV::VarDecl(VarDeclV {
            ty: v.ty@,
            name: decl_view(v.name),
            value: match v.value {
                Some(e) => Some(expr_view(e)),
                None => None,
            },
        }),
        Statement::Typedef(t) => StmtV::Typedef(TypedefV { ty: idents_view(t.ty@), name: t.name@ }),
        Statement::If(c) => StmtV::If(IfV {
            condition: expr_view(c.condition),
            body: stmts_view(c.body@),
            else_body: match c.else_body {
                Some(b) => Some(stmts_view(b@)),
                None => None,
            },
        }),
        Statement::Assign(a) => StmtV::Assign(AssignV { lhs: a.lhs@, rhs: expr_view(a.rhs) }),
    }
}

/// The views of a sequence of statements.
pub open spec fn stmts_view(ss: Seq<Statement>) -> Seq<StmtV>
    decreases ss,
{
    if ss.len() == 0 {
        Seq::empty()
    } else {
        seq![stmt_view(ss[0])] + stmts_view(ss.subrange(1, ss.len() as int))
    }
}

impl Statement {
    /// A function declaration statement.
    pub fn new_func_decl(
        ret: Ident,
        name: Ident,
        args: Vec<(Ident, Declarator)>,
        body: Vec<Statement>,
    ) -> (r: Statement)
        ensures
            r == Statement::FuncDecl(FuncDecl { ret, name, args, body }),
    {
        Statement::FuncDecl(FuncDecl { ret, name, args, body })
    }

    /// A variable declaration statement.
    pub fn new_var_decl(ty: Ident, name: Declarator, value: Option<Expression>) -> (r: Statement)
        ensures
            r == Statement::VarDecl(VarDecl { ty, name, value }),
    {
        Statement::VarDecl(VarDecl { ty, name, value })
    }

    /// A typedef statement.
    pub fn new_typedef(ty: Vec<Ident>, name: Ident) -> (r: Statement)
        ensures
            r == Statement::Typedef(Typedef { ty, name }),
    {
        Statement::Typedef(Typedef { ty, name })
    }

    /// The typedef this statement holds, if it is one.
    #[must_use]
    pub fn as_typedef(&self) -> (r: Option<&Typedef>)
        ensures
            match self {
                Statement::Typedef(t) => r matches Some(v) && v == t,
                _ => r is None,
            },
    {
        if let Statement::Typedef(v) = self {
            Some(v)
        } else {
            None
        }
    }
}

} // verus!
