//! The syntax-tree model that the pass works on.
//!
//! The tree is a closed sum over the statement and expression shapes the
//! pass needs to tell apart.  Shapes it does not care about are collapsed
//! into `Other` nodes that keep their children, so that the classifier can
//! still search through them.  Each executable type has a mathematical
//! model (`...V`) whose sequences and character strings replace vectors
//! and heap strings; the `view_*` functions map one onto the other.
use vstd::prelude::*;

verus! {

/// An identifier: its text together with the scope token that
/// distinguishes same-named bindings in different lexical scopes.
#[derive(Debug, PartialEq)]
pub struct Name {
    pub text: String,
    pub ctxt: u32,
}

/// The property part of a member access `obj.prop` / `obj[prop]` / `obj.#prop`.
#[derive(Debug, PartialEq)]
pub enum MemberProp {
    Named(String),
    Computed(Box<Expr>),
    Private(String),
}

/// Whether an assignment uses the plain `=` operator or a compound one.
#[derive(Debug, PartialEq)]
pub enum AssignOp {
    Plain,
    Compound,
}

/// An expression, reduced to the shapes the pass distinguishes.
#[derive(Debug, PartialEq)]
pub enum Expr {
    /// A JSX element literal; the children are the expressions nested in
    /// attributes and element children.
    Jsx(Vec<Expr>),
    /// A JSX fragment literal.
    JsxFragment(Vec<Expr>),
    /// A parenthesized expression.
    Paren(Box<Expr>),
    /// An object literal; the children are the property values.
    Object(Vec<Expr>),
    /// A call: callee and arguments.  A `super` or `import` callee is
    /// modelled as an `Other` callee.
    Call(Box<Expr>, Vec<Expr>),
    /// A member access.
    Member(Box<Expr>, MemberProp),
    /// A tagged template: tag and the interpolated expressions.
    TaggedTpl(Box<Expr>, Vec<Expr>),
    /// An assignment: operator, target and value.  Targets that are not
    /// expression-shaped (destructuring patterns) are `Other` targets.
    Assign(AssignOp, Box<Expr>, Box<Expr>),
    /// An identifier reference.
    Ident(Name),
    /// A string literal.
    StrLit(String),
    /// A function or arrow expression: parameter expressions (default
    /// values and the like) and the body statements.
    Func(Vec<Expr>, Vec<Stmt>),
    /// Any other expression, keeping its child expressions.
    Other(Vec<Expr>),
}

/// A binding pattern of a variable declarator.
#[derive(Debug, PartialEq)]
pub enum Pat {
    /// A single simple identifier.
    Simple(Name),
    /// Anything else (destructuring and the like), keeping the
    /// expressions embedded in it, such as default values.
    Complex(Vec<Expr>),
}

/// One declarator of a variable declaration: `pat = init`.
#[derive(Debug, PartialEq)]
pub struct Declarator {
    pub pat: Pat,
    pub init: Option<Expr>,
}

/// A statement, reduced to the shapes the pass distinguishes.
#[derive(Debug, PartialEq)]
pub enum Stmt {
    /// A variable declaration, possibly exported, with its declarators.
    VarDecl { exported: bool, decls: Vec<Declarator> },
    /// A function declaration, possibly exported.
    FnDecl { exported: bool, name: Name, params: Vec<Expr>, body: Vec<Stmt> },
    /// `export default function [name] (...) { ... }`.
    DefaultExportFn { name: Option<Name>, params: Vec<Expr>, body: Vec<Stmt> },
    /// `export default <expression>;`.
    DefaultExportExpr(Expr),
    /// An expression statement.
    ExprStmt(Expr),
    /// A nested statement list that is itself a root for the pass
    /// (a nested module or namespace block).
    Nested(Vec<Stmt>),
    /// Any other statement, keeping its child expressions and the
    /// statements of plain blocks hanging off it (which are not roots).
    Other(Vec<Expr>, Vec<Stmt>),
}

/// Model of `Name`.
pub struct NameV {
    pub text: Seq<char>,
    pub ctxt: u32,
}

/// Model of `MemberProp`.
pub enum MemberPropV {
    Named(Seq<char>),
    Computed(Box<ExprV>),
    Private(Seq<char>),
}

/// Model of `Expr`.
pub enum ExprV {
    Jsx(Seq<ExprV>),
    JsxFragment(Seq<ExprV>),
    Paren(Box<ExprV>),
    Object(Seq<ExprV>),
    Call(Box<ExprV>, Seq<ExprV>),
    Member(Box<ExprV>, MemberPropV),
    TaggedTpl(Box<ExprV>, Seq<ExprV>),
    Assign(AssignOp, Box<ExprV>, Box<ExprV>),
    Ident(NameV),
    StrLit(Seq<char>),
    Func(Seq<ExprV>, Seq<StmtV>),
    Other(Seq<ExprV>),
}

/// Model of `Pat`.
pub enum PatV {
    Simple(NameV),
    Complex(Seq<ExprV>),
}

/// Model of `Declarator`.
pub struct DeclaratorV {
    pub pat: PatV,
    pub init: Option<ExprV>,
}

/// Model of `Stmt`.
pub enum StmtV {
    VarDecl { exported: bool, decls: Seq<DeclaratorV> },
    FnDecl { exported: bool, name: NameV, params: Seq<ExprV>, body: Seq<StmtV> },
    DefaultExportFn { name: Option<NameV>, params: Seq<ExprV>, body: Seq<StmtV> },
    DefaultExportExpr(ExprV),
    ExprStmt(ExprV),
    Nested(Seq<StmtV>),
    Other(Seq<ExprV>, Seq<StmtV>),
}

pub open spec fn view_name(n: Name) -> NameV {
    NameV { text: n.text@, ctxt: n.ctxt }
}

pub open spec fn view_opt_name(n: Option<Name>) -> Option<NameV> {
    match n {
        Some(n) => Some(view_name(n)),
        None => None,
    }
}

pub open spec fn view_prop(p: MemberProp) -> MemberPropV
    decreases p,
{
    match p {
        MemberProp::Named(s) => MemberPropV::Named(s@),
        MemberProp::Computed(e) => MemberPropV::Computed(Box::new(view_expr(*e))),
        MemberProp::Private(s) => MemberPropV::Private(s@),
    }
}

pub open spec fn view_expr(e: Expr) -> ExprV
    decreases e,
{
    match e {
        Expr::Jsx(es) => ExprV::Jsx(view_exprs(es@)),
        Expr::JsxFragment(es) => ExprV::JsxFragment(view_exprs(es@)),
        Expr::Paren(inner) => ExprV::Paren(Box::new(view_expr(*inner))),
        Expr::Object(es) => ExprV::Object(view_exprs(es@)),
        Expr::Call(callee, args) => ExprV::Call(
            Box::new(view_expr(*callee)),
            view_exprs(args@),
        ),
        Expr::Member(obj, prop) => ExprV::Member(Box::new(view_expr(*obj)), view_prop(prop)),
        Expr::TaggedTpl(tag, es) => ExprV::TaggedTpl(Box::new(view_expr(*tag)), view_exprs(es@)),
        Expr::Assign(op, target, value) => ExprV::Assign(
            op,
            Box::new(view_expr(*target)),
            Box::new(view_expr(*value)),
        ),
        Expr::Ident(n) => ExprV::Ident(view_name(n)),
        Expr::StrLit(s) => ExprV::StrLit(s@),
        Expr::Func(params, body) => ExprV::Func(view_exprs(params@), view_stmts(body@)),
        Expr::Other(es) => ExprV::Other(view_exprs(es@)),
    }
}

pub open spec fn view_exprs(es: Seq<Expr>) -> Seq<ExprV>
    decreases es,
{
    if es.len() == 0 {
        Seq::empty()
    } else {
        seq![view_expr(es[0])] + view_exprs(es.drop_first())
    }
}

pub open spec fn view_opt_expr(e: Option<Expr>) -> Option<ExprV>
    decreases e,
{
    match e {
        Some(e) => Some(view_expr(e)),
        None => None,
    }
}

pub open spec fn view_pat(p: Pat) -> PatV
    decreases p,
{
    match p {
        Pat::Simple(n) => PatV::Simple(view_name(n)),
        Pat::Complex(es) => PatV::Complex(view_exprs(es@)),
    }
}

pub open spec fn view_decl(d: Declarator) -> DeclaratorV
    decreases d,
{
    DeclaratorV { pat: view_pat(d.pat), init: view_opt_expr(d.init) }
}

pub open spec fn view_decls(ds: Seq<Declarator>) -> Seq<DeclaratorV>
    decreases ds,
{
    if ds.len() == 0 {
        Seq::empty()
    } else {
        seq![view_decl(ds[0])] + view_decls(ds.drop_first())
    }
}

pub open spec fn view_stmt(s: Stmt) -> StmtV
    decreases s,
{
    match s {
        Stmt::VarDecl { exported, decls } => StmtV::VarDecl {
            exported,
            decls: view_decls(decls@),
        },
        Stmt::FnDecl { exported, name, params, body } => StmtV::FnDecl {
            exported,
            name: view_name(name),
            params: view_exprs(params@),
            body: view_stmts(body@),
        },
        Stmt::DefaultExportFn { name, params, body } => StmtV::DefaultExportFn {
            name: view_opt_name(name),
            params: view_exprs(params@),
            body: view_stmts(body@),
        },
        Stmt::DefaultExportExpr(e) => StmtV::DefaultExportExpr(view_expr(e)),
        Stmt::ExprStmt(e) => StmtV::ExprStmt(view_expr(e)),
        Stmt::Nested(ss) => StmtV::Nested(view_stmts(ss@)),
        Stmt::Other(es, ss) => StmtV::Other(view_exprs(es@), view_stmts(ss@)),
    }
}

pub open spec fn view_stmts(ss: Seq<Stmt>) -> Seq<StmtV>
    decreases ss,
{
    if ss.len() == 0 {
        Seq::empty()
    } else {
        seq![view_stmt(ss[0])] + view_stmts(ss.drop_first())
    }
}

pub proof fn lemma_view_exprs(es: Seq<Expr>)
    ensures
        view_exprs(es).len() == es.len(),
        forall|i: int| 0 <= i < es.len() ==> view_exprs(es)[i] == view_expr(es[i]),
    decreases es,
{
    if es.len() > 0 {
        lemma_view_exprs(es.drop_first());
    }
}

pub proof fn lemma_view_decls(ds: Seq<Declarator>)
    ensures
        view_decls(ds).len() == ds.len(),
        forall|i: int| 0 <= i < ds.len() ==> view_decls(ds)[i] == view_decl(ds[i]),
    decreases ds,
{
    if ds.len() > 0 {
        lemma_view_decls(ds.drop_first());
    }
}

pub proof fn lemma_view_stmts(ss: Seq<Stmt>)
    ensures
        view_stmts(ss).len() == ss.len(),
        forall|i: int| 0 <= i < ss.len() ==> view_stmts(ss)[i] == view_stmt(ss[i]),
    decreases ss,
{
    if ss.len() > 0 {
        lemma_view_stmts(ss.drop_first());
    }
}

pub proof fn lemma_view_stmts_push(ss: Seq<Stmt>, s: Stmt)
    ensures
        view_stmts(ss.push(s)) == view_stmts(ss).push(view_stmt(s)),
{
    lemma_view_stmts(ss);
    lemma_view_stmts(ss.push(s));
    assert(view_stmts(ss.push(s)) =~= view_stmts(ss).push(view_stmt(s)));
}

pub proof fn lemma_view_stmts_insert(ss: Seq<Stmt>, i: int, s: Stmt)
    requires
        0 <= i <= ss.len(),
    ensures
        view_stmts(ss.insert(i, s)) == view_stmts(ss).insert(i, view_stmt(s)),
{
    lemma_view_stmts(ss);
    lemma_view_stmts(ss.insert(i, s));
    assert(view_stmts(ss.insert(i, s)) =~= view_stmts(ss).insert(i, view_stmt(s)));
}

impl Name {
    /// An owned copy of this name.
    pub fn duplicate(&self) -> (r: Name)
        ensures
            r == *self,
    {
        let r = Name { text: self.text.clone(), ctxt: self.ctxt };
        proof {
            assert(r.text == self.text);
        }
        r
    }
}

/// Equality of two heap strings, stated over their views.
pub fn string_eq(a: &String, b: &String) -> (r: bool)
    ensures
        r == (a@ == b@),
{
    *a == *b
}

/// Equality of a heap string and a literal, stated over their views.
pub fn string_is(a: &String, b: &str) -> (r: bool)
    ensures
        r == (a@ == b@),
{
    let owned: String = b.to_owned();
    *a == owned
}

} // verus!
