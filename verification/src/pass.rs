//! The driving traversal: children first, local insertion second.
//!
//! Every nested statement list that is itself a module-like root (a
//! nested module or namespace block) is processed independently with the
//! same per-list pass; plain blocks and function bodies are traversed
//! but are not roots of their own.
use vstd::prelude::*;

use crate::ast::AssignOp;
use crate::ast::Declarator;
use crate::ast::DeclaratorV;
use crate::ast::Expr;
use crate::ast::ExprV;
use crate::ast::MemberProp;
use crate::ast::MemberPropV;
use crate::ast::Pat;
use crate::ast::PatV;
use crate::ast::Stmt;
use crate::ast::StmtV;
use crate::ast::lemma_view_decls;
use crate::ast::lemma_view_exprs;
use crate::ast::lemma_view_stmts;
use crate::ast::view_decl;
use crate::ast::view_decls;
use crate::ast::view_expr;
use crate::ast::view_exprs;
use crate::ast::view_pat;
use crate::ast::view_prop;
use crate::ast::view_stmt;
use crate::ast::view_stmts;
use crate::schedule::add_display_names;
use crate::schedule::local_pass;

verus! {

/// The whole pass on one root statement list: process the children
/// first, then run the per-list pass on the list itself.
pub open spec fn xform_root(ss: Seq<StmtV>) -> Seq<StmtV>
    decreases ss, 1int,
{
    local_pass(xform_stmts(ss))
}

/// Process the children of every statement of a non-root list.
pub open spec fn xform_stmts(ss: Seq<StmtV>) -> Seq<StmtV>
    decreases ss, 0int,
{
    if ss.len() == 0 {
        Seq::empty()
    } else {
        seq![xform_stmt(ss[0])] + xform_stmts(ss.drop_first())
    }
}

/// Process the nested lists inside one statement.
pub open spec fn xform_stmt(s: StmtV) -> StmtV
    decreases s, 2int,
{
    match s {
        StmtV::VarDecl { exported, decls } => StmtV::VarDecl {
            exported,
            decls: xform_decls(decls),
        },
        StmtV::FnDecl { exported, name, params, body } => StmtV::FnDecl {
            exported,
            name,
            params: xform_exprs(params),
            body: xform_stmts(body),
        },
        StmtV::DefaultExportFn { name, params, body } => StmtV::DefaultExportFn {
            name,
            params: xform_exprs(params),
            body: xform_stmts(body),
        },
        StmtV::DefaultExportExpr(e) => StmtV::DefaultExportExpr(xform_expr(e)),
        StmtV::ExprStmt(e) => StmtV::ExprStmt(xform_expr(e)),
        StmtV::Nested(ss) => StmtV::Nested(xform_root(ss)),
        StmtV::Other(es, ss) => StmtV::Other(xform_exprs(es), xform_stmts(ss)),
    }
}

pub open spec fn xform_decls(ds: Seq<DeclaratorV>) -> Seq<DeclaratorV>
    decreases ds, 0int,
{
    if ds.len() == 0 {
        Seq::empty()
    } else {
        seq![xform_decl(ds[0])] + xform_decls(ds.drop_first())
    }
}

pub open spec fn xform_decl(d: DeclaratorV) -> DeclaratorV
    decreases d, 1int,
{
    DeclaratorV { pat: xform_pat(d.pat), init: xform_opt_expr(d.init) }
}

pub open spec fn xform_pat(p: PatV) -> PatV
    decreases p, 0int,
{
    match p {
        PatV::Simple(n) => PatV::Simple(n),
        PatV::Complex(es) => PatV::Complex(xform_exprs(es)),
    }
}

pub open spec fn xform_opt_expr(e: Option<ExprV>) -> Option<ExprV>
    decreases e, 0int,
{
    match e {
        Some(e) => Some(xform_expr(e)),
        None => None,
    }
}

pub open spec fn xform_exprs(es: Seq<ExprV>) -> Seq<ExprV>
    decreases es, 0int,
{
    if es.len() == 0 {
        Seq::empty()
    } else {
        seq![xform_expr(es[0])] + xform_exprs(es.drop_first())
    }
}

pub open spec fn xform_prop(p: MemberPropV) -> MemberPropV
    decreases p, 0int,
{
    match p {
        MemberPropV::Named(s) => MemberPropV::Named(s),
        MemberPropV::Computed(e) => MemberPropV::Computed(Box::new(xform_expr(*e))),
        MemberPropV::Private(s) => MemberPropV::Private(s),
    }
}

pub open spec fn xform_expr(e: ExprV) -> ExprV
    decreases e, 1int,
{
    match e {
        ExprV::Jsx(es) => ExprV::Jsx(xform_exprs(es)),
        ExprV::JsxFragment(es) => ExprV::JsxFragment(xform_exprs(es)),
        ExprV::Paren(inner) => ExprV::Paren(Box::new(xform_expr(*inner))),
        ExprV::Object(es) => ExprV::Object(xform_exprs(es)),
        ExprV::Call(callee, args) => ExprV::Call(
            Box::new(xform_expr(*callee)),
            xform_exprs(args),
        ),
        ExprV::Member(obj, prop) => ExprV::Member(Box::new(xform_expr(*obj)), xform_prop(prop)),
        ExprV::TaggedTpl(tag, es) => ExprV::TaggedTpl(
            Box::new(xform_expr(*tag)),
            xform_exprs(es),
        ),
        ExprV::Assign(op, target, value) => ExprV::Assign(
            op,
            Box::new(xform_expr(*target)),
            Box::new(xform_expr(*value)),
        ),
        ExprV::Ident(n) => ExprV::Ident(n),
        ExprV::StrLit(s) => ExprV::StrLit(s),
        ExprV::Func(params, body) => ExprV::Func(xform_exprs(params), xform_stmts(body)),
        ExprV::Other(es) => ExprV::Other(xform_exprs(es)),
    }
}

pub proof fn lemma_xform_exprs(es: Seq<ExprV>)
    ensures
        xform_exprs(es).len() == es.len(),
        forall|i: int| 0 <= i < es.len() ==> xform_exprs(es)[i] == xform_expr(es[i]),
    decreases es,
{
    if es.len() > 0 {
        lemma_xform_exprs(es.drop_first());
    }
}

pub proof fn lemma_xform_decls(ds: Seq<DeclaratorV>)
    ensures
        xform_decls(ds).len() == ds.len(),
        forall|i: int| 0 <= i < ds.len() ==> xform_decls(ds)[i] == xform_decl(ds[i]),
    decreases ds,
{
    if ds.len() > 0 {
        lemma_xform_decls(ds.drop_first());
    }
}

pub proof fn lemma_xform_stmts(ss: Seq<StmtV>)
    ensures
        xform_stmts(ss).len() == ss.len(),
        forall|i: int| 0 <= i < ss.len() ==> xform_stmts(ss)[i] == xform_stmt(ss[i]),
    decreases ss,
{
    if ss.len() > 0 {
        lemma_xform_stmts(ss.drop_first());
    }
}

/// Process the children of one expression, rebuilding it.
fn transform_expr(e: &Expr) -> (r: Expr)
    ensures
        view_expr(r) == xform_expr(view_expr(*e)),
    decreases *e, 1int,
{
    match e {
        Expr::Jsx(es) => {
            let r = Expr::Jsx(transform_exprs(es));
            proof {
                assert(view_expr(r) == xform_expr(view_expr(*e)));
            }
            r
        },
        Expr::JsxFragment(es) => {
            let r = Expr::JsxFragment(transform_exprs(es));
            proof {
                assert(view_expr(r) == xform_expr(view_expr(*e)));
            }
            r
        },
        Expr::Paren(inner) => {
            let r = Expr::Paren(Box::new(transform_expr(inner)));
            proof {
                assert(view_expr(r) == xform_expr(view_expr(*e)));
            }
            r
        },
        Expr::Object(es) => {
            let r = Expr::Object(transform_exprs(es));
            proof {
                assert(view_expr(r) == xform_expr(view_expr(*e)));
            }
            r
        },
        Expr::Call(callee, args) => {
            let r = Expr::Call(Box::new(transform_expr(callee)), transform_exprs(args));
            proof {
                assert(view_expr(r) == xform_expr(view_expr(*e)));
            }
            r
        },
        Expr::Member(obj, prop) => {
            let r = Expr::Member(Box::new(transform_expr(obj)), transform_prop(prop));
            proof {
                assert(view_expr(r) == xform_expr(view_expr(*e)));
            }
            r
        },
        Expr::TaggedTpl(tag, es) => {
            let r = Expr::TaggedTpl(Box::new(transform_expr(tag)), transform_exprs(es));
            proof {
                assert(view_expr(r) == xform_expr(view_expr(*e)));
            }
            r
        },
        Expr::Assign(op, target, value) => {
            let op2 = match op {
                AssignOp::Plain => AssignOp::Plain,
                AssignOp::Compound => AssignOp::Compound,
            };
            let r = Expr::Assign(
                op2,
                Box::new(transform_expr(target)),
                Box::new(transform_expr(value)),
            );
            proof {
                assert(view_expr(r) == xform_expr(view_expr(*e)));
            }
            r
        },
        Expr::Ident(n) => {
            let r = Expr::Ident(n.duplicate());
            proof {
                assert(view_expr(r) == xform_expr(view_expr(*e)));
            }
            r
        },
        Expr::StrLit(s) => {
            let r = Expr::StrLit(s.clone());
            proof {
                assert(view_expr(r) == xform_expr(view_expr(*e)));
            }
            r
        },
        Expr::Func(params, body) => {
            let r = Expr::Func(transform_exprs(params), transform_stmts(body));
            proof {
                assert(view_expr(r) == xform_expr(view_expr(*e)));
            }
            r
        },
        Expr::Other(es) => {
            let r = Expr::Other(transform_exprs(es));
            proof {
                assert(view_expr(r) == xform_expr(view_expr(*e)));
            }
            r
        },
    }
}

fn transform_prop(p: &MemberProp) -> (r: MemberProp)
    ensures
        view_prop(r) == xform_prop(view_prop(*p)),
    decreases *p, 1int,
{
    match p {
        MemberProp::Named(s) => MemberProp::Named(s.clone()),
        MemberProp::Computed(e) => MemberProp::Computed(Box::new(transform_expr(e))),
        MemberProp::Private(s) => MemberProp::Private(s.clone()),
    }
}

fn transform_exprs(es: &Vec<Expr>) -> (r: Vec<Expr>)
    ensures
        view_exprs(r@) == xform_exprs(view_exprs(es@)),
    decreases es@, 0int,
{
    let ghost ev = view_exprs(es@);
    proof {
        lemma_view_exprs(es@);
        lemma_xform_exprs(ev);
    }
    let mut r: Vec<Expr> = Vec::new();
    let mut i: usize = 0;
    while i < es.len()
        invariant
            i <= es.len(),
            ev == view_exprs(es@),
            ev.len() == es@.len(),
            view_exprs(r@).len() == i,
            forall|j: int| 0 <= j < i ==> view_exprs(r@)[j] == xform_expr(ev[j]),
        decreases es.len() - i,
    {
        proof {
            lemma_view_exprs(es@);
            lemma_view_exprs(r@);
        }
        let ghost before = r@;
        r.push(transform_expr(&es[i]));
        proof {
            crate::ast::lemma_view_exprs(r@);
            assert(r@ == before.push(r@.last()));
            assert(view_exprs(r@) =~= view_exprs(before).push(view_expr(r@.last())));
        }
        i = i + 1;
    }
    proof {
        lemma_view_exprs(r@);
        lemma_xform_exprs(ev);
        assert(view_exprs(r@) =~= xform_exprs(ev));
    }
    r
}

fn transform_pat(p: &Pat) -> (r: Pat)
    ensures
        view_pat(r) == xform_pat(view_pat(*p)),
    decreases *p, 1int,
{
    match p {
        Pat::Simple(n) => Pat::Simple(n.duplicate()),
        Pat::Complex(es) => Pat::Complex(transform_exprs(es)),
    }
}

fn transform_decl(d: &Declarator) -> (r: Declarator)
    ensures
        view_decl(r) == xform_decl(view_decl(*d)),
    decreases *d, 2int,
{
    let init = match &d.init {
        Some(e) => Some(transform_expr(e)),
        None => None,
    };
    let r = Declarator { pat: transform_pat(&d.pat), init };
    proof {
        assert(view_decl(r) == xform_decl(view_decl(*d)));
    }
    r
}

fn transform_decls(ds: &Vec<Declarator>) -> (r: Vec<Declarator>)
    ensures
        view_decls(r@) == xform_decls(view_decls(ds@)),
    decreases ds@, 3int,
{
    let ghost dv = view_decls(ds@);
    proof {
        lemma_view_decls(ds@);
        lemma_xform_decls(dv);
    }
    let mut r: Vec<Declarator> = Vec::new();
    let mut i: usize = 0;
    while i < ds.len()
        invariant
            i <= ds.len(),
            dv == view_decls(ds@),
            dv.len() == ds@.len(),
            view_decls(r@).len() == i,
            forall|j: int| 0 <= j < i ==> view_decls(r@)[j] == xform_decl(dv[j]),
        decreases ds.len() - i,
    {
        proof {
            lemma_view_decls(ds@);
            lemma_view_decls(r@);
        }
        let ghost before = r@;
        r.push(transform_decl(&ds[i]));
        proof {
            lemma_view_decls(r@);
            assert(r@ == before.push(r@.last()));
            assert(view_decls(r@) =~= view_decls(before).push(view_decl(r@.last())));
        }
        i = i + 1;
    }
    proof {
        lemma_view_decls(r@);
        lemma_xform_decls(dv);
        assert(view_decls(r@) =~= xform_decls(dv));
    }
    r
}

/// Process the children of one statement, rebuilding it.
fn transform_stmt(s: &Stmt) -> (r: Stmt)
    ensures
        view_stmt(r) == xform_stmt(view_stmt(*s)),
    decreases *s, 4int,
{
    match s {
        Stmt::VarDecl { exported, decls } => {
            let r = Stmt::VarDecl { exported: *exported, decls: transform_decls(decls) };
            proof {
                assert(view_stmt(r) == xform_stmt(view_stmt(*s)));
            }
            r
        },
        Stmt::FnDecl { exported, name, params, body } => {
            let r = Stmt::FnDecl {
                exported: *exported,
                name: name.duplicate(),
                params: transform_exprs(params),
                body: transform_stmts(body),
            };
            proof {
                assert(view_stmt(r) == xform_stmt(view_stmt(*s)));
            }
            r
        },
        Stmt::DefaultExportFn { name, params, body } => {
            let name2 = match name {
                Some(n) => Some(n.duplicate()),
                None => None,
            };
            let r = Stmt::DefaultExportFn {
                name: name2,
                params: transform_exprs(params),
                body: transform_stmts(body),
            };
            proof {
                assert(view_stmt(r) == xform_stmt(view_stmt(*s)));
            }
            r
        },
        Stmt::DefaultExportExpr(e) => {
            let r = Stmt::DefaultExportExpr(transform_expr(e));
            proof {
                assert(view_stmt(r) == xform_stmt(view_stmt(*s)));
            }
            r
        },
        Stmt::ExprStmt(e) => {
            let r = Stmt::ExprStmt(transform_expr(e));
            proof {
                assert(view_stmt(r) == xform_stmt(view_stmt(*s)));
            }
            r
        },
        Stmt::Nested(ss) => {
            let r = Stmt::Nested(transform_root(ss));
            proof {
                assert(view_stmt(r) == xform_stmt(view_stmt(*s)));
            }
            r
        },
        Stmt::Other(es, ss) => {
            let r = Stmt::Other(transform_exprs(es), transform_stmts(ss));
            proof {
                assert(view_stmt(r) == xform_stmt(view_stmt(*s)));
            }
            r
        },
    }
}

/// Process the children of every statement of a non-root list.
fn transform_stmts(ss: &Vec<Stmt>) -> (r: Vec<Stmt>)
    ensures
        view_stmts(r@) == xform_stmts(view_stmts(ss@)),
    decreases ss@, 0int,
{
    let ghost sv = view_stmts(ss@);
    proof {
        lemma_view_stmts(ss@);
        lemma_xform_stmts(sv);
    }
    let mut r: Vec<Stmt> = Vec::new();
    let mut i: usize = 0;
    while i < ss.len()
        invariant
            i <= ss.len(),
            sv == view_stmts(ss@),
            sv.len() == ss@.len(),
            view_stmts(r@).len() == i,
            forall|j: int| 0 <= j < i ==> view_stmts(r@)[j] == xform_stmt(sv[j]),
        decreases ss.len() - i,
    {
        proof {
            lemma_view_stmts(ss@);
            lemma_view_stmts(r@);
        }
        let ghost before = r@;
        r.push(transform_stmt(&ss[i]));
        proof {
            lemma_view_stmts(r@);
            assert(r@ == before.push(r@.last()));
            assert(view_stmts(r@) =~= view_stmts(before).push(view_stmt(r@.last())));
        }
        i = i + 1;
    }
    proof {
        lemma_view_stmts(r@);
        lemma_xform_stmts(sv);
        assert(view_stmts(r@) =~= xform_stmts(sv));
    }
    r
}

/// The whole pass on one root statement list.
fn transform_root(ss: &Vec<Stmt>) -> (r: Vec<Stmt>)
    ensures
        view_stmts(r@) == xform_root(view_stmts(ss@)),
    decreases ss@, 1int,
{
    let t = transform_stmts(ss);
    add_display_names(t)
}

/// The pass on a whole program: every nested root list is processed,
/// children first, and the top-level list last.
pub fn process_transform(program: Vec<Stmt>) -> (r: Vec<Stmt>)
    ensures
        view_stmts(r@) == xform_root(view_stmts(program@)),
{
    transform_root(&program)
}

} // verus!
