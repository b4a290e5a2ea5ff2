//! The JSX-likeness classifier: decides whether a subtree "produces UI".
//!
//! A subtree produces UI when anywhere inside it there is a JSX literal,
//! a call whose callee names a known element-construction function or a
//! known component-producing API (bare or behind any member access), or a
//! tagged template whose tag is `styled.<anything>`.
use vstd::prelude::*;

use crate::ast::Declarator;
use crate::ast::DeclaratorV;
use crate::ast::Expr;
use crate::ast::ExprV;
use crate::ast::MemberProp;
use crate::ast::MemberPropV;
use crate::ast::Pat;
use crate::ast::PatV;
use crate::ast::Stmt;
use crate::ast::StmtV;
use crate::ast::lemma_view_decls;
use crate::ast::lemma_view_exprs;
use crate::ast::lemma_view_stmts;
use crate::ast::string_is;
use crate::ast::view_decl;
use crate::ast::view_decls;
use crate::ast::view_expr;
use crate::ast::view_exprs;
use crate::ast::view_prop;
use crate::ast::view_stmt;
use crate::ast::view_stmts;

verus! {

/// The element-construction function names: the JSX runtime functions and
/// the legacy `createElement`.
pub open spec fn is_element_fn_name(s: Seq<char>) -> bool {
    ||| s == "jsx"@
    ||| s == "jsxs"@
    ||| s == "_jsx"@
    ||| s == "_jsxs"@
    ||| s == "jsxDEV"@
    ||| s == "_jsxDEV"@
    ||| s == "createElement"@
}

/// The component-producing API names: higher-order wrappers that
/// conventionally return a component-like value.
pub open spec fn is_component_api_name(s: Seq<char>) -> bool {
    ||| s == "createContext"@
    ||| s == "observer"@
    ||| s == "connect"@
    ||| s == "styled"@
}

/// Does a callee name an element-construction function, either as a bare
/// identifier or as `X.member` for any `X`?
pub open spec fn callee_is_element_fn(c: ExprV) -> bool {
    match c {
        ExprV::Ident(n) => is_element_fn_name(n.text),
        ExprV::Member(_, prop) => match prop {
            MemberPropV::Named(p) => is_element_fn_name(p),
            _ => false,
        },
        _ => false,
    }
}

/// Does a callee name a component-producing API, either as a bare
/// identifier or as `X.member` for any `X`?
pub open spec fn callee_is_component_api(c: ExprV) -> bool {
    match c {
        ExprV::Ident(n) => is_component_api_name(n.text),
        ExprV::Member(_, prop) => match prop {
            MemberPropV::Named(p) => is_component_api_name(p),
            _ => false,
        },
        _ => false,
    }
}

/// Is this expression the bare identifier `styled`?
pub open spec fn is_styled_ident(e: ExprV) -> bool {
    match e {
        ExprV::Ident(n) => n.text == "styled"@,
        _ => false,
    }
}

/// Is a tagged-template tag of the shape `styled.<name>`?
pub open spec fn tag_is_styled(t: ExprV) -> bool {
    match t {
        ExprV::Member(obj, prop) => is_styled_ident(*obj) && prop is Named,
        _ => false,
    }
}

/// Does the expression contain, anywhere inside, a marker that the
/// classifier recognizes?
pub open spec fn expr_produces_ui(e: ExprV) -> bool
    decreases e, 0int,
{
    match e {
        ExprV::Jsx(_) => true,
        ExprV::JsxFragment(_) => true,
        ExprV::Paren(inner) => expr_produces_ui(*inner),
        ExprV::Object(es) => exprs_produce_ui(es),
        ExprV::Call(callee, args) => {
            ||| callee_is_element_fn(*callee)
            ||| callee_is_component_api(*callee)
            ||| expr_produces_ui(*callee)
            ||| exprs_produce_ui(args)
        },
        ExprV::Member(obj, prop) => expr_produces_ui(*obj) || prop_produces_ui(prop),
        ExprV::TaggedTpl(tag, es) => {
            ||| tag_is_styled(*tag)
            ||| expr_produces_ui(*tag)
            ||| exprs_produce_ui(es)
        },
        ExprV::Assign(_, target, value) => expr_produces_ui(*target) || expr_produces_ui(*value),
        ExprV::Ident(_) => false,
        ExprV::StrLit(_) => false,
        ExprV::Func(params, body) => exprs_produce_ui(params) || stmts_produce_ui(body),
        ExprV::Other(es) => exprs_produce_ui(es),
    }
}

pub open spec fn prop_produces_ui(p: MemberPropV) -> bool
    decreases p, 0int,
{
    match p {
        MemberPropV::Named(_) => false,
        MemberPropV::Computed(e) => expr_produces_ui(*e),
        MemberPropV::Private(_) => false,
    }
}

pub open spec fn exprs_produce_ui(es: Seq<ExprV>) -> bool
    decreases es, 0int,
{
    if es.len() == 0 {
        false
    } else {
        expr_produces_ui(es[0]) || exprs_produce_ui(es.drop_first())
    }
}

pub open spec fn pat_produces_ui(p: PatV) -> bool
    decreases p, 0int,
{
    match p {
        PatV::Simple(_) => false,
        PatV::Complex(es) => exprs_produce_ui(es),
    }
}

pub open spec fn decl_produces_ui(d: DeclaratorV) -> bool
    decreases d, 1int,
{
    pat_produces_ui(d.pat) || opt_expr_produces_ui(d.init)
}

pub open spec fn opt_expr_produces_ui(e: Option<ExprV>) -> bool
    decreases e, 0int,
{
    match e {
        Some(e) => expr_produces_ui(e),
        None => false,
    }
}

pub open spec fn decls_produce_ui(ds: Seq<DeclaratorV>) -> bool
    decreases ds, 2int,
{
    if ds.len() == 0 {
        false
    } else {
        decl_produces_ui(ds[0]) || decls_produce_ui(ds.drop_first())
    }
}

pub open spec fn stmt_produces_ui(s: StmtV) -> bool
    decreases s, 3int,
{
    match s {
        StmtV::VarDecl { decls, .. } => decls_produce_ui(decls),
        StmtV::FnDecl { params, body, .. } => exprs_produce_ui(params) || stmts_produce_ui(body),
        StmtV::DefaultExportFn { params, body, .. } => exprs_produce_ui(params)
            || stmts_produce_ui(body),
        StmtV::DefaultExportExpr(e) => expr_produces_ui(e),
        StmtV::ExprStmt(e) => expr_produces_ui(e),
        StmtV::Nested(ss) => stmts_produce_ui(ss),
        StmtV::Other(es, ss) => exprs_produce_ui(es) || stmts_produce_ui(ss),
    }
}

pub open spec fn stmts_produce_ui(ss: Seq<StmtV>) -> bool
    decreases ss, 0int,
{
    if ss.len() == 0 {
        false
    } else {
        stmt_produces_ui(ss[0]) || stmts_produce_ui(ss.drop_first())
    }
}

/// Does this heap string name an element-construction function?
fn is_element_fn_name_ex(t: &String) -> (r: bool)
    ensures
        r == is_element_fn_name(t@),
{
    string_is(t, "jsx") || string_is(t, "jsxs") || string_is(t, "_jsx") || string_is(t, "_jsxs")
        || string_is(t, "jsxDEV") || string_is(t, "_jsxDEV") || string_is(t, "createElement")
}

/// Does this heap string name a component-producing API?
fn is_component_api_name_ex(t: &String) -> (r: bool)
    ensures
        r == is_component_api_name(t@),
{
    string_is(t, "createContext") || string_is(t, "observer") || string_is(t, "connect")
        || string_is(t, "styled")
}

/// Does this callee match either recognized name set, bare or behind a
/// member access?
fn callee_matches(c: &Expr) -> (r: (bool, bool))
    ensures
        r.0 == callee_is_element_fn(view_expr(*c)),
        r.1 == callee_is_component_api(view_expr(*c)),
{
    match c {
        Expr::Ident(n) => {
            let e = is_element_fn_name_ex(&n.text);
            let a = is_component_api_name_ex(&n.text);
            proof {
                assert(view_expr(*c) == ExprV::Ident(crate::ast::view_name(*n)));
            }
            (e, a)
        },
        Expr::Member(_, prop) => match prop {
            MemberProp::Named(p) => (is_element_fn_name_ex(p), is_component_api_name_ex(p)),
            MemberProp::Computed(_) => {
                proof {
                    assert(view_prop(*prop) is Computed);
                }
                (false, false)
            },
            MemberProp::Private(_) => (false, false),
        },
        _ => (false, false),
    }
}

/// Is this tagged-template tag of the shape `styled.<name>`?
fn tag_matches_styled(t: &Expr) -> (r: bool)
    ensures
        r == tag_is_styled(view_expr(*t)),
{
    match t {
        Expr::Member(obj, prop) => {
            let obj_styled = match &**obj {
                Expr::Ident(n) => string_is(&n.text, "styled"),
                _ => false,
            };
            let prop_named = match prop {
                MemberProp::Named(_) => true,
                MemberProp::Computed(_) => {
                    proof {
                        assert(view_prop(*prop) is Computed);
                    }
                    false
                },
                MemberProp::Private(_) => false,
            };
            proof {
                assert(view_expr(*t) == ExprV::Member(
                    Box::new(view_expr(**obj)),
                    view_prop(*prop),
                ));
                assert(obj_styled == is_styled_ident(view_expr(**obj)));
                assert(prop_named == (view_prop(*prop) is Named));
            }
            obj_styled && prop_named
        },
        _ => false,
    }
}

/// The JSX-likeness classifier: does this expression produce UI?
pub fn is_component_producing(e: &Expr) -> (r: bool)
    ensures
        r == expr_produces_ui(view_expr(*e)),
    decreases *e, 0int,
{
    match e {
        Expr::Jsx(_) => true,
        Expr::JsxFragment(_) => true,
        Expr::Paren(inner) => is_component_producing(inner),
        Expr::Object(es) => exprs_component_producing(es),
        Expr::Call(callee, args) => {
            let (elem, api) = callee_matches(callee);
            elem || api || is_component_producing(callee) || exprs_component_producing(args)
        },
        Expr::Member(obj, prop) => {
            is_component_producing(obj) || prop_component_producing(prop)
        },
        Expr::TaggedTpl(tag, es) => {
            tag_matches_styled(tag) || is_component_producing(tag) || exprs_component_producing(es)
        },
        Expr::Assign(_, target, value) => {
            is_component_producing(target) || is_component_producing(value)
        },
        Expr::Ident(_) => false,
        Expr::StrLit(_) => false,
        Expr::Func(params, body) => {
            exprs_component_producing(params) || stmts_component_producing(body)
        },
        Expr::Other(es) => exprs_component_producing(es),
    }
}

fn prop_component_producing(p: &MemberProp) -> (r: bool)
    ensures
        r == prop_produces_ui(view_prop(*p)),
    decreases *p, 0int,
{
    match p {
        MemberProp::Named(_) => false,
        MemberProp::Computed(e) => is_component_producing(e),
        MemberProp::Private(_) => false,
    }
}

pub(crate) fn exprs_component_producing(es: &Vec<Expr>) -> (r: bool)
    ensures
        r == exprs_produce_ui(view_exprs(es@)),
    decreases es@, 0int,
{
    let mut i: usize = 0;
    let mut found: bool = false;
    while i < es.len()
        invariant
            i <= es.len(),
            found == exists|j: int| 0 <= j < i && expr_produces_ui(view_exprs(es@)[j]),
        decreases es.len() - i,
    {
        proof {
            lemma_view_exprs(es@);
        }
        if is_component_producing(&es[i]) {
            proof {
                assert(expr_produces_ui(view_exprs(es@)[i as int]));
            }
            found = true;
        }
        i = i + 1;
    }
    proof {
        lemma_exprs_produce_ui_exists(view_exprs(es@));
        lemma_view_exprs(es@);
    }
    found
}

pub(crate) fn decl_component_producing(d: &Declarator) -> (r: bool)
    ensures
        r == decl_produces_ui(view_decl(*d)),
    decreases *d, 1int,
{
    let in_pat = match &d.pat {
        Pat::Simple(_) => false,
        Pat::Complex(es) => exprs_component_producing(es),
    };
    if in_pat {
        true
    } else {
        match &d.init {
            Some(e) => is_component_producing(e),
            None => false,
        }
    }
}

fn decls_component_producing(ds: &Vec<Declarator>) -> (r: bool)
    ensures
        r == decls_produce_ui(view_decls(ds@)),
    decreases ds@, 2int,
{
    let mut i: usize = 0;
    let mut found: bool = false;
    while i < ds.len()
        invariant
            i <= ds.len(),
            found == exists|j: int| 0 <= j < i && decl_produces_ui(view_decls(ds@)[j]),
        decreases ds.len() - i,
    {
        proof {
            lemma_view_decls(ds@);
        }
        if decl_component_producing(&ds[i]) {
            proof {
                assert(decl_produces_ui(view_decls(ds@)[i as int]));
            }
            found = true;
        }
        i = i + 1;
    }
    proof {
        lemma_decls_produce_ui_exists(view_decls(ds@));
        lemma_view_decls(ds@);
    }
    found
}

fn stmt_component_producing(s: &Stmt) -> (r: bool)
    ensures
        r == stmt_produces_ui(view_stmt(*s)),
    decreases *s, 3int,
{
    match s {
        Stmt::VarDecl { decls, .. } => decls_component_producing(decls),
        Stmt::FnDecl { params, body, .. } => {
            exprs_component_producing(params) || stmts_component_producing(body)
        },
        Stmt::DefaultExportFn { params, body, .. } => {
            exprs_component_producing(params) || stmts_component_producing(body)
        },
        Stmt::DefaultExportExpr(e) => is_component_producing(e),
        Stmt::ExprStmt(e) => is_component_producing(e),
        Stmt::Nested(ss) => stmts_component_producing(ss),
        Stmt::Other(es, ss) => {
            exprs_component_producing(es) || stmts_component_producing(ss)
        },
    }
}

pub(crate) fn stmts_component_producing(ss: &Vec<Stmt>) -> (r: bool)
    ensures
        r == stmts_produce_ui(view_stmts(ss@)),
    decreases ss@, 0int,
{
    let mut i: usize = 0;
    let mut found: bool = false;
    while i < ss.len()
        invariant
            i <= ss.len(),
            found == exists|j: int| 0 <= j < i && stmt_produces_ui(view_stmts(ss@)[j]),
        decreases ss.len() - i,
    {
        proof {
            lemma_view_stmts(ss@);
        }
        if stmt_component_producing(&ss[i]) {
            proof {
                assert(stmt_produces_ui(view_stmts(ss@)[i as int]));
            }
            found = true;
        }
        i = i + 1;
    }
    proof {
        lemma_stmts_produce_ui_exists(view_stmts(ss@));
        lemma_view_stmts(ss@);
    }
    found
}

pub proof fn lemma_exprs_produce_ui_exists(es: Seq<ExprV>)
    ensures
        exprs_produce_ui(es) == exists|j: int| 0 <= j < es.len() && expr_produces_ui(es[j]),
    decreases es,
{
    if es.len() > 0 {
        lemma_exprs_produce_ui_exists(es.drop_first());
        if !expr_produces_ui(es[0]) {
            if exists|j: int| 0 <= j < es.len() && expr_produces_ui(es[j]) {
                let j = choose|j: int| 0 <= j < es.len() && expr_produces_ui(es[j]);
                assert(es.drop_first()[j - 1] == es[j]);
            }
        }
    }
}

pub proof fn lemma_decls_produce_ui_exists(ds: Seq<DeclaratorV>)
    ensures
        decls_produce_ui(ds) == exists|j: int| 0 <= j < ds.len() && decl_produces_ui(ds[j]),
    decreases ds,
{
    if ds.len() > 0 {
        lemma_decls_produce_ui_exists(ds.drop_first());
        if !decl_produces_ui(ds[0]) {
            if exists|j: int| 0 <= j < ds.len() && decl_produces_ui(ds[j]) {
                let j = choose|j: int| 0 <= j < ds.len() && decl_produces_ui(ds[j]);
                assert(ds.drop_first()[j - 1] == ds[j]);
            }
        }
    }
}

pub proof fn lemma_stmts_produce_ui_exists(ss: Seq<StmtV>)
    ensures
        stmts_produce_ui(ss) == exists|j: int| 0 <= j < ss.len() && stmt_produces_ui(ss[j]),
    decreases ss,
{
    if ss.len() > 0 {
        lemma_stmts_produce_ui_exists(ss.drop_first());
        if !stmt_produces_ui(ss[0]) {
            if exists|j: int| 0 <= j < ss.len() && stmt_produces_ui(ss[j]) {
                let j = choose|j: int| 0 <= j < ss.len() && stmt_produces_ui(ss[j]);
                assert(ss.drop_first()[j - 1] == ss[j]);
            }
        }
    }
}

} // verus!
