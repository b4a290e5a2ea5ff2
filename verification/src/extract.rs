//! The candidate extractor: walks the top level of one statement list and
//! collects, in order, every binding that looks like a UI component.
//!
//! A statement can yield several candidates (a variable statement with
//! several declarators); each candidate carries the position of its
//! originating statement, the bound name and that name's scope token.
use vstd::prelude::*;

use crate::ast::Declarator;
use crate::ast::DeclaratorV;
use crate::ast::Expr;
use crate::ast::ExprV;
use crate::ast::Name;
use crate::ast::NameV;
use crate::ast::Pat;
use crate::ast::PatV;
use crate::ast::Stmt;
use crate::ast::StmtV;
use crate::ast::lemma_view_decls;
use crate::ast::lemma_view_stmts;
use crate::ast::view_decl;
use crate::ast::view_decls;
use crate::ast::view_expr;
use crate::ast::view_name;
use crate::ast::view_stmt;
use crate::ast::view_stmts;
use crate::classify::decl_produces_ui;
use crate::classify::decl_component_producing;
use crate::classify::exprs_produce_ui;
use crate::classify::exprs_component_producing;
use crate::classify::stmts_produce_ui;
use crate::classify::stmts_component_producing;

verus! {

/// A component candidate: the position of its originating statement in
/// the list under scan, and the bound name (with its scope token).
pub struct Component {
    pub pos: usize,
    pub name: Name,
}

/// Model of `Component`.
pub struct ComponentV {
    pub pos: int,
    pub name: NameV,
}

pub open spec fn view_comp(c: Component) -> ComponentV {
    ComponentV { pos: c.pos as int, name: view_name(c.name) }
}

pub open spec fn view_comps(cs: Seq<Component>) -> Seq<ComponentV>
    decreases cs,
{
    if cs.len() == 0 {
        Seq::empty()
    } else {
        seq![view_comp(cs[0])] + view_comps(cs.drop_first())
    }
}

pub proof fn lemma_view_comps(cs: Seq<Component>)
    ensures
        view_comps(cs).len() == cs.len(),
        forall|i: int| 0 <= i < cs.len() ==> view_comps(cs)[i] == view_comp(cs[i]),
    decreases cs,
{
    if cs.len() > 0 {
        lemma_view_comps(cs.drop_first());
    }
}

pub proof fn lemma_view_comps_push(cs: Seq<Component>, c: Component)
    ensures
        view_comps(cs.push(c)) == view_comps(cs).push(view_comp(c)),
{
    lemma_view_comps(cs);
    lemma_view_comps(cs.push(c));
    assert(view_comps(cs.push(c)) =~= view_comps(cs).push(view_comp(c)));
}

impl Component {
    /// The same candidate, anchored to the given statement position.
    pub fn with_pos(self, pos: usize) -> (r: Component)
        ensures
            view_comp(r) == (ComponentV { pos: pos as int, name: view_name(self.name) }),
    {
        Component { pos, ..self }
    }
}

/// Is this initializer directly one of the shapes that never makes its
/// binding a candidate: a bare JSX element or fragment, a parenthesized
/// expression, or an object literal?
pub open spec fn init_is_excluded_shape(init: Option<ExprV>) -> bool {
    match init {
        Some(e) => e is Jsx || e is JsxFragment || e is Paren || e is Object,
        None => false,
    }
}

/// The candidate, if any, that one declarator yields: its binding must be
/// a single simple identifier, its initializer must not be one of the
/// excluded shapes, and the declarator must produce UI somewhere inside.
pub open spec fn declarator_candidate(d: DeclaratorV) -> Option<NameV> {
    match d.pat {
        PatV::Simple(n) => {
            if init_is_excluded_shape(d.init) {
                None
            } else if decl_produces_ui(d) {
                Some(n)
            } else {
                None
            }
        },
        PatV::Complex(_) => None,
    }
}

/// The candidates that the declarators of one variable statement at
/// position `pos` yield, from declarator `j` on, in declarator order.
pub open spec fn decls_candidates_from(ds: Seq<DeclaratorV>, j: int, pos: int) -> Seq<ComponentV>
    decreases ds.len() - j,
{
    if j < 0 || j >= ds.len() {
        Seq::empty()
    } else {
        match declarator_candidate(ds[j]) {
            Some(n) => seq![ComponentV { pos, name: n }] + decls_candidates_from(ds, j + 1, pos),
            None => decls_candidates_from(ds, j + 1, pos),
        }
    }
}

/// The candidates that one statement at position `pos` yields.
pub open spec fn stmt_candidates(s: StmtV, pos: int) -> Seq<ComponentV> {
    match s {
        StmtV::VarDecl { decls, .. } => decls_candidates_from(decls, 0, pos),
        StmtV::FnDecl { name, params, body, .. } => {
            if exprs_produce_ui(params) || stmts_produce_ui(body) {
                seq![ComponentV { pos, name }]
            } else {
                Seq::empty()
            }
        },
        StmtV::DefaultExportFn { name, params, body } => {
            match name {
                Some(n) => {
                    if exprs_produce_ui(params) || stmts_produce_ui(body) {
                        seq![ComponentV { pos, name: n }]
                    } else {
                        Seq::empty()
                    }
                },
                None => Seq::empty(),
            }
        },
        _ => Seq::empty(),
    }
}

/// All candidates of the list from statement `i` on, in statement order,
/// declarator order within a statement.
pub open spec fn candidates_from(ss: Seq<StmtV>, i: int) -> Seq<ComponentV>
    decreases ss.len() - i,
{
    if i < 0 || i >= ss.len() {
        Seq::empty()
    } else {
        stmt_candidates(ss[i], i) + candidates_from(ss, i + 1)
    }
}

/// All candidates of the list, in order.
pub open spec fn candidates_of(ss: Seq<StmtV>) -> Seq<ComponentV> {
    candidates_from(ss, 0)
}

/// Every candidate's position lies in the list, candidates at or past
/// statement `i` have positions at or past `i`, and positions are sorted.
pub proof fn lemma_candidates_from_positions(ss: Seq<StmtV>, i: int)
    ensures
        forall|k: int|
            0 <= k < candidates_from(ss, i).len() ==> i <= (#[trigger] candidates_from(
                ss,
                i,
            )[k]).pos < ss.len(),
        forall|k1: int, k2: int|
            0 <= k1 <= k2 < candidates_from(ss, i).len() ==> (#[trigger] candidates_from(
                ss,
                i,
            )[k1]).pos <= (#[trigger] candidates_from(ss, i)[k2]).pos,
    decreases ss.len() - i,
{
    if 0 <= i < ss.len() {
        lemma_candidates_from_positions(ss, i + 1);
        lemma_stmt_candidates_pos(ss[i], i);
        let cur = candidates_from(ss, i);
        let own = stmt_candidates(ss[i], i);
        let rest = candidates_from(ss, i + 1);
        assert forall|k: int| 0 <= k < cur.len() implies i <= (#[trigger] cur[k]).pos
            < ss.len() by {
            if k < own.len() {
                assert(cur[k] == own[k]);
            } else {
                assert(cur[k] == rest[k - own.len()]);
            }
        }
        assert forall|k1: int, k2: int|
            0 <= k1 <= k2 < cur.len() implies (#[trigger] cur[k1]).pos
            <= (#[trigger] cur[k2]).pos by {
            if k1 < own.len() {
                assert(cur[k1].pos == i);
            } else {
                assert(cur[k1] == rest[k1 - own.len()]);
            }
            if k2 < own.len() {
                assert(cur[k2].pos == i);
            } else {
                assert(cur[k2] == rest[k2 - own.len()]);
            }
        }
    }
}

/// Every candidate of one statement carries that statement's position.
pub proof fn lemma_stmt_candidates_pos(s: StmtV, pos: int)
    ensures
        forall|k: int|
            0 <= k < stmt_candidates(s, pos).len() ==> (#[trigger] stmt_candidates(s, pos)[k]).pos
                == pos,
{
    match s {
        StmtV::VarDecl { decls, .. } => {
            lemma_decls_candidates_pos(decls, 0, pos);
        },
        _ => {},
    }
}

pub proof fn lemma_decls_candidates_pos(ds: Seq<DeclaratorV>, j: int, pos: int)
    ensures
        forall|k: int|
            0 <= k < decls_candidates_from(ds, j, pos).len() ==> (
            #[trigger] decls_candidates_from(ds, j, pos)[k]).pos == pos,
    decreases ds.len() - j,
{
    if 0 <= j < ds.len() {
        lemma_decls_candidates_pos(ds, j + 1, pos);
        let cur = decls_candidates_from(ds, j, pos);
        let rest = decls_candidates_from(ds, j + 1, pos);
        assert forall|k: int| 0 <= k < cur.len() implies (#[trigger] cur[k]).pos == pos by {
            match declarator_candidate(ds[j]) {
                Some(n) => {
                    if k > 0 {
                        assert(cur[k] == rest[k - 1]);
                    }
                },
                None => {
                    assert(cur[k] == rest[k]);
                },
            }
        }
    }
}

/// Is this initializer expression directly one of the excluded shapes?
fn expr_is_excluded_shape(e: &Expr) -> (r: bool)
    ensures
        r == init_is_excluded_shape(Some(view_expr(*e))),
{
    match e {
        Expr::Jsx(_) => true,
        Expr::JsxFragment(_) => true,
        Expr::Paren(_) => true,
        Expr::Object(_) => true,
        Expr::Call(_, _) => false,
        Expr::Member(_, _) => false,
        Expr::TaggedTpl(_, _) => false,
        Expr::Assign(_, _, _) => false,
        Expr::Ident(_) => false,
        Expr::StrLit(_) => false,
        Expr::Func(_, _) => false,
        Expr::Other(_) => false,
    }
}

/// The candidate, if any, that one declarator yields.
fn declarator_candidate_ex(d: &Declarator) -> (r: Option<Name>)
    ensures
        match r {
            Some(n) => declarator_candidate(view_decl(*d)) == Some(view_name(n)),
            None => declarator_candidate(view_decl(*d)) is None,
        },
{
    match &d.pat {
        Pat::Simple(n) => {
            let excluded = match &d.init {
                Some(e) => expr_is_excluded_shape(e),
                None => false,
            };
            if excluded {
                None
            } else if decl_component_producing(d) {
                Some(n.duplicate())
            } else {
                None
            }
        },
        Pat::Complex(_) => None,
    }
}

/// The candidates that one statement at position `pos` yields, appended
/// to `out` in declarator order.
#[verifier::rlimit(50)]
fn push_stmt_candidates(s: &Stmt, pos: usize, out: &mut Vec<Component>)
    ensures
        view_comps(final(out)@) == view_comps(old(out)@) + stmt_candidates(
            view_stmt(*s),
            pos as int,
        ),
{
    match s {
        Stmt::VarDecl { decls, .. } => {
            let ghost dv = view_decls(decls@);
            proof {
                lemma_view_decls(decls@);
            }
            let mut j: usize = 0;
            while j < decls.len()
                invariant
                    j <= decls.len(),
                    dv == view_decls(decls@),
                    dv.len() == decls@.len(),
                    view_comps(out@) + decls_candidates_from(dv, j as int, pos as int)
                        == view_comps(old(out)@) + decls_candidates_from(dv, 0, pos as int),
                decreases decls.len() - j,
            {
                proof {
                    lemma_view_decls(decls@);
                }
                match declarator_candidate_ex(&decls[j]) {
                    Some(n) => {
                        let ghost before = out@;
                        out.push(Component { pos: 0, name: n }.with_pos(pos));
                        proof {
                            lemma_view_comps_push(before, out@.last());
                            assert(decls_candidates_from(dv, j as int, pos as int) == seq![
                                ComponentV {
                                    pos: pos as int,
                                    name: declarator_candidate(dv[j as int]).unwrap(),
                                },
                            ] + decls_candidates_from(dv, j as int + 1, pos as int));
                            assert(view_comps(out@) + decls_candidates_from(
                                dv,
                                j as int + 1,
                                pos as int,
                            ) =~= view_comps(old(out)@) + decls_candidates_from(
                                dv,
                                0,
                                pos as int,
                            ));
                        }
                    },
                    None => {
                        proof {
                            assert(decls_candidates_from(dv, j as int, pos as int)
                                == decls_candidates_from(dv, j as int + 1, pos as int));
                        }
                    },
                }
                j = j + 1;
            }
            proof {
                lemma_view_decls(decls@);
                assert(decls_candidates_from(dv, decls@.len() as int, pos as int)
                    =~= Seq::<ComponentV>::empty());
                assert(view_comps(out@) =~= view_comps(out@) + Seq::<ComponentV>::empty());
            }
        },
        Stmt::FnDecl { name, params, body, .. } => {
            let ui = exprs_component_producing(params) || stmts_component_producing(body);
            if ui {
                let ghost before = out@;
                out.push(Component { pos: 0, name: name.duplicate() }.with_pos(pos));
                proof {
                    lemma_view_comps_push(before, out@.last());
                    assert(view_comps(out@) =~= view_comps(old(out)@) + stmt_candidates(
                        view_stmt(*s),
                        pos as int,
                    ));
                }
            } else {
                proof {
                    assert(view_comps(out@) =~= view_comps(old(out)@) + stmt_candidates(
                        view_stmt(*s),
                        pos as int,
                    ));
                }
            }
        },
        Stmt::DefaultExportFn { name, params, body } => {
            match name {
                Some(n) => {
                    let ui = exprs_component_producing(params) || stmts_component_producing(body);
                    if ui {
                        let ghost before = out@;
                        out.push(Component { pos: 0, name: n.duplicate() }.with_pos(pos));
                        proof {
                            lemma_view_comps_push(before, out@.last());
                            assert(view_comps(out@) =~= view_comps(old(out)@) + stmt_candidates(
                                view_stmt(*s),
                                pos as int,
                            ));
                        }
                    } else {
                        proof {
                            assert(view_comps(out@) =~= view_comps(old(out)@) + stmt_candidates(
                                view_stmt(*s),
                                pos as int,
                            ));
                        }
                    }
                },
                None => {
                    proof {
                        assert(view_comps(out@) =~= view_comps(old(out)@) + stmt_candidates(
                            view_stmt(*s),
                            pos as int,
                        ));
                    }
                },
            }
        },
        _ => {
            proof {
                assert(stmt_candidates(view_stmt(*s), pos as int) =~= Seq::<ComponentV>::empty());
                assert(view_comps(out@) =~= view_comps(old(out)@) + Seq::<ComponentV>::empty());
            }
        },
    }
}

/// Walk the list once and collect every component candidate, in order.
pub fn extract_candidates(ss: &Vec<Stmt>) -> (r: Vec<Component>)
    ensures
        view_comps(r@) == candidates_of(view_stmts(ss@)),
{
    let ghost sv = view_stmts(ss@);
    proof {
        lemma_view_stmts(ss@);
    }
    let mut r: Vec<Component> = Vec::new();
    let mut i: usize = 0;
    while i < ss.len()
        invariant
            i <= ss.len(),
            sv == view_stmts(ss@),
            sv.len() == ss@.len(),
            view_comps(r@) + candidates_from(sv, i as int) == candidates_of(sv),
        decreases ss.len() - i,
    {
        proof {
            lemma_view_stmts(ss@);
        }
        let ghost before = r@;
        push_stmt_candidates(&ss[i], i, &mut r);
        proof {
            assert(candidates_from(sv, i as int) == stmt_candidates(sv[i as int], i as int)
                + candidates_from(sv, i as int + 1));
            assert(view_comps(r@) + candidates_from(sv, i as int + 1) =~= view_comps(before)
                + candidates_from(sv, i as int));
        }
        i = i + 1;
    }
    proof {
        lemma_view_stmts(ss@);
        assert(candidates_from(sv, ss@.len() as int) =~= Seq::<ComponentV>::empty());
        assert(view_comps(r@) =~= view_comps(r@) + Seq::<ComponentV>::empty());
    }
    r
}

} // verus!
