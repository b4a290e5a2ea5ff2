//! The laws of the pass, proved over the models: running it twice is
//! the same as running it once; a manual label is never duplicated or
//! overwritten; every synthesized label lands directly after its
//! originating statement, offset only by the insertions actually
//! performed before it; excluded initializer shapes never yield a
//! candidate; only a statement's own top-level binding names can become
//! candidates; and the original statements always survive, in order.
use vstd::prelude::*;

use crate::ast::StmtV;
use crate::extract::ComponentV;
use crate::extract::candidates_from;
use crate::extract::candidates_of;
use crate::extract::declarator_candidate;
use crate::extract::decls_candidates_from;
use crate::extract::init_is_excluded_shape;
use crate::extract::lemma_candidates_from_positions;
use crate::extract::lemma_stmt_candidates_pos;
use crate::extract::stmt_candidates;
use crate::labels::label_stmt;
use crate::labels::labeled_of;
use crate::labels::lemma_labeled_from_contains;
use crate::labels::stmt_label_target;
use crate::pass::xform_decl;
use crate::pass::xform_decls;
use crate::pass::xform_expr;
use crate::pass::xform_exprs;
use crate::pass::xform_pat;
use crate::pass::xform_prop;
use crate::pass::xform_root;
use crate::pass::xform_stmt;
use crate::pass::xform_stmts;
use crate::pass::lemma_xform_decls;
use crate::pass::lemma_xform_exprs;
use crate::pass::lemma_xform_stmts;
use crate::schedule::insert_from;
use crate::schedule::local_pass;
use crate::ast::DeclaratorV;
use crate::ast::ExprV;
use crate::ast::MemberPropV;
use crate::ast::NameV;
use crate::ast::PatV;

verus! {

// ---------------------------------------------------------------------
// Small sequence helpers.
// ---------------------------------------------------------------------
/// An element of a sequence stays in it after an insertion.
proof fn lemma_insert_keeps<A>(s: Seq<A>, at: int, x: A, y: A)
    requires
        0 <= at <= s.len(),
        s.contains(y),
    ensures
        s.insert(at, x).contains(y),
{
    s.insert_ensures(at, x);
    let k = choose|k: int| 0 <= k < s.len() && s[k] == y;
    if k < at {
        assert(s.insert(at, x)[k] == y);
    } else {
        assert(s.insert(at, x)[k + 1] == y);
    }
}

/// An element of a sequence after an insertion is the inserted element
/// or one of the old ones.
proof fn lemma_insert_elements<A>(s: Seq<A>, at: int, x: A, y: A)
    requires
        0 <= at <= s.len(),
        s.insert(at, x).contains(y),
    ensures
        s.contains(y) || y == x,
{
    s.insert_ensures(at, x);
    let k = choose|k: int| 0 <= k < s.insert(at, x).len() && s.insert(at, x)[k] == y;
    if k < at {
        assert(s[k] == y);
    } else if k == at {
    } else {
        assert(s.insert(at, x)[(k - 1) + 1] == s[k - 1]);
        assert(s[k - 1] == y);
    }
}

/// The inserted element is in the result.
proof fn lemma_insert_has<A>(s: Seq<A>, at: int, x: A)
    requires
        0 <= at <= s.len(),
    ensures
        s.insert(at, x).contains(x),
{
    s.insert_ensures(at, x);
    assert(s.insert(at, x)[at] == x);
}

// ---------------------------------------------------------------------
// Structure of the scheduler's result.
// ---------------------------------------------------------------------
/// When every remaining candidate's name is already labeled, the
/// scheduler changes nothing.
proof fn lemma_insert_from_all_labeled(
    ss: Seq<StmtV>,
    cands: Seq<ComponentV>,
    labeled: Seq<Seq<char>>,
    i: int,
    done: int,
)
    requires
        forall|k: int|
            i <= k < cands.len() ==> labeled.contains((#[trigger] cands[k]).name.text),
    ensures
        insert_from(ss, cands, labeled, i, done) == ss,
    decreases cands.len() - i,
{
    if 0 <= i < cands.len() {
        lemma_insert_from_all_labeled(ss, cands, labeled, i + 1, done);
    }
}

/// Every statement of the list under scan stays in the scheduler's
/// result.
proof fn lemma_insert_from_keeps(
    ss: Seq<StmtV>,
    cands: Seq<ComponentV>,
    labeled: Seq<Seq<char>>,
    i: int,
    done: int,
    y: StmtV,
)
    requires
        0 <= i,
        0 <= done,
        forall|k: int| 0 <= k < cands.len() ==> (#[trigger] cands[k]).pos >= 0,
        ss.contains(y),
    ensures
        insert_from(ss, cands, labeled, i, done).contains(y),
    decreases cands.len() - i,
{
    if 0 <= i < cands.len() {
        let c = cands[i];
        if labeled.contains(c.name.text) {
            lemma_insert_from_keeps(ss, cands, labeled, i + 1, done, y);
        } else {
            let at = done + c.pos + 1;
            if at < ss.len() {
                lemma_insert_keeps(ss, at, label_stmt(c.name), y);
                lemma_insert_from_keeps(
                    ss.insert(at, label_stmt(c.name)),
                    cands,
                    labeled,
                    i + 1,
                    done + 1,
                    y,
                );
            } else {
                assert(ss.push(label_stmt(c.name)).contains(y)) by {
                    let k = choose|k: int| 0 <= k < ss.len() && ss[k] == y;
                    assert(ss.push(label_stmt(c.name))[k] == y);
                }
                lemma_insert_from_keeps(
                    ss.push(label_stmt(c.name)),
                    cands,
                    labeled,
                    i + 1,
                    done + 1,
                    y,
                );
            }
        }
    }
}

/// Every statement of the scheduler's result is an original statement
/// or a label statement inserted for some un-labeled candidate.
proof fn lemma_insert_from_elements(
    ss: Seq<StmtV>,
    cands: Seq<ComponentV>,
    labeled: Seq<Seq<char>>,
    i: int,
    done: int,
    y: StmtV,
)
    requires
        0 <= i,
        0 <= done,
        forall|k: int| 0 <= k < cands.len() ==> (#[trigger] cands[k]).pos >= 0,
        insert_from(ss, cands, labeled, i, done).contains(y),
    ensures
        ss.contains(y) || exists|k: int|
            i <= k < cands.len() && !labeled.contains((#[trigger] cands[k]).name.text) && y
                == label_stmt(cands[k].name),
    decreases cands.len() - i,
{
    if 0 <= i < cands.len() {
        let c = cands[i];
        if labeled.contains(c.name.text) {
            lemma_insert_from_elements(ss, cands, labeled, i + 1, done, y);
        } else {
            let at = done + c.pos + 1;
            let ss2 = if at < ss.len() {
                ss.insert(at, label_stmt(c.name))
            } else {
                ss.push(label_stmt(c.name))
            };
            lemma_insert_from_elements(ss2, cands, labeled, i + 1, done + 1, y);
            if ss2.contains(y) {
                if at < ss.len() {
                    lemma_insert_elements(ss, at, label_stmt(c.name), y);
                } else {
                    let k = choose|k: int| 0 <= k < ss2.len() && ss2[k] == y;
                    if k < ss.len() {
                        assert(ss[k] == y);
                    }
                }
                if !ss.contains(y) {
                    assert(i <= i < cands.len() && !labeled.contains(cands[i].name.text) && y
                        == label_stmt(cands[i].name));
                }
            }
        }
    }
}

/// The scheduler's result holds a label statement for every candidate
/// that was not already labeled.
proof fn lemma_insert_from_adds(
    ss: Seq<StmtV>,
    cands: Seq<ComponentV>,
    labeled: Seq<Seq<char>>,
    i: int,
    done: int,
    k: int,
)
    requires
        0 <= i <= k < cands.len(),
        0 <= done,
        forall|kk: int| 0 <= kk < cands.len() ==> (#[trigger] cands[kk]).pos >= 0,
        !labeled.contains(cands[k].name.text),
    ensures
        insert_from(ss, cands, labeled, i, done).contains(label_stmt(cands[k].name)),
    decreases cands.len() - i,
{
    if 0 <= i < cands.len() {
        let c = cands[i];
        if labeled.contains(c.name.text) {
            lemma_insert_from_adds(ss, cands, labeled, i + 1, done, k);
        } else {
            let at = done + c.pos + 1;
            let ss2 = if at < ss.len() {
                ss.insert(at, label_stmt(c.name))
            } else {
                ss.push(label_stmt(c.name))
            };
            if k == i {
                if at < ss.len() {
                    lemma_insert_has(ss, at, label_stmt(c.name));
                } else {
                    assert(ss2[ss.len() as int] == label_stmt(c.name));
                }
                lemma_insert_from_keeps(
                    ss2,
                    cands,
                    labeled,
                    i + 1,
                    done + 1,
                    label_stmt(c.name),
                );
            } else {
                lemma_insert_from_adds(ss2, cands, labeled, i + 1, done + 1, k);
            }
        }
    }
}

// ---------------------------------------------------------------------
// Candidates and labels of lists, elementwise.
// ---------------------------------------------------------------------
/// Every candidate of a list comes from the statement at its recorded
/// position.
proof fn lemma_candidates_from_origin(ss: Seq<StmtV>, i: int, k: int)
    requires
        0 <= i,
        0 <= k < candidates_from(ss, i).len(),
    ensures
        i <= candidates_from(ss, i)[k].pos < ss.len(),
        stmt_candidates(
            ss[candidates_from(ss, i)[k].pos],
            candidates_from(ss, i)[k].pos,
        ).contains(candidates_from(ss, i)[k]),
    decreases ss.len() - i,
{
    lemma_candidates_from_positions(ss, i);
    let cur = candidates_from(ss, i);
    let own = stmt_candidates(ss[i], i);
    let rest = candidates_from(ss, i + 1);
    if k < own.len() {
        lemma_stmt_candidates_pos(ss[i], i);
        assert(cur[k] == own[k]);
        assert(own.contains(cur[k])) by {
            assert(own[k] == cur[k]);
        }
    } else {
        assert(cur[k] == rest[k - own.len()]);
        lemma_candidates_from_origin(ss, i + 1, k - own.len());
    }
}

/// A statement's candidates at one anchor position and at another have
/// the same length and the same names at each index.
proof fn lemma_decls_candidates_name_shift(ds: Seq<DeclaratorV>, j: int, p1: int, p2: int)
    ensures
        decls_candidates_from(ds, j, p1).len() == decls_candidates_from(ds, j, p2).len(),
        forall|k: int|
            0 <= k < decls_candidates_from(ds, j, p1).len() ==> (#[trigger] decls_candidates_from(
                ds,
                j,
                p1,
            )[k]).name == decls_candidates_from(ds, j, p2)[k].name,
    decreases ds.len() - j,
{
    if 0 <= j < ds.len() {
        lemma_decls_candidates_name_shift(ds, j + 1, p1, p2);
        let a = decls_candidates_from(ds, j, p1);
        let b = decls_candidates_from(ds, j, p2);
        let ra = decls_candidates_from(ds, j + 1, p1);
        let rb = decls_candidates_from(ds, j + 1, p2);
        assert forall|k: int| 0 <= k < a.len() implies (#[trigger] a[k]).name == b[k].name by {
            match declarator_candidate(ds[j]) {
                Some(n) => {
                    if k > 0 {
                        assert(a[k] == ra[k - 1]);
                        assert(b[k] == rb[k - 1]);
                    }
                },
                None => {
                    assert(a[k] == ra[k]);
                    assert(b[k] == rb[k]);
                },
            }
        }
    }
}

proof fn lemma_stmt_candidates_name_shift(s: StmtV, p1: int, p2: int)
    ensures
        stmt_candidates(s, p1).len() == stmt_candidates(s, p2).len(),
        forall|k: int|
            0 <= k < stmt_candidates(s, p1).len() ==> (#[trigger] stmt_candidates(s, p1)[k]).name
                == stmt_candidates(s, p2)[k].name,
{
    match s {
        StmtV::VarDecl { decls, .. } => {
            lemma_decls_candidates_name_shift(decls, 0, p1, p2);
        },
        _ => {},
    }
}

/// Every candidate of a statement of the list shows up among the list's
/// candidates.
proof fn lemma_candidates_from_covers(ss: Seq<StmtV>, i: int, j: int, k: int)
    requires
        0 <= i <= j < ss.len(),
        0 <= k < stmt_candidates(ss[j], j).len(),
    ensures
        candidates_from(ss, i).contains(stmt_candidates(ss[j], j)[k]),
    decreases ss.len() - i,
{
    let cur = candidates_from(ss, i);
    let own = stmt_candidates(ss[i], i);
    let rest = candidates_from(ss, i + 1);
    if j == i {
        assert(cur[k] == own[k]);
    } else {
        lemma_candidates_from_covers(ss, i + 1, j, k);
        let idx = choose|idx: int|
            0 <= idx < rest.len() && rest[idx] == stmt_candidates(ss[j], j)[k];
        assert(cur[own.len() + idx] == stmt_candidates(ss[j], j)[k]);
    }
}

// ---------------------------------------------------------------------
// The pass run on a list leaves every candidate of the result labeled.
// ---------------------------------------------------------------------
proof fn lemma_local_pass_labels_all(m: Seq<StmtV>, k: int)
    requires
        0 <= k < candidates_of(local_pass(m)).len(),
    ensures
        labeled_of(local_pass(m)).contains(candidates_of(local_pass(m))[k].name.text),
{
    let r = local_pass(m);
    let cands = candidates_of(m);
    let labeled = labeled_of(m);
    lemma_candidates_from_positions(m, 0);
    let c2 = candidates_of(r)[k];
    lemma_candidates_from_origin(r, 0, k);
    let host = r[c2.pos];
    assert(r.contains(host)) by {
        assert(r[c2.pos] == host);
    }
    lemma_insert_from_elements(m, cands, labeled, 0, 0, host);
    if !m.contains(host) {
        let kk = choose|kk: int|
            0 <= kk < cands.len() && !labeled.contains((#[trigger] cands[kk]).name.text) && host
                == label_stmt(cands[kk].name);
        crate::labels::lemma_label_stmt_shape(cands[kk].name);
        assert(stmt_candidates(host, c2.pos).len() == 0);
        assert(false);
    }
    let j = choose|j: int| 0 <= j < m.len() && m[j] == host;
    lemma_stmt_candidates_name_shift(host, c2.pos, j);
    let k3 = choose|k3: int|
        0 <= k3 < stmt_candidates(host, c2.pos).len() && stmt_candidates(host, c2.pos)[k3] == c2;
    let cj = stmt_candidates(m[j], j)[k3];
    assert(cj.name == c2.name);
    lemma_candidates_from_covers(m, 0, j, k3);
    let kc = choose|kc: int| 0 <= kc < cands.len() && cands[kc] == cj;
    if labeled.contains(cands[kc].name.text) {
        lemma_labeled_from_contains(m, 0, cands[kc].name.text);
        let jj = choose|jj: int|
            0 <= jj < m.len() && stmt_label_target(m[jj]) == Some(cands[kc].name.text);
        assert(m.contains(m[jj]));
        lemma_insert_from_keeps(m, cands, labeled, 0, 0, m[jj]);
        let idx = choose|idx: int| 0 <= idx < r.len() && r[idx] == m[jj];
        lemma_labeled_from_contains(r, 0, cands[kc].name.text);
    } else {
        lemma_insert_from_adds(m, cands, labeled, 0, 0, kc);
        crate::labels::lemma_label_stmt_shape(cands[kc].name);
        let idx = choose|idx: int|
            0 <= idx < r.len() && r[idx] == label_stmt(cands[kc].name);
        lemma_labeled_from_contains(r, 0, cands[kc].name.text);
    }
}

/// Running the per-list pass a second time changes nothing.
pub proof fn lemma_local_pass_idempotent(m: Seq<StmtV>)
    ensures
        local_pass(local_pass(m)) == local_pass(m),
{
    let r = local_pass(m);
    assert forall|k: int| 0 <= k < candidates_of(r).len() implies labeled_of(r).contains(
        (#[trigger] candidates_of(r)[k]).name.text,
    ) by {
        lemma_local_pass_labels_all(m, k);
    }
    lemma_insert_from_all_labeled(r, candidates_of(r), labeled_of(r), 0, 0);
}

// ---------------------------------------------------------------------
// The child traversal is idempotent and fixes label statements.
// ---------------------------------------------------------------------
/// A synthesized label statement is untouched by the child traversal.
proof fn lemma_label_stmt_xform_fixed(n: NameV)
    ensures
        xform_stmt(label_stmt(n)) == label_stmt(n),
{
    let target = ExprV::Member(Box::new(ExprV::Ident(n)), MemberPropV::Named("displayName"@));
    let value = ExprV::StrLit(n.text);
    assert(xform_expr(ExprV::Ident(n)) == ExprV::Ident(n));
    assert(xform_prop(MemberPropV::Named("displayName"@)) == MemberPropV::Named("displayName"@));
    assert(xform_expr(target) == target);
    assert(xform_expr(value) == value);
}

proof fn lemma_xform_expr_idem(e: ExprV)
    ensures
        xform_expr(xform_expr(e)) == xform_expr(e),
    decreases e, 1int,
{
    match e {
        ExprV::Jsx(es) => {
            lemma_xform_exprs_idem(es);
        },
        ExprV::JsxFragment(es) => {
            lemma_xform_exprs_idem(es);
        },
        ExprV::Paren(inner) => {
            lemma_xform_expr_idem(*inner);
        },
        ExprV::Object(es) => {
            lemma_xform_exprs_idem(es);
        },
        ExprV::Call(callee, args) => {
            lemma_xform_expr_idem(*callee);
            lemma_xform_exprs_idem(args);
        },
        ExprV::Member(obj, prop) => {
            lemma_xform_expr_idem(*obj);
            lemma_xform_prop_idem(prop);
        },
        ExprV::TaggedTpl(tag, es) => {
            lemma_xform_expr_idem(*tag);
            lemma_xform_exprs_idem(es);
        },
        ExprV::Assign(_, target, value) => {
            lemma_xform_expr_idem(*target);
            lemma_xform_expr_idem(*value);
        },
        ExprV::Ident(_) => {},
        ExprV::StrLit(_) => {},
        ExprV::Func(params, body) => {
            lemma_xform_exprs_idem(params);
            lemma_xform_stmts_idem(body);
        },
        ExprV::Other(es) => {
            lemma_xform_exprs_idem(es);
        },
    }
}

proof fn lemma_xform_prop_idem(p: MemberPropV)
    ensures
        xform_prop(xform_prop(p)) == xform_prop(p),
    decreases p, 2int,
{
    match p {
        MemberPropV::Computed(e) => {
            lemma_xform_expr_idem(*e);
        },
        _ => {},
    }
}

proof fn lemma_xform_exprs_idem(es: Seq<ExprV>)
    ensures
        xform_exprs(xform_exprs(es)) == xform_exprs(es),
    decreases es, 2int,
{
    lemma_xform_exprs(es);
    lemma_xform_exprs(xform_exprs(es));
    assert forall|i: int| 0 <= i < es.len() implies xform_expr(
        #[trigger] xform_exprs(es)[i],
    ) == xform_exprs(es)[i] by {
        lemma_xform_expr_idem(es[i]);
    }
    assert(xform_exprs(xform_exprs(es)) =~= xform_exprs(es));
}

proof fn lemma_xform_pat_idem(p: PatV)
    ensures
        xform_pat(xform_pat(p)) == xform_pat(p),
    decreases p, 2int,
{
    match p {
        PatV::Complex(es) => {
            lemma_xform_exprs_idem(es);
        },
        _ => {},
    }
}

proof fn lemma_xform_decl_idem(d: DeclaratorV)
    ensures
        xform_decl(xform_decl(d)) == xform_decl(d),
    decreases d, 2int,
{
    lemma_xform_pat_idem(d.pat);
    match d.init {
        Some(e) => {
            lemma_xform_expr_idem(e);
        },
        None => {},
    }
}

proof fn lemma_xform_decls_idem(ds: Seq<DeclaratorV>)
    ensures
        xform_decls(xform_decls(ds)) == xform_decls(ds),
    decreases ds, 3int,
{
    lemma_xform_decls(ds);
    lemma_xform_decls(xform_decls(ds));
    assert forall|i: int| 0 <= i < ds.len() implies xform_decl(
        #[trigger] xform_decls(ds)[i],
    ) == xform_decls(ds)[i] by {
        lemma_xform_decl_idem(ds[i]);
    }
    assert(xform_decls(xform_decls(ds)) =~= xform_decls(ds));
}

proof fn lemma_xform_stmt_idem(s: StmtV)
    ensures
        xform_stmt(xform_stmt(s)) == xform_stmt(s),
    decreases s, 4int,
{
    match s {
        StmtV::VarDecl { decls, .. } => {
            lemma_xform_decls_idem(decls);
        },
        StmtV::FnDecl { params, body, .. } => {
            lemma_xform_exprs_idem(params);
            lemma_xform_stmts_idem(body);
        },
        StmtV::DefaultExportFn { params, body, .. } => {
            lemma_xform_exprs_idem(params);
            lemma_xform_stmts_idem(body);
        },
        StmtV::DefaultExportExpr(e) => {
            lemma_xform_expr_idem(e);
        },
        StmtV::ExprStmt(e) => {
            lemma_xform_expr_idem(e);
        },
        StmtV::Nested(ss) => {
            lemma_xform_root_idem(ss);
        },
        StmtV::Other(es, ss) => {
            lemma_xform_exprs_idem(es);
            lemma_xform_stmts_idem(ss);
        },
    }
}

proof fn lemma_xform_stmts_idem(ss: Seq<StmtV>)
    ensures
        xform_stmts(xform_stmts(ss)) == xform_stmts(ss),
    decreases ss, 5int,
{
    lemma_xform_stmts(ss);
    lemma_xform_stmts(xform_stmts(ss));
    assert forall|i: int| 0 <= i < ss.len() implies xform_stmt(
        #[trigger] xform_stmts(ss)[i],
    ) == xform_stmts(ss)[i] by {
        lemma_xform_stmt_idem(ss[i]);
    }
    assert(xform_stmts(xform_stmts(ss)) =~= xform_stmts(ss));
}

proof fn lemma_xform_root_idem(l: Seq<StmtV>)
    ensures
        xform_root(xform_root(l)) == xform_root(l),
    decreases l, 6int,
{
    let m = xform_stmts(l);
    let r = local_pass(m);
    lemma_candidates_from_positions(m, 0);
    lemma_xform_stmts(l);
    lemma_xform_stmts(r);
    assert forall|idx: int| 0 <= idx < r.len() implies xform_stmt(#[trigger] r[idx])
        == r[idx] by {
        assert(r.contains(r[idx]));
        lemma_insert_from_elements(m, candidates_of(m), labeled_of(m), 0, 0, r[idx]);
        if m.contains(r[idx]) {
            let j = choose|j: int| 0 <= j < m.len() && m[j] == r[idx];
            assert(m[j] == xform_stmt(l[j]));
            lemma_xform_stmt_idem(l[j]);
        } else {
            let kk = choose|kk: int|
                0 <= kk < candidates_of(m).len() && !labeled_of(m).contains(
                    (#[trigger] candidates_of(m)[kk]).name.text,
                ) && r[idx] == label_stmt(candidates_of(m)[kk].name);
            lemma_label_stmt_xform_fixed(candidates_of(m)[kk].name);
        }
    }
    assert(xform_stmts(r) =~= r);
    lemma_local_pass_idempotent(m);
}

// ---------------------------------------------------------------------
// The laws.
// ---------------------------------------------------------------------
/// Running the whole pass twice on a tree yields the same output as
/// running it once: the label scanner suppresses re-synthesis.
pub proof fn lemma_transform_idempotent(ss: Seq<StmtV>)
    ensures
        xform_root(xform_root(ss)) == xform_root(ss),
{
    lemma_xform_root_idem(ss);
}

/// A list whose candidates all carry a label already is returned
/// unchanged: no duplicate is added and nothing is overwritten.
pub proof fn lemma_already_labeled_unchanged(ss: Seq<StmtV>)
    requires
        forall|k: int|
            0 <= k < candidates_of(ss).len() ==> labeled_of(ss).contains(
                (#[trigger] candidates_of(ss)[k]).name.text,
            ),
    ensures
        local_pass(ss) == ss,
{
    lemma_insert_from_all_labeled(ss, candidates_of(ss), labeled_of(ss), 0, 0);
}

/// A manually labeled name never receives a second label: the pass
/// neither inserts another label statement for it nor rewrites the one
/// that is there, whether or not the name's binding is itself
/// classified as component-producing.
pub proof fn lemma_override_preserved(ss: Seq<StmtV>, n: Seq<char>)
    requires
        labeled_of(ss).contains(n),
    ensures
        local_pass(ss).filter(|s: StmtV| stmt_label_target(s) == Some(n)) == ss.filter(
            |s: StmtV| stmt_label_target(s) == Some(n),
        ),
{
    lemma_candidates_from_positions(ss, 0);
    lemma_insert_from_filter(ss, candidates_of(ss), labeled_of(ss), 0, 0, n);
}

proof fn lemma_filter_push_other<A>(s: Seq<A>, x: A, pred: spec_fn(A) -> bool)
    requires
        !pred(x),
    ensures
        s.push(x).filter(pred) == s.filter(pred),
{
    reveal(Seq::filter);
    assert(s.push(x).drop_last() =~= s);
    assert(s.push(x).last() == x);
}

proof fn lemma_filter_insert_other<A>(s: Seq<A>, at: int, x: A, pred: spec_fn(A) -> bool)
    requires
        0 <= at <= s.len(),
        !pred(x),
    ensures
        s.insert(at, x).filter(pred) == s.filter(pred),
{
    let left = s.subrange(0, at);
    let right = s.subrange(at, s.len() as int);
    assert(s.insert(at, x) == left.push(x) + right);
    Seq::filter_distributes_over_add(left.push(x), right, pred);
    lemma_filter_push_other(left, x, pred);
    Seq::filter_distributes_over_add(left, right, pred);
    assert(s =~= left + right);
}

proof fn lemma_insert_from_filter(
    ss: Seq<StmtV>,
    cands: Seq<ComponentV>,
    labeled: Seq<Seq<char>>,
    i: int,
    done: int,
    n: Seq<char>,
)
    requires
        0 <= i,
        0 <= done,
        forall|k: int| 0 <= k < cands.len() ==> (#[trigger] cands[k]).pos >= 0,
        labeled.contains(n),
    ensures
        insert_from(ss, cands, labeled, i, done).filter(
            |s: StmtV| stmt_label_target(s) == Some(n),
        ) == ss.filter(|s: StmtV| stmt_label_target(s) == Some(n)),
    decreases cands.len() - i,
{
    let pred = |s: StmtV| stmt_label_target(s) == Some(n);
    if 0 <= i < cands.len() {
        let c = cands[i];
        if labeled.contains(c.name.text) {
            lemma_insert_from_filter(ss, cands, labeled, i + 1, done, n);
        } else {
            crate::labels::lemma_label_stmt_shape(c.name);
            assert(c.name.text != n);
            assert(!pred(label_stmt(c.name)));
            let at = done + c.pos + 1;
            let ss2 = if at < ss.len() {
                ss.insert(at, label_stmt(c.name))
            } else {
                ss.push(label_stmt(c.name))
            };
            if at < ss.len() {
                lemma_filter_insert_other(ss, at, label_stmt(c.name), pred);
            } else {
                lemma_filter_push_other(ss, label_stmt(c.name), pred);
            }
            lemma_insert_from_filter(ss2, cands, labeled, i + 1, done + 1, n);
        }
    }
}

/// A binding whose initializer is directly a JSX element or fragment, a
/// parenthesized expression or an object literal never becomes a
/// candidate, however much JSX sits inside it.
pub proof fn lemma_conservative_classification(d: DeclaratorV)
    requires
        init_is_excluded_shape(d.init),
    ensures
        declarator_candidate(d) is None,
{
}

/// Only a statement's own top-level binding names can become candidates
/// of the list it stands in: a function declaration contributes at most
/// its own name, a variable statement at most its declarators' simple
/// names, and every other statement shape - whatever bindings sit
/// inside its nested function bodies - contributes none.  Nested
/// module-like blocks are instead processed as lists of their own.
pub proof fn lemma_non_top_level_exclusion(s: StmtV, pos: int)
    ensures
        forall|k: int|
            #![trigger stmt_candidates(s, pos)[k]]
            0 <= k < stmt_candidates(s, pos).len() ==> match s {
                StmtV::FnDecl { name, .. } => stmt_candidates(s, pos)[k].name == name,
                StmtV::DefaultExportFn { name, .. } => name == Some(
                    stmt_candidates(s, pos)[k].name,
                ),
                StmtV::VarDecl { decls, .. } => exists|j: int|
                    0 <= j < decls.len() && (#[trigger] decls[j]).pat == PatV::Simple(
                        stmt_candidates(s, pos)[k].name,
                    ),
                _ => false,
            },
        forall|l: Seq<StmtV>| s == StmtV::Nested(l) ==> xform_stmt(s) == StmtV::Nested(
            #[trigger] xform_root(l),
        ),
{
    match s {
        StmtV::VarDecl { decls, .. } => {
            lemma_var_decl_candidate_names(decls, 0, pos);
            assert forall|k: int|
                #![trigger stmt_candidates(s, pos)[k]]
                0 <= k < stmt_candidates(s, pos).len() implies exists|j: int|
                0 <= j < decls.len() && (#[trigger] decls[j]).pat == PatV::Simple(
                    stmt_candidates(s, pos)[k].name,
                ) by {
                assert(stmt_candidates(s, pos) == decls_candidates_from(decls, 0, pos));
            }
        },
        _ => {},
    }
}

proof fn lemma_var_decl_candidate_names(ds: Seq<DeclaratorV>, j: int, pos: int)
    requires
        0 <= j,
    ensures
        forall|k: int|
            #![trigger decls_candidates_from(ds, j, pos)[k]]
            0 <= k < decls_candidates_from(ds, j, pos).len() ==> exists|jj: int|
                j <= jj < ds.len() && (#[trigger] ds[jj]).pat == PatV::Simple(
                    decls_candidates_from(ds, j, pos)[k].name,
                ),
    decreases ds.len() - j,
{
    if 0 <= j < ds.len() {
        lemma_var_decl_candidate_names(ds, j + 1, pos);
        let cur = decls_candidates_from(ds, j, pos);
        let rest = decls_candidates_from(ds, j + 1, pos);
        assert forall|k: int| #![trigger cur[k]] 0 <= k < cur.len() implies exists|jj: int|
            j <= jj < ds.len() && (#[trigger] ds[jj]).pat == PatV::Simple(cur[k].name) by {
            match declarator_candidate(ds[j]) {
                Some(n) => {
                    if k == 0 {
                        assert(ds[j].pat == PatV::Simple(n));
                    } else {
                        assert(cur[k] == rest[k - 1]);
                    }
                },
                None => {
                    assert(cur[k] == rest[k]);
                },
            }
        }
    }
}

// ---------------------------------------------------------------------
// Positional correctness.
// ---------------------------------------------------------------------
/// How many of the first `i` candidates actually get a label inserted
/// (their names are not already labeled).
pub open spec fn count_inserted(
    cands: Seq<ComponentV>,
    labeled: Seq<Seq<char>>,
    i: int,
) -> int
    decreases i,
{
    if i <= 0 {
        0
    } else {
        count_inserted(cands, labeled, i - 1) + if labeled.contains(
            cands[i - 1].name.text,
        ) {
            0int
        } else {
            1int
        }
    }
}

/// How many of the first `i` candidates get a label inserted at a
/// statement position before `j`.
pub open spec fn count_inserted_before(
    cands: Seq<ComponentV>,
    labeled: Seq<Seq<char>>,
    i: int,
    j: int,
) -> int
    decreases i,
{
    if i <= 0 {
        0
    } else {
        count_inserted_before(cands, labeled, i - 1, j) + if !labeled.contains(
            cands[i - 1].name.text,
        ) && cands[i - 1].pos < j {
            1int
        } else {
            0int
        }
    }
}

proof fn lemma_counts_bounds(cands: Seq<ComponentV>, labeled: Seq<Seq<char>>, i: int, j: int)
    ensures
        0 <= count_inserted_before(cands, labeled, i, j) <= count_inserted(cands, labeled, i),
        i >= 0 ==> count_inserted(cands, labeled, i) <= i,
    decreases i,
{
    if i > 0 {
        lemma_counts_bounds(cands, labeled, i - 1, j);
    }
}

proof fn lemma_count_inserted_mono(
    cands: Seq<ComponentV>,
    labeled: Seq<Seq<char>>,
    a: int,
    b: int,
)
    requires
        a <= b,
    ensures
        count_inserted(cands, labeled, a) <= count_inserted(cands, labeled, b),
    decreases b - a,
{
    if a < b {
        lemma_count_inserted_mono(cands, labeled, a, b - 1);
        lemma_counts_bounds(cands, labeled, b - 1, 0);
    }
}

/// With sorted positions, when the `i`-th candidate sits before `j`,
/// every earlier inserted label does too, so the before-`j` count is
/// the full count.
proof fn lemma_count_before_full(
    cands: Seq<ComponentV>,
    labeled: Seq<Seq<char>>,
    i: int,
    j: int,
)
    requires
        0 <= i <= cands.len(),
        forall|k1: int, k2: int|
            0 <= k1 <= k2 < cands.len() ==> (#[trigger] cands[k1]).pos
                <= (#[trigger] cands[k2]).pos,
        i > 0 ==> cands[i - 1].pos < j,
    ensures
        count_inserted_before(cands, labeled, i, j) == count_inserted(cands, labeled, i),
    decreases i,
{
    if i > 0 {
        assert(cands[i - 1].pos < j);
        if i >= 2 {
            assert(cands[i - 2].pos <= cands[i - 1].pos);
        }
        lemma_count_before_full(cands, labeled, i - 1, j);
    }
}

/// With sorted positions, a statement after an inserted candidate's
/// position has strictly more labels before it than were inserted
/// before that candidate.
proof fn lemma_count_before_at_least(
    cands: Seq<ComponentV>,
    labeled: Seq<Seq<char>>,
    i: int,
    j: int,
    k: int,
)
    requires
        0 <= k < i <= cands.len(),
        forall|k1: int, k2: int|
            0 <= k1 <= k2 < cands.len() ==> (#[trigger] cands[k1]).pos
                <= (#[trigger] cands[k2]).pos,
        !labeled.contains(cands[k].name.text),
        cands[k].pos < j,
    ensures
        count_inserted_before(cands, labeled, i, j) >= count_inserted(cands, labeled, k) + 1,
    decreases i,
{
    if i - 1 == k {
        lemma_count_before_full(cands, labeled, k, j);
    } else {
        lemma_count_before_at_least(cands, labeled, i - 1, j, k);
    }
}

/// One insertion step of the scheduler.
spec fn step_one(cur: Seq<StmtV>, c: ComponentV, done: int) -> Seq<StmtV> {
    let at = done + c.pos + 1;
    if at < cur.len() {
        cur.insert(at, label_stmt(c.name))
    } else {
        cur.push(label_stmt(c.name))
    }
}

/// The list after the first `i` candidates have been handled.
spec fn applied(
    ss: Seq<StmtV>,
    cands: Seq<ComponentV>,
    labeled: Seq<Seq<char>>,
    i: int,
) -> Seq<StmtV>
    decreases i,
{
    if i <= 0 {
        ss
    } else {
        let prev = applied(ss, cands, labeled, i - 1);
        if labeled.contains(cands[i - 1].name.text) {
            prev
        } else {
            step_one(prev, cands[i - 1], count_inserted(cands, labeled, i - 1))
        }
    }
}

/// Handling the remaining candidates on the accumulated list gives the
/// scheduler's full result.
proof fn lemma_insert_from_is_applied(
    ss: Seq<StmtV>,
    cands: Seq<ComponentV>,
    labeled: Seq<Seq<char>>,
    i: int,
)
    requires
        0 <= i <= cands.len(),
    ensures
        insert_from(
            applied(ss, cands, labeled, i),
            cands,
            labeled,
            i,
            count_inserted(cands, labeled, i),
        ) == insert_from(ss, cands, labeled, 0, 0),
    decreases i,
{
    if i > 0 {
        lemma_insert_from_is_applied(ss, cands, labeled, i - 1);
        let prev = applied(ss, cands, labeled, i - 1);
        let done = count_inserted(cands, labeled, i - 1);
        let c = cands[i - 1];
        if labeled.contains(c.name.text) {
            assert(insert_from(prev, cands, labeled, i - 1, done) == insert_from(
                prev,
                cands,
                labeled,
                i,
                done,
            ));
        } else {
            assert(insert_from(prev, cands, labeled, i - 1, done) == insert_from(
                step_one(prev, c, done),
                cands,
                labeled,
                i,
                done + 1,
            ));
        }
    }
}

/// The facts one insertion step leaves behind.
proof fn lemma_step_one_facts(prev: Seq<StmtV>, c: ComponentV, done: int)
    requires
        0 <= done,
        0 <= c.pos,
        done + c.pos + 1 <= prev.len(),
    ensures
        step_one(prev, c, done).len() == prev.len() + 1,
        step_one(prev, c, done)[done + c.pos + 1] == label_stmt(c.name),
        forall|x: int|
            0 <= x < done + c.pos + 1 ==> #[trigger] step_one(prev, c, done)[x] == prev[x],
        forall|x: int|
            done + c.pos + 1 <= x < prev.len() ==> #[trigger] step_one(prev, c, done)[x + 1]
                == prev[x],
{
    let at = done + c.pos + 1;
    if at < prev.len() {
        prev.insert_ensures(at, label_stmt(c.name));
    } else {
        assert(step_one(prev, c, done) == prev.push(label_stmt(c.name)));
    }
}

/// The inductive step of the layout argument, for a candidate that is
/// not skipped.
#[verifier::spinoff_prover]
#[verifier::rlimit(100)]
proof fn lemma_applied_layout_step(
    ss: Seq<StmtV>,
    cands: Seq<ComponentV>,
    labeled: Seq<Seq<char>>,
    i: int,
)
    requires
        0 < i <= cands.len(),
        forall|k: int| 0 <= k < cands.len() ==> 0 <= (#[trigger] cands[k]).pos < ss.len(),
        forall|k1: int, k2: int|
            0 <= k1 <= k2 < cands.len() ==> (#[trigger] cands[k1]).pos
                <= (#[trigger] cands[k2]).pos,
        !labeled.contains(cands[i - 1].name.text),
        applied(ss, cands, labeled, i - 1).len() == ss.len() + count_inserted(
            cands,
            labeled,
            i - 1,
        ),
        forall|k: int|
            #![trigger cands[k]]
            0 <= k < i - 1 && !labeled.contains(cands[k].name.text) ==> applied(
                ss,
                cands,
                labeled,
                i - 1,
            )[cands[k].pos + count_inserted(cands, labeled, k) + 1] == label_stmt(cands[k].name),
        forall|j: int|
            0 <= j < ss.len() ==> applied(ss, cands, labeled, i - 1)[j + count_inserted_before(
                cands,
                labeled,
                i - 1,
                j,
            )] == ss[j],
    ensures
        applied(ss, cands, labeled, i).len() == ss.len() + count_inserted(cands, labeled, i),
        forall|k: int|
            #![trigger cands[k]]
            0 <= k < i && !labeled.contains(cands[k].name.text) ==> applied(
                ss,
                cands,
                labeled,
                i,
            )[cands[k].pos + count_inserted(cands, labeled, k) + 1] == label_stmt(cands[k].name),
        forall|j: int|
            0 <= j < ss.len() ==> applied(ss, cands, labeled, i)[j + count_inserted_before(
                cands,
                labeled,
                i,
                j,
            )] == ss[j],
{
    let prev = applied(ss, cands, labeled, i - 1);
    let cur = applied(ss, cands, labeled, i);
    let c = cands[i - 1];
    let done = count_inserted(cands, labeled, i - 1);
    let at = done + c.pos + 1;
    lemma_counts_bounds(cands, labeled, i - 1, 0);
    assert(count_inserted(cands, labeled, i) == done + 1);
    assert(cur == step_one(prev, c, done));
    lemma_step_one_facts(prev, c, done);
    assert(cur.len() == prev.len() + 1);
    assert(cur[at] == label_stmt(c.name));
    assert forall|x: int| 0 <= x < at implies #[trigger] cur[x] == prev[x] by {
        assert(step_one(prev, c, done)[x] == prev[x]);
    }
    assert forall|x: int| at <= x < prev.len() implies #[trigger] cur[x + 1] == prev[x] by {
        assert(step_one(prev, c, done)[x + 1] == prev[x]);
    }
    assert forall|k: int|
        #![trigger cands[k]]
        0 <= k < i && !labeled.contains(cands[k].name.text) implies cur[cands[k].pos
        + count_inserted(cands, labeled, k) + 1] == label_stmt(cands[k].name) by {
        if k < i - 1 {
            assert(cands[k].pos <= cands[i - 1].pos);
            lemma_counts_bounds(cands, labeled, k, 0);
            assert(count_inserted(cands, labeled, k + 1) == count_inserted(cands, labeled, k)
                + 1);
            lemma_count_inserted_mono(cands, labeled, k + 1, i - 1);
            assert(0 <= cands[k].pos + count_inserted(cands, labeled, k) + 1 < at);
            assert(prev[cands[k].pos + count_inserted(cands, labeled, k) + 1] == label_stmt(
                cands[k].name,
            ));
            assert(cur[cands[k].pos + count_inserted(cands, labeled, k) + 1] == prev[cands[k].pos
                + count_inserted(cands, labeled, k) + 1]);
        } else {
            assert(count_inserted(cands, labeled, k) == done);
            assert(cur[at] == label_stmt(c.name));
        }
    }
    assert forall|j: int| 0 <= j < ss.len() implies cur[j + count_inserted_before(
        cands,
        labeled,
        i,
        j,
    )] == ss[j] by {
        lemma_counts_bounds(cands, labeled, i - 1, j);
        if c.pos < j {
            lemma_count_before_full(cands, labeled, i - 1, j);
            assert(count_inserted_before(cands, labeled, i - 1, j) == done);
            assert(count_inserted_before(cands, labeled, i, j) == done + 1);
            assert(j + done >= at);
            assert(prev[j + done] == ss[j]);
            assert(cur[j + done + 1] == prev[j + done]);
        } else {
            assert(count_inserted_before(cands, labeled, i, j) == count_inserted_before(
                cands,
                labeled,
                i - 1,
                j,
            ));
            assert(j + count_inserted_before(cands, labeled, i - 1, j) < at);
            assert(prev[j + count_inserted_before(cands, labeled, i - 1, j)] == ss[j]);
        }
    }
}

/// The layout of the accumulated list: each inserted candidate's label
/// sits at `pos + (labels inserted before it) + 1`, and each original
/// statement at its index shifted by the number of labels inserted
/// before it.
proof fn lemma_applied_layout(
    ss: Seq<StmtV>,
    cands: Seq<ComponentV>,
    labeled: Seq<Seq<char>>,
    i: int,
)
    requires
        0 <= i <= cands.len(),
        forall|k: int| 0 <= k < cands.len() ==> 0 <= (#[trigger] cands[k]).pos < ss.len(),
        forall|k1: int, k2: int|
            0 <= k1 <= k2 < cands.len() ==> (#[trigger] cands[k1]).pos
                <= (#[trigger] cands[k2]).pos,
    ensures
        applied(ss, cands, labeled, i).len() == ss.len() + count_inserted(cands, labeled, i),
        forall|k: int|
            #![trigger cands[k]]
            0 <= k < i && !labeled.contains(cands[k].name.text) ==> applied(
                ss,
                cands,
                labeled,
                i,
            )[cands[k].pos + count_inserted(cands, labeled, k) + 1] == label_stmt(cands[k].name),
        forall|j: int|
            0 <= j < ss.len() ==> applied(ss, cands, labeled, i)[j + count_inserted_before(
                cands,
                labeled,
                i,
                j,
            )] == ss[j],
    decreases i,
{
    if i > 0 {
        lemma_applied_layout(ss, cands, labeled, i - 1);
        let c = cands[i - 1];
        if labeled.contains(c.name.text) {
            assert(applied(ss, cands, labeled, i) == applied(ss, cands, labeled, i - 1));
            assert(count_inserted(cands, labeled, i) == count_inserted(cands, labeled, i - 1));
            assert forall|j: int| 0 <= j < ss.len() implies applied(ss, cands, labeled, i)[j
                + count_inserted_before(cands, labeled, i, j)] == ss[j] by {
                assert(count_inserted_before(cands, labeled, i, j) == count_inserted_before(
                    cands,
                    labeled,
                    i - 1,
                    j,
                ));
            }
        } else {
            lemma_applied_layout_step(ss, cands, labeled, i);
        }
    }
}

/// Positional correctness: every candidate whose name is not already
/// labeled gets its label statement at final index
/// `pos + (labels inserted for earlier candidates) + 1` - directly
/// after its originating statement, with same-statement candidates
/// following in declarator order; every original statement keeps its
/// relative place (final index `j` plus the number of labels inserted
/// at earlier positions); and statements after a labeled candidate's
/// statement end up after that candidate's label.  Candidates whose
/// names are already labeled contribute no offset.
pub proof fn lemma_positional_correctness(ss: Seq<StmtV>)
    ensures
        local_pass(ss).len() == ss.len() + count_inserted(
            candidates_of(ss),
            labeled_of(ss),
            candidates_of(ss).len() as int,
        ),
        forall|k: int|
            #![trigger candidates_of(ss)[k]]
            0 <= k < candidates_of(ss).len() && !labeled_of(ss).contains(
                candidates_of(ss)[k].name.text,
            ) ==> local_pass(ss)[candidates_of(ss)[k].pos + count_inserted(
                candidates_of(ss),
                labeled_of(ss),
                k,
            ) + 1] == label_stmt(candidates_of(ss)[k].name),
        forall|j: int|
            0 <= j < ss.len() ==> local_pass(ss)[j + count_inserted_before(
                candidates_of(ss),
                labeled_of(ss),
                candidates_of(ss).len() as int,
                j,
            )] == ss[j],
        forall|k: int, j: int|
            #![trigger candidates_of(ss)[k], count_inserted_before(candidates_of(ss), labeled_of(ss), candidates_of(ss).len() as int, j)]
            0 <= k < candidates_of(ss).len() && !labeled_of(ss).contains(
                candidates_of(ss)[k].name.text,
            ) && candidates_of(ss)[k].pos < j < ss.len() ==> j + count_inserted_before(
                candidates_of(ss),
                labeled_of(ss),
                candidates_of(ss).len() as int,
                j,
            ) > candidates_of(ss)[k].pos + count_inserted(
                candidates_of(ss),
                labeled_of(ss),
                k,
            ) + 1,
{
    let cands = candidates_of(ss);
    let labeled = labeled_of(ss);
    let n = cands.len() as int;
    lemma_candidates_from_positions(ss, 0);
    lemma_insert_from_is_applied(ss, cands, labeled, n);
    lemma_insert_from_all_labeled(
        applied(ss, cands, labeled, n),
        cands,
        labeled,
        n,
        count_inserted(cands, labeled, n),
    );
    assert(local_pass(ss) == applied(ss, cands, labeled, n));
    lemma_applied_layout(ss, cands, labeled, n);
    assert forall|k: int, j: int|
        #![trigger cands[k], count_inserted_before(cands, labeled, n, j)]
        0 <= k < cands.len() && !labeled.contains(cands[k].name.text) && cands[k].pos < j && j
        < ss.len() implies j + count_inserted_before(cands, labeled, n, j) > cands[k].pos
        + count_inserted(cands, labeled, k) + 1 by {
        lemma_count_before_at_least(cands, labeled, n, j, k);
    }
}

// ---------------------------------------------------------------------
// Stability.
// ---------------------------------------------------------------------
/// Does `f` witness that `xs` occurs in `ys`, in order?
pub open spec fn embedding_ok(xs: Seq<StmtV>, ys: Seq<StmtV>, f: Seq<int>) -> bool {
    &&& f.len() == xs.len()
    &&& forall|i: int| 0 <= i < f.len() ==> 0 <= #[trigger] f[i] < ys.len() && ys[f[i]] == xs[i]
    &&& forall|i: int, j: int| 0 <= i < j < f.len() ==> #[trigger] f[i] < #[trigger] f[j]
}

/// `xs` is a subsequence of `ys`: its statements occur in `ys`, in
/// their original relative order.
pub open spec fn is_embedded(xs: Seq<StmtV>, ys: Seq<StmtV>) -> bool {
    exists|f: Seq<int>| embedding_ok(xs, ys, f)
}

proof fn lemma_embed_refl(xs: Seq<StmtV>)
    ensures
        is_embedded(xs, xs),
{
    let f = Seq::new(xs.len(), |i: int| i);
    assert(embedding_ok(xs, xs, f));
}

proof fn lemma_embed_insert(xs: Seq<StmtV>, ys: Seq<StmtV>, at: int, x: StmtV)
    requires
        is_embedded(xs, ys),
        0 <= at <= ys.len(),
    ensures
        is_embedded(xs, ys.insert(at, x)),
{
    let f = choose|f: Seq<int>| embedding_ok(xs, ys, f);
    let f2 = f.map_values(|v: int| if v >= at { v + 1 } else { v });
    ys.insert_ensures(at, x);
    assert forall|i: int| 0 <= i < f2.len() implies 0 <= #[trigger] f2[i] < ys.insert(
        at,
        x,
    ).len() && ys.insert(at, x)[f2[i]] == xs[i] by {
        if f[i] >= at {
            assert(ys.insert(at, x)[f[i] + 1] == ys[f[i]]);
        } else {
            assert(ys.insert(at, x)[f[i]] == ys[f[i]]);
        }
    }
    assert(embedding_ok(xs, ys.insert(at, x), f2));
}

proof fn lemma_embed_push(xs: Seq<StmtV>, ys: Seq<StmtV>, x: StmtV)
    requires
        is_embedded(xs, ys),
    ensures
        is_embedded(xs, ys.push(x)),
{
    let f = choose|f: Seq<int>| embedding_ok(xs, ys, f);
    assert forall|i: int| 0 <= i < f.len() implies 0 <= #[trigger] f[i] < ys.push(x).len()
        && ys.push(x)[f[i]] == xs[i] by {
        assert(ys.push(x)[f[i]] == ys[f[i]]);
    }
    assert(embedding_ok(xs, ys.push(x), f));
}

proof fn lemma_insert_from_stable(
    ss: Seq<StmtV>,
    cands: Seq<ComponentV>,
    labeled: Seq<Seq<char>>,
    i: int,
    done: int,
)
    requires
        0 <= i,
        0 <= done,
        forall|k: int| 0 <= k < cands.len() ==> (#[trigger] cands[k]).pos >= 0,
    ensures
        is_embedded(ss, insert_from(ss, cands, labeled, i, done)),
    decreases cands.len() - i,
{
    if i >= cands.len() {
        lemma_embed_refl(ss);
    } else {
        let c = cands[i];
        if labeled.contains(c.name.text) {
            lemma_insert_from_stable(ss, cands, labeled, i + 1, done);
        } else {
            let at = done + c.pos + 1;
            let ss2 = if at < ss.len() {
                ss.insert(at, label_stmt(c.name))
            } else {
                ss.push(label_stmt(c.name))
            };
            lemma_embed_refl(ss);
            if at < ss.len() {
                lemma_embed_insert(ss, ss, at, label_stmt(c.name));
            } else {
                lemma_embed_push(ss, ss, label_stmt(c.name));
            }
            lemma_insert_from_stable(ss2, cands, labeled, i + 1, done + 1);
            lemma_embed_trans(ss, ss2, insert_from(ss2, cands, labeled, i + 1, done + 1));
        }
    }
}

proof fn lemma_embed_trans(a: Seq<StmtV>, b: Seq<StmtV>, c: Seq<StmtV>)
    requires
        is_embedded(a, b),
        is_embedded(b, c),
    ensures
        is_embedded(a, c),
{
    let f_ab = choose|f: Seq<int>| embedding_ok(a, b, f);
    let f_bc = choose|f: Seq<int>| embedding_ok(b, c, f);
    let f_ac = Seq::new(a.len(), |i: int| f_bc[f_ab[i]]);
    assert(embedding_ok(a, c, f_ac));
}

/// Insertion is stable: the original statements, in their original
/// relative order, are a subsequence of the final list; the pass never
/// drops or rewrites a statement, it only adds label statements.
pub proof fn lemma_insertion_stable(ss: Seq<StmtV>)
    ensures
        is_embedded(ss, local_pass(ss)),
{
    lemma_candidates_from_positions(ss, 0);
    lemma_insert_from_stable(ss, candidates_of(ss), labeled_of(ss), 0, 0);
}

} // verus!
