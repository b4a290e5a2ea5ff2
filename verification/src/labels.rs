//! The existing-label scanner and the label-statement synthesizer.
//!
//! The scanner recognizes statements of the shape
//! `Target.displayName = <anything>` with a plain `=` and a simple
//! identifier target, and collects the target names.  The synthesizer
//! builds the canonical statement `Name.displayName = "Name";`, reusing
//! the candidate's scope token so that the inserted reference binds to
//! the same symbol as the declaration it labels.
use vstd::prelude::*;

use crate::ast::AssignOp;
use crate::ast::Expr;
use crate::ast::ExprV;
use crate::ast::MemberProp;
use crate::ast::MemberPropV;
use crate::ast::Name;
use crate::ast::NameV;
use crate::ast::Stmt;
use crate::ast::StmtV;
use crate::ast::lemma_view_stmts;
use crate::ast::string_is;
use crate::ast::view_expr;
use crate::ast::view_name;
use crate::ast::view_prop;
use crate::ast::view_stmt;
use crate::ast::view_stmts;
use crate::extract::Component;

verus! {

/// The name of a simple identifier expression, if it is one.
pub open spec fn ident_text(e: ExprV) -> Option<Seq<char>> {
    match e {
        ExprV::Ident(n) => Some(n.text),
        _ => None,
    }
}

/// The target name of an assignment target of the shape
/// `Target.displayName` with a simple identifier `Target`.
pub open spec fn assign_target_label(t: ExprV) -> Option<Seq<char>> {
    match t {
        ExprV::Member(obj, prop) => match prop {
            MemberPropV::Named(p) => {
                if p == "displayName"@ {
                    ident_text(*obj)
                } else {
                    None
                }
            },
            _ => None,
        },
        _ => None,
    }
}

/// The name a statement already labels, if the statement has the shape
/// `Target.displayName = <anything>;` with a plain `=`.
pub open spec fn stmt_label_target(s: StmtV) -> Option<Seq<char>> {
    match s {
        StmtV::ExprStmt(e) => match e {
            ExprV::Assign(op, target, _) => {
                if op is Plain {
                    assign_target_label(*target)
                } else {
                    None
                }
            },
            _ => None,
        },
        _ => None,
    }
}

/// The names already labeled in the list, from statement `i` on.
pub open spec fn labeled_from(ss: Seq<StmtV>, i: int) -> Seq<Seq<char>>
    decreases ss.len() - i,
{
    if i < 0 || i >= ss.len() {
        Seq::empty()
    } else {
        match stmt_label_target(ss[i]) {
            Some(n) => seq![n] + labeled_from(ss, i + 1),
            None => labeled_from(ss, i + 1),
        }
    }
}

/// All names already labeled in the list.  The scan is syntactic and
/// scope-insensitive: only the text counts.
pub open spec fn labeled_of(ss: Seq<StmtV>) -> Seq<Seq<char>> {
    labeled_from(ss, 0)
}

/// A name is labeled from `i` on exactly when some later statement
/// labels it.
pub proof fn lemma_labeled_from_contains(ss: Seq<StmtV>, i: int, n: Seq<char>)
    requires
        0 <= i,
    ensures
        labeled_from(ss, i).contains(n) <==> exists|j: int|
            i <= j < ss.len() && stmt_label_target(ss[j]) == Some(n),
    decreases ss.len() - i,
{
    if 0 <= i < ss.len() {
        lemma_labeled_from_contains(ss, i + 1, n);
        let cur = labeled_from(ss, i);
        let rest = labeled_from(ss, i + 1);
        match stmt_label_target(ss[i]) {
            Some(m) => {
                if cur.contains(n) {
                    let k = choose|k: int| 0 <= k < cur.len() && cur[k] == n;
                    if k == 0 {
                        assert(stmt_label_target(ss[i]) == Some(n));
                    } else {
                        assert(cur[k] == rest[k - 1]);
                        assert(rest.contains(n));
                    }
                }
                if exists|j: int| i <= j < ss.len() && stmt_label_target(ss[j]) == Some(n) {
                    let j = choose|j: int|
                        i <= j < ss.len() && stmt_label_target(ss[j]) == Some(n);
                    if j == i {
                        assert(cur[0] == n);
                    } else {
                        assert(rest.contains(n));
                        let k = choose|k: int| 0 <= k < rest.len() && rest[k] == n;
                        assert(cur[k + 1] == n);
                    }
                }
            },
            None => {
                if exists|j: int| i <= j < ss.len() && stmt_label_target(ss[j]) == Some(n) {
                    let j = choose|j: int|
                        i <= j < ss.len() && stmt_label_target(ss[j]) == Some(n);
                    assert(j != i);
                }
            },
        }
    } else {
        if exists|j: int| i <= j < ss.len() && stmt_label_target(ss[j]) == Some(n) {
            let j = choose|j: int| i <= j < ss.len() && stmt_label_target(ss[j]) == Some(n);
            assert(false);
        }
    }
}

/// The target name of an assignment target, executable form.
fn assign_target_label_ex(t: &Expr) -> (r: Option<String>)
    ensures
        match r {
            Some(n) => assign_target_label(view_expr(*t)) == Some(n@),
            None => assign_target_label(view_expr(*t)) is None,
        },
{
    match t {
        Expr::Member(obj, prop) => {
            proof {
                assert(view_expr(*t) == ExprV::Member(
                    Box::new(view_expr(**obj)),
                    view_prop(*prop),
                ));
            }
            match prop {
                MemberProp::Named(p) => {
                    if string_is(p, "displayName") {
                        match &**obj {
                            Expr::Ident(n) => Some(n.text.clone()),
                            _ => {
                                proof {
                                    assert(ident_text(view_expr(**obj)) is None);
                                }
                                None
                            },
                        }
                    } else {
                        None
                    }
                },
                MemberProp::Computed(_) => {
                    proof {
                        assert(view_prop(*prop) is Computed);
                    }
                    None
                },
                MemberProp::Private(_) => None,
            }
        },
        _ => None,
    }
}

/// The name a statement already labels, executable form.
fn stmt_label_target_ex(s: &Stmt) -> (r: Option<String>)
    ensures
        match r {
            Some(n) => stmt_label_target(view_stmt(*s)) == Some(n@),
            None => stmt_label_target(view_stmt(*s)) is None,
        },
{
    match s {
        Stmt::ExprStmt(e) => match e {
            Expr::Assign(op, target, _) => match op {
                AssignOp::Plain => assign_target_label_ex(target),
                AssignOp::Compound => None,
            },
            _ => {
                proof {
                    assert(stmt_label_target(view_stmt(*s)) is None);
                }
                None
            },
        },
        _ => None,
    }
}

/// Walk the list once and collect the names that already carry a label.
pub fn scan_existing_labels(ss: &Vec<Stmt>) -> (r: Vec<String>)
    ensures
        r@.map_values(|s: String| s@) == labeled_of(view_stmts(ss@)),
{
    let ghost sv = view_stmts(ss@);
    proof {
        lemma_view_stmts(ss@);
    }
    let mut r: Vec<String> = Vec::new();
    proof {
        assert(r@.map_values(|s: String| s@) + labeled_from(sv, 0) =~= labeled_of(sv));
    }
    let mut i: usize = 0;
    while i < ss.len()
        invariant
            i <= ss.len(),
            sv == view_stmts(ss@),
            sv.len() == ss@.len(),
            r@.map_values(|s: String| s@) + labeled_from(sv, i as int) == labeled_of(sv),
        decreases ss.len() - i,
    {
        proof {
            lemma_view_stmts(ss@);
        }
        match stmt_label_target_ex(&ss[i]) {
            Some(n) => {
                let ghost before = r@;
                r.push(n);
                proof {
                    assert(r@.map_values(|s: String| s@) =~= before.map_values(|s: String| s@)
                        + seq![r@.last()@]);
                    assert(labeled_from(sv, i as int) == seq![r@.last()@] + labeled_from(
                        sv,
                        i as int + 1,
                    ));
                    assert(r@.map_values(|s: String| s@) + labeled_from(sv, i as int + 1)
                        =~= before.map_values(|s: String| s@) + labeled_from(sv, i as int));
                }
            },
            None => {
                proof {
                    assert(labeled_from(sv, i as int) == labeled_from(sv, i as int + 1));
                }
            },
        }
        i = i + 1;
    }
    proof {
        assert(labeled_from(sv, ss@.len() as int) =~= Seq::<Seq<char>>::empty());
        assert(r@.map_values(|s: String| s@) =~= r@.map_values(|s: String| s@) + Seq::<
            Seq<char>,
        >::empty());
    }
    r
}

/// The canonical label statement `Name.displayName = "Name";` for a
/// name, keeping the name's scope token on the inserted reference.
pub open spec fn label_stmt(n: NameV) -> StmtV {
    StmtV::ExprStmt(
        ExprV::Assign(
            AssignOp::Plain,
            Box::new(
                ExprV::Member(
                    Box::new(ExprV::Ident(n)),
                    MemberPropV::Named("displayName"@),
                ),
            ),
            Box::new(ExprV::StrLit(n.text)),
        ),
    )
}

/// The label statement a candidate yields labels exactly the candidate's
/// name, and yields no candidate of its own.
pub proof fn lemma_label_stmt_shape(n: NameV)
    ensures
        stmt_label_target(label_stmt(n)) == Some(n.text),
        forall|pos: int| crate::extract::stmt_candidates(label_stmt(n), pos) == Seq::<
            crate::extract::ComponentV,
        >::empty(),
{
}

impl Component {
    /// Build the statement `Name.displayName = "Name";` for this
    /// candidate, reusing its scope token.
    pub fn create_display_name_stmt(&self) -> (r: Stmt)
        ensures
            view_stmt(r) == label_stmt(view_name(self.name)),
    {
        let ghost nv = view_name(self.name);
        let ident = Expr::Ident(self.name.duplicate());
        proof {
            assert(view_expr(ident) == ExprV::Ident(nv));
        }
        let prop_name: String = "displayName".to_owned();
        let ghost pn = prop_name@;
        let target = Expr::Member(Box::new(ident), MemberProp::Named(prop_name));
        proof {
            assert(pn == "displayName"@);
            assert(target is Member);
            assert(view_prop(target->Member_1) == MemberPropV::Named(pn));
            assert(view_expr(*target->Member_0) == ExprV::Ident(nv));
            assert(view_expr(target) == ExprV::Member(
                Box::new(ExprV::Ident(nv)),
                MemberPropV::Named("displayName"@),
            ));
        }
        let value = Expr::StrLit(self.name.text.clone());
        proof {
            assert(view_expr(value) == ExprV::StrLit(nv.text));
        }
        let r = Stmt::ExprStmt(Expr::Assign(AssignOp::Plain, Box::new(target), Box::new(value)));
        proof {
            assert(view_stmt(r) == label_stmt(nv));
        }
        r
    }
}

} // verus!
