//! The insertion scheduler: given the ordered candidates of one list and
//! the names already labeled there, inserts a label statement for every
//! un-labeled candidate directly after its originating statement.
//!
//! A candidate whose name is already labeled is skipped and contributes
//! nothing.  Any other is inserted at `done + pos + 1`, where `done`
//! counts the insertions actually performed so far: each earlier
//! insertion shifted every later original index right by one, and only
//! performed insertions shift anything.  An index beyond the end
//! appends instead.
use vstd::prelude::*;

use crate::ast::Stmt;
use crate::ast::StmtV;
use crate::ast::lemma_view_stmts;
use crate::ast::lemma_view_stmts_insert;
use crate::ast::lemma_view_stmts_push;
use crate::ast::string_eq;
use crate::extract::Component;
use crate::extract::ComponentV;
use crate::extract::candidates_of;
use crate::extract::extract_candidates;
use crate::extract::lemma_view_comps;
use crate::extract::view_comps;
use crate::ast::view_stmts;
use crate::labels::label_stmt;
use crate::labels::labeled_of;
use crate::labels::scan_existing_labels;

verus! {

/// The list after the candidates from `i` on have been handled, `done`
/// insertions having been performed already: a candidate whose name is
/// already labeled is skipped; any other is inserted at
/// `done + pos + 1`, or appended when that index is beyond the end.
pub open spec fn insert_from(
    ss: Seq<StmtV>,
    cands: Seq<ComponentV>,
    labeled: Seq<Seq<char>>,
    i: int,
    done: int,
) -> Seq<StmtV>
    decreases cands.len() - i,
{
    if i < 0 || i >= cands.len() {
        ss
    } else {
        let c = cands[i];
        if labeled.contains(c.name.text) {
            insert_from(ss, cands, labeled, i + 1, done)
        } else {
            let at = done + c.pos + 1;
            let ss2 = if at < ss.len() {
                ss.insert(at, label_stmt(c.name))
            } else {
                ss.push(label_stmt(c.name))
            };
            insert_from(ss2, cands, labeled, i + 1, done + 1)
        }
    }
}

/// One full run of the pass over one statement list: extract the
/// candidates, scan the existing labels, then insert.
pub open spec fn local_pass(ss: Seq<StmtV>) -> Seq<StmtV> {
    insert_from(ss, candidates_of(ss), labeled_of(ss), 0, 0)
}

/// Is this name's text among the collected labeled names?
fn contains_text(labeled: &Vec<String>, name: &String) -> (r: bool)
    ensures
        r == labeled@.map_values(|s: String| s@).contains(name@),
{
    let ghost lv = labeled@.map_values(|s: String| s@);
    let mut i: usize = 0;
    while i < labeled.len()
        invariant
            i <= labeled.len(),
            lv == labeled@.map_values(|s: String| s@),
            lv.len() == labeled@.len(),
            forall|j: int| 0 <= j < i ==> lv[j] != name@,
        decreases labeled.len() - i,
    {
        if string_eq(&labeled[i], name) {
            proof {
                assert(lv[i as int] == name@);
            }
            return true;
        }
        i = i + 1;
    }
    proof {
        if lv.contains(name@) {
            let j = choose|j: int| 0 <= j < lv.len() && lv[j] == name@;
            assert(false);
        }
    }
    false
}

/// Apply the scheduler to the list: insert a label statement for every
/// candidate whose name is not already labeled, keeping a count of the
/// insertions performed so far.
pub fn apply_insertions(ss: Vec<Stmt>, comps: &Vec<Component>, labeled: &Vec<String>) -> (r: Vec<
    Stmt,
>)
    ensures
        view_stmts(r@) == insert_from(
            view_stmts(ss@),
            view_comps(comps@),
            labeled@.map_values(|s: String| s@),
            0,
            0,
        ),
{
    let ghost cv = view_comps(comps@);
    let ghost lv = labeled@.map_values(|s: String| s@);
    let ghost orig = view_stmts(ss@);
    proof {
        lemma_view_comps(comps@);
    }
    let mut v = ss;
    let mut i: usize = 0;
    let mut done: usize = 0;
    while i < comps.len()
        invariant
            i <= comps.len(),
            done <= i,
            cv == view_comps(comps@),
            lv == labeled@.map_values(|s: String| s@),
            cv.len() == comps@.len(),
            forall|k: int| 0 <= k < comps@.len() ==> cv[k] == crate::extract::view_comp(
                comps@[k],
            ),
            insert_from(view_stmts(v@), cv, lv, i as int, done as int) == insert_from(
                orig,
                cv,
                lv,
                0,
                0,
            ),
        decreases comps.len() - i,
    {
        let comp = &comps[i];
        let ghost before = v@;
        proof {
            lemma_view_stmts(before);
            assert(cv[i as int] == crate::extract::view_comp(comps@[i as int]));
        }
        let already = contains_text(labeled, &comp.name.text);
        if !already {
            let stmt = comp.create_display_name_stmt();
            let cur_len = v.len();
            if comp.pos < cur_len && done < cur_len - comp.pos - 1 {
                let at = done + comp.pos + 1;
                v.insert(at, stmt);
                proof {
                    lemma_view_stmts_insert(before, at as int, v@[at as int]);
                    assert(view_stmts(v@) == view_stmts(before).insert(
                        at as int,
                        label_stmt(cv[i as int].name),
                    ));
                    assert(done + cv[i as int].pos + 1 < view_stmts(before).len());
                    assert(insert_from(view_stmts(before), cv, lv, i as int, done as int)
                        == insert_from(view_stmts(v@), cv, lv, i as int + 1, done as int + 1));
                }
            } else {
                v.push(stmt);
                proof {
                    lemma_view_stmts_push(before, v@.last());
                    assert(done + cv[i as int].pos + 1 >= view_stmts(before).len());
                    assert(view_stmts(v@) == view_stmts(before).push(
                        label_stmt(cv[i as int].name),
                    ));
                    assert(insert_from(view_stmts(before), cv, lv, i as int, done as int)
                        == insert_from(view_stmts(v@), cv, lv, i as int + 1, done as int + 1));
                }
            }
            done = done + 1;
        } else {
            proof {
                assert(insert_from(view_stmts(before), cv, lv, i as int, done as int)
                    == insert_from(view_stmts(before), cv, lv, i as int + 1, done as int));
            }
        }
        i = i + 1;
    }
    v
}

/// One full run of the pass over one statement list.
pub fn add_display_names(ss: Vec<Stmt>) -> (r: Vec<Stmt>)
    ensures
        view_stmts(r@) == local_pass(view_stmts(ss@)),
{
    let comps = extract_candidates(&ss);
    let labeled = scan_existing_labels(&ss);
    apply_insertions(ss, &comps, &labeled)
}

/// The insertions the scheduler performs on a list of length `len`,
/// from candidate `i` on with `done` already performed: for each
/// candidate that is not skipped, the candidate's index and the list
/// index at which its label statement goes, valid at the moment that
/// entry is applied (earlier entries applied first).
pub open spec fn plan_from(
    len: int,
    cands: Seq<ComponentV>,
    labeled: Seq<Seq<char>>,
    i: int,
    done: int,
) -> Seq<(int, int)>
    decreases cands.len() - i,
{
    if i < 0 || i >= cands.len() {
        Seq::empty()
    } else {
        let c = cands[i];
        if labeled.contains(c.name.text) {
            plan_from(len, cands, labeled, i + 1, done)
        } else {
            let at = if done + c.pos + 1 < len + done {
                done + c.pos + 1
            } else {
                len + done
            };
            seq![(i, at)] + plan_from(len, cands, labeled, i + 1, done + 1)
        }
    }
}

/// The list after the plan's insertions have been applied in order.
pub open spec fn apply_plan(
    ss: Seq<StmtV>,
    cands: Seq<ComponentV>,
    plan: Seq<(int, int)>,
) -> Seq<StmtV>
    decreases plan.len(),
{
    if plan.len() == 0 {
        ss
    } else {
        apply_plan(
            ss.insert(plan[0].1, label_stmt(cands[plan[0].0].name)),
            cands,
            plan.drop_first(),
        )
    }
}

/// Applying the plan's insertions in order gives exactly the
/// scheduler's result.
pub proof fn lemma_plan_matches_insert_from(
    ss: Seq<StmtV>,
    cands: Seq<ComponentV>,
    labeled: Seq<Seq<char>>,
    i: int,
    done: int,
    len: int,
)
    requires
        done >= 0,
        ss.len() == len + done,
        forall|k: int| 0 <= k < cands.len() ==> (#[trigger] cands[k]).pos >= 0,
    ensures
        apply_plan(ss, cands, plan_from(len, cands, labeled, i, done)) == insert_from(
            ss,
            cands,
            labeled,
            i,
            done,
        ),
    decreases cands.len() - i,
{
    if 0 <= i < cands.len() {
        let c = cands[i];
        if labeled.contains(c.name.text) {
            lemma_plan_matches_insert_from(ss, cands, labeled, i + 1, done, len);
        } else {
            let at = done + c.pos + 1;
            let ss2 = if at < ss.len() {
                ss.insert(at, label_stmt(c.name))
            } else {
                ss.push(label_stmt(c.name))
            };
            if at >= ss.len() {
                assert(ss.insert(ss.len() as int, label_stmt(c.name)) =~= ss.push(
                    label_stmt(c.name),
                )) by {
                    ss.insert_ensures(ss.len() as int, label_stmt(c.name));
                }
            }
            let plan = plan_from(len, cands, labeled, i, done);
            assert(plan.drop_first() =~= plan_from(len, cands, labeled, i + 1, done + 1));
            lemma_plan_matches_insert_from(ss2, cands, labeled, i + 1, done + 1, len);
        }
    }
}

/// Compute the scheduler's insertion plan for a list of length `len`:
/// the pairs `(candidate index, insertion index)` in the order the
/// insertions are to be applied.  Each insertion index is valid for the
/// list as it stands when that entry's turn comes.
pub fn insertion_plan(len: usize, comps: &Vec<Component>, labeled: &Vec<String>) -> (r: Vec<
    (usize, usize),
>)
    requires
        len + comps@.len() <= usize::MAX,
    ensures
        r@.map_values(|p: (usize, usize)| (p.0 as int, p.1 as int)) == plan_from(
            len as int,
            view_comps(comps@),
            labeled@.map_values(|s: String| s@),
            0,
            0,
        ),
{
    let ghost cv = view_comps(comps@);
    let ghost lv = labeled@.map_values(|s: String| s@);
    let ghost full = plan_from(len as int, cv, lv, 0, 0);
    proof {
        lemma_view_comps(comps@);
    }
    let mut r: Vec<(usize, usize)> = Vec::new();
    let mut i: usize = 0;
    let mut done: usize = 0;
    while i < comps.len()
        invariant
            i <= comps.len(),
            done <= i,
            len + comps@.len() <= usize::MAX,
            cv == view_comps(comps@),
            lv == labeled@.map_values(|s: String| s@),
            cv.len() == comps@.len(),
            forall|k: int| 0 <= k < comps@.len() ==> cv[k] == crate::extract::view_comp(
                comps@[k],
            ),
            r@.map_values(|p: (usize, usize)| (p.0 as int, p.1 as int)) + plan_from(
                len as int,
                cv,
                lv,
                i as int,
                done as int,
            ) == full,
        decreases comps.len() - i,
    {
        let comp = &comps[i];
        proof {
            assert(cv[i as int] == crate::extract::view_comp(comps@[i as int]));
        }
        let already = contains_text(labeled, &comp.name.text);
        if !already {
            let at = if len > 0 && comp.pos < len - 1 {
                done + comp.pos + 1
            } else {
                len + done
            };
            let ghost before = r@;
            r.push((i, at));
            done = done + 1;
            proof {
                let m = |p: (usize, usize)| (p.0 as int, p.1 as int);
                assert(r@.map_values(m) =~= before.map_values(m).push((i as int, at as int)));
                assert(plan_from(len as int, cv, lv, i as int, done as int - 1) == seq![
                    (i as int, at as int),
                ] + plan_from(len as int, cv, lv, i as int + 1, done as int));
                assert(r@.map_values(m) + plan_from(len as int, cv, lv, i as int + 1, done as int)
                    =~= before.map_values(m) + plan_from(
                    len as int,
                    cv,
                    lv,
                    i as int,
                    done as int - 1,
                ));
            }
        } else {
            proof {
                assert(plan_from(len as int, cv, lv, i as int, done as int) == plan_from(
                    len as int,
                    cv,
                    lv,
                    i as int + 1,
                    done as int,
                ));
            }
        }
        i = i + 1;
    }
    proof {
        assert(plan_from(len as int, cv, lv, comps@.len() as int, done as int) =~= Seq::<
            (int, int),
        >::empty());
        assert(r@.map_values(|p: (usize, usize)| (p.0 as int, p.1 as int)) =~= r@.map_values(
            |p: (usize, usize)| (p.0 as int, p.1 as int),
        ) + Seq::<(int, int)>::empty());
    }
    r
}

} // verus!
