//! Deferred, address-targeted mutations of a tree, and the single pass that
//! applies them.
use vstd::prelude::*;
use crate::ast::{
    hoist_spec, is_expr, lemma_walk_in_range, node_at, replace_spec, shifted, stmt_wf, tree_wf,
    AstPath, NodeView,
    Stmt, Tree,
};

verus! {

/// One unit of deferred work on a tree.
#[derive(Clone, Debug)]
pub enum Visitor {
    /// Replace the expression at `path` by a reference to `ident`.
    ReplaceExpr { path: AstPath, ident: String },
    /// Insert `stmt` at the top of the program, after the statements hoisted
    /// before it.
    HoistStmt { stmt: Stmt },
}

pub enum VisitorView {
    ReplaceExpr { path: Seq<usize>, ident: Seq<char> },
    HoistStmt { stmt: Seq<NodeView> },
}

impl View for Visitor {
    type V = VisitorView;

    open spec fn view(&self) -> VisitorView {
        match self {
            Visitor::ReplaceExpr { path, ident } => VisitorView::ReplaceExpr {
                path: path@,
                ident: ident@,
            },
            Visitor::HoistStmt { stmt } => VisitorView::HoistStmt { stmt: stmt@ },
        }
    }
}

/// The mutations that one construct asks for, in the order they must run.
#[derive(Clone, Debug)]
pub struct CodeGeneration {
    pub visitors: Vec<Visitor>,
}

impl View for CodeGeneration {
    type V = Seq<VisitorView>;

    open spec fn view(&self) -> Seq<VisitorView> {
        self.visitors@.map_values(|v: Visitor| v@)
    }
}

impl CodeGeneration {
    /// Appends the visitors of `other` after those of `self`, so that the
    /// mutations of several constructs run in one pass.
    pub fn merge(&mut self, other: CodeGeneration)
        ensures
            final(self)@ == old(self)@ + other@,
            stmts_wf(old(self)@) && stmts_wf(other@) ==> stmts_wf(final(self)@),
    {
        let mut other = other;
        let ghost a = self@;
        let ghost b = other@;
        self.visitors.append(&mut other.visitors);
        assert(self@ =~= a + b) by {
            assert forall|k: int| 0 <= k < self@.len() implies #[trigger] self@[k] == (a + b)[k] by {
                assert(self@[k] == self.visitors@[k]@);
            }
        }
        assert(stmts_wf(a) && stmts_wf(b) ==> stmts_wf(self@)) by {
            if stmts_wf(a) && stmts_wf(b) {
                assert forall|k: int| 0 <= k < self@.len() implies (#[trigger] self@[k] matches VisitorView::HoistStmt { stmt } ==> stmt_wf(stmt)) by {
                    if k >= a.len() {
                        assert(self@[k] == b[k - a.len()]);
                    } else {
                        assert(self@[k] == a[k]);
                    }
                }
            }
        }
    }
}

/// Why a mutation pass was refused.
#[derive(Clone, Copy, Debug, PartialEq, Eq, Structural)]
pub enum CodeGenError {
    /// An address does not designate an expression of the tree it was
    /// derived from.
    InvalidAddress,
}

pub open spec fn visitors_view(vs: Seq<Visitor>) -> Seq<VisitorView> {
    vs.map_values(|v: Visitor| v@)
}

/// A replacement designates an expression of `t`; a hoist fits anywhere.
pub open spec fn visitor_ok(t: Seq<NodeView>, v: VisitorView) -> bool {
    match v {
        VisitorView::ReplaceExpr { path, .. } => node_at(t, path) matches Some(i) && is_expr(
            t[i].kind,
        ),
        VisitorView::HoistStmt { .. } => true,
    }
}

pub open spec fn targets_ok(t: Seq<NodeView>, vs: Seq<VisitorView>) -> bool {
    forall|k: int| 0 <= k < vs.len() ==> visitor_ok(t, #[trigger] vs[k])
}

pub open spec fn stmts_wf(vs: Seq<VisitorView>) -> bool {
    forall|k: int|
        0 <= k < vs.len() ==> (#[trigger] vs[k] matches VisitorView::HoistStmt { stmt } ==> stmt_wf(
            stmt,
        ))
}

/// How many nodes the hoisted statements of `vs` hold together.
pub open spec fn hoisted_len(vs: Seq<VisitorView>) -> nat
    decreases vs.len(),
{
    if vs.len() == 0 {
        0
    } else {
        hoisted_len(vs.drop_last()) + match vs.last() {
            VisitorView::HoistStmt { stmt } => stmt.len(),
            _ => 0,
        }
    }
}

/// The tree, and its count of hoisted statements, after running `vs` in
/// order on `t0` whose first `h0` statements were hoisted. Every address is
/// read against `t0`, the tree that it was derived from.
pub open spec fn apply_spec(t0: Seq<NodeView>, h0: int, vs: Seq<VisitorView>) -> (
    Seq<NodeView>,
    int,
)
    decreases vs.len(),
{
    if vs.len() == 0 {
        (t0, h0)
    } else {
        let (t, h) = apply_spec(t0, h0, vs.drop_last());
        match vs.last() {
            VisitorView::ReplaceExpr { path, ident } => (
                replace_spec(t, node_at(t0, path)->0, ident),
                h,
            ),
            VisitorView::HoistStmt { stmt } => (hoist_spec(t, h, stmt), h + 1),
        }
    }
}

proof fn lemma_hoisted_len_prefix(vs: Seq<VisitorView>, k: int)
    requires
        0 <= k <= vs.len(),
    ensures
        hoisted_len(vs.take(k)) <= hoisted_len(vs),
    decreases vs.len(),
{
    if k < vs.len() {
        assert(vs.drop_last().take(k) =~= vs.take(k));
        lemma_hoisted_len_prefix(vs.drop_last(), k);
    } else {
        assert(vs.take(k) =~= vs);
    }
}

/// Runs every visitor on `tree` in one pass. Addresses are all checked
/// against the tree as it was before the pass; if one does not designate an
/// expression, nothing is changed.
pub fn apply_visitors(tree: &mut Tree, visitors: &Vec<Visitor>) -> (r: Result<(), CodeGenError>)
    requires
        old(tree).wf(),
        stmts_wf(visitors_view(visitors@)),
        old(tree)@.len() + hoisted_len(visitors_view(visitors@)) <= usize::MAX,
    ensures
        r is Err <==> !targets_ok(old(tree)@, visitors_view(visitors@)),
        r is Err ==> final(tree)@ == old(tree)@ && final(tree).hoisted == old(tree).hoisted,
        r is Ok ==> final(tree).wf() && (final(tree)@, final(tree).hoisted as int) == apply_spec(
            old(tree)@,
            old(tree).hoisted as int,
            visitors_view(visitors@),
        ),
{
    let ghost t0 = tree@;
    let ghost h0 = tree.hoisted as int;
    let ghost vs = visitors_view(visitors@);
    let n = visitors.len();
    let mut targets: Vec<usize> = Vec::new();
    let mut k: usize = 0;
    while k < n
        invariant
            n == vs.len(),
            vs == visitors_view(visitors@),
            t0 == tree@,
            tree.wf(),
            k <= n,
            targets@.len() == k,
            forall|j: int| 0 <= j < k ==> visitor_ok(t0, #[trigger] vs[j]),
            forall|j: int|
                0 <= j < k ==> (#[trigger] vs[j] matches VisitorView::ReplaceExpr { path, .. }
                    ==> node_at(t0, path) == Some(targets@[j] as int)),
        decreases n - k,
    {
        assert(vs[k as int] == visitors@[k as int]@);
        match &visitors[k] {
            Visitor::ReplaceExpr { path, .. } => {
                match tree.resolve(path) {
                    Some(i) => {
                        proof {
                            lemma_walk_in_range(t0, 0, path@);
                        }
                        assert(t0[i as int] == tree.nodes@[i as int]@);
                        if tree.nodes[i].kind.is_expr() {
                            targets.push(i);
                        } else {
                            return Err(CodeGenError::InvalidAddress);
                        }
                    },
                    None => {
                        return Err(CodeGenError::InvalidAddress);
                    },
                }
            },
            Visitor::HoistStmt { .. } => {
                targets.push(0);
            },
        }
        k = k + 1;
    }
    let mut k: usize = 0;
    assert(vs.take(0) =~= Seq::<VisitorView>::empty());
    while k < n
        invariant
            n == vs.len(),
            vs == visitors_view(visitors@),
            tree_wf(t0),
            targets_ok(t0, vs),
            stmts_wf(vs),
            t0.len() + hoisted_len(vs) <= usize::MAX,
            tree.wf(),
            k <= n,
            targets@.len() == n,
            forall|j: int|
                0 <= j < n ==> (#[trigger] vs[j] matches VisitorView::ReplaceExpr { path, .. }
                    ==> node_at(t0, path) == Some(targets@[j] as int)),
            (tree@, tree.hoisted as int) == apply_spec(t0, h0, vs.take(k as int)),
            tree@.len() == t0.len() + hoisted_len(vs.take(k as int)),
        decreases n - k,
    {
        assert(vs[k as int] == visitors@[k as int]@);
        assert(vs.take(k + 1).drop_last() =~= vs.take(k as int));
        assert(visitor_ok(t0, vs[k as int]));
        proof {
            lemma_hoisted_len_prefix(vs, k + 1);
        }
        match &visitors[k] {
            Visitor::ReplaceExpr { path, ident } => {
                proof {
                    lemma_walk_in_range(t0, 0, path@);
                }
                tree.replace_with_ident(targets[k], ident.clone());
            },
            Visitor::HoistStmt { stmt } => {
                tree.insert_hoisted_stmt(stmt);
            },
        }
        k = k + 1;
    }
    assert(vs.take(n as int) =~= vs);
    Ok(())
}

/// The statements that `vs` hoists, in registration order.
pub open spec fn hoisted_stmts(vs: Seq<VisitorView>) -> Seq<Seq<NodeView>>
    decreases vs.len(),
{
    if vs.len() == 0 {
        Seq::empty()
    } else {
        let p = hoisted_stmts(vs.drop_last());
        match vs.last() {
            VisitorView::HoistStmt { stmt } => p.push(stmt),
            _ => p,
        }
    }
}

/// How many nodes the statements `ss` hold together.
pub open spec fn stmts_len(ss: Seq<Seq<NodeView>>) -> nat
    decreases ss.len(),
{
    if ss.len() == 0 {
        0
    } else {
        stmts_len(ss.drop_last()) + ss.last().len()
    }
}

proof fn lemma_hoisted_len_sums(vs: Seq<VisitorView>)
    ensures
        hoisted_len(vs) == stmts_len(hoisted_stmts(vs)),
    decreases vs.len(),
{
    if vs.len() > 0 {
        lemma_hoisted_len_sums(vs.drop_last());
        if vs.last() is HoistStmt {
            assert(hoisted_stmts(vs).drop_last() =~= hoisted_stmts(vs.drop_last()));
        }
    }
}

/// The `j`-th hoisted statement of `ss` is the `j`-th of the program's body
/// after the `h0` that were there before, and its nodes stand in `t` from the
/// arena index `base` on, where the nodes of the ones before it end.
pub open spec fn hoisted_at(
    t: Seq<NodeView>,
    h0: int,
    t0_len: int,
    ss: Seq<Seq<NodeView>>,
    j: int,
) -> bool {
    let base = t0_len + stmts_len(ss.take(j));
    &&& t[0].children[h0 + j] == base
    &&& base + ss[j].len() <= t.len()
    &&& t.subrange(base, base + ss[j].len()) == shifted(ss[j], base)
}

/// Statements hoisted in one pass open the program in the order in which
/// their visitors were registered: after the statements hoisted before the
/// pass and ahead of every other top-level statement. Each one stands in the
/// arena as it was built.
pub proof fn lemma_hoist_order(t0: Seq<NodeView>, h0: int, vs: Seq<VisitorView>)
    requires
        tree_wf(t0),
        0 <= h0 <= t0[0].children.len(),
        targets_ok(t0, vs),
        t0.len() + hoisted_len(vs) <= usize::MAX,
    ensures
        ({
            let (t, h) = apply_spec(t0, h0, vs);
            let ss = hoisted_stmts(vs);
            &&& h == h0 + ss.len()
            &&& t.len() == t0.len() + stmts_len(ss)
            &&& t[0].children.len() == t0[0].children.len() + ss.len()
            &&& t[0].children.take(h0) == t0[0].children.take(h0)
            &&& t[0].children.skip(h) == t0[0].children.skip(h0)
            &&& forall|j: int| 0 <= j < ss.len() ==> #[trigger] hoisted_at(t, h0, t0.len() as int, ss, j)
        }),
    decreases vs.len(),
{
    lemma_hoisted_len_sums(vs);
    if vs.len() == 0 {
        assert(t0[0].children.skip(h0) =~= t0[0].children.skip(h0));
    } else {
        let vs1 = vs.drop_last();
        assert forall|k: int| 0 <= k < vs1.len() implies visitor_ok(t0, #[trigger] vs1[k]) by {
            assert(vs1[k] == vs[k]);
        }
        lemma_hoist_order(t0, h0, vs1);
        let (t1, h1) = apply_spec(t0, h0, vs1);
        let (t, h) = apply_spec(t0, h0, vs);
        let ss1 = hoisted_stmts(vs1);
        let ss = hoisted_stmts(vs);
        let n0 = t0.len() as int;
        assert(visitor_ok(t0, vs[vs.len() - 1]));
        match vs.last() {
            VisitorView::ReplaceExpr { path, ident } => {
                lemma_walk_in_range(t0, 0, path);
                let i = node_at(t0, path)->0;
                assert(0 < i < n0);
                assert(t[0] == t1[0]);
                assert forall|j: int| 0 <= j < ss.len() implies #[trigger] hoisted_at(
                    t,
                    h0,
                    n0,
                    ss,
                    j,
                ) by {
                    assert(hoisted_at(t1, h0, n0, ss1, j));
                    let base = n0 + stmts_len(ss.take(j));
                    assert(t.subrange(base, base + ss[j].len()) =~= t1.subrange(
                        base,
                        base + ss[j].len(),
                    ));
                }
            },
            VisitorView::HoistStmt { stmt } => {
                assert(ss.drop_last() =~= ss1);
                let c1 = t1[0].children;
                let c = t[0].children;
                assert(c =~= c1.insert(h1, t1.len() as usize));
                assert(c.take(h0) =~= c1.take(h0));
                assert(c.skip(h) =~= c1.skip(h1));
                assert forall|j: int| 0 <= j < ss.len() implies #[trigger] hoisted_at(
                    t,
                    h0,
                    n0,
                    ss,
                    j,
                ) by {
                    let base = n0 + stmts_len(ss.take(j));
                    if j < ss1.len() {
                        assert(hoisted_at(t1, h0, n0, ss1, j));
                        assert(ss.take(j) =~= ss1.take(j));
                        assert(ss[j] == ss1[j]);
                        assert(c[h0 + j] == c1[h0 + j]);
                        assert(t.subrange(base, base + ss[j].len()) =~= t1.subrange(
                            base,
                            base + ss[j].len(),
                        ));
                    } else {
                        assert(ss.take(j) =~= ss1);
                        assert(t.subrange(base, base + ss[j].len()) =~= shifted(stmt, base));
                    }
                }
            },
        }
    }
}

} // verus!
