//! A parsed program held as an arena of nodes, and addresses into it.
//!
//! Node 0 is the program; its children are the top-level statements. A
//! well-formed arena lists every child after its parent, so it is a finite,
//! acyclic structure. An address is the sequence of child positions taken
//! from the program node down to the addressed node.
use vstd::prelude::*;

verus! {

/// What a syntax node is, with its own data.
#[derive(Clone, Debug)]
pub enum NodeKind {
    Program,
    /// The `import.meta` expression.
    ImportMeta,
    Ident(String),
    Str(String),
    Num(u32),
    /// `const <name> = <child 0>;`
    ConstDecl(String),
    /// An object literal; its children are its properties.
    Object,
    /// `<key>: <child 0>` inside an object literal.
    Prop(String),
    /// `<child 0>.<name>`
    Member(String),
    /// `new <callee>(<children>)`
    New(String),
    OtherExpr(String),
    OtherStmt(String),
}

/// The mathematical value of a `NodeKind`.
pub enum Kind {
    Program,
    ImportMeta,
    Ident(Seq<char>),
    Str(Seq<char>),
    Num(u32),
    ConstDecl(Seq<char>),
    Object,
    Prop(Seq<char>),
    Member(Seq<char>),
    New(Seq<char>),
    OtherExpr(Seq<char>),
    OtherStmt(Seq<char>),
}

impl View for NodeKind {
    type V = Kind;

    open spec fn view(&self) -> Kind {
        match self {
            NodeKind::Program => Kind::Program,
            NodeKind::ImportMeta => Kind::ImportMeta,
            NodeKind::Ident(s) => Kind::Ident(s@),
            NodeKind::Str(s) => Kind::Str(s@),
            NodeKind::Num(n) => Kind::Num(*n),
            NodeKind::ConstDecl(s) => Kind::ConstDecl(s@),
            NodeKind::Object => Kind::Object,
            NodeKind::Prop(s) => Kind::Prop(s@),
            NodeKind::Member(s) => Kind::Member(s@),
            NodeKind::New(s) => Kind::New(s@),
            NodeKind::OtherExpr(s) => Kind::OtherExpr(s@),
            NodeKind::OtherStmt(s) => Kind::OtherStmt(s@),
        }
    }
}

/// Whether a node of this kind stands in expression position.
pub open spec fn is_expr(k: Kind) -> bool {
    match k {
        Kind::ImportMeta | Kind::Ident(_) | Kind::Str(_) | Kind::Num(_) | Kind::Object
        | Kind::Member(_) | Kind::New(_) | Kind::OtherExpr(_) => true,
        _ => false,
    }
}

#[derive(Clone, Debug)]
pub struct Node {
    pub kind: NodeKind,
    /// Arena indices of the children, in source order.
    pub children: Vec<usize>,
}

pub struct NodeView {
    pub kind: Kind,
    pub children: Seq<usize>,
}

impl View for Node {
    type V = NodeView;

    open spec fn view(&self) -> NodeView {
        NodeView { kind: self.kind@, children: self.children@ }
    }
}

/// A program as an arena of nodes; node 0 is the program itself.
#[derive(Clone, Debug)]
pub struct Tree {
    pub nodes: Vec<Node>,
    /// How many of the leading top-level statements were hoisted into it.
    pub hoisted: usize,
}

impl View for Tree {
    type V = Seq<NodeView>;

    open spec fn view(&self) -> Seq<NodeView> {
        self.nodes@.map_values(|n: Node| n@)
    }
}

/// Node 0 is the program, and every child comes after its parent.
pub open spec fn tree_wf(t: Seq<NodeView>) -> bool {
    &&& t.len() > 0
    &&& t[0].kind == Kind::Program
    &&& forall|i: int, j: int|
        0 <= i < t.len() && 0 <= j < t[i].children.len() ==> i < #[trigger] t[i].children[j]
            < t.len()
}

/// The node reached from node `from` by taking the child positions `steps`.
pub open spec fn walk(t: Seq<NodeView>, from: int, steps: Seq<usize>) -> Option<int>
    decreases steps.len(),
{
    if !(0 <= from < t.len()) {
        None
    } else if steps.len() == 0 {
        Some(from)
    } else if steps[0] < t[from].children.len() {
        walk(t, t[from].children[steps[0] as int] as int, steps.drop_first())
    } else {
        None
    }
}

/// The node that an address designates in `t`, if any.
pub open spec fn node_at(t: Seq<NodeView>, path: Seq<usize>) -> Option<int> {
    walk(t, 0, path)
}

/// A tree with node `i` replaced by a reference to `name`.
pub open spec fn replace_spec(t: Seq<NodeView>, i: int, name: Seq<char>) -> Seq<NodeView> {
    t.update(i, NodeView { kind: Kind::Ident(name), children: Seq::empty() })
}

pub open spec fn shift_node(n: NodeView, base: int) -> NodeView {
    NodeView { kind: n.kind, children: n.children.map_values(|c: usize| (c + base) as usize) }
}

/// The nodes of a statement, with child indices moved up by `base`.
pub open spec fn shifted(s: Seq<NodeView>, base: int) -> Seq<NodeView> {
    s.map_values(|n: NodeView| shift_node(n, base))
}

/// A tree with statement `s` placed at position `h` of the program's body;
/// its nodes are added at the end of the arena.
pub open spec fn hoist_spec(t: Seq<NodeView>, h: int, s: Seq<NodeView>) -> Seq<NodeView> {
    t.update(
        0,
        NodeView { kind: t[0].kind, children: t[0].children.insert(h, t.len() as usize) },
    ) + shifted(s, t.len() as int)
}

/// A statement built apart from any tree: node 0 is the statement, and child
/// indices are local to `nodes`.
#[derive(Clone, Debug)]
pub struct Stmt {
    pub nodes: Vec<Node>,
}

impl View for Stmt {
    type V = Seq<NodeView>;

    open spec fn view(&self) -> Seq<NodeView> {
        self.nodes@.map_values(|n: Node| n@)
    }
}

/// Every child comes after its parent and inside the statement.
pub open spec fn stmt_wf(s: Seq<NodeView>) -> bool {
    &&& s.len() > 0
    &&& forall|i: int, j: int|
        0 <= i < s.len() && 0 <= j < s[i].children.len() ==> i < #[trigger] s[i].children[j]
            < s.len()
}

impl NodeKind {
    /// A copy of this kind.
    pub fn duplicate(&self) -> (r: NodeKind)
        ensures
            r@ == self@,
    {
        match self {
            NodeKind::Program => NodeKind::Program,
            NodeKind::ImportMeta => NodeKind::ImportMeta,
            NodeKind::Ident(s) => NodeKind::Ident(s.clone()),
            NodeKind::Str(s) => NodeKind::Str(s.clone()),
            NodeKind::Num(n) => NodeKind::Num(*n),
            NodeKind::ConstDecl(s) => NodeKind::ConstDecl(s.clone()),
            NodeKind::Object => NodeKind::Object,
            NodeKind::Prop(s) => NodeKind::Prop(s.clone()),
            NodeKind::Member(s) => NodeKind::Member(s.clone()),
            NodeKind::New(s) => NodeKind::New(s.clone()),
            NodeKind::OtherExpr(s) => NodeKind::OtherExpr(s.clone()),
            NodeKind::OtherStmt(s) => NodeKind::OtherStmt(s.clone()),
        }
    }

    /// Whether this kind stands in expression position.
    pub fn is_expr(&self) -> (r: bool)
        ensures
            r == is_expr(self@),
    {
        match self {
            NodeKind::Program | NodeKind::ConstDecl(_) | NodeKind::Prop(_)
            | NodeKind::OtherStmt(_) => false,
            _ => true,
        }
    }
}

/// A location in a tree: child positions from the program node down.
#[derive(Clone, Debug)]
pub struct AstPath {
    pub steps: Vec<usize>,
}

impl View for AstPath {
    type V = Seq<usize>;

    open spec fn view(&self) -> Seq<usize> {
        self.steps@
    }
}

impl AstPath {
    /// A copy of this address.
    pub fn duplicate(&self) -> (r: AstPath)
        ensures
            r@ == self@,
    {
        AstPath { steps: self.steps.clone() }
    }
}

pub(crate) proof fn lemma_walk_in_range(t: Seq<NodeView>, from: int, steps: Seq<usize>)
    ensures
        walk(t, from, steps) matches Some(i) ==> 0 <= i < t.len(),
    decreases steps.len(),
{
    if 0 <= from < t.len() && steps.len() > 0 && steps[0] < t[from].children.len() {
        lemma_walk_in_range(t, t[from].children[steps[0] as int] as int, steps.drop_first());
    }
}

proof fn lemma_walk_push(t: Seq<NodeView>, from: int, steps: Seq<usize>, j: usize)
    requires
        walk(t, from, steps) is Some,
    ensures
        ({
            let n = walk(t, from, steps)->0;
            walk(t, from, steps.push(j)) == if j < t[n].children.len() {
                walk(t, t[n].children[j as int] as int, Seq::empty())
            } else {
                None
            }
        }),
    decreases steps.len(),
{
    if steps.len() == 0 {
        assert(steps.push(j).drop_first() =~= Seq::<usize>::empty());
    } else {
        assert(steps.push(j).drop_first() =~= steps.drop_first().push(j));
        lemma_walk_push(t, t[from].children[steps[0] as int] as int, steps.drop_first(), j);
    }
}

impl Tree {
    pub open spec fn wf(&self) -> bool {
        &&& tree_wf(self@)
        &&& self.hoisted <= self@[0].children.len()
    }

    /// Replaces node `i` by a reference to `name`.
    pub fn replace_with_ident(&mut self, i: usize, name: String)
        requires
            old(self).wf(),
            0 < i < old(self)@.len(),
        ensures
            final(self).wf(),
            final(self)@ == replace_spec(old(self)@, i as int, name@),
            final(self).hoisted == old(self).hoisted,
    {
        let ghost t = self@;
        self.nodes.set(i, Node { kind: NodeKind::Ident(name), children: Vec::new() });
        assert(self@ =~= replace_spec(t, i as int, name@)) by {
            assert forall|k: int| 0 <= k < t.len() implies #[trigger] self@[k] == replace_spec(
                t,
                i as int,
                name@,
            )[k] by {
                assert(self@[k] == self.nodes@[k]@);
                if k == i {
                    assert(self@[k].children =~= Seq::<usize>::empty());
                }
            }
        }
    }

    /// Inserts `stmt` at the top of the program, after the statements
    /// hoisted before it. Its nodes are added at the end of the arena.
    pub fn insert_hoisted_stmt(&mut self, stmt: &Stmt)
        requires
            old(self).wf(),
            stmt_wf(stmt@),
            old(self)@.len() + stmt@.len() <= usize::MAX,
        ensures
            final(self).wf(),
            final(self)@ == hoist_spec(old(self)@, old(self).hoisted as int, stmt@),
            final(self).hoisted == old(self).hoisted + 1,
    {
        let ghost t = self@;
        let base = self.nodes.len();
        let n = stmt.nodes.len();
        let mut i: usize = 0;
        while i < n
            invariant
                n == stmt@.len(),
                base == t.len(),
                base + n <= usize::MAX,
                stmt_wf(stmt@),
                i <= n,
                self.hoisted == old(self).hoisted,
                self@ =~= t + shifted(stmt@, base as int).take(i as int),
            decreases n - i,
        {
            let src = &stmt.nodes[i];
            assert(stmt@[i as int] == src@);
            let m = src.children.len();
            let mut children: Vec<usize> = Vec::new();
            let mut j: usize = 0;
            while j < m
                invariant
                    m == src@.children.len(),
                    src@ == stmt@[i as int],
                    base == t.len(),
                    base + n <= usize::MAX,
                    i < n == stmt@.len(),
                    stmt_wf(stmt@),
                    j <= m,
                    children@ =~= shift_node(src@, base as int).children.take(j as int),
                decreases m - j,
            {
                assert(src@.children[j as int] < n);
                children.push(src.children[j] + base);
                j = j + 1;
            }
            assert(children@ =~= shift_node(src@, base as int).children);
            let ghost prev = self.nodes@;
            self.nodes.push(Node { kind: src.kind.duplicate(), children });
            assert(self@ =~= t + shifted(stmt@, base as int).take(i + 1)) by {
                let want = t + shifted(stmt@, base as int).take(i + 1);
                assert(prev.map_values(|n: Node| n@).len() == prev.len());
                assert(self@.len() == self.nodes@.len());
                assert(self@.len() == want.len());
                assert forall|k: int| 0 <= k < want.len() implies #[trigger] self@[k] == want[k] by {
                    assert(self@[k] == self.nodes@[k]@);
                    if k < prev.len() {
                        assert(self.nodes@[k] == prev[k]);
                        assert(prev.map_values(|n: Node| n@)[k] == prev[k]@);
                    }
                }
            }
            i = i + 1;
        }
        assert(shifted(stmt@, base as int).take(n as int) =~= shifted(stmt@, base as int));
        assert(self@[0] == self.nodes@[0]@);
        assert(self@[0] == t[0]);
        let mut top = self.nodes[0].children.clone();
        top.insert(self.hoisted, base);
        let count = top.len();
        assert(count == t[0].children.len() + 1);
        let root = Node { kind: self.nodes[0].kind.duplicate(), children: top };
        let ghost before = self@;
        self.nodes.set(0, root);
        self.hoisted = self.hoisted + 1;
        let ghost r = hoist_spec(t, old(self).hoisted as int, stmt@);
        assert(self@ =~= r) by {
            assert(self@.len() == self.nodes@.len());
            assert forall|k: int| 0 <= k < r.len() implies #[trigger] self@[k] == r[k] by {
                assert(self@[k] == self.nodes@[k]@);
                if k == 0 {
                    assert(self@[0].children =~= r[0].children);
                } else {
                    assert(self@[k] == before[k]);
                }
            }
        }
        assert(tree_wf(r)) by {
            assert forall|a: int, b: int|
                0 <= a < r.len() && 0 <= b < r[a].children.len() implies a
                < #[trigger] r[a].children[b] < r.len() by {
                if a >= base {
                    let c = stmt@[a - base].children[b];
                    assert(r[a].children[b] == c + base);
                } else if a == 0 {
                    if b != old(self).hoisted {
                        if b < old(self).hoisted {
                            assert(r[a].children[b] == t[0].children[b]);
                        } else {
                            assert(r[a].children[b] == t[0].children[b - 1]);
                        }
                    }
                } else {
                    assert(r[a] == t[a]);
                }
            }
        }
    }

    /// The arena index of the node that `path` designates, or `None` where
    /// the path leaves the tree.
    pub fn resolve(&self, path: &AstPath) -> (r: Option<usize>)
        ensures
            r matches Some(i) ==> node_at(self@, path@) == Some(i as int),
            r is None ==> node_at(self@, path@) is None,
    {
        let n = path.steps.len();
        let len = self.nodes.len();
        if len == 0 {
            return None;
        }
        let mut cur: usize = 0;
        let mut i: usize = 0;
        assert(path@.skip(0) =~= path@);
        while i < n
            invariant
                n == path@.len(),
                len == self@.len(),
                i <= n,
                cur < len,
                node_at(self@, path@) == walk(self@, cur as int, path@.skip(i as int)),
            decreases n - i,
        {
            let step = path.steps[i];
            let node = &self.nodes[cur];
            assert(self@[cur as int] == node@);
            assert(path@.skip(i as int).drop_first() =~= path@.skip(i + 1));
            if step >= node.children.len() {
                return None;
            }
            let next = node.children[step];
            if next >= len {
                assert(walk(self@, next as int, path@.skip(i + 1)) is None);
                return None;
            }
            cur = next;
            i = i + 1;
        }
        Some(cur)
    }

    fn collect_import_meta(&self, node: usize, prefix: &mut Vec<usize>, out: &mut Vec<AstPath>)
        requires
            self.wf(),
            node_at(self@, old(prefix)@) == Some(node as int),
            forall|k: int|
                0 <= k < old(out)@.len() ==> #[trigger] designates_import_meta(
                    self@,
                    old(out)@[k]@,
                ),
        ensures
            final(prefix)@ == old(prefix)@,
            forall|k: int|
                0 <= k < final(out)@.len() ==> #[trigger] designates_import_meta(
                    self@,
                    final(out)@[k]@,
                ),
            final(out)@.len() >= old(out)@.len(),
            forall|k: int| 0 <= k < old(out)@.len() ==> final(out)@[k] == old(out)@[k],
            forall|q: Seq<usize>|
                #[trigger] import_meta_below(self@, node as int, q) ==> listed(
                    final(out)@,
                    old(prefix)@ + q,
                ),
        decreases self@.len() - node,
    {
        let ghost t = self@;
        let ghost out0 = out@;
        proof {
            lemma_walk_in_range(t, 0, prefix@);
        }
        assert(t[node as int] == self.nodes@[node as int]@);
        if let NodeKind::ImportMeta = self.nodes[node].kind {
            out.push(AstPath { steps: prefix.clone() });
            assert(out@.last()@ == prefix@);
        }
        let n = self.nodes[node].children.len();
        let mut j: usize = 0;
        while j < n
            invariant
                self.wf(),
                t == self@,
                node < t.len(),
                n == t[node as int].children.len(),
                j <= n,
                prefix@ == old(prefix)@,
                node_at(t, prefix@) == Some(node as int),
                forall|k: int|
                    0 <= k < out@.len() ==> #[trigger] designates_import_meta(t, out@[k]@),
                out@.len() >= out0.len(),
                forall|k: int| 0 <= k < out0.len() ==> out@[k] == out0[k],
                forall|q: Seq<usize>|
                    #[trigger] import_meta_below(t, node as int, q) && (q.len() == 0 || q[0] < j)
                        ==> listed(out@, prefix@ + q),
            decreases n - j,
        {
            let child = self.nodes[node].children[j];
            assert(t[node as int].children[j as int] == child);
            proof {
                lemma_walk_push(t, 0, prefix@, j);
            }
            let ghost before = out@;
            prefix.push(j);
            self.collect_import_meta(child, prefix, out);
            prefix.pop();
            assert(prefix@ =~= old(prefix)@);
            assert forall|q: Seq<usize>|
                #[trigger] import_meta_below(t, node as int, q) && (q.len() == 0 || q[0] < j + 1)
                    implies listed(out@, prefix@ + q) by {
                if q.len() > 0 && q[0] == j {
                    assert(import_meta_below(t, child as int, q.drop_first()));
                    assert(prefix@.push(j) + q.drop_first() =~= prefix@ + q);
                } else {
                    let k = choose|k: int| 0 <= k < before.len() && before[k]@ == prefix@ + q;
                    assert(out@[k] == before[k]);
                }
            }
            j = j + 1;
        }
        assert forall|q: Seq<usize>| #[trigger] import_meta_below(t, node as int, q) implies listed(
            out@,
            old(prefix)@ + q,
        ) by {
            if q.len() == 0 {
                assert(prefix@ + q =~= prefix@);
            } else {
                assert(q[0] < t[node as int].children.len());
            }
        }
    }

    /// The address of every `import.meta` expression in the tree, in
    /// depth-first order.
    pub fn import_meta_paths(&self) -> (r: Vec<AstPath>)
        requires
            self.wf(),
        ensures
            forall|k: int| 0 <= k < r@.len() ==> #[trigger] designates_import_meta(self@, r@[k]@),
            forall|p: Seq<usize>| #[trigger] designates_import_meta(self@, p) ==> listed(r@, p),
    {
        let mut out: Vec<AstPath> = Vec::new();
        let mut prefix: Vec<usize> = Vec::new();
        self.collect_import_meta(0, &mut prefix, &mut out);
        assert forall|p: Seq<usize>| #[trigger] designates_import_meta(self@, p) implies listed(
            out@,
            p,
        ) by {
            assert(import_meta_below(self@, 0, p));
            assert(Seq::<usize>::empty() + p =~= p);
        }
        out
    }
}

/// Walking `q` from node `from` reaches an `import.meta` expression.
pub open spec fn import_meta_below(t: Seq<NodeView>, from: int, q: Seq<usize>) -> bool {
    &&& walk(t, from, q) is Some
    &&& t[walk(t, from, q)->0].kind == Kind::ImportMeta
}

/// Some address of `paths` is `p`.
pub open spec fn listed(paths: Seq<AstPath>, p: Seq<usize>) -> bool {
    exists|k: int| 0 <= k < paths.len() && paths[k]@ == p
}

/// `path` designates an `import.meta` expression of `t`.
pub open spec fn designates_import_meta(t: Seq<NodeView>, path: Seq<usize>) -> bool {
    &&& node_at(t, path) is Some
    &&& t[node_at(t, path)->0].kind == Kind::ImportMeta
}

} // verus!
