//! The `import.meta` construct.
use vstd::prelude::*;
use crate::ast::{stmt_wf, AstPath, Kind, Node, NodeKind, NodeView, Stmt};
use crate::code_gen::{stmts_wf, CodeGeneration, Visitor, VisitorView};
use crate::magic_identifier::{encode, magic_identifier};

verus! {

/// The identifier that a module's chunking context gives it.
#[derive(Clone, Debug)]
pub enum ModuleId {
    String(String),
    Number(u32),
}

/// What an asset reference resolved to, with the module id of the asset
/// where there is one.
#[derive(Clone, Debug)]
pub enum ReferencedAsset {
    /// The reference resolved to an asset, which has this module id.
    Found(ModuleId),
    /// The reference resolves to nothing, as an external or ignored one does.
    Empty,
    /// Resolving the reference failed.
    Unresolvable,
}

/// A symbolic reference to another module: the request as written.
#[derive(Clone, Debug)]
pub struct EsmAssetReference {
    pub request: String,
}

/// One occurrence of `import.meta` in a module.
#[derive(Clone, Debug)]
pub struct ImportMetaRef {
    /// Whether this occurrence declares the module's metadata object.
    pub initialize: bool,
    /// The module whose id the metadata object's `url` is built from.
    pub inner: EsmAssetReference,
    /// Where the occurrence stands in the module's tree.
    pub ast_path: AstPath,
}

/// The tag that names the hoisted metadata object.
pub const IMPORT_META_TAG: &'static str = "import.meta";

/// The literal used where the asset has no module id.
pub const UNKNOWN_URL: &'static str = "unknown";

/// The synthetic identifier that every `import.meta` of a module refers to.
pub open spec fn import_meta_ident() -> Seq<char> {
    magic_identifier(IMPORT_META_TAG@)
}

/// The literal that the metadata object's `url` is built from.
pub open spec fn url_literal(asset: ReferencedAsset) -> Kind {
    match asset {
        ReferencedAsset::Found(ModuleId::String(s)) => Kind::Str(s@),
        ReferencedAsset::Found(ModuleId::Number(n)) => Kind::Num(n),
        _ => Kind::Str(UNKNOWN_URL@),
    }
}

pub open spec fn leaf(kind: Kind) -> NodeView {
    NodeView { kind, children: Seq::empty() }
}

pub open spec fn inner_node(kind: Kind, children: Seq<usize>) -> NodeView {
    NodeView { kind, children }
}

/// `const <name> = { url: new URL(<url>, location.href).href };`
pub open spec fn meta_decl(name: Seq<char>, url: Kind) -> Seq<NodeView> {
    seq![
        inner_node(Kind::ConstDecl(name), seq![1]),
        inner_node(Kind::Object, seq![2]),
        inner_node(Kind::Prop("url"@), seq![3]),
        inner_node(Kind::Member("href"@), seq![4]),
        inner_node(Kind::New("URL"@), seq![5, 6]),
        leaf(url),
        inner_node(Kind::Member("href"@), seq![7]),
        leaf(Kind::Ident("location"@)),
    ]
}

/// The mutations that an `import.meta` occurrence asks for.
pub open spec fn import_meta_visitors(
    initialize: bool,
    path: Seq<usize>,
    asset: ReferencedAsset,
) -> Seq<VisitorView> {
    let replace = VisitorView::ReplaceExpr { path, ident: import_meta_ident() };
    if initialize {
        seq![
            replace,
            VisitorView::HoistStmt { stmt: meta_decl(import_meta_ident(), url_literal(asset)) },
        ]
    } else {
        seq![replace]
    }
}

fn node(kind: NodeKind, children: Vec<usize>) -> (r: Node)
    ensures
        r@ == inner_node(kind@, children@),
{
    Node { kind, children }
}

fn url_literal_exec(asset: &ReferencedAsset) -> (r: NodeKind)
    ensures
        r@ == url_literal(*asset),
{
    match asset {
        ReferencedAsset::Found(ModuleId::String(s)) => NodeKind::Str(s.clone()),
        ReferencedAsset::Found(ModuleId::Number(n)) => NodeKind::Num(*n),
        _ => NodeKind::Str(String::from_str(UNKNOWN_URL)),
    }
}

fn meta_decl_exec(name: String, url: NodeKind) -> (r: Stmt)
    ensures
        r@ == meta_decl(name@, url@),
{
    let ghost d = meta_decl(name@, url@);
    let n0 = node(NodeKind::ConstDecl(name), vec![1]);
    let n1 = node(NodeKind::Object, vec![2]);
    let n2 = node(NodeKind::Prop(String::from_str("url")), vec![3]);
    let n3 = node(NodeKind::Member(String::from_str("href")), vec![4]);
    let n4 = node(NodeKind::New(String::from_str("URL")), vec![5, 6]);
    let n5 = node(url, Vec::new());
    let n6 = node(NodeKind::Member(String::from_str("href")), vec![7]);
    let n7 = node(NodeKind::Ident(String::from_str("location")), Vec::new());
    assert(n0@.children =~= d[0].children);
    assert(n1@.children =~= d[1].children);
    assert(n2@.children =~= d[2].children);
    assert(n3@.children =~= d[3].children);
    assert(n4@.children =~= d[4].children);
    assert(n5@.children =~= d[5].children);
    assert(n6@.children =~= d[6].children);
    assert(n7@.children =~= d[7].children);
    let r = Stmt { nodes: vec![n0, n1, n2, n3, n4, n5, n6, n7] };
    assert(r@ =~= d);
    r
}

impl ImportMetaRef {
    pub fn new(initialize: bool, inner: EsmAssetReference, ast_path: AstPath) -> (r: Self)
        ensures
            r.initialize == initialize,
            r.inner == inner,
            r.ast_path == ast_path,
    {
        ImportMetaRef { initialize, inner, ast_path }
    }

    /// Whether code generation needs the referenced asset resolved.
    pub fn needs_asset(&self) -> (r: bool)
        ensures
            r == self.initialize,
    {
        self.initialize
    }

    /// The mutations for this occurrence. `asset` is what `inner` resolved
    /// to; it is read only when the metadata object is initialised here.
    pub fn code_generation(&self, asset: &ReferencedAsset) -> (r: CodeGeneration)
        ensures
            r@ == import_meta_visitors(self.initialize, self.ast_path@, *asset),
            stmts_wf(r@),
    {
        let mut visitors: Vec<Visitor> = Vec::new();
        visitors.push(
            Visitor::ReplaceExpr { path: self.ast_path.duplicate(), ident: encode(IMPORT_META_TAG) },
        );
        if self.initialize {
            let url = url_literal_exec(asset);
            let stmt = meta_decl_exec(encode(IMPORT_META_TAG), url);
            visitors.push(Visitor::HoistStmt { stmt });
        }
        let r = CodeGeneration { visitors };
        assert(r@[0] == r.visitors@[0]@);
        assert(self.initialize ==> r@[1] == r.visitors@[1]@);
        assert(r@ =~= import_meta_visitors(self.initialize, self.ast_path@, *asset));
        proof {
            lemma_import_meta_visitors(self.initialize, self.ast_path@, *asset);
        }
        r
    }
}

/// The statement hoisted for `import.meta` is well formed.
pub proof fn lemma_meta_decl_wf(name: Seq<char>, url: Kind)
    ensures
        stmt_wf(meta_decl(name, url)),
{
    let d = meta_decl(name, url);
    assert forall|i: int, j: int|
        0 <= i < d.len() && 0 <= j < d[i].children.len() implies i < #[trigger] d[i].children[j]
        < d.len() by {
        assert(0 <= i < 8);
    }
}

/// An occurrence asks for one replacement, at its own address, by the
/// synthetic identifier; it hoists one declaration of that identifier when it
/// initialises the metadata object and none otherwise. The declaration's `url`
/// is built from the module id of a found asset, and from the literal
/// `"unknown"` for an asset that resolved to nothing or could not be resolved.
pub proof fn lemma_import_meta_visitors(initialize: bool, path: Seq<usize>, asset: ReferencedAsset)
    ensures
        ({
            let vs = import_meta_visitors(initialize, path, asset);
            &&& vs.len() == if initialize { 2int } else { 1int }
            &&& vs[0] == VisitorView::ReplaceExpr { path, ident: import_meta_ident() }
            &&& initialize ==> (vs[1] matches VisitorView::HoistStmt { stmt } && stmt_wf(stmt)
                && stmt[0].kind == Kind::ConstDecl(import_meta_ident()) && stmt[5].kind
                == url_literal(asset))
            &&& !(asset is Found) ==> url_literal(asset) == Kind::Str(UNKNOWN_URL@)
        }),
{
    lemma_meta_decl_wf(import_meta_ident(), url_literal(asset));
}

/// Two addresses of one reference record replace each occurrence by the same
/// identifier and hoist the very same declaration, so they never declare two
/// diverging identifiers.
pub proof fn lemma_shared_record(
    initialize: bool,
    path1: Seq<usize>,
    path2: Seq<usize>,
    asset: ReferencedAsset,
)
    ensures
        ({
            let (v1, v2) = (
                import_meta_visitors(initialize, path1, asset),
                import_meta_visitors(initialize, path2, asset),
            );
            &&& v1[0]->ReplaceExpr_ident == v2[0]->ReplaceExpr_ident
            &&& v1[0]->ReplaceExpr_path == path1
            &&& v2[0]->ReplaceExpr_path == path2
            &&& v1.len() == v2.len()
            &&& initialize ==> v1[1] == v2[1]
        }),
{
}

} // verus!
