use turbopack_ecmascript::ast::{AstPath, Node, NodeKind, Stmt, Tree};
use turbopack_ecmascript::code_gen::{apply_visitors, CodeGenError, Visitor};
use turbopack_ecmascript::errors::{self, FailedToAnalyse};
use turbopack_ecmascript::magic_identifier::encode;
use turbopack_ecmascript::meta::{EsmAssetReference, ImportMetaRef, ModuleId, ReferencedAsset};

const META_IDENT: &str = "__TURBOPACK__import$00002e$meta__";

fn node(kind: NodeKind, children: Vec<usize>) -> Node {
    Node { kind, children }
}

/// `foo(import.meta.url); bar;`
fn sample_tree() -> Tree {
    Tree {
        nodes: vec![
            node(NodeKind::Program, vec![1, 4]),
            node(NodeKind::OtherStmt("call foo".to_string()), vec![2]),
            node(NodeKind::Member("url".to_string()), vec![3]),
            node(NodeKind::ImportMeta, vec![]),
            node(NodeKind::OtherStmt("bar".to_string()), vec![]),
        ],
        hoisted: 0,
    }
}

fn path(steps: &[usize]) -> AstPath {
    AstPath { steps: steps.to_vec() }
}

fn meta_ref(initialize: bool, steps: &[usize]) -> ImportMetaRef {
    ImportMetaRef::new(
        initialize,
        EsmAssetReference { request: "./module.js".to_string() },
        path(steps),
    )
}

fn is_str(k: &NodeKind, want: &str) -> bool {
    matches!(k, NodeKind::Str(s) if s == want)
}

#[test]
fn encode_import_meta() {
    assert_eq!(encode("import.meta"), META_IDENT);
}

#[test]
fn encode_empty_and_plain() {
    assert_eq!(encode(""), "__TURBOPACK____");
    assert_eq!(encode("abcXYZ019"), "__TURBOPACK__abcXYZ019__");
}

#[test]
fn encode_non_ascii_and_punctuation() {
    assert_eq!(encode("é"), "__TURBOPACK__$0000e9$__");
    assert_eq!(encode("a b"), "__TURBOPACK__a$000020$b__");
    assert_eq!(encode("_"), "__TURBOPACK__$00005f$__");
}

#[test]
fn encode_is_deterministic_and_distinguishes_tags() {
    assert_eq!(encode("import.meta"), encode("import.meta"));
    assert_ne!(encode("a.b"), encode("a_b"));
    assert_ne!(encode("a"), encode("a$000061$"));
    assert_ne!(encode("ab"), encode("a"));
}

#[test]
fn encode_gives_legal_identifiers() {
    for tag in ["import.meta", "", "x y", "ü/ß", "0start"] {
        let id = encode(tag);
        let first = id.chars().next().unwrap();
        assert!(first == '_' || first == '$' || first.is_ascii_alphabetic());
        assert!(id.chars().all(|c| c.is_ascii_alphanumeric() || c == '_' || c == '$'));
    }
}

#[test]
fn diagnostic_codes() {
    assert_eq!(FailedToAnalyse::DynamicImport.code(), "TP1001");
    assert_eq!(FailedToAnalyse::Require.code(), "TP1002");
    assert_eq!(FailedToAnalyse::RequireResolve.code(), "TP1003");
    assert_eq!(FailedToAnalyse::FsMethod.code(), "TP1004");
    assert_eq!(FailedToAnalyse::ChildProcessSpawn.code(), "TP1005");
    assert_eq!(FailedToAnalyse::PathMethod.code(), "TP1006");
    assert_eq!(FailedToAnalyse::NodePreGypFind.code(), "TP1100");
    assert_eq!(FailedToAnalyse::NodeGypBuild.code(), "TP1101");
    assert_eq!(FailedToAnalyse::NodeBindings.code(), "TP1102");
    assert_eq!(FailedToAnalyse::NodeExpress.code(), "TP1103");
    assert_eq!(FailedToAnalyse::NodeResolveFrom.code(), "TP1104");
    assert_eq!(FailedToAnalyse::NodeProtobufLoader.code(), errors::NODE_PROTOBUF_LOADER);
}

#[test]
fn diagnostic_codes_distinct_and_stable() {
    let all = [
        FailedToAnalyse::DynamicImport,
        FailedToAnalyse::Require,
        FailedToAnalyse::RequireResolve,
        FailedToAnalyse::FsMethod,
        FailedToAnalyse::ChildProcessSpawn,
        FailedToAnalyse::PathMethod,
        FailedToAnalyse::NodePreGypFind,
        FailedToAnalyse::NodeGypBuild,
        FailedToAnalyse::NodeBindings,
        FailedToAnalyse::NodeExpress,
        FailedToAnalyse::NodeResolveFrom,
        FailedToAnalyse::NodeProtobufLoader,
    ];
    for (i, a) in all.iter().enumerate() {
        assert_eq!(a.code(), a.code());
        for b in all.iter().skip(i + 1) {
            assert_ne!(a.code(), b.code());
        }
    }
}

#[test]
fn resolve_addresses() {
    let t = sample_tree();
    assert_eq!(t.resolve(&path(&[])), Some(0));
    assert_eq!(t.resolve(&path(&[0, 0, 0])), Some(3));
    assert_eq!(t.resolve(&path(&[1])), Some(4));
    assert_eq!(t.resolve(&path(&[2])), None);
    assert_eq!(t.resolve(&path(&[0, 0, 0, 0])), None);
}

#[test]
fn derived_addresses_resolve_to_import_meta() {
    let t = sample_tree();
    let found = t.import_meta_paths();
    assert_eq!(found.len(), 1);
    assert_eq!(found[0].steps, vec![0, 0, 0]);
    for p in &found {
        let i = t.resolve(p).unwrap();
        assert!(matches!(t.nodes[i].kind, NodeKind::ImportMeta));
    }
}

#[test]
fn no_initialize_gives_one_replacement() {
    let r = meta_ref(false, &[0, 0, 0]);
    assert!(!r.needs_asset());
    let g = r.code_generation(&ReferencedAsset::Unresolvable);
    assert_eq!(g.visitors.len(), 1);
    match &g.visitors[0] {
        Visitor::ReplaceExpr { path, ident } => {
            assert_eq!(path.steps, vec![0, 0, 0]);
            assert_eq!(ident, META_IDENT);
        }
        Visitor::HoistStmt { .. } => panic!("unexpected hoist"),
    }
}

fn hoisted(r: &ImportMetaRef, asset: &ReferencedAsset) -> Stmt {
    let g = r.code_generation(asset);
    assert_eq!(g.visitors.len(), 2);
    assert!(matches!(&g.visitors[0], Visitor::ReplaceExpr { .. }));
    match &g.visitors[1] {
        Visitor::HoistStmt { stmt } => stmt.clone(),
        Visitor::ReplaceExpr { .. } => panic!("expected a hoist"),
    }
}

#[test]
fn initialize_with_string_module_id() {
    let r = meta_ref(true, &[0, 0, 0]);
    assert!(r.needs_asset());
    let stmt = hoisted(&r, &ReferencedAsset::Found(ModuleId::String("abc".to_string())));
    assert_eq!(stmt.nodes.len(), 8);
    assert!(matches!(&stmt.nodes[0].kind, NodeKind::ConstDecl(n) if n == META_IDENT));
    assert!(matches!(&stmt.nodes[2].kind, NodeKind::Prop(k) if k == "url"));
    assert!(matches!(&stmt.nodes[4].kind, NodeKind::New(c) if c == "URL"));
    assert!(is_str(&stmt.nodes[5].kind, "abc"));
    assert!(matches!(&stmt.nodes[7].kind, NodeKind::Ident(n) if n == "location"));
}

#[test]
fn initialize_with_numeric_module_id() {
    let r = meta_ref(true, &[0, 0, 0]);
    let stmt = hoisted(&r, &ReferencedAsset::Found(ModuleId::Number(42)));
    assert!(matches!(stmt.nodes[5].kind, NodeKind::Num(42)));
}

#[test]
fn initialize_with_unresolvable_asset() {
    let r = meta_ref(true, &[0, 0, 0]);
    let stmt = hoisted(&r, &ReferencedAsset::Unresolvable);
    assert!(is_str(&stmt.nodes[5].kind, "unknown"));
    let stmt = hoisted(&r, &ReferencedAsset::Empty);
    assert!(is_str(&stmt.nodes[5].kind, "unknown"));
}

#[test]
fn shared_record_uses_one_identifier() {
    let a = meta_ref(true, &[0, 0, 0]);
    let b = meta_ref(true, &[1, 0]);
    let asset = ReferencedAsset::Found(ModuleId::String("abc".to_string()));
    let (ga, gb) = (a.code_generation(&asset), b.code_generation(&asset));
    match (&ga.visitors[0], &gb.visitors[0]) {
        (
            Visitor::ReplaceExpr { path: pa, ident: ia },
            Visitor::ReplaceExpr { path: pb, ident: ib },
        ) => {
            assert_eq!(pa.steps, vec![0, 0, 0]);
            assert_eq!(pb.steps, vec![1, 0]);
            assert_eq!(ia, ib);
        }
        _ => panic!("expected replacements"),
    }
    let (sa, sb) = (hoisted(&a, &asset), hoisted(&b, &asset));
    assert!(matches!((&sa.nodes[0].kind, &sb.nodes[0].kind),
        (NodeKind::ConstDecl(x), NodeKind::ConstDecl(y)) if x == y));
}

#[test]
fn apply_replaces_and_hoists() {
    let mut t = sample_tree();
    let r = meta_ref(true, &[0, 0, 0]);
    let g = r.code_generation(&ReferencedAsset::Found(ModuleId::String("abc".to_string())));
    assert_eq!(apply_visitors(&mut t, &g.visitors), Ok(()));
    assert!(matches!(&t.nodes[3].kind, NodeKind::Ident(n) if n == META_IDENT));
    assert!(t.nodes[3].children.is_empty());
    assert_eq!(t.nodes.len(), 13);
    assert_eq!(t.nodes[0].children, vec![5, 1, 4]);
    assert_eq!(t.hoisted, 1);
    assert!(matches!(&t.nodes[5].kind, NodeKind::ConstDecl(n) if n == META_IDENT));
    assert_eq!(t.nodes[5].children, vec![6]);
    assert_eq!(t.nodes[9].children, vec![10, 11]);
    assert!(is_str(&t.nodes[10].kind, "abc"));
}

#[test]
fn hoisted_statements_keep_registration_order() {
    let mut t = sample_tree();
    let first = Stmt { nodes: vec![node(NodeKind::OtherStmt("first".to_string()), vec![])] };
    let second = Stmt {
        nodes: vec![
            node(NodeKind::OtherStmt("second".to_string()), vec![1]),
            node(NodeKind::OtherExpr("x".to_string()), vec![]),
        ],
    };
    let third = Stmt { nodes: vec![node(NodeKind::OtherStmt("third".to_string()), vec![])] };
    let visitors = vec![
        Visitor::HoistStmt { stmt: first },
        Visitor::ReplaceExpr { path: path(&[0, 0, 0]), ident: "m".to_string() },
        Visitor::HoistStmt { stmt: second },
        Visitor::HoistStmt { stmt: third },
    ];
    assert_eq!(apply_visitors(&mut t, &visitors), Ok(()));
    assert_eq!(t.nodes[0].children, vec![5, 6, 8, 1, 4]);
    assert_eq!(t.hoisted, 3);
    assert!(matches!(&t.nodes[5].kind, NodeKind::OtherStmt(s) if s == "first"));
    assert!(matches!(&t.nodes[6].kind, NodeKind::OtherStmt(s) if s == "second"));
    assert_eq!(t.nodes[6].children, vec![7]);
    assert!(matches!(&t.nodes[8].kind, NodeKind::OtherStmt(s) if s == "third"));
    assert!(matches!(&t.nodes[3].kind, NodeKind::Ident(n) if n == "m"));
}

#[test]
fn invalid_address_is_refused() {
    let mut t = sample_tree();
    let r = meta_ref(true, &[0, 5]);
    let g = r.code_generation(&ReferencedAsset::Empty);
    assert_eq!(apply_visitors(&mut t, &g.visitors), Err(CodeGenError::InvalidAddress));
    assert_eq!(t.nodes.len(), 5);
    assert_eq!(t.nodes[0].children, vec![1, 4]);
    assert_eq!(t.hoisted, 0);
}

#[test]
fn address_at_a_statement_is_refused() {
    let mut t = sample_tree();
    let visitors = vec![
        Visitor::HoistStmt { stmt: Stmt { nodes: vec![node(NodeKind::Object, vec![])] } },
        Visitor::ReplaceExpr { path: path(&[1]), ident: "m".to_string() },
    ];
    assert_eq!(apply_visitors(&mut t, &visitors), Err(CodeGenError::InvalidAddress));
    assert_eq!(t.nodes.len(), 5);
}
