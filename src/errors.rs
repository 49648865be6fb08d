//! Stable codes for constructs that static analysis could not handle.
use vstd::prelude::*;

verus! {

pub const DYNAMIC_IMPORT: &'static str = "TP1001";
pub const REQUIRE: &'static str = "TP1002";
pub const REQUIRE_RESOLVE: &'static str = "TP1003";
pub const FS_METHOD: &'static str = "TP1004";
pub const CHILD_PROCESS_SPAWN: &'static str = "TP1005";
pub const PATH_METHOD: &'static str = "TP1006";
pub const NODE_PRE_GYP_FIND: &'static str = "TP1100";
pub const NODE_GYP_BUILD: &'static str = "TP1101";
pub const NODE_BINDINGS: &'static str = "TP1102";
pub const NODE_EXPRESS: &'static str = "TP1103";
pub const NODE_RESOLVE_FROM: &'static str = "TP1104";
pub const NODE_PROTOBUF_LOADER: &'static str = "TP1105";

/// An ECMAScript construct that could not be analysed.
#[derive(Clone, Copy, Debug, PartialEq, Eq, Structural)]
pub enum FailedToAnalyse {
    DynamicImport,
    Require,
    RequireResolve,
    FsMethod,
    ChildProcessSpawn,
    PathMethod,
    NodePreGypFind,
    NodeGypBuild,
    NodeBindings,
    NodeExpress,
    NodeResolveFrom,
    NodeProtobufLoader,
}

/// The code of each construct.
pub open spec fn code_of(k: FailedToAnalyse) -> Seq<char> {
    match k {
        FailedToAnalyse::DynamicImport => DYNAMIC_IMPORT@,
        FailedToAnalyse::Require => REQUIRE@,
        FailedToAnalyse::RequireResolve => REQUIRE_RESOLVE@,
        FailedToAnalyse::FsMethod => FS_METHOD@,
        FailedToAnalyse::ChildProcessSpawn => CHILD_PROCESS_SPAWN@,
        FailedToAnalyse::PathMethod => PATH_METHOD@,
        FailedToAnalyse::NodePreGypFind => NODE_PRE_GYP_FIND@,
        FailedToAnalyse::NodeGypBuild => NODE_GYP_BUILD@,
        FailedToAnalyse::NodeBindings => NODE_BINDINGS@,
        FailedToAnalyse::NodeExpress => NODE_EXPRESS@,
        FailedToAnalyse::NodeResolveFrom => NODE_RESOLVE_FROM@,
        FailedToAnalyse::NodeProtobufLoader => NODE_PROTOBUF_LOADER@,
    }
}

impl FailedToAnalyse {
    /// The stable diagnostic code of this construct.
    pub fn code(&self) -> (r: &'static str)
        ensures
            r@ == code_of(*self),
    {
        match self {
            FailedToAnalyse::DynamicImport => DYNAMIC_IMPORT,
            FailedToAnalyse::Require => REQUIRE,
            FailedToAnalyse::RequireResolve => REQUIRE_RESOLVE,
            FailedToAnalyse::FsMethod => FS_METHOD,
            FailedToAnalyse::ChildProcessSpawn => CHILD_PROCESS_SPAWN,
            FailedToAnalyse::PathMethod => PATH_METHOD,
            FailedToAnalyse::NodePreGypFind => NODE_PRE_GYP_FIND,
            FailedToAnalyse::NodeGypBuild => NODE_GYP_BUILD,
            FailedToAnalyse::NodeBindings => NODE_BINDINGS,
            FailedToAnalyse::NodeExpress => NODE_EXPRESS,
            FailedToAnalyse::NodeResolveFrom => NODE_RESOLVE_FROM,
            FailedToAnalyse::NodeProtobufLoader => NODE_PROTOBUF_LOADER,
        }
    }
}

/// No two constructs share a code, and a lookup always gives the same code.
pub proof fn lemma_codes_distinct(a: FailedToAnalyse, b: FailedToAnalyse)
    ensures
        code_of(a) == code_of(b) <==> a == b,
{
    reveal_strlit("TP1001");
    reveal_strlit("TP1002");
    reveal_strlit("TP1003");
    reveal_strlit("TP1004");
    reveal_strlit("TP1005");
    reveal_strlit("TP1006");
    reveal_strlit("TP1100");
    reveal_strlit("TP1101");
    reveal_strlit("TP1102");
    reveal_strlit("TP1103");
    reveal_strlit("TP1104");
    reveal_strlit("TP1105");
    if code_of(a) == code_of(b) {
        assert(code_of(a)[3] == code_of(b)[3]);
        assert(code_of(a)[5] == code_of(b)[5]);
    }
}

} // verus!
