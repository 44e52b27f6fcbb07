//! Identifiers, kinds and nodes of the data-flow graph.
use crate::keyed::KeyEq;
use vstd::prelude::*;

verus! {

/// An interned name: a dense integer that stands for a symbol or a variable name.
pub type StrId = u32;

/// The interned name of a file.
#[derive(Clone, Copy, Debug, PartialEq, Eq, Hash, Structural)]
pub struct FilePath(pub StrId);

impl View for FilePath {
    type V = FilePath;

    open spec fn view(&self) -> FilePath {
        *self
    }
}

impl KeyEq for FilePath {
    fn key_eq(&self, other: &Self) -> (r: bool) {
        self.0 == other.0
    }

    fn key_copy(&self) -> (r: Self) {
        *self
    }
}

/// The interned empty string: the member part of a symbol that has none.
pub const STR_EMPTY: StrId = 0;

/// A position in a file.
#[derive(Clone, Copy, Debug, PartialEq, Eq, Hash, Structural)]
pub struct HPos {
    pub file_path: FilePath,
    pub start_offset: u32,
    pub end_offset: u32,
    pub start_line: u32,
    pub end_line: u32,
    pub start_column: u16,
    pub end_column: u16,
}

/// A call site that specializes a node: the file and the offset in it.
#[derive(Clone, Copy, Debug, PartialEq, Eq, Hash, Structural)]
pub struct SpecializationKey(pub FilePath, pub u32);

/// A function, a method, or a closure defined at a place.
#[derive(Clone, Copy, Debug, PartialEq, Eq, Hash, Structural)]
pub enum FunctionLikeIdentifier {
    Function(StrId),
    Method(StrId, StrId),
    Closure(FilePath, u32),
}

/// The identity of a node of the data-flow graph.
#[derive(Clone, Debug, PartialEq, Eq, Hash)]
pub enum DataFlowNodeId {
    /// A local variable: function, variable name, start and end offset.
    Var(FunctionLikeIdentifier, StrId, u32, u32),
    /// A parameter: function and parameter index.
    Param(FunctionLikeIdentifier, u32),
    CallTo(FunctionLikeIdentifier),
    SpecializedCallTo(FunctionLikeIdentifier, FilePath, u32),
    Property(StrId, StrId),
    SpecializedProperty(StrId, StrId, FilePath, u32),
    /// A field of a shape named by a type alias.
    ShapeFieldAccess(StrId, String),
    /// A named symbol as a whole, such as a shape type alias.
    Symbol(StrId),
    Synthetic(u64),
}

/// What a node identifier stands for: the identifier with its text as characters.
pub enum NodeKey {
    Var(FunctionLikeIdentifier, StrId, u32, u32),
    Param(FunctionLikeIdentifier, u32),
    CallTo(FunctionLikeIdentifier),
    SpecializedCallTo(FunctionLikeIdentifier, FilePath, u32),
    Property(StrId, StrId),
    SpecializedProperty(StrId, StrId, FilePath, u32),
    ShapeFieldAccess(StrId, Seq<char>),
    Symbol(StrId),
    Synthetic(u64),
}

impl View for DataFlowNodeId {
    type V = NodeKey;

    open spec fn view(&self) -> NodeKey {
        match self {
            DataFlowNodeId::Var(f, n, s, e) => NodeKey::Var(*f, *n, *s, *e),
            DataFlowNodeId::Param(f, i) => NodeKey::Param(*f, *i),
            DataFlowNodeId::CallTo(f) => NodeKey::CallTo(*f),
            DataFlowNodeId::SpecializedCallTo(f, p, o) => NodeKey::SpecializedCallTo(*f, *p, *o),
            DataFlowNodeId::Property(c, m) => NodeKey::Property(*c, *m),
            DataFlowNodeId::SpecializedProperty(c, m, p, o) => NodeKey::SpecializedProperty(
                *c,
                *m,
                *p,
                *o,
            ),
            DataFlowNodeId::ShapeFieldAccess(t, f) => NodeKey::ShapeFieldAccess(*t, f@),
            DataFlowNodeId::Symbol(s) => NodeKey::Symbol(*s),
            DataFlowNodeId::Synthetic(n) => NodeKey::Synthetic(*n),
        }
    }
}

/// The base key of a specialized key and the call site that specialized it.
pub open spec fn unspecialize_key(k: NodeKey) -> Option<(NodeKey, SpecializationKey)> {
    match k {
        NodeKey::SpecializedCallTo(f, p, o) => Some((NodeKey::CallTo(f), SpecializationKey(p, o))),
        NodeKey::SpecializedProperty(c, m, p, o) => Some(
            (NodeKey::Property(c, m), SpecializationKey(p, o)),
        ),
        _ => None,
    }
}

impl DataFlowNodeId {
    /// Strips the call site from a specialized identifier; `None` for any other.
    pub fn unspecialize(&self) -> (r: Option<(DataFlowNodeId, SpecializationKey)>)
        ensures
            match r {
                Some((id, key)) => unspecialize_key(self@) == Some((id@, key)),
                None => unspecialize_key(self@) is None,
            },
    {
        match self {
            DataFlowNodeId::SpecializedCallTo(f, p, o) => Some(
                (DataFlowNodeId::CallTo(*f), SpecializationKey(*p, *o)),
            ),
            DataFlowNodeId::SpecializedProperty(c, m, p, o) => Some(
                (DataFlowNodeId::Property(*c, *m), SpecializationKey(*p, *o)),
            ),
            _ => None,
        }
    }

    /// A local variable or a parameter.
    pub open spec fn is_var_like_key(k: NodeKey) -> bool {
        k is Var || k is Param
    }

    pub fn is_var_like(&self) -> (r: bool)
        ensures
            r == Self::is_var_like_key(self@),
    {
        match self {
            DataFlowNodeId::Var(..) | DataFlowNodeId::Param(..) => true,
            _ => false,
        }
    }

    /// A call, specialized or not.
    pub open spec fn is_call_key(k: NodeKey) -> bool {
        k is CallTo || k is SpecializedCallTo
    }

    pub fn is_call(&self) -> (r: bool)
        ensures
            r == Self::is_call_key(self@),
    {
        match self {
            DataFlowNodeId::CallTo(..) | DataFlowNodeId::SpecializedCallTo(..) => true,
            _ => false,
        }
    }
}

impl KeyEq for DataFlowNodeId {
    fn key_eq(&self, other: &Self) -> (r: bool) {
        match (self, other) {
            (DataFlowNodeId::Var(a, b, c, d), DataFlowNodeId::Var(e, f, g, h)) => *a == *e && *b
                == *f && *c == *g && *d == *h,
            (DataFlowNodeId::Param(a, b), DataFlowNodeId::Param(c, d)) => *a == *c && *b == *d,
            (DataFlowNodeId::CallTo(a), DataFlowNodeId::CallTo(b)) => *a == *b,
            (
                DataFlowNodeId::SpecializedCallTo(a, b, c),
                DataFlowNodeId::SpecializedCallTo(d, e, f),
            ) => *a == *d && *b == *e && *c == *f,
            (DataFlowNodeId::Property(a, b), DataFlowNodeId::Property(c, d)) => *a == *c && *b
                == *d,
            (
                DataFlowNodeId::SpecializedProperty(a, b, c, d),
                DataFlowNodeId::SpecializedProperty(e, f, g, h),
            ) => *a == *e && *b == *f && *c == *g && *d == *h,
            (DataFlowNodeId::ShapeFieldAccess(a, b), DataFlowNodeId::ShapeFieldAccess(c, d)) => *a
                == *c && b.eq(d),
            (DataFlowNodeId::Symbol(a), DataFlowNodeId::Symbol(b)) => *a == *b,
            (DataFlowNodeId::Synthetic(a), DataFlowNodeId::Synthetic(b)) => *a == *b,
            _ => false,
        }
    }

    fn key_copy(&self) -> (r: Self) {
        match self {
            DataFlowNodeId::Var(a, b, c, d) => DataFlowNodeId::Var(*a, *b, *c, *d),
            DataFlowNodeId::Param(a, b) => DataFlowNodeId::Param(*a, *b),
            DataFlowNodeId::CallTo(a) => DataFlowNodeId::CallTo(*a),
            DataFlowNodeId::SpecializedCallTo(a, b, c) => DataFlowNodeId::SpecializedCallTo(
                *a,
                *b,
                *c,
            ),
            DataFlowNodeId::Property(a, b) => DataFlowNodeId::Property(*a, *b),
            DataFlowNodeId::SpecializedProperty(a, b, c, d) => DataFlowNodeId::SpecializedProperty(
                *a,
                *b,
                *c,
                *d,
            ),
            DataFlowNodeId::ShapeFieldAccess(a, b) => DataFlowNodeId::ShapeFieldAccess(
                *a,
                b.clone(),
            ),
            DataFlowNodeId::Symbol(a) => DataFlowNodeId::Symbol(*a),
            DataFlowNodeId::Synthetic(a) => DataFlowNodeId::Synthetic(*a),
        }
    }
}

impl View for SpecializationKey {
    type V = SpecializationKey;

    open spec fn view(&self) -> SpecializationKey {
        *self
    }
}

impl KeyEq for SpecializationKey {
    fn key_eq(&self, other: &Self) -> (r: bool) {
        *self == *other
    }

    fn key_copy(&self) -> (r: Self) {
        *self
    }
}

impl KeyEq for String {
    fn key_eq(&self, other: &Self) -> (r: bool) {
        self.eq(other)
    }

    fn key_copy(&self) -> (r: Self) {
        self.clone()
    }
}

/// How a variable that a use-source stands for was introduced.
#[derive(Clone, Copy, Debug, PartialEq, Eq, Hash, Structural)]
pub enum VariableSourceKind {
    Default,
    PrivateParam,
    NonPrivateParam,
    InoutParam,
    ClosureParam,
}

/// A class of sensitive data that a sink observes.
#[derive(Clone, Copy, Debug, PartialEq, Eq, Hash, Structural)]
pub enum SinkType {
    HtmlTag,
    Sql,
    Shell,
    FileSystem,
    RedirectUri,
    Unserialize,
    Cookie,
    CurlHeader,
    CurlUri,
    HtmlAttribute,
    HtmlAttributeUri,
    Logging,
    Output,
    UserSecret,
    InternalSecret,
    Custom(StrId),
}

/// The role of a node in the graph.
#[derive(Clone, Debug, PartialEq, Eq)]
pub enum DataFlowNodeKind {
    Vertex { pos: Option<HPos>, is_specialized: bool },
    TaintSource { pos: Option<HPos>, types: Vec<SinkType> },
    VariableUseSource { pos: HPos, kind: VariableSourceKind, pure: bool },
    VariableUseSink { pos: HPos },
    TaintSink { pos: Option<HPos>, types: Vec<SinkType> },
    DataSource { pos: Option<HPos> },
    ForLoopInit { pos: HPos },
}

impl DataFlowNodeKind {
    /// Kinds that the graph files under its sources.
    pub open spec fn is_source_kind(&self) -> bool {
        self is TaintSource || self is VariableUseSource || self is DataSource || self is ForLoopInit
    }

    /// Kinds that the graph files under its sinks.
    pub open spec fn is_sink_kind(&self) -> bool {
        self is TaintSink || self is VariableUseSink
    }
}

/// A node of the data-flow graph.
#[derive(Clone, Debug, PartialEq, Eq)]
pub struct DataFlowNode {
    pub id: DataFlowNodeId,
    pub kind: DataFlowNodeKind,
}

impl DataFlowNode {
    /// The node that stands for a named symbol as a whole: a vertex at its definition.
    pub open spec fn get_for_type_spec(name: StrId, pos: HPos) -> DataFlowNode {
        DataFlowNode {
            id: DataFlowNodeId::Symbol(name),
            kind: DataFlowNodeKind::Vertex { pos: Some(pos), is_specialized: false },
        }
    }

    /// The node that stands for a named symbol as a whole: a vertex at its definition.
    pub fn get_for_type(name: StrId, pos: HPos) -> (r: DataFlowNode)
        ensures
            r == Self::get_for_type_spec(name, pos),
    {
        DataFlowNode {
            id: DataFlowNodeId::Symbol(name),
            kind: DataFlowNodeKind::Vertex { pos: Some(pos), is_specialized: false },
        }
    }
}

} // verus!
