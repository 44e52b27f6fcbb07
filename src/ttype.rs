//! Types as the analyzer sees them: unions of atomic types, each union
//! carrying the graph nodes its value flowed from.
use crate::node::{DataFlowNode, FilePath, FunctionLikeIdentifier, StrId};
use vstd::prelude::*;

verus! {

/// A key of a shape.
#[derive(Clone, Debug, PartialEq, Eq)]
pub enum DictKey {
    Int(u64),
    String(String),
    Enum(StrId, StrId),
}

/// A known field of a shape: its key, whether it may be missing, and its type.
#[derive(Debug)]
pub struct DictItem {
    pub key: DictKey,
    pub possibly_undefined: bool,
    pub item_type: TUnion,
}

/// A dict: a shape when its fields are known.
#[derive(Debug)]
pub struct TDict {
    pub known_items: Option<Vec<DictItem>>,
    pub params: Option<(Box<TUnion>, Box<TUnion>)>,
    pub non_empty: bool,
    /// The alias, or the class and type constant, that named this shape.
    pub shape_name: Option<(StrId, Option<StrId>)>,
}

/// A parameter of a closure type.
#[derive(Debug)]
pub struct FnParameter {
    pub signature_type: Option<Box<TUnion>>,
    pub is_inout: bool,
    pub is_variadic: bool,
    pub is_optional: bool,
}

/// A closure type.
#[derive(Debug)]
pub struct TClosure {
    pub params: Vec<FnParameter>,
    pub return_type: Option<TUnion>,
    pub effects: Option<u8>,
    /// Where the closure is defined: file and offset.
    pub closure_file: FilePath,
    pub closure_offset: u32,
}

/// A single type constructor.
#[derive(Debug)]
pub enum TAtomic {
    TDict(TDict),
    TVec { known_items: Option<Vec<(u64, bool, TUnion)>>, type_param: Box<TUnion>, non_empty: bool },
    TKeyset { type_param: Box<TUnion> },
    TAwaitable { value: Box<TUnion> },
    TNamedObject { name: StrId, type_params: Option<Vec<TUnion>>, is_this: bool },
    TClosure(Box<TClosure>),
    TGenericParam { param_name: StrId, as_type: Box<TUnion>, defining_entity: StrId },
    TClassname { as_type: Box<TAtomic> },
    TTypename { as_type: Box<TAtomic> },
    TEnumLiteralCase { enum_name: StrId, member_name: StrId, as_type: Option<Box<TAtomic>> },
    TEnum { name: StrId, as_type: Option<Box<TAtomic>> },
    TMemberReference { classlike_name: StrId, member_name: StrId },
    TTypeAlias { name: StrId, type_params: Option<Vec<TUnion>>, as_type: Option<Box<TUnion>> },
    TClassTypeConstant { class_type: Box<TAtomic>, member_name: StrId, as_type: Box<TUnion> },
    TClosureAlias { id: FunctionLikeIdentifier },
    TMixed,
    /// Mixed with its flags: definite, truthy, falsy, non-null.
    TMixedWithFlags(bool, bool, bool, bool),
    TString,
    /// A string with its flags: truthy, non-empty, literal-only.
    TStringWithFlags(bool, bool, bool),
    TLiteralString { value: String },
    TInt,
    TLiteralInt { value: i64 },
    TBool,
    TNull,
    TNothing,
}

/// A union of atomic types and the nodes its value flowed from.
#[derive(Debug)]
pub struct TUnion {
    pub types: Vec<TAtomic>,
    pub parent_nodes: Vec<DataFlowNode>,
}

} // verus!
