//! The type of a global constant read: the special constants that name the
//! file, its directory and the function, declared constants, and constants
//! that do not exist.
use crate::diff::{Issue, IssueKind};
use crate::node::{HPos, StrId};
use crate::ttype::{TAtomic, TUnion};
use vstd::prelude::*;
use vstd::string::StringExecFns;

verus! {

/// The interned name of `__FILE__`.
pub const FILE_CONST: StrId = 1;

/// The interned name of `__DIR__`.
pub const DIR_CONST: StrId = 2;

/// The interned name of `__FUNCTION__`.
pub const FUNCTION_CONST: StrId = 3;

/// What the code base knows of a constant: the type inferred from its value
/// and the type it was declared with.
#[derive(Debug)]
pub struct ConstantInfo {
    pub inferred_type: Option<TAtomic>,
    pub provided_type: Option<TUnion>,
}

/// A failure that stops the analysis of the current file.
#[derive(Debug)]
pub struct InternalError {
    pub message: String,
    pub pos: HPos,
}

/// The directory part of a path, as `Path::parent` gives it.
pub uninterp spec fn parent_dir(p: Seq<char>) -> Option<Seq<char>>;

/// Relies on `std::path::Path::parent`: the path without its last component,
/// if it has one; a path made from a string stays valid text.
#[verifier::external_body]
fn parent_dir_text(path: &String) -> (r: Option<String>)
    ensures
        match r {
            Some(d) => parent_dir(path@) == Some(d@),
            None => parent_dir(path@) is None,
        },
{
    match std::path::Path::new(path.as_str()).parent() {
        Some(d) => Some(d.to_string_lossy().into_owned()),
        None => None,
    }
}

/// Mixed, of any value.
pub open spec fn mixed_any() -> TAtomic {
    TAtomic::TMixedWithFlags(true, false, false, false)
}

/// The type of a constant that exists: the file's path for `__FILE__`, its
/// directory (or any string) for `__DIR__`, any string for `__FUNCTION__`;
/// otherwise the inferred type, then the declared type, then mixed.
pub open spec fn constant_type_is(t: TUnion, name: StrId, c: ConstantInfo, file_path: String) -> bool {
    if name == FILE_CONST {
        t.types@ == seq![TAtomic::TLiteralString { value: file_path }] && t.parent_nodes@.len() == 0
    } else if name == DIR_CONST {
        t.parent_nodes@.len() == 0 && t.types@.len() == 1 && match parent_dir(file_path@) {
            Some(d) => t.types@[0] matches TAtomic::TLiteralString { value } && value@ == d,
            None => t.types@[0] is TString,
        }
    } else if name == FUNCTION_CONST {
        t.types@ == seq![TAtomic::TString] && t.parent_nodes@.len() == 0
    } else if c.inferred_type is Some {
        t.types@ == seq![c.inferred_type->0] && t.parent_nodes@.len() == 0
    } else if c.provided_type is Some {
        t == c.provided_type->0
    } else {
        t.types@ == seq![mixed_any()] && t.parent_nodes@.len() == 0
    }
}

fn one_type(t: TAtomic) -> (r: TUnion)
    ensures
        r.types@ == seq![t],
        r.parent_nodes@.len() == 0,
{
    let mut types: Vec<TAtomic> = Vec::new();
    types.push(t);
    assert(types@ =~= seq![t]);
    TUnion { types, parent_nodes: Vec::new() }
}

/// The type of reading the global constant `resolved` at `pos`, before
/// expansion. `constant` is what the code base holds for it, `constant_name`
/// its text, `file_path` the path of the file being analysed and `symbol` the
/// function the read stands in. An unresolved name is an internal error; a
/// constant the code base does not hold is mixed, with a
/// `NonExistentConstant` issue.
pub fn const_fetch_type(
    resolved: Option<StrId>,
    constant: Option<ConstantInfo>,
    constant_name: &String,
    file_path: &String,
    pos: HPos,
    symbol: (StrId, StrId),
) -> (r: Result<(TUnion, Option<Issue>), InternalError>)
    ensures
        r is Err <==> resolved is None,
        r is Err ==> r->Err_0.message@ == "unable to resolve const name"@ && r->Err_0.pos == pos,
        r is Ok ==> ({
            let (t, issue) = r->Ok_0;
            match constant {
                Some(c) => issue is None && constant_type_is(t, resolved->0, c, *file_path),
                None => {
                    &&& t.types@ == seq![mixed_any()]
                    &&& t.parent_nodes@.len() == 0
                    &&& issue is Some
                    &&& issue->0.kind == IssueKind::NonExistentConstant
                    &&& issue->0.pos == pos
                    &&& issue->0.symbol == symbol
                    &&& issue->0.description@ == "Constant "@ + constant_name@ + " not recognized"@
                },
            }
        }),
{
    let name = match resolved {
        Some(n) => n,
        None => {
            let message = String::from_str("unable to resolve const name");
            return Err(InternalError { message, pos });
        },
    };
    match constant {
        Some(c) => {
            let t = if name == FILE_CONST {
                one_type(TAtomic::TLiteralString { value: file_path.clone() })
            } else if name == DIR_CONST {
                match parent_dir_text(file_path) {
                    Some(dir) => one_type(TAtomic::TLiteralString { value: dir }),
                    None => one_type(TAtomic::TString),
                }
            } else if name == FUNCTION_CONST {
                one_type(TAtomic::TString)
            } else {
                let ConstantInfo { inferred_type, provided_type } = c;
                match inferred_type {
                    Some(t) => one_type(t),
                    None => match provided_type {
                        Some(t) => t,
                        None => one_type(TAtomic::TMixedWithFlags(true, false, false, false)),
                    },
                }
            };
            Ok((t, None))
        },
        None => {
            let mut description = String::from_str("Constant ");
            description.append(constant_name.as_str());
            description.append(" not recognized");
            let issue = Issue { kind: IssueKind::NonExistentConstant, description, pos, symbol };
            Ok((one_type(TAtomic::TMixedWithFlags(true, false, false, false)), Some(issue)))
        },
    }
}

} // verus!
