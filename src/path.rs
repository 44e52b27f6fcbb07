//! Edge labels of the data-flow graph and the rules that match fetches
//! against earlier assignments along a path.
use crate::keyed::KeyEq;
use crate::node::{SinkType, StrId};
use vstd::prelude::*;

verus! {

/// Whether an array operation reaches keys or values.
#[derive(Clone, Copy, Debug, PartialEq, Eq, Hash, Structural)]
pub enum ArrayDataKind {
    ArrayKey,
    ArrayValue,
}

/// The label of an edge.
#[derive(Clone, Debug, PartialEq, Eq, Hash)]
pub enum PathKind {
    Default,
    ArrayAssignment(ArrayDataKind, String),
    ArrayFetch(ArrayDataKind, String),
    PropertyAssignment(StrId),
    PropertyFetch(StrId),
    Aggregate,
    RemoveDictKey,
    ScalarTypeGuard,
    Coalesce,
    Awaited,
    Refine,
}

/// What an edge label stands for: the label with its text as characters.
pub enum PathKey {
    Default,
    ArrayAssignment(ArrayDataKind, Seq<char>),
    ArrayFetch(ArrayDataKind, Seq<char>),
    PropertyAssignment(StrId),
    PropertyFetch(StrId),
    Aggregate,
    RemoveDictKey,
    ScalarTypeGuard,
    Coalesce,
    Awaited,
    Refine,
}

impl View for PathKind {
    type V = PathKey;

    open spec fn view(&self) -> PathKey {
        match self {
            PathKind::Default => PathKey::Default,
            PathKind::ArrayAssignment(k, s) => PathKey::ArrayAssignment(*k, s@),
            PathKind::ArrayFetch(k, s) => PathKey::ArrayFetch(*k, s@),
            PathKind::PropertyAssignment(f) => PathKey::PropertyAssignment(*f),
            PathKind::PropertyFetch(f) => PathKey::PropertyFetch(*f),
            PathKind::Aggregate => PathKey::Aggregate,
            PathKind::RemoveDictKey => PathKey::RemoveDictKey,
            PathKind::ScalarTypeGuard => PathKey::ScalarTypeGuard,
            PathKind::Coalesce => PathKey::Coalesce,
            PathKind::Awaited => PathKey::Awaited,
            PathKind::Refine => PathKey::Refine,
        }
    }
}

impl KeyEq for PathKind {
    fn key_eq(&self, other: &Self) -> (r: bool) {
        match (self, other) {
            (PathKind::Default, PathKind::Default) => true,
            (PathKind::ArrayAssignment(a, b), PathKind::ArrayAssignment(c, d)) => *a == *c && b.eq(
                d,
            ),
            (PathKind::ArrayFetch(a, b), PathKind::ArrayFetch(c, d)) => *a == *c && b.eq(d),
            (PathKind::PropertyAssignment(a), PathKind::PropertyAssignment(b)) => *a == *b,
            (PathKind::PropertyFetch(a), PathKind::PropertyFetch(b)) => *a == *b,
            (PathKind::Aggregate, PathKind::Aggregate) => true,
            (PathKind::RemoveDictKey, PathKind::RemoveDictKey) => true,
            (PathKind::ScalarTypeGuard, PathKind::ScalarTypeGuard) => true,
            (PathKind::Coalesce, PathKind::Coalesce) => true,
            (PathKind::Awaited, PathKind::Awaited) => true,
            (PathKind::Refine, PathKind::Refine) => true,
            _ => false,
        }
    }

    fn key_copy(&self) -> (r: Self) {
        match self {
            PathKind::Default => PathKind::Default,
            PathKind::ArrayAssignment(k, s) => PathKind::ArrayAssignment(*k, s.clone()),
            PathKind::ArrayFetch(k, s) => PathKind::ArrayFetch(*k, s.clone()),
            PathKind::PropertyAssignment(f) => PathKind::PropertyAssignment(*f),
            PathKind::PropertyFetch(f) => PathKind::PropertyFetch(*f),
            PathKind::Aggregate => PathKind::Aggregate,
            PathKind::RemoveDictKey => PathKind::RemoveDictKey,
            PathKind::ScalarTypeGuard => PathKind::ScalarTypeGuard,
            PathKind::Coalesce => PathKind::Coalesce,
            PathKind::Awaited => PathKind::Awaited,
            PathKind::Refine => PathKind::Refine,
        }
    }
}

/// An edge: its label and the taints it adds and removes.
#[derive(Clone, Debug, PartialEq, Eq)]
pub struct DataFlowPath {
    pub kind: PathKind,
    pub added_taints: Vec<SinkType>,
    pub removed_taints: Vec<SinkType>,
}

/// Walking `prev` from its end, with `nesting` fetches of kind `k` still to be
/// matched: whether the first unmatched assignment of kind `k` stores under a
/// key other than `key`. Every fetch of kind `k` met on the way must first be
/// matched by an assignment of that kind.
pub open spec fn array_fetch_mismatch(
    key: Seq<char>,
    k: ArrayDataKind,
    prev: Seq<PathKey>,
    nesting: nat,
) -> bool
    decreases prev.len(),
{
    if prev.len() == 0 {
        false
    } else {
        let rest = prev.drop_last();
        match prev.last() {
            PathKey::ArrayAssignment(pk, pv) => {
                if pk != k {
                    array_fetch_mismatch(key, k, rest, nesting)
                } else if nesting == 0 {
                    pv != key
                } else {
                    array_fetch_mismatch(key, k, rest, (nesting - 1) as nat)
                }
            },
            PathKey::ArrayFetch(pk, _) => {
                if pk == k {
                    array_fetch_mismatch(key, k, rest, nesting + 1)
                } else {
                    array_fetch_mismatch(key, k, rest, nesting)
                }
            },
            _ => array_fetch_mismatch(key, k, rest, nesting),
        }
    }
}

/// A fetch of kind `k` is ignored along a path whose matching assignment of
/// kind `k` stored under another key.
pub open spec fn ignores_array_fetch(path: PathKey, k: ArrayDataKind, prev: Seq<PathKey>) -> bool {
    match path {
        PathKey::ArrayFetch(fk, key) => fk == k && array_fetch_mismatch(key, k, prev, 0),
        _ => false,
    }
}

/// The last property assignment on `prev`, if any.
pub open spec fn last_property_assignment(prev: Seq<PathKey>) -> Option<StrId>
    decreases prev.len(),
{
    if prev.len() == 0 {
        None
    } else {
        match prev.last() {
            PathKey::PropertyAssignment(f) => Some(f),
            _ => last_property_assignment(prev.drop_last()),
        }
    }
}

/// A property fetch is ignored along a path whose last property assignment
/// stored another field.
pub open spec fn ignores_property_fetch(path: PathKey, prev: Seq<PathKey>) -> bool {
    match path {
        PathKey::PropertyFetch(f) => match last_property_assignment(prev) {
            Some(g) => g != f,
            None => false,
        },
        _ => false,
    }
}

/// The views of a sequence of labels.
pub open spec fn path_keys(s: Seq<PathKind>) -> Seq<PathKey> {
    s.map_values(|p: PathKind| p@)
}

pub fn should_ignore_array_fetch(
    path_type: &PathKind,
    match_type: ArrayDataKind,
    previous_path_types: &Vec<PathKind>,
) -> (r: bool)
    ensures
        r == ignores_array_fetch(path_type@, match_type, path_keys(previous_path_types@)),
{
    let key = match path_type {
        PathKind::ArrayFetch(fk, key) => {
            if *fk != match_type {
                return false;
            }
            key
        },
        _ => {
            return false;
        },
    };
    let ghost all = path_keys(previous_path_types@);
    let n = previous_path_types.len();
    let mut i = n;
    let mut nesting: usize = 0;
    assert(all.take(i as int) =~= all);
    while i > 0
        invariant
            i <= previous_path_types@.len(),
            nesting <= previous_path_types@.len() - i,
            n == previous_path_types@.len(),
            path_type@ == PathKey::ArrayFetch(match_type, key@),
            all == path_keys(previous_path_types@),
            array_fetch_mismatch(key@, match_type, all, 0) == array_fetch_mismatch(
                key@,
                match_type,
                all.take(i as int),
                nesting as nat,
            ),
        decreases i,
    {
        let ghost pre = all.take(i as int);
        assert(pre.drop_last() =~= all.take(i - 1));
        assert(pre.last() == previous_path_types@[i - 1]@);
        match &previous_path_types[i - 1] {
            PathKind::ArrayAssignment(pk, pv) => {
                if *pk == match_type {
                    if nesting == 0 {
                        assert(array_fetch_mismatch(key@, match_type, pre, 0) == (pv@ != key@));
                        return !pv.eq(key);
                    }
                    nesting = nesting - 1;
                }
            },
            PathKind::ArrayFetch(pk, _) => {
                if *pk == match_type {
                    assert(nesting + 1 <= previous_path_types@.len());
                    nesting = nesting + 1;
                }
            },
            _ => {},
        }
        i = i - 1;
    }
    false
}

pub fn should_ignore_property_fetch(path_type: &PathKind, previous_path_types: &Vec<PathKind>) -> (r:
    bool)
    ensures
        r == ignores_property_fetch(path_type@, path_keys(previous_path_types@)),
{
    let field = match path_type {
        PathKind::PropertyFetch(f) => *f,
        _ => {
            return false;
        },
    };
    let ghost all = path_keys(previous_path_types@);
    let mut i = previous_path_types.len();
    assert(all.take(i as int) =~= all);
    while i > 0
        invariant
            i <= previous_path_types@.len(),
            all == path_keys(previous_path_types@),
            path_type@ == PathKey::PropertyFetch(field),
            last_property_assignment(all) == last_property_assignment(all.take(i as int)),
        decreases i,
    {
        let ghost pre = all.take(i as int);
        assert(pre.drop_last() =~= all.take(i - 1));
        assert(pre.last() == previous_path_types@[i - 1]@);
        if let PathKind::PropertyAssignment(g) = &previous_path_types[i - 1] {
            assert(last_property_assignment(pre) == Some(*g));
            return *g != field;
        }
        i = i - 1;
    }
    assert(all.take(0) =~= Seq::<PathKey>::empty());
    false
}

} // verus!
