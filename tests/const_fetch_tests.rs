use hakana_flow::const_fetch::{const_fetch_type, ConstantInfo, DIR_CONST, FILE_CONST, FUNCTION_CONST};
use hakana_flow::diff::IssueKind;
use hakana_flow::node::{FilePath, HPos};
use hakana_flow::ttype::{TAtomic, TUnion};

fn pos() -> HPos {
    HPos { file_path: FilePath(1), start_offset: 5, end_offset: 13, start_line: 2, end_line: 2, start_column: 1, end_column: 9 }
}

fn info() -> Option<ConstantInfo> {
    Some(ConstantInfo { inferred_type: None, provided_type: None })
}

fn path() -> String {
    "/src/app/main.php".to_string()
}

#[test]
fn unresolved_name_is_an_internal_error() {
    let err = const_fetch_type(None, info(), &"X".to_string(), &path(), pos(), (7, 0)).unwrap_err();
    assert_eq!(err.message, "unable to resolve const name");
    assert_eq!(err.pos, pos());
}

#[test]
fn file_constant_is_the_path() {
    let (t, issue) = const_fetch_type(Some(FILE_CONST), info(), &"__FILE__".to_string(), &path(), pos(), (7, 0)).unwrap();
    assert!(issue.is_none());
    assert_eq!(t.types.len(), 1);
    match &t.types[0] {
        TAtomic::TLiteralString { value } => assert_eq!(value, "/src/app/main.php"),
        other => panic!("unexpected {:?}", other),
    }
}

#[test]
fn dir_constant_is_the_parent_directory() {
    let (t, _) = const_fetch_type(Some(DIR_CONST), info(), &"__DIR__".to_string(), &path(), pos(), (7, 0)).unwrap();
    match &t.types[0] {
        TAtomic::TLiteralString { value } => assert_eq!(value, "/src/app"),
        other => panic!("unexpected {:?}", other),
    }
}

#[test]
fn dir_of_root_is_any_string() {
    let (t, _) = const_fetch_type(Some(DIR_CONST), info(), &"__DIR__".to_string(), &"/".to_string(), pos(), (7, 0)).unwrap();
    assert!(matches!(t.types[0], TAtomic::TString));
}

#[test]
fn function_constant_is_any_string() {
    let (t, _) = const_fetch_type(Some(FUNCTION_CONST), info(), &"__FUNCTION__".to_string(), &path(), pos(), (7, 0)).unwrap();
    assert_eq!(t.types.len(), 1);
    assert!(matches!(t.types[0], TAtomic::TString));
}

#[test]
fn inferred_type_comes_before_provided_type() {
    let c = ConstantInfo {
        inferred_type: Some(TAtomic::TLiteralInt { value: 4 }),
        provided_type: Some(TUnion { types: vec![TAtomic::TInt], parent_nodes: vec![] }),
    };
    let (t, _) = const_fetch_type(Some(40), Some(c), &"LIMIT".to_string(), &path(), pos(), (7, 0)).unwrap();
    assert!(matches!(t.types[0], TAtomic::TLiteralInt { value: 4 }));
    let c = ConstantInfo { inferred_type: None, provided_type: Some(TUnion { types: vec![TAtomic::TInt, TAtomic::TNull], parent_nodes: vec![] }) };
    let (t, _) = const_fetch_type(Some(40), Some(c), &"LIMIT".to_string(), &path(), pos(), (7, 0)).unwrap();
    assert_eq!(t.types.len(), 2);
    let (t, _) = const_fetch_type(Some(40), info(), &"LIMIT".to_string(), &path(), pos(), (7, 0)).unwrap();
    assert!(matches!(t.types[0], TAtomic::TMixedWithFlags(true, false, false, false)));
}

#[test]
fn missing_constant_is_reported() {
    let (t, issue) = const_fetch_type(Some(40), None, &"NOPE".to_string(), &path(), pos(), (7, 0)).unwrap();
    assert!(matches!(t.types[0], TAtomic::TMixedWithFlags(true, false, false, false)));
    let issue = issue.unwrap();
    assert_eq!(issue.kind, IssueKind::NonExistentConstant);
    assert_eq!(issue.description, "Constant NOPE not recognized");
    assert_eq!(issue.pos, pos());
    assert_eq!(issue.symbol, (7, 0));
}
