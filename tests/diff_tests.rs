use hakana_flow::diff::{
    mark_safe_symbols_from_diff, update_issues_from_diff, CodebaseDiff, DeletionRange, DiffShift,
    Issue, IssueKind, SymbolReferences,
};
use hakana_flow::node::{FilePath, HPos, STR_EMPTY};

fn issue(start: u32, line: u32, symbol: (u32, u32)) -> Issue {
    Issue {
        kind: IssueKind::UnusedVariable,
        description: "unused".to_string(),
        pos: HPos {
            file_path: FilePath(1),
            start_offset: start,
            end_offset: start + 4,
            start_line: line,
            end_line: line,
            start_column: 0,
            end_column: 4,
        },
        symbol,
    }
}

fn empty_diff() -> CodebaseDiff {
    CodebaseDiff { keep: vec![], diff_map: vec![], deletion_ranges_map: vec![] }
}

/// An issue at offset 100 moves to 105 and one line down.
#[test]
fn issue_is_shifted() {
    let mut diff = empty_diff();
    diff.diff_map.push((
        FilePath(1),
        vec![DiffShift { from: 90, to: 110, file_offset: 5, line_offset: 1 }],
    ));
    let mut issues = vec![(FilePath(1), vec![issue(100, 7, (20, STR_EMPTY))])];
    update_issues_from_diff(&mut issues, &diff, &vec![]);
    let i = &issues[0].1[0];
    assert_eq!(i.pos.start_offset, 105);
    assert_eq!(i.pos.end_offset, 109);
    assert_eq!(i.pos.start_line, 8);
    assert_eq!(i.pos.end_line, 8);
}

#[test]
fn issue_outside_shifts_stays() {
    let mut diff = empty_diff();
    diff.diff_map.push((
        FilePath(1),
        vec![DiffShift { from: 90, to: 110, file_offset: -5, line_offset: -1 }],
    ));
    let mut issues = vec![(FilePath(1), vec![issue(120, 7, (20, STR_EMPTY)), issue(95, 3, (20, STR_EMPTY))])];
    update_issues_from_diff(&mut issues, &diff, &vec![]);
    assert_eq!(issues[0].1[0].pos.start_offset, 120);
    assert_eq!(issues[0].1[1].pos.start_offset, 90);
    assert_eq!(issues[0].1[1].pos.start_line, 2);
}

#[test]
fn deleted_issue_goes_before_any_shift() {
    let mut diff = empty_diff();
    diff.deletion_ranges_map.push((FilePath(1), vec![DeletionRange { from: 50, to: 60 }]));
    diff.diff_map.push((
        FilePath(1),
        vec![DiffShift { from: 0, to: 200, file_offset: 5, line_offset: 0 }],
    ));
    let mut issues = vec![(FilePath(1), vec![issue(50, 1, (20, STR_EMPTY)), issue(60, 1, (20, STR_EMPTY)), issue(61, 1, (20, STR_EMPTY))])];
    update_issues_from_diff(&mut issues, &diff, &vec![]);
    assert_eq!(issues[0].1.len(), 1);
    assert_eq!(issues[0].1[0].pos.start_offset, 66);
}

#[test]
fn invalid_symbol_issue_is_dropped() {
    let diff = empty_diff();
    let mut issues = vec![(FilePath(1), vec![issue(10, 1, (20, STR_EMPTY)), issue(30, 2, (21, 5))])];
    update_issues_from_diff(&mut issues, &diff, &vec![(21, 5)]);
    assert_eq!(issues[0].1.len(), 1);
    assert_eq!(issues[0].1[0].symbol, (20, STR_EMPTY));
}

#[test]
fn issue_whose_symbol_is_its_file_is_dropped() {
    let diff = empty_diff();
    let mut issues = vec![(FilePath(1), vec![issue(10, 1, (1, STR_EMPTY))])];
    update_issues_from_diff(&mut issues, &diff, &vec![]);
    assert!(issues[0].1.is_empty());
}

/// A kept symbol that stayed valid is safe.
#[test]
fn kept_symbol_is_safe() {
    let foo = 42;
    let mut diff = empty_diff();
    diff.keep.push((foo, STR_EMPTY));
    diff.keep.push((43, 7));
    diff.keep.push((44, STR_EMPTY));
    let mut files = vec![];
    let r = mark_safe_symbols_from_diff(
        diff,
        &vec![],
        &vec![],
        &mut files,
        Some((SymbolReferences::new(), vec![])),
        Some((vec![(99, STR_EMPTY)], vec![44])),
    );
    assert_eq!(r.safe_symbols, vec![foo]);
    assert_eq!(r.safe_symbol_members, vec![(43, 7)]);
}

#[test]
fn nothing_is_reused_without_invalid_symbols() {
    let mut diff = empty_diff();
    diff.keep.push((42, STR_EMPTY));
    let mut files = vec![FilePath(3)];
    let r = mark_safe_symbols_from_diff(
        diff,
        &vec![],
        &vec![],
        &mut files,
        Some((SymbolReferences::new(), vec![])),
        None,
    );
    assert!(r.safe_symbols.is_empty());
    assert_eq!(files, vec![FilePath(3)]);
    let r = mark_safe_symbols_from_diff(empty_diff(), &vec![], &vec![], &mut files, None, Some((vec![], vec![])));
    assert!(r.existing_issues.is_empty());
}

#[test]
fn only_invalid_files_are_analysed_again() {
    let mut files = vec![FilePath(1), FilePath(2), FilePath(3), FilePath(4)];
    let declarations = vec![(FilePath(1), vec![10, 11]), (FilePath(2), vec![12]), (FilePath(3), vec![13])];
    let mut refs = SymbolReferences::new();
    refs.references.push(((10, STR_EMPTY), vec![(12, STR_EMPTY)]));
    refs.references.push(((12, STR_EMPTY), vec![(13, STR_EMPTY)]));
    let r = mark_safe_symbols_from_diff(
        empty_diff(),
        &declarations,
        &vec![FilePath(4)],
        &mut files,
        Some((refs, vec![(FilePath(2), vec![issue(5, 1, (10, STR_EMPTY)), issue(9, 1, (12, STR_EMPTY))])])),
        Some((vec![(11, STR_EMPTY), (10, STR_EMPTY)], vec![13])),
    );
    assert_eq!(files, vec![FilePath(1), FilePath(3), FilePath(4)]);
    assert_eq!(r.symbol_references.references.len(), 1);
    assert_eq!(r.symbol_references.references[0].0, (12, STR_EMPTY));
    assert_eq!(r.existing_issues[0].1.len(), 1);
    assert_eq!(r.existing_issues[0].1[0].symbol, (12, STR_EMPTY));
}
