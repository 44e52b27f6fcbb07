use hakana_flow::autofix::{
    add_unused_expression_replacements, Comment, Expr, ExprKind, FunctionAnalysisData, Pos,
    Replacement, Stmt, StmtKind,
};
use hakana_flow::node::{DataFlowNode, DataFlowNodeId, DataFlowNodeKind, FilePath, FunctionLikeIdentifier, HPos, VariableSourceKind};

fn p(start: u32, end: u32, line: u32, beg: u32) -> Pos {
    Pos { start_offset: start, end_offset: end, line, beg_of_line: beg }
}

fn leaf(start: u32, end: u32, line: u32, beg: u32) -> Expr {
    Expr { pos: p(start, end, line, beg), kind: ExprKind::Other(vec![]) }
}

fn assign(stmt: Pos, lhs: Expr, rhs: Expr) -> Stmt {
    Stmt {
        pos: stmt,
        kind: StmtKind::Expr(Expr {
            pos: stmt,
            kind: ExprKind::Assign(Box::new(lhs), Box::new(rhs)),
        }),
    }
}

fn unused_at(start: u32) -> DataFlowNode {
    DataFlowNode {
        id: DataFlowNodeId::Var(FunctionLikeIdentifier::Function(1), 2, start, start + 2),
        kind: DataFlowNodeKind::VariableUseSource {
            pos: HPos {
                file_path: FilePath(1),
                start_offset: start,
                end_offset: start + 2,
                start_line: 1,
                end_line: 1,
                start_column: 0,
                end_column: 0,
            },
            kind: VariableSourceKind::Default,
            pure: true,
        },
    }
}

fn data(effects: Vec<((u32, u32), u8)>) -> FunctionAnalysisData {
    FunctionAnalysisData { expr_effects: effects, replacements: vec![] }
}

/// `let x = 1; let y = 2; return y;`: the whole first statement goes.
#[test]
fn pure_assignment_is_removed_whole() {
    let stmts = vec![
        assign(p(0, 10, 1, 0), leaf(4, 5, 1, 0), leaf(8, 9, 1, 0)),
        assign(p(11, 21, 1, 0), leaf(15, 16, 1, 0), leaf(19, 20, 1, 0)),
        Stmt { pos: p(22, 31, 1, 0), kind: StmtKind::Other },
    ];
    let mut d = data(vec![]);
    add_unused_expression_replacements(&stmts, &mut d, &vec![unused_at(0)], &vec![]);
    assert_eq!(d.replacements.len(), 1);
    assert_eq!(d.replacements[0].0, (0, 10));
    assert!(matches!(d.replacements[0].1, Replacement::TrimPrecedingWhitespace(0)));
}

/// `let x = foo();` where `foo` has effects: only `let x = ` goes.
#[test]
fn impure_value_is_kept() {
    let stmts = vec![assign(p(0, 14, 1, 0), leaf(4, 5, 1, 0), leaf(8, 13, 1, 0))];
    let mut d = data(vec![((8, 13), 4)]);
    add_unused_expression_replacements(&stmts, &mut d, &vec![unused_at(0)], &vec![]);
    assert_eq!(d.replacements.len(), 1);
    assert_eq!(d.replacements[0].0, (0, 8));
    assert!(matches!(d.replacements[0].1, Replacement::Remove));
}

#[test]
fn reads_of_props_and_globals_count_as_pure() {
    let stmts = vec![assign(p(0, 14, 1, 0), leaf(4, 5, 1, 0), leaf(8, 13, 1, 0))];
    let mut d = data(vec![((8, 13), 3)]);
    add_unused_expression_replacements(&stmts, &mut d, &vec![unused_at(0)], &vec![]);
    assert_eq!(d.replacements.len(), 1);
    assert!(matches!(d.replacements[0].1, Replacement::TrimPrecedingWhitespace(0)));
}

/// `$x = foo()[0];`: the target and the pure trailing index go.
#[test]
fn trailing_pure_index_is_removed() {
    let rhs = Expr {
        pos: p(5, 13, 1, 0),
        kind: ExprKind::ArrayGet(Box::new(leaf(5, 10, 1, 0)), Some(Box::new(leaf(11, 12, 1, 0)))),
    };
    let stmts = vec![assign(p(0, 14, 1, 0), leaf(0, 2, 1, 0), rhs)];
    let mut d = data(vec![((5, 13), 4)]);
    add_unused_expression_replacements(&stmts, &mut d, &vec![unused_at(0)], &vec![]);
    assert_eq!(d.replacements.len(), 2);
    assert_eq!(d.replacements[0].0, (0, 5));
    assert_eq!(d.replacements[1].0, (10, 13));
    assert!(matches!(d.replacements[1].1, Replacement::Remove));
}

/// `list($a, $b) = pair();` with `$a` unused: `$a` becomes `$_`.
#[test]
fn unused_list_item_becomes_discard() {
    let list = Expr {
        pos: p(0, 12, 1, 0),
        kind: ExprKind::List(vec![leaf(5, 7, 1, 0), leaf(9, 11, 1, 0)]),
    };
    let stmts = vec![assign(p(0, 22, 1, 0), list, leaf(15, 21, 1, 0))];
    let mut d = data(vec![((15, 21), 4)]);
    add_unused_expression_replacements(&stmts, &mut d, &vec![unused_at(5)], &vec![]);
    assert_eq!(d.replacements.len(), 1);
    assert_eq!(d.replacements[0].0, (5, 7));
    match &d.replacements[0].1 {
        Replacement::Substitute(s) => assert_eq!(s, "$_"),
        _ => panic!("expected a substitution"),
    }
}

/// `if (cond) { $x = 1; }`: the only statement of a branch is not removed.
#[test]
fn sole_statement_of_branch_is_kept() {
    let inner = assign(p(12, 19, 1, 0), leaf(12, 14, 1, 0), leaf(17, 18, 1, 0));
    let stmts = vec![Stmt {
        pos: p(0, 21, 1, 0),
        kind: StmtKind::If(leaf(4, 8, 1, 0), vec![inner], vec![]),
    }];
    let mut d = data(vec![]);
    add_unused_expression_replacements(&stmts, &mut d, &vec![unused_at(12)], &vec![]);
    assert!(d.replacements.is_empty());
}

#[test]
fn statement_after_branch_is_removed() {
    let inner = assign(p(12, 19, 1, 0), leaf(12, 14, 1, 0), leaf(17, 18, 1, 0));
    let after = assign(p(22, 29, 2, 22), leaf(22, 24, 2, 22), leaf(27, 28, 2, 22));
    let stmts = vec![
        Stmt { pos: p(0, 21, 1, 0), kind: StmtKind::If(leaf(4, 8, 1, 0), vec![inner], vec![]) },
        after,
    ];
    let mut d = data(vec![]);
    add_unused_expression_replacements(&stmts, &mut d, &vec![unused_at(12), unused_at(22)], &vec![]);
    assert_eq!(d.replacements.len(), 1);
    assert_eq!(d.replacements[0].0, (22, 29));
}

/// A suppression on the line before goes with the statement.
#[test]
fn suppression_comment_is_removed_with_statement() {
    let comments = vec![(
        p(0, 36, 1, 0),
        Comment::CmtBlock(" HAKANA_FIXME[UnusedAssignment] ".to_string()),
    )];
    let stmts = vec![assign(p(41, 48, 2, 37), leaf(41, 43, 2, 37), leaf(46, 47, 2, 37))];
    let mut d = data(vec![]);
    add_unused_expression_replacements(&stmts, &mut d, &vec![unused_at(41)], &comments);
    assert_eq!(d.replacements.len(), 2);
    assert_eq!(d.replacements[0].0, (41, 48));
    assert!(matches!(d.replacements[0].1, Replacement::TrimPrecedingWhitespace(37)));
    assert_eq!(d.replacements[1].0, (0, 36));
    assert!(matches!(d.replacements[1].1, Replacement::TrimPrecedingWhitespace(0)));
}

#[test]
fn same_line_suppression_is_removed_with_statement() {
    let comments = vec![
        (p(10, 20, 1, 0), Comment::CmtLine("unrelated".to_string())),
        (p(30, 62, 2, 22), Comment::CmtBlock("HHAST_FIXME[UnusedVariable]  ".to_string())),
    ];
    let stmts = vec![assign(p(22, 29, 2, 22), leaf(22, 24, 2, 22), leaf(27, 28, 2, 22))];
    let mut d = data(vec![]);
    add_unused_expression_replacements(&stmts, &mut d, &vec![unused_at(22)], &comments);
    assert_eq!(d.replacements.len(), 2);
    assert_eq!(d.replacements[1].0, (30, 22));
    assert!(matches!(d.replacements[1].1, Replacement::TrimPrecedingWhitespace(22)));
}

#[test]
fn other_comments_are_left() {
    let comments = vec![(p(0, 20, 1, 0), Comment::CmtBlock(" HAKANA_FIXME[Other] ".to_string()))];
    let stmts = vec![assign(p(41, 48, 2, 37), leaf(41, 43, 2, 37), leaf(46, 47, 2, 37))];
    let mut d = data(vec![]);
    add_unused_expression_replacements(&stmts, &mut d, &vec![unused_at(41)], &comments);
    assert_eq!(d.replacements.len(), 1);
}

/// An `if` nested as the only statement of a branch leaves the flag as it
/// found it for its own branches' handling; statements after a multi-statement
/// branch's `if` are removable.
#[test]
fn flag_reverts_after_nested_if() {
    let inner_if = Stmt {
        pos: p(12, 40, 1, 0),
        kind: StmtKind::If(
            leaf(16, 17, 1, 0),
            vec![assign(p(20, 27, 1, 0), leaf(20, 22, 1, 0), leaf(25, 26, 1, 0))],
            vec![],
        ),
    };
    let after = assign(p(41, 48, 2, 41), leaf(41, 43, 2, 41), leaf(46, 47, 2, 41));
    let stmts = vec![Stmt {
        pos: p(0, 60, 1, 0),
        kind: StmtKind::If(leaf(4, 8, 1, 0), vec![inner_if, after], vec![]),
    }];
    let mut d = data(vec![]);
    add_unused_expression_replacements(&stmts, &mut d, &vec![unused_at(20), unused_at(41)], &vec![]);
    assert_eq!(d.replacements.len(), 1);
    assert_eq!(d.replacements[0].0, (41, 48));
}
