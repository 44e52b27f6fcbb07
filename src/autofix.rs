//! Autofixes for unused variables: byte-range replacements computed from the
//! statements of a function body and the unused variable-use sources.
use crate::keyed::{entries_map, find_entry, keys_unique, lemma_entries_map_at, lemma_entries_map_contains, KeyEq};
use crate::node::{DataFlowNode, DataFlowNodeKind};
use vstd::prelude::*;

verus! {

/// A span of source text, with the line it starts on and the offset at
/// which that line begins.
#[derive(Clone, Copy, Debug, PartialEq, Eq, Structural)]
pub struct Pos {
    pub start_offset: u32,
    pub end_offset: u32,
    pub line: u32,
    pub beg_of_line: u32,
}

/// An expression, as far as autofixes look into it.
#[derive(Debug)]
pub enum ExprKind {
    /// A destructuring list: `list($a, $b)`.
    List(Vec<Expr>),
    /// An assignment: target and value.
    Assign(Box<Expr>, Box<Expr>),
    /// An array access, with its index if there is one.
    ArrayGet(Box<Expr>, Option<Box<Expr>>),
    /// Any other expression, with its subexpressions.
    Other(Vec<Expr>),
}

#[derive(Debug)]
pub struct Expr {
    pub pos: Pos,
    pub kind: ExprKind,
}

/// A statement, as far as autofixes look into it.
#[derive(Debug)]
pub enum StmtKind {
    Expr(Expr),
    /// A condition and the two branches.
    If(Expr, Vec<Stmt>, Vec<Stmt>),
    /// Any other statement, with the statements nested in it.
    Block(Vec<Stmt>),
    Other,
}

#[derive(Debug)]
pub struct Stmt {
    pub pos: Pos,
    pub kind: StmtKind,
}

/// A comment of the source file.
#[derive(Debug)]
pub enum Comment {
    CmtBlock(String),
    CmtLine(String),
}

/// What to do with a byte range.
#[derive(Debug)]
pub enum Replacement {
    Remove,
    /// Remove the range and the whitespace before it back to the given line start.
    TrimPrecedingWhitespace(u32),
    Substitute(String),
}

/// A replacement with its text as characters.
pub enum ReplacementView {
    Remove,
    TrimPrecedingWhitespace(u32),
    Substitute(Seq<char>),
}

impl View for Replacement {
    type V = ReplacementView;

    open spec fn view(&self) -> ReplacementView {
        match self {
            Replacement::Remove => ReplacementView::Remove,
            Replacement::TrimPrecedingWhitespace(o) => ReplacementView::TrimPrecedingWhitespace(*o),
            Replacement::Substitute(s) => ReplacementView::Substitute(s@),
        }
    }
}

/// A replacement over a byte range.
pub type Fix = ((u32, u32), ReplacementView);

/// The analysis data of one function body that autofixes read and extend.
#[derive(Debug)]
pub struct FunctionAnalysisData {
    /// The effects of each expression, by its start and end offset.
    pub expr_effects: Vec<((u32, u32), u8)>,
    pub replacements: Vec<((u32, u32), Replacement)>,
}

pub const EFFECT_PURE: u8 = 0;

pub const EFFECT_READ_PROPS: u8 = 1;

pub const EFFECT_READ_GLOBALS: u8 = 2;

impl KeyEq for (u32, u32) {
    fn key_eq(&self, other: &Self) -> (r: bool) {
        self.0 == other.0 && self.1 == other.1
    }

    fn key_copy(&self) -> (r: Self) {
        *self
    }
}

pub open spec fn fix_views(s: Seq<((u32, u32), Replacement)>) -> Seq<Fix> {
    s.map_values(|e: ((u32, u32), Replacement)| (e.0, e.1@))
}

/// The effects recorded for a span; none recorded counts as pure.
pub open spec fn effects_at(effects: Seq<((u32, u32), u8)>, p: Pos) -> u8 {
    if entries_map(effects).contains_key((p.start_offset, p.end_offset)) {
        entries_map(effects)[(p.start_offset, p.end_offset)]
    } else {
        EFFECT_PURE
    }
}

/// Effects that at most read properties and globals.
pub open spec fn only_reads(e: u8) -> bool {
    e == EFFECT_PURE || e == EFFECT_READ_PROPS || e == EFFECT_READ_GLOBALS || e == EFFECT_READ_PROPS
        + EFFECT_READ_GLOBALS
}

/// Some unused variable-use source starts at `off`.
pub open spec fn unused_at(unused: Seq<DataFlowNode>, off: u32) -> bool {
    exists|i: int| 0 <= i < unused.len() && starts_at(#[trigger] unused[i], off)
}

/// A variable-use source that starts at `off`.
pub open spec fn starts_at(n: DataFlowNode, off: u32) -> bool {
    n.kind matches DataFlowNodeKind::VariableUseSource { pos, .. } && pos.start_offset == off
}

/// The text of a comment with leading and trailing whitespace removed, as
/// `str::trim` gives it.
pub uninterp spec fn trimmed(s: Seq<char>) -> Seq<char>;

/// Relies on `str::trim`: the text without leading and trailing whitespace,
/// which depends on the text alone.
#[verifier::external_body]
fn trim_comment(text: &String) -> (r: String)
    ensures
        r@ == trimmed(text@),
{
    text.trim().to_string()
}

/// Whether `a` holds exactly the characters of `b`.
fn text_is(a: &String, b: &str) -> (r: bool)
    ensures
        r == (a@ == b@),
{
    let b = b.to_string();
    a.eq(&b)
}

/// The suppression that a comment on the statement's own line may carry.
pub open spec fn same_line_fixme(text: Seq<char>) -> bool {
    trimmed(text) == "HHAST_FIXME[UnusedVariable]"@
}

/// The suppressions that a comment on the line before the statement may carry.
pub open spec fn previous_line_fixme(text: Seq<char>) -> bool {
    trimmed(text) == "HAKANA_FIXME[UnusedAssignment]"@ || trimmed(text)
        == "HAKANA_FIXME[UnusedAssignmentStatement]"@
}

/// The views of the comments: position and, for a block comment, its text.
pub open spec fn comment_views(comments: Seq<(Pos, Comment)>) -> Seq<(Pos, Option<Seq<char>>)> {
    comments.map_values(
        |c: (Pos, Comment)|
            (c.0, match c.1 {
                Comment::CmtBlock(t) => Some(t@),
                Comment::CmtLine(_) => None,
            }),
    )
}

/// The removal of the first suppression comment, among the first `n`, that
/// goes with a statement at `sp` removed up to `limit`.
pub open spec fn fixme_removal(comments: Seq<(Pos, Option<Seq<char>>)>, sp: Pos, limit: u32) -> Option<Fix>
    decreases comments.len(),
{
    if comments.len() == 0 {
        None
    } else {
        let (cp, text) = comments[0];
        if cp.line == sp.line && text is Some && same_line_fixme(text->0) {
            Some(((cp.start_offset, limit), ReplacementView::TrimPrecedingWhitespace(cp.beg_of_line)))
        } else if cp.line + 1 == sp.line && sp.beg_of_line > 0 && text is Some && previous_line_fixme(
            text->0,
        ) {
            Some(
                (
                    (cp.start_offset, (sp.beg_of_line - 1) as u32),
                    ReplacementView::TrimPrecedingWhitespace(cp.beg_of_line),
                ),
            )
        } else {
            fixme_removal(comments.subrange(1, comments.len() as int), sp, limit)
        }
    }
}

/// Whether a branch is one expression statement.
pub open spec fn is_single_expr_block(b: Seq<Stmt>) -> bool {
    b.len() == 1 && b[0].kind is Expr
}

/// The replacements for the items of a destructuring list: each item at an
/// unused source becomes `$_`.
pub open spec fn list_fixes(items: Seq<Expr>, unused: Seq<DataFlowNode>) -> Seq<Fix>
    decreases items.len(),
{
    if items.len() == 0 {
        Seq::empty()
    } else {
        let e = items.last();
        let rest = list_fixes(items.drop_last(), unused);
        if unused_at(unused, e.pos.start_offset) {
            rest.push(((e.pos.start_offset, e.pos.end_offset), ReplacementView::Substitute("$_"@)))
        } else {
            rest
        }
    }
}

/// The replacements inside an expression, in visiting order.
pub open spec fn expr_fixes(e: Expr, unused: Seq<DataFlowNode>) -> Seq<Fix>
    decreases e, 0nat,
{
    match e.kind {
        ExprKind::List(items) => list_fixes(items@, unused) + exprs_fixes(items@, items@.len(), unused),
        ExprKind::Assign(l, r) => expr_fixes(*l, unused) + expr_fixes(*r, unused),
        ExprKind::ArrayGet(a, idx) => expr_fixes(*a, unused) + match idx {
            Some(i) => expr_fixes(*i, unused),
            None => Seq::empty(),
        },
        ExprKind::Other(items) => exprs_fixes(items@, items@.len(), unused),
    }
}

/// The replacements inside the first `n` expressions.
pub open spec fn exprs_fixes(items: Seq<Expr>, n: nat, unused: Seq<DataFlowNode>) -> Seq<Fix>
    decreases items, n,
{
    if n == 0 || n > items.len() {
        Seq::empty()
    } else {
        exprs_fixes(items, (n - 1) as nat, unused) + expr_fixes(items[n - 1], unused)
    }
}

/// The replacements a statement makes itself when an unused source starts at
/// it: an assignment whose value at most reads is removed whole with its
/// suppression comment, unless it is the only statement of a branch; one whose
/// value has effects loses its target and `=`, and a trailing index that at
/// most reads goes too.
pub open spec fn stmt_own_fixes(
    s: Stmt,
    in_single_block: bool,
    unused: Seq<DataFlowNode>,
    comments: Seq<(Pos, Option<Seq<char>>)>,
    effects: Seq<((u32, u32), u8)>,
) -> Seq<Fix> {
    if !unused_at(unused, s.pos.start_offset) {
        Seq::empty()
    } else {
        match s.kind {
            StmtKind::Expr(e) => match e.kind {
                ExprKind::Assign(_, rhs) => if only_reads(effects_at(effects, rhs.pos)) {
                    if in_single_block {
                        Seq::empty()
                    } else {
                        seq![
                            (
                                (s.pos.start_offset, s.pos.end_offset),
                                ReplacementView::TrimPrecedingWhitespace(s.pos.beg_of_line),
                            ),
                        ] + match fixme_removal(comments, s.pos, s.pos.start_offset) {
                            Some(f) => seq![f],
                            None => Seq::empty(),
                        }
                    }
                } else {
                    seq![((s.pos.start_offset, rhs.pos.start_offset), ReplacementView::Remove)]
                        + match rhs.kind {
                        ExprKind::ArrayGet(_, Some(idx)) => if only_reads(effects_at(effects, idx.pos))
                            && idx.pos.start_offset > 0 && idx.pos.end_offset < u32::MAX {
                            seq![
                                (
                                    ((idx.pos.start_offset - 1) as u32, (idx.pos.end_offset + 1) as u32),
                                    ReplacementView::Remove,
                                ),
                            ]
                        } else {
                            Seq::empty()
                        },
                        _ => Seq::empty(),
                    }
                },
                _ => Seq::empty(),
            },
            _ => Seq::empty(),
        }
    }
}

/// The replacements for a statement and what is nested in it, and whether
/// the statements after it count as the only statement of a branch. Each
/// branch of an `if` is handled with the flag set for that branch; the flag
/// reverts to its earlier value afterwards.
pub open spec fn stmt_fixes(
    s: Stmt,
    in_single_block: bool,
    unused: Seq<DataFlowNode>,
    comments: Seq<(Pos, Option<Seq<char>>)>,
    effects: Seq<((u32, u32), u8)>,
) -> (Seq<Fix>, bool)
    decreases s, 0nat,
{
    match s.kind {
        StmtKind::If(_, t, e) => {
            let r1 = stmts_fixes(t@, t@.len(), is_single_expr_block(t@), unused, comments, effects).0;
            let r2 = stmts_fixes(e@, e@.len(), is_single_expr_block(e@), unused, comments, effects).0;
            (r1 + r2, in_single_block)
        },
        StmtKind::Expr(e) => (
            stmt_own_fixes(s, in_single_block, unused, comments, effects) + expr_fixes(e, unused),
            in_single_block,
        ),
        StmtKind::Block(b) => {
            let (r, f) = stmts_fixes(b@, b@.len(), in_single_block, unused, comments, effects);
            (r, f)
        },
        StmtKind::Other => (Seq::empty(), in_single_block),
    }
}

/// The replacements for the first `n` statements, in order.
pub open spec fn stmts_fixes(
    ss: Seq<Stmt>,
    n: nat,
    in_single_block: bool,
    unused: Seq<DataFlowNode>,
    comments: Seq<(Pos, Option<Seq<char>>)>,
    effects: Seq<((u32, u32), u8)>,
) -> (Seq<Fix>, bool)
    decreases ss, n,
{
    if n == 0 || n > ss.len() {
        (Seq::empty(), in_single_block)
    } else {
        let (r0, f0) = stmts_fixes(ss, (n - 1) as nat, in_single_block, unused, comments, effects);
        let (r1, f1) = stmt_fixes(ss[n - 1], f0, unused, comments, effects);
        (r0 + r1, f1)
    }
}

fn unused_starts_at(unused: &Vec<DataFlowNode>, off: u32) -> (r: bool)
    ensures
        r == unused_at(unused@, off),
{
    let mut i: usize = 0;
    while i < unused.len()
        invariant
            i <= unused@.len(),
            forall|j: int| 0 <= j < i ==> !starts_at(#[trigger] unused@[j], off),
        decreases unused@.len() - i,
    {
        if let DataFlowNodeKind::VariableUseSource { pos, .. } = &unused[i].kind {
            if pos.start_offset == off {
                assert(starts_at(unused@[i as int], off));
                return true;
            }
        }
        i = i + 1;
    }
    false
}

fn push_fix(data: &mut FunctionAnalysisData, range: (u32, u32), r: Replacement)
    ensures
        final(data).expr_effects == old(data).expr_effects,
        fix_views(final(data).replacements@) == fix_views(old(data).replacements@).push((range, r@)),
{
    let ghost before = data.replacements@;
    data.replacements.push((range, r));
    assert(fix_views(data.replacements@) =~= fix_views(before).push((range, r@)));
}

fn effects_of(data: &FunctionAnalysisData, p: Pos) -> (r: u8)
    requires
        keys_unique(data.expr_effects@),
    ensures
        r == effects_at(data.expr_effects@, p),
{
    proof {
        lemma_entries_map_contains(data.expr_effects@, (p.start_offset, p.end_offset));
    }
    match find_entry(&data.expr_effects, &(p.start_offset, p.end_offset)) {
        Some(i) => {
            proof {
                lemma_entries_map_at(data.expr_effects@, i as int);
            }
            data.expr_effects[i].1
        },
        None => EFFECT_PURE,
    }
}

fn reads_only(e: u8) -> (r: bool)
    ensures
        r == only_reads(e),
{
    e == EFFECT_PURE || e == EFFECT_READ_PROPS || e == EFFECT_READ_GLOBALS || e == EFFECT_READ_PROPS
        + EFFECT_READ_GLOBALS
}

/// Adds the `$_` substitutions for a destructuring list.
fn visit_list(items: &Vec<Expr>, unused: &Vec<DataFlowNode>, data: &mut FunctionAnalysisData)
    ensures
        final(data).expr_effects == old(data).expr_effects,
        fix_views(final(data).replacements@) == fix_views(old(data).replacements@) + list_fixes(
            items@,
            unused@,
        ),
{
    let ghost start = fix_views(data.replacements@);
    let mut i: usize = 0;
    assert(items@.take(0) =~= Seq::<Expr>::empty());
    assert(start + list_fixes(items@.take(0), unused@) =~= start);
    while i < items.len()
        invariant
            i <= items@.len(),
            data.expr_effects == old(data).expr_effects,
            start == fix_views(old(data).replacements@),
            fix_views(data.replacements@) == start + list_fixes(items@.take(i as int), unused@),
        decreases items@.len() - i,
    {
        let e = &items[i];
        assert(items@.take(i + 1).drop_last() =~= items@.take(i as int));
        assert(items@.take(i + 1).last() == *e);
        if unused_starts_at(unused, e.pos.start_offset) {
            let sub = "$_".to_string();
            push_fix(data, (e.pos.start_offset, e.pos.end_offset), Replacement::Substitute(sub));
            assert(fix_views(data.replacements@) =~= start + list_fixes(items@.take(i + 1), unused@));
        }
        i = i + 1;
    }
    assert(items@.take(i as int) =~= items@);
}

/// Adds the replacements inside an expression.
fn visit_expr(e: &Expr, unused: &Vec<DataFlowNode>, data: &mut FunctionAnalysisData)
    ensures
        final(data).expr_effects == old(data).expr_effects,
        fix_views(final(data).replacements@) == fix_views(old(data).replacements@) + expr_fixes(
            *e,
            unused@,
        ),
    decreases *e, 0nat,
{
    let ghost start = fix_views(data.replacements@);
    match &e.kind {
        ExprKind::List(items) => {
            visit_list(items, unused, data);
            visit_exprs(items, unused, data);
            assert(fix_views(data.replacements@) =~= start + expr_fixes(*e, unused@));
        },
        ExprKind::Assign(l, r) => {
            visit_expr(l, unused, data);
            visit_expr(r, unused, data);
            assert(fix_views(data.replacements@) =~= start + expr_fixes(*e, unused@));
        },
        ExprKind::ArrayGet(a, idx) => {
            visit_expr(a, unused, data);
            match idx {
                Some(i) => {
                    visit_expr(i, unused, data);
                },
                None => {},
            }
            assert(fix_views(data.replacements@) =~= start + expr_fixes(*e, unused@));
        },
        ExprKind::Other(items) => {
            visit_exprs(items, unused, data);
        },
    }
}

/// Adds the replacements inside each expression, in order.
fn visit_exprs(items: &Vec<Expr>, unused: &Vec<DataFlowNode>, data: &mut FunctionAnalysisData)
    ensures
        final(data).expr_effects == old(data).expr_effects,
        fix_views(final(data).replacements@) == fix_views(old(data).replacements@) + exprs_fixes(
            items@,
            items@.len(),
            unused@,
        ),
    decreases items@, 1nat,
{
    let ghost start = fix_views(data.replacements@);
    let mut i: usize = 0;
    assert(start + exprs_fixes(items@, 0, unused@) =~= start);
    while i < items.len()
        invariant
            i <= items@.len(),
            data.expr_effects == old(data).expr_effects,
            start == fix_views(old(data).replacements@),
            fix_views(data.replacements@) == start + exprs_fixes(items@, i as nat, unused@),
        decreases items@.len() - i,
    {
        visit_expr(&items[i], unused, data);
        i = i + 1;
        assert(fix_views(data.replacements@) =~= start + exprs_fixes(items@, i as nat, unused@));
    }
}

/// Removes the first suppression comment that goes with a statement at `sp`
/// removed up to `limit`.
fn remove_fixme_comments(
    sp: Pos,
    comments: &Vec<(Pos, Comment)>,
    data: &mut FunctionAnalysisData,
    limit: u32,
)
    ensures
        final(data).expr_effects == old(data).expr_effects,
        fix_views(final(data).replacements@) == fix_views(old(data).replacements@) + match fixme_removal(
            comment_views(comments@),
            sp,
            limit,
        ) {
            Some(f) => seq![f],
            None => Seq::<Fix>::empty(),
        },
{
    let ghost cv = comment_views(comments@);
    let mut i: usize = 0;
    assert(cv.subrange(0, cv.len() as int) =~= cv);
    while i < comments.len()
        invariant
            i <= comments@.len(),
            cv == comment_views(comments@),
            data.expr_effects == old(data).expr_effects,
            data.replacements == old(data).replacements,
            fixme_removal(cv, sp, limit) == fixme_removal(cv.subrange(i as int, cv.len() as int), sp, limit),
        decreases comments@.len() - i,
    {
        let ghost rest = cv.subrange(i as int, cv.len() as int);
        assert(rest.subrange(1, rest.len() as int) =~= cv.subrange(i + 1, cv.len() as int));
        assert(rest[0] == cv[i as int]);
        let (cp, comment) = (&comments[i].0, &comments[i].1);
        if let Comment::CmtBlock(block) = comment {
            if cp.line == sp.line {
                let t = trim_comment(block);
                if text_is(&t, "HHAST_FIXME[UnusedVariable]") {
                    push_fix(
                        data,
                        (cp.start_offset, limit),
                        Replacement::TrimPrecedingWhitespace(cp.beg_of_line),
                    );
                    return ;
                }
            } else if cp.line < u32::MAX && cp.line + 1 == sp.line && sp.beg_of_line > 0 {
                let t = trim_comment(block);
                if text_is(&t, "HAKANA_FIXME[UnusedAssignment]") || text_is(
                    &t,
                    "HAKANA_FIXME[UnusedAssignmentStatement]",
                ) {
                    push_fix(
                        data,
                        (cp.start_offset, sp.beg_of_line - 1),
                        Replacement::TrimPrecedingWhitespace(cp.beg_of_line),
                    );
                    return ;
                }
            }
        }
        i = i + 1;
    }
    assert(fix_views(data.replacements@) =~= fix_views(old(data).replacements@) + Seq::<Fix>::empty());
}

/// Adds the replacements a statement makes itself.
fn fix_statement(
    s: &Stmt,
    in_single_block: bool,
    unused: &Vec<DataFlowNode>,
    comments: &Vec<(Pos, Comment)>,
    data: &mut FunctionAnalysisData,
)
    requires
        keys_unique(old(data).expr_effects@),
    ensures
        final(data).expr_effects == old(data).expr_effects,
        fix_views(final(data).replacements@) == fix_views(old(data).replacements@) + stmt_own_fixes(
            *s,
            in_single_block,
            unused@,
            comment_views(comments@),
            old(data).expr_effects@,
        ),
{
    let ghost start = fix_views(data.replacements@);
    let ghost own = stmt_own_fixes(
        *s,
        in_single_block,
        unused@,
        comment_views(comments@),
        data.expr_effects@,
    );
    if !unused_starts_at(unused, s.pos.start_offset) {
        assert(start + own =~= start);
        return ;
    }
    if let StmtKind::Expr(e) = &s.kind {
        if let ExprKind::Assign(_, rhs) = &e.kind {
            let effects = effects_of(data, rhs.pos);
            if reads_only(effects) {
                if !in_single_block {
                    push_fix(
                        data,
                        (s.pos.start_offset, s.pos.end_offset),
                        Replacement::TrimPrecedingWhitespace(s.pos.beg_of_line),
                    );
                    remove_fixme_comments(s.pos, comments, data, s.pos.start_offset);
                    assert(fix_views(data.replacements@) =~= start + own);
                } else {
                    assert(start + own =~= start);
                }
            } else {
                push_fix(data, (s.pos.start_offset, rhs.pos.start_offset), Replacement::Remove);
                let ghost mid = fix_views(data.replacements@);
                let mut trailing = false;
                if let ExprKind::ArrayGet(_, Some(idx)) = &rhs.kind {
                    let idx_effects = effects_of(data, idx.pos);
                    if reads_only(idx_effects) && idx.pos.start_offset > 0 && idx.pos.end_offset
                        < u32::MAX {
                        push_fix(
                            data,
                            (idx.pos.start_offset - 1, idx.pos.end_offset + 1),
                            Replacement::Remove,
                        );
                        trailing = true;
                    }
                }
                if !trailing {
                    assert(mid + Seq::<Fix>::empty() =~= mid);
                }
                assert(fix_views(data.replacements@) =~= start + own);
            }
            return ;
        }
    }
    assert(start + own =~= start);
}

/// Adds the replacements for a statement and what is nested in it.
fn visit_stmt(
    s: &Stmt,
    in_single_block: &mut bool,
    unused: &Vec<DataFlowNode>,
    comments: &Vec<(Pos, Comment)>,
    data: &mut FunctionAnalysisData,
)
    requires
        keys_unique(old(data).expr_effects@),
    ensures
        final(data).expr_effects == old(data).expr_effects,
        ({
            let (fixes, flag) = stmt_fixes(
                *s,
                *old(in_single_block),
                unused@,
                comment_views(comments@),
                old(data).expr_effects@,
            );
            fix_views(final(data).replacements@) == fix_views(old(data).replacements@) + fixes
                && *final(in_single_block) == flag
        }),
    decreases *s, 0nat,
{
    let ghost start = fix_views(data.replacements@);
    match &s.kind {
        StmtKind::If(_, then_branch, else_branch) => {
            let outer = *in_single_block;
            *in_single_block = then_branch.len() == 1 && matches!(then_branch[0].kind, StmtKind::Expr(_));
            visit_stmts(then_branch, in_single_block, unused, comments, data);
            let ghost mid = fix_views(data.replacements@);
            *in_single_block = else_branch.len() == 1 && matches!(else_branch[0].kind, StmtKind::Expr(_));
            visit_stmts(else_branch, in_single_block, unused, comments, data);
            *in_single_block = outer;
            assert(fix_views(data.replacements@) =~= start + stmt_fixes(
                *s,
                *old(in_single_block),
                unused@,
                comment_views(comments@),
                old(data).expr_effects@,
            ).0);
        },
        StmtKind::Expr(e) => {
            fix_statement(s, *in_single_block, unused, comments, data);
            visit_expr(e, unused, data);
            assert(fix_views(data.replacements@) =~= start + stmt_fixes(
                *s,
                *old(in_single_block),
                unused@,
                comment_views(comments@),
                old(data).expr_effects@,
            ).0);
        },
        StmtKind::Block(b) => {
            visit_stmts(b, in_single_block, unused, comments, data);
        },
        StmtKind::Other => {
            assert(fix_views(data.replacements@) =~= start + Seq::<Fix>::empty());
        },
    }
}

/// Adds the replacements for each statement, in order.
fn visit_stmts(
    ss: &Vec<Stmt>,
    in_single_block: &mut bool,
    unused: &Vec<DataFlowNode>,
    comments: &Vec<(Pos, Comment)>,
    data: &mut FunctionAnalysisData,
)
    requires
        keys_unique(old(data).expr_effects@),
    ensures
        final(data).expr_effects == old(data).expr_effects,
        ({
            let (fixes, flag) = stmts_fixes(
                ss@,
                ss@.len(),
                *old(in_single_block),
                unused@,
                comment_views(comments@),
                old(data).expr_effects@,
            );
            fix_views(final(data).replacements@) == fix_views(old(data).replacements@) + fixes
                && *final(in_single_block) == flag
        }),
    decreases ss@, 1nat,
{
    let ghost start = fix_views(data.replacements@);
    let ghost flag0 = *in_single_block;
    let mut i: usize = 0;
    assert(start + Seq::<Fix>::empty() =~= start);
    while i < ss.len()
        invariant
            i <= ss@.len(),
            data.expr_effects == old(data).expr_effects,
            keys_unique(data.expr_effects@),
            start == fix_views(old(data).replacements@),
            flag0 == *old(in_single_block),
            ({
                let (fixes, flag) = stmts_fixes(
                    ss@,
                    i as nat,
                    flag0,
                    unused@,
                    comment_views(comments@),
                    old(data).expr_effects@,
                );
                fix_views(data.replacements@) == start + fixes && *in_single_block == flag
            }),
        decreases ss@.len() - i,
    {
        let ghost before = fix_views(data.replacements@);
        visit_stmt(&ss[i], in_single_block, unused, comments, data);
        i = i + 1;
        proof {
            let (f0, _) = stmts_fixes(
                ss@,
                (i - 1) as nat,
                flag0,
                unused@,
                comment_views(comments@),
                old(data).expr_effects@,
            );
            assert(before == start + f0);
            assert(fix_views(data.replacements@) =~= start + stmts_fixes(
                ss@,
                i as nat,
                flag0,
                unused@,
                comment_views(comments@),
                old(data).expr_effects@,
            ).0);
        }
    }
}

/// Adds to `analysis_data` the autofixes for the unused variable-use sources
/// `unused_source_nodes` in the statements `stmts` of a function body, as
/// `stmts_fixes` gives them, starting outside any branch.
pub fn add_unused_expression_replacements(
    stmts: &Vec<Stmt>,
    analysis_data: &mut FunctionAnalysisData,
    unused_source_nodes: &Vec<DataFlowNode>,
    comments: &Vec<(Pos, Comment)>,
)
    requires
        keys_unique(old(analysis_data).expr_effects@),
    ensures
        final(analysis_data).expr_effects == old(analysis_data).expr_effects,
        fix_views(final(analysis_data).replacements@) == fix_views(old(analysis_data).replacements@)
            + stmts_fixes(
            stmts@,
            stmts@.len(),
            false,
            unused_source_nodes@,
            comment_views(comments@),
            old(analysis_data).expr_effects@,
        ).0,
{
    let mut in_single_block = false;
    visit_stmts(stmts, &mut in_single_block, unused_source_nodes, comments, analysis_data);
}

} // verus!
