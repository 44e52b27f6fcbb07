//! Incremental analysis: which cached issues survive a change to the code
//! base, where they moved, and which symbols need no new analysis.
use crate::keyed::{entries_map, find_entry, keys_unique, lemma_entries_map_at, lemma_entries_map_contains, reversed};
use crate::node::{FilePath, HPos, StrId, STR_EMPTY};
use crate::queries::{filter_map, lemma_filter_map_source};
use vstd::prelude::*;

verus! {

/// What an issue reports.
#[derive(Clone, Copy, Debug, PartialEq, Eq, Hash, Structural)]
pub enum IssueKind {
    NonExistentConstant,
    UnusedAssignment,
    UnusedAssignmentStatement,
    UnusedVariable,
    InternalError,
}

/// A diagnostic, with the symbol (and member) it was found in.
#[derive(Debug)]
pub struct Issue {
    pub kind: IssueKind,
    pub description: String,
    pub pos: HPos,
    pub symbol: (StrId, StrId),
}

/// A change of position: an issue starting between `from` and `to`
/// (inclusive) moves by `file_offset` bytes and `line_offset` lines.
#[derive(Clone, Copy, Debug, PartialEq, Eq, Structural)]
pub struct DiffShift {
    pub from: u32,
    pub to: u32,
    pub file_offset: i64,
    pub line_offset: i64,
}

/// A byte range of a file that was deleted (inclusive).
#[derive(Clone, Copy, Debug, PartialEq, Eq, Structural)]
pub struct DeletionRange {
    pub from: u32,
    pub to: u32,
}

/// What changed in the code base since the cached analysis.
#[derive(Debug)]
pub struct CodebaseDiff {
    /// Symbols (and members) whose analysis can be kept.
    pub keep: Vec<(StrId, StrId)>,
    /// Per file, how positions moved.
    pub diff_map: Vec<(FilePath, Vec<DiffShift>)>,
    /// Per file, the ranges that were deleted.
    pub deletion_ranges_map: Vec<(FilePath, Vec<DeletionRange>)>,
}

impl CodebaseDiff {
    /// Each file appears at most once in each per-file table.
    pub open spec fn wf(&self) -> bool {
        keys_unique(self.diff_map@) && keys_unique(self.deletion_ranges_map@)
    }

    /// The shifts recorded for `file`.
    pub open spec fn shifts_for(&self, file: FilePath) -> Seq<DiffShift> {
        if entries_map(self.diff_map@).contains_key(file) {
            entries_map(self.diff_map@)[file]@
        } else {
            Seq::empty()
        }
    }

    /// The deletion ranges recorded for `file`.
    pub open spec fn deletions_for(&self, file: FilePath) -> Seq<DeletionRange> {
        if entries_map(self.deletion_ranges_map@).contains_key(file) {
            entries_map(self.deletion_ranges_map@)[file]@
        } else {
            Seq::empty()
        }
    }
}

/// An offset inside one of the ranges.
pub open spec fn is_deleted(off: u32, ranges: Seq<DeletionRange>) -> bool {
    exists|j: int| 0 <= j < ranges.len() && #[trigger] ranges[j].from <= off && off <= ranges[j].to
}

/// The first shift whose range holds `off`.
pub open spec fn first_shift(off: u32, shifts: Seq<DiffShift>) -> Option<DiffShift>
    decreases shifts.len(),
{
    if shifts.len() == 0 {
        None
    } else if shifts[0].from <= off && off <= shifts[0].to {
        Some(shifts[0])
    } else {
        first_shift(off, shifts.subrange(1, shifts.len() as int))
    }
}

/// `v` moved by `d`, as a 64-bit signed sum cut to 32 bits.
pub open spec fn shift(v: u32, d: i64) -> u32 {
    vstd::wrapping::i64_specs::wrapping_add(v as i64, d) as u32
}

/// The position `p` after the first shift that holds its start.
pub open spec fn shifted_pos(p: HPos, shifts: Seq<DiffShift>) -> HPos {
    match first_shift(p.start_offset, shifts) {
        None => p,
        Some(s) => HPos {
            start_offset: shift(p.start_offset, s.file_offset),
            end_offset: shift(p.end_offset, s.file_offset),
            start_line: shift(p.start_line, s.line_offset),
            end_line: shift(p.end_line, s.line_offset),
            ..p
        },
    }
}

/// An issue that survives in `file`: its symbol is valid and is not the
/// file itself, and its start was not deleted.
pub open spec fn survives(i: Issue, file: FilePath, diff: CodebaseDiff, invalid: Seq<(StrId, StrId)>) -> bool {
    &&& !invalid.contains(i.symbol)
    &&& i.symbol.0 != file.0
    &&& !is_deleted(i.pos.start_offset, diff.deletions_for(file))
}

/// The issues of `file` after the diff: the survivors, moved.
pub open spec fn updated_issues(
    file: FilePath,
    issues: Seq<Issue>,
    diff: CodebaseDiff,
    invalid: Seq<(StrId, StrId)>,
) -> Seq<Issue> {
    filter_map(
        issues,
        |i: Issue|
            if survives(i, file, diff, invalid) {
                Some(Issue { pos: shifted_pos(i.pos, diff.shifts_for(file)), ..i })
            } else {
                None
            },
    )
}

/// Deletions are decided before shifts: every issue left after an update is
/// an issue of the same file, moved, whose start lay in no deleted range; one
/// that no shift moved still starts outside every deleted range.
pub proof fn law_survivors_were_not_deleted(
    file: FilePath,
    issues: Seq<Issue>,
    diff: CodebaseDiff,
    invalid: Seq<(StrId, StrId)>,
    a: int,
)
    requires
        0 <= a < updated_issues(file, issues, diff, invalid).len(),
    ensures
        exists|b: int|
            0 <= b < issues.len() && !is_deleted(issues[b].pos.start_offset, diff.deletions_for(file))
                && updated_issues(file, issues, diff, invalid)[a] == (Issue {
                pos: shifted_pos(issues[b].pos, diff.shifts_for(file)),
                ..issues[b]
            }) && (first_shift(issues[b].pos.start_offset, diff.shifts_for(file)) is None ==> !is_deleted(
                updated_issues(file, issues, diff, invalid)[a].pos.start_offset,
                diff.deletions_for(file),
            )),
{
    let f = |i: Issue|
        if survives(i, file, diff, invalid) {
            Some(Issue { pos: shifted_pos(i.pos, diff.shifts_for(file)), ..i })
        } else {
            None
        };
    lemma_filter_map_source(issues, f, a);
}

fn shift_exec(v: u32, d: i64) -> (r: u32)
    ensures
        r == shift(v, d),
{
    #[verifier::truncate]
    let r = (v as i64).wrapping_add(d) as u32;
    r
}

fn symbol_listed(symbols: &Vec<(StrId, StrId)>, s: (StrId, StrId)) -> (r: bool)
    ensures
        r == symbols@.contains(s),
{
    let mut i: usize = 0;
    while i < symbols.len()
        invariant
            i <= symbols@.len(),
            forall|j: int| 0 <= j < i ==> symbols@[j] != s,
        decreases symbols@.len() - i,
    {
        if symbols[i].0 == s.0 && symbols[i].1 == s.1 {
            assert(symbols@[i as int] == s);
            return true;
        }
        i = i + 1;
    }
    false
}

fn in_deletion(off: u32, ranges: &Vec<DeletionRange>) -> (r: bool)
    ensures
        r == is_deleted(off, ranges@),
{
    let mut i: usize = 0;
    while i < ranges.len()
        invariant
            i <= ranges@.len(),
            forall|j: int| 0 <= j < i ==> !(#[trigger] ranges@[j].from <= off && off <= ranges@[j].to),
        decreases ranges@.len() - i,
    {
        if ranges[i].from <= off && off <= ranges[i].to {
            return true;
        }
        i = i + 1;
    }
    false
}

fn find_shift(off: u32, shifts: &Vec<DiffShift>) -> (r: Option<DiffShift>)
    ensures
        r == first_shift(off, shifts@),
{
    let mut i: usize = 0;
    assert(shifts@.subrange(0, shifts@.len() as int) =~= shifts@);
    while i < shifts.len()
        invariant
            i <= shifts@.len(),
            first_shift(off, shifts@) == first_shift(
                off,
                shifts@.subrange(i as int, shifts@.len() as int),
            ),
        decreases shifts@.len() - i,
    {
        let ghost rest = shifts@.subrange(i as int, shifts@.len() as int);
        assert(rest.subrange(1, rest.len() as int) =~= shifts@.subrange(i + 1, shifts@.len() as int));
        if shifts[i].from <= off && off <= shifts[i].to {
            return Some(shifts[i]);
        }
        i = i + 1;
    }
    None
}

/// Moves an issue by the first shift that holds its start.
fn shift_issue(issue: Issue, shifts: &Vec<DiffShift>) -> (r: Issue)
    ensures
        r == (Issue { pos: shifted_pos(issue.pos, shifts@), ..issue }),
{
    let mut issue = issue;
    match find_shift(issue.pos.start_offset, shifts) {
        None => {},
        Some(s) => {
            issue.pos.start_offset = shift_exec(issue.pos.start_offset, s.file_offset);
            issue.pos.end_offset = shift_exec(issue.pos.end_offset, s.file_offset);
            issue.pos.start_line = shift_exec(issue.pos.start_line, s.line_offset);
            issue.pos.end_line = shift_exec(issue.pos.end_line, s.line_offset);
        },
    }
    issue
}

/// The issues of `file` after the diff, as `updated_issues` says.
fn update_file_issues(
    file: FilePath,
    issues: Vec<Issue>,
    codebase_diff: &CodebaseDiff,
    invalid_symbols_and_members: &Vec<(StrId, StrId)>,
) -> (r: Vec<Issue>)
    requires
        codebase_diff.wf(),
    ensures
        r@ == updated_issues(file, issues@, *codebase_diff, invalid_symbols_and_members@),
{
    let ghost orig = issues@;
    let ghost f = |i: Issue|
        if survives(i, file, *codebase_diff, invalid_symbols_and_members@) {
            Some(Issue { pos: shifted_pos(i.pos, codebase_diff.shifts_for(file)), ..i })
        } else {
            None
        };
    let empty_shifts: Vec<DiffShift> = Vec::new();
    let empty_ranges: Vec<DeletionRange> = Vec::new();
    proof {
        lemma_entries_map_contains(codebase_diff.diff_map@, file);
        lemma_entries_map_contains(codebase_diff.deletion_ranges_map@, file);
    }
    let shifts = match find_entry(&codebase_diff.diff_map, &file) {
        Some(k) => {
            proof {
                lemma_entries_map_at(codebase_diff.diff_map@, k as int);
            }
            &codebase_diff.diff_map[k].1
        },
        None => &empty_shifts,
    };
    let ranges = match find_entry(&codebase_diff.deletion_ranges_map, &file) {
        Some(k) => {
            proof {
                lemma_entries_map_at(codebase_diff.deletion_ranges_map@, k as int);
            }
            &codebase_diff.deletion_ranges_map[k].1
        },
        None => &empty_ranges,
    };
    assert(shifts@ == codebase_diff.shifts_for(file));
    assert(ranges@ == codebase_diff.deletions_for(file));
    let mut rest = reversed(issues);
    let n = rest.len();
    let mut r: Vec<Issue> = Vec::new();
    assert(orig.take(0) =~= Seq::<Issue>::empty());
    while rest.len() > 0
        invariant
            n == orig.len(),
            rest@.len() <= n,
            forall|j: int| 0 <= j < rest@.len() ==> #[trigger] rest@[j] == orig[n - 1 - j],
            shifts@ == codebase_diff.shifts_for(file),
            ranges@ == codebase_diff.deletions_for(file),
            f == (|i: Issue|
                if survives(i, file, *codebase_diff, invalid_symbols_and_members@) {
                    Some(Issue { pos: shifted_pos(i.pos, codebase_diff.shifts_for(file)), ..i })
                } else {
                    None
                }),
            r@ == filter_map(orig.take(n - rest@.len()), f),
        decreases rest@.len(),
    {
        let ghost i = n - rest@.len();
        let issue = rest.pop().unwrap();
        assert(orig.take(i + 1).drop_last() =~= orig.take(i));
        assert(orig.take(i + 1).last() == issue);
        let keep = !symbol_listed(invalid_symbols_and_members, issue.symbol) && issue.symbol.0
            != file.0 && !in_deletion(issue.pos.start_offset, ranges);
        if keep {
            r.push(shift_issue(issue, shifts));
        }
    }
    assert(orig.take(n as int) =~= orig);
    r
}

/// Updates cached issues for a diff: an issue goes when its symbol is
/// invalid, when its symbol is its own file, or when it starts in a deleted
/// range; a surviving issue moves by the first shift whose range holds its
/// start. Deletions are decided before shifts.
pub fn update_issues_from_diff(
    existing_issues: &mut Vec<(FilePath, Vec<Issue>)>,
    codebase_diff: &CodebaseDiff,
    invalid_symbols_and_members: &Vec<(StrId, StrId)>,
)
    requires
        codebase_diff.wf(),
    ensures
        final(existing_issues)@.len() == old(existing_issues)@.len(),
        forall|k: int|
            0 <= k < old(existing_issues)@.len() ==> (#[trigger] final(existing_issues)@[k]).0 == old(
                existing_issues,
            )@[k].0 && final(existing_issues)@[k].1@ == updated_issues(
                old(existing_issues)@[k].0,
                old(existing_issues)@[k].1@,
                *codebase_diff,
                invalid_symbols_and_members@,
            ),
{
    let ghost orig = existing_issues@;
    let mut k: usize = 0;
    while k < existing_issues.len()
        invariant
            codebase_diff.wf(),
            k <= existing_issues@.len(),
            existing_issues@.len() == orig.len(),
            forall|j: int| k <= j < orig.len() ==> #[trigger] existing_issues@[j] == orig[j],
            forall|j: int|
                0 <= j < k ==> (#[trigger] existing_issues@[j]).0 == orig[j].0 && existing_issues@[j].1@
                    == updated_issues(
                    orig[j].0,
                    orig[j].1@,
                    *codebase_diff,
                    invalid_symbols_and_members@,
                ),
        decreases existing_issues@.len() - k,
    {
        let file = existing_issues[k].0;
        let mut issues: Vec<Issue> = Vec::new();
        std::mem::swap(&mut existing_issues[k].1, &mut issues);
        let updated = update_file_issues(file, issues, codebase_diff, invalid_symbols_and_members);
        existing_issues.set(k, (file, updated));
        k = k + 1;
    }
}

/// For each symbol (and member), the symbols (and members) it refers to.
#[derive(Debug)]
pub struct SymbolReferences {
    pub references: Vec<((StrId, StrId), Vec<(StrId, StrId)>)>,
}

impl SymbolReferences {
    pub fn new() -> (r: SymbolReferences)
        ensures
            r.references@.len() == 0,
    {
        SymbolReferences { references: Vec::new() }
    }

    /// Drops the references made from the given symbols.
    pub fn remove_references_from_invalid_symbols(&mut self, invalid_symbols_and_members: &Vec<(StrId, StrId)>)
        ensures
            final(self).references@ == filter_map(
                old(self).references@,
                |e: ((StrId, StrId), Vec<(StrId, StrId)>)|
                    if invalid_symbols_and_members@.contains(e.0) {
                        None
                    } else {
                        Some(e)
                    },
            ),
    {
        let ghost orig = self.references@;
        let ghost f = |e: ((StrId, StrId), Vec<(StrId, StrId)>)|
            if invalid_symbols_and_members@.contains(e.0) {
                None
            } else {
                Some(e)
            };
        let mut old_refs: Vec<((StrId, StrId), Vec<(StrId, StrId)>)> = Vec::new();
        std::mem::swap(&mut self.references, &mut old_refs);
        let mut rest = reversed(old_refs);
        let n = rest.len();
        assert(orig.take(0) =~= Seq::<((StrId, StrId), Vec<(StrId, StrId)>)>::empty());
        while rest.len() > 0
            invariant
                n == orig.len(),
                rest@.len() <= n,
                forall|j: int| 0 <= j < rest@.len() ==> #[trigger] rest@[j] == orig[n - 1 - j],
                f == (|e: ((StrId, StrId), Vec<(StrId, StrId)>)|
                    if invalid_symbols_and_members@.contains(e.0) {
                        None
                    } else {
                        Some(e)
                    }),
                self.references@ == filter_map(orig.take(n - rest@.len()), f),
            decreases rest@.len(),
        {
            let ghost i = n - rest@.len();
            let e = rest.pop().unwrap();
            assert(orig.take(i + 1).drop_last() =~= orig.take(i));
            assert(orig.take(i + 1).last() == e);
            if !symbol_listed(invalid_symbols_and_members, e.0) {
                self.references.push(e);
            }
        }
        assert(orig.take(n as int) =~= orig);
    }
}

/// What can be reused from a cached analysis.
#[derive(Debug)]
pub struct CachedAnalysis {
    pub safe_symbols: Vec<StrId>,
    pub safe_symbol_members: Vec<(StrId, StrId)>,
    pub existing_issues: Vec<(FilePath, Vec<Issue>)>,
    pub symbol_references: SymbolReferences,
}

impl CachedAnalysis {
    /// Nothing can be reused: everything is analysed again.
    pub open spec fn reuses_nothing(&self) -> bool {
        &&& self.safe_symbols@.len() == 0
        &&& self.safe_symbol_members@.len() == 0
        &&& self.existing_issues@.len() == 0
        &&& self.symbol_references.references@.len() == 0
    }

    pub fn nothing() -> (r: CachedAnalysis)
        ensures
            r.reuses_nothing(),
    {
        CachedAnalysis {
            safe_symbols: Vec::new(),
            safe_symbol_members: Vec::new(),
            existing_issues: Vec::new(),
            symbol_references: SymbolReferences::new(),
        }
    }
}

/// A kept symbol without a member that is neither invalid nor partially invalid.
pub open spec fn is_safe_symbol(
    keep: Seq<(StrId, StrId)>,
    invalid: Seq<(StrId, StrId)>,
    partially_invalid: Seq<StrId>,
    s: StrId,
) -> bool {
    keep.contains((s, STR_EMPTY)) && !invalid.contains((s, STR_EMPTY)) && !partially_invalid.contains(s)
}

/// A kept symbol with a member that is not invalid.
pub open spec fn is_safe_member(keep: Seq<(StrId, StrId)>, invalid: Seq<(StrId, StrId)>, m: (StrId, StrId)) -> bool {
    keep.contains(m) && m.1 != STR_EMPTY && !invalid.contains(m)
}

/// A file that failed to scan, or that declares an invalid or partially
/// invalid symbol.
pub open spec fn is_invalid_file(
    declarations: Seq<(FilePath, Vec<StrId>)>,
    scanned: Seq<FilePath>,
    invalid: Seq<(StrId, StrId)>,
    partially_invalid: Seq<StrId>,
    f: FilePath,
) -> bool {
    ||| scanned.contains(f)
    ||| exists|i: int, j: int|
        0 <= i < declarations.len() && declarations[i].0 == f && 0 <= j < declarations[i].1@.len()
            && (invalid.contains((#[trigger] declarations[i].1@[j], STR_EMPTY)) || partially_invalid.contains(
            declarations[i].1@[j],
        ))
}

proof fn lemma_take_push_contains<A>(s: Seq<A>, i: int, x: A)
    requires
        0 <= i < s.len(),
    ensures
        s.take(i + 1).contains(x) <==> (s.take(i).contains(x) || s[i] == x),
{
    {
        if s.take(i + 1).contains(x) {
            let q = choose|q: int| 0 <= q < i + 1 && #[trigger] s.take(i + 1)[q] == x;
            if q < i {
                assert(s.take(i)[q] == x);
            }
        }
        if s.take(i).contains(x) {
            let q = choose|q: int| 0 <= q < i && #[trigger] s.take(i)[q] == x;
            assert(s.take(i + 1)[q] == x);
        }
        if s[i] == x {
            assert(s.take(i + 1)[i] == x);
        }
    }
}

proof fn lemma_push_contains<A>(s: Seq<A>, v: A, x: A)
    ensures
        s.push(v).contains(x) <==> (s.contains(x) || x == v),
{
    {
        if s.push(v).contains(x) {
            let q = choose|q: int| 0 <= q < s.len() + 1 && #[trigger] s.push(v)[q] == x;
            if q < s.len() {
                assert(s[q] == x);
            }
        }
        if s.contains(x) {
            let q = choose|q: int| 0 <= q < s.len() && #[trigger] s[q] == x;
            assert(s.push(v)[q] == x);
        }
        if x == v {
            assert(s.push(v)[s.len() as int] == x);
        }
    }
}

fn id_listed(ids: &Vec<StrId>, s: StrId) -> (r: bool)
    ensures
        r == ids@.contains(s),
{
    let mut i: usize = 0;
    while i < ids.len()
        invariant
            i <= ids@.len(),
            forall|j: int| 0 <= j < i ==> ids@[j] != s,
        decreases ids@.len() - i,
    {
        if ids[i] == s {
            assert(ids@[i as int] == s);
            return true;
        }
        i = i + 1;
    }
    false
}

fn file_listed(files: &Vec<FilePath>, f: FilePath) -> (r: bool)
    ensures
        r == files@.contains(f),
{
    let mut i: usize = 0;
    while i < files.len()
        invariant
            i <= files@.len(),
            forall|j: int| 0 <= j < i ==> files@[j] != f,
        decreases files@.len() - i,
    {
        if files[i].0 == f.0 {
            assert(files@[i as int] == f);
            return true;
        }
        i = i + 1;
    }
    false
}

fn file_is_invalid(
    declarations: &Vec<(FilePath, Vec<StrId>)>,
    scanned: &Vec<FilePath>,
    invalid: &Vec<(StrId, StrId)>,
    partially_invalid: &Vec<StrId>,
    f: FilePath,
) -> (r: bool)
    ensures
        r == is_invalid_file(declarations@, scanned@, invalid@, partially_invalid@, f),
{
    if file_listed(scanned, f) {
        return true;
    }
    let mut i: usize = 0;
    while i < declarations.len()
        invariant
            i <= declarations@.len(),
            !scanned@.contains(f),
            forall|a: int, b: int|
                0 <= a < i && declarations@[a].0 == f && 0 <= b < declarations@[a].1@.len() ==> !(
                invalid@.contains((#[trigger] declarations@[a].1@[b], STR_EMPTY))
                    || partially_invalid@.contains(declarations@[a].1@[b])),
        decreases declarations@.len() - i,
    {
        if declarations[i].0.0 == f.0 {
            let names = &declarations[i].1;
            let mut j: usize = 0;
            while j < names.len()
                invariant
                    j <= names@.len(),
                    i < declarations@.len(),
                    names == declarations@[i as int].1,
                    declarations@[i as int].0 == f,
                    forall|b: int| 0 <= b < j ==> !(invalid@.contains((#[trigger] names@[b], STR_EMPTY))
                        || partially_invalid@.contains(names@[b])),
                decreases names@.len() - j,
            {
                if symbol_listed(invalid, (names[j], STR_EMPTY)) || id_listed(partially_invalid, names[j]) {
                    return true;
                }
                j = j + 1;
            }
        }
        i = i + 1;
    }
    false
}

/// Decides what of a cached analysis can be reused after `codebase_diff`.
/// With no cached analysis, or when the references index declined to name
/// the invalid symbols (`None`), nothing is reused. Otherwise: kept symbols
/// that stayed valid are safe; references from invalid symbols are dropped;
/// `files_to_analyze` keeps only files that failed to scan or declare an
/// invalid or partially invalid symbol; cached issues are updated for the diff.
pub fn mark_safe_symbols_from_diff(
    codebase_diff: CodebaseDiff,
    file_declarations: &Vec<(FilePath, Vec<StrId>)>,
    invalid_scanned_files: &Vec<FilePath>,
    files_to_analyze: &mut Vec<FilePath>,
    previous_analysis: Option<(SymbolReferences, Vec<(FilePath, Vec<Issue>)>)>,
    invalid_symbols: Option<(Vec<(StrId, StrId)>, Vec<StrId>)>,
) -> (r: CachedAnalysis)
    requires
        codebase_diff.wf(),
    ensures
        previous_analysis is None || invalid_symbols is None ==> r.reuses_nothing(),
        previous_analysis is None || invalid_symbols is None ==> final(files_to_analyze)@ == old(files_to_analyze)@,
        previous_analysis is Some && invalid_symbols is Some ==> ({
            let (invalid, partial) = invalid_symbols->0;
            let (refs, issues) = previous_analysis->0;
            &&& forall|s: StrId| r.safe_symbols@.contains(s) <==> is_safe_symbol(
                codebase_diff.keep@,
                invalid@,
                partial@,
                s,
            )
            &&& forall|m: (StrId, StrId)| r.safe_symbol_members@.contains(m) <==> is_safe_member(
                codebase_diff.keep@,
                invalid@,
                m,
            )
            &&& r.symbol_references.references@ == filter_map(
                refs.references@,
                |e: ((StrId, StrId), Vec<(StrId, StrId)>)|
                    if invalid@.contains(e.0) {
                        None
                    } else {
                        Some(e)
                    },
            )
            &&& final(files_to_analyze)@ == filter_map(
                old(files_to_analyze)@,
                |f: FilePath|
                    if is_invalid_file(
                        file_declarations@,
                        invalid_scanned_files@,
                        invalid@,
                        partial@,
                        f,
                    ) {
                        Some(f)
                    } else {
                        None
                    },
            )
            &&& r.existing_issues@.len() == issues@.len()
            &&& forall|k: int|
                0 <= k < issues@.len() ==> (#[trigger] r.existing_issues@[k]).0 == issues@[k].0
                    && r.existing_issues@[k].1@ == updated_issues(
                    issues@[k].0,
                    issues@[k].1@,
                    codebase_diff,
                    invalid@,
                )
        }),
{
    let (existing_references, mut existing_issues) = match previous_analysis {
        Some(p) => p,
        None => {
            return CachedAnalysis::nothing();
        },
    };
    let (invalid, partially_invalid) = match invalid_symbols {
        Some(i) => i,
        None => {
            return CachedAnalysis::nothing();
        },
    };
    let ghost keep = codebase_diff.keep@;
    let mut safe_symbols: Vec<StrId> = Vec::new();
    let mut safe_symbol_members: Vec<(StrId, StrId)> = Vec::new();
    let mut i: usize = 0;
    while i < codebase_diff.keep.len()
        invariant
            i <= keep.len(),
            keep == codebase_diff.keep@,
            forall|s: StrId| safe_symbols@.contains(s) <==> is_safe_symbol(
                keep.take(i as int),
                invalid@,
                partially_invalid@,
                s,
            ),
            forall|m: (StrId, StrId)| safe_symbol_members@.contains(m) <==> is_safe_member(
                keep.take(i as int),
                invalid@,
                m,
            ),
        decreases keep.len() - i,
    {
        let keep_symbol = codebase_diff.keep[i];
        let ghost before_s = safe_symbols@;
        let ghost before_m = safe_symbol_members@;
        let valid = !symbol_listed(&invalid, keep_symbol);
        if valid && keep_symbol.1 == STR_EMPTY {
            if !id_listed(&partially_invalid, keep_symbol.0) && !id_listed(
                &safe_symbols,
                keep_symbol.0,
            ) {
                safe_symbols.push(keep_symbol.0);
            }
        } else if valid && !symbol_listed(&safe_symbol_members, keep_symbol) {
            safe_symbol_members.push(keep_symbol);
        }
        proof {
            assert forall|s: StrId| safe_symbols@.contains(s) <==> is_safe_symbol(
                keep.take(i + 1),
                invalid@,
                partially_invalid@,
                s,
            ) by {
                lemma_take_push_contains(keep, i as int, (s, STR_EMPTY));
                lemma_push_contains(before_s, keep_symbol.0, s);
                if keep_symbol.0 == s && keep_symbol.1 == STR_EMPTY {
                    assert(keep_symbol == (s, STR_EMPTY));
                } else {
                    assert(keep_symbol != (s, STR_EMPTY));
                }
            }
            assert forall|m: (StrId, StrId)| safe_symbol_members@.contains(m) <==> is_safe_member(
                keep.take(i + 1),
                invalid@,
                m,
            ) by {
                lemma_take_push_contains(keep, i as int, m);
                lemma_push_contains(before_m, keep_symbol, m);
                if keep_symbol == m {
                    assert(keep_symbol.1 == m.1);
                }
            }
        }
        i = i + 1;
    }
    assert(keep.take(i as int) =~= keep);
    let mut symbol_references = existing_references;
    symbol_references.remove_references_from_invalid_symbols(&invalid);
    let ghost fta = files_to_analyze@;
    let ghost keep_file = |f: FilePath|
        if is_invalid_file(
            file_declarations@,
            invalid_scanned_files@,
            invalid@,
            partially_invalid@,
            f,
        ) {
            Some(f)
        } else {
            None
        };
    let mut retained: Vec<FilePath> = Vec::new();
    let mut j: usize = 0;
    assert(fta.take(0) =~= Seq::<FilePath>::empty());
    while j < files_to_analyze.len()
        invariant
            j <= fta.len(),
            fta == files_to_analyze@,
            keep_file == (|f: FilePath|
                if is_invalid_file(
                    file_declarations@,
                    invalid_scanned_files@,
                    invalid@,
                    partially_invalid@,
                    f,
                ) {
                    Some(f)
                } else {
                    None
                }),
            retained@ == filter_map(fta.take(j as int), keep_file),
        decreases fta.len() - j,
    {
        let f = files_to_analyze[j];
        assert(fta.take(j + 1).drop_last() =~= fta.take(j as int));
        if file_is_invalid(file_declarations, invalid_scanned_files, &invalid, &partially_invalid, f) {
            retained.push(f);
        }
        j = j + 1;
    }
    assert(fta.take(j as int) =~= fta);
    *files_to_analyze = retained;
    update_issues_from_diff(&mut existing_issues, &codebase_diff, &invalid);
    CachedAnalysis { safe_symbols, safe_symbol_members, existing_issues, symbol_references }
}

} // verus!
