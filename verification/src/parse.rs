use vstd::prelude::*;
use crate::token::Tok;
use crate::token::is_sym_tok;

verus! {

// The comprehension grammar over a token stream:
//
//     comprehension:  mapping  for_if_clause
//     mapping:        expression
//     for_if_clause:  'for' pattern 'in' expression ('if' expression)*
//
// Parsing of the embedded host expressions and patterns is delegated to a
// sub-parser.  Here that delegate recognizes an expression or pattern as a
// maximal nonempty run of symbol tokens: every host construct the grammar
// does not read arrives as opaque symbols, and a run ends exactly where one
// of the grammar's own keywords (or the end of input) begins.

/// The identifier carried by a symbol token (immaterial on keywords).
pub open spec fn sym_id(t: Tok) -> u64 {
    match t {
        Tok::Sym(id) => id,
        _ => 0,
    }
}

/// The first position at or after `i` that does not hold a symbol token (or
/// the end of input).  The half-open range `[i, run_end(t, i))` is the
/// maximal symbol run at `i`: what the expression/pattern sub-parser
/// consumes when invoked at `i`.
pub open spec fn run_end(t: Seq<Tok>, i: int) -> int
    decreases t.len() - i,
{
    if i < t.len() && t[i] is Sym {
        run_end(t, i + 1)
    } else {
        i
    }
}

pub proof fn lemma_run_end(t: Seq<Tok>, i: int)
    requires
        0 <= i <= t.len(),
    ensures
        i <= run_end(t, i) <= t.len(),
        forall|j: int| i <= j < run_end(t, i) ==> t[j] is Sym,
        run_end(t, i) < t.len() ==> !(t[run_end(t, i)] is Sym),
    decreases t.len() - i,
{
    if i < t.len() && t[i] is Sym {
        lemma_run_end(t, i + 1);
    }
}

/// The identifiers of the symbol tokens in `t[i .. j]`.
pub open spec fn seg_ids(t: Seq<Tok>, i: int, j: int) -> Seq<u64> {
    t.subrange(i, j).map_values(|tk: Tok| sym_id(tk))
}

// ---------------------------------------------------------------------------
// Grammar positions and well-formedness, stated over the token sequence.
// ---------------------------------------------------------------------------

/// Where the mapping expression ends: the sub-parser runs from position 0.
pub open spec fn mapping_end(t: Seq<Tok>) -> int {
    run_end(t, 0)
}

/// A mapping expression is present: the leading run is nonempty.
pub open spec fn mapping_ok(t: Seq<Tok>) -> bool {
    mapping_end(t) > 0
}

// A for..if clause parsed at position `i` (where the `for` keyword is
// expected).  Each `cl_` function builds on the previous ones.

/// The `for` keyword stands at `i`.
pub open spec fn cl_for_ok(t: Seq<Tok>, i: int) -> bool {
    0 <= i < t.len() && t[i] == Tok::KwFor
}

/// Where the binding pattern ends: the pattern sub-parser runs after `for`.
pub open spec fn cl_pat_end(t: Seq<Tok>, i: int) -> int {
    run_end(t, i + 1)
}

/// A binding pattern follows the `for` keyword.
pub open spec fn cl_pat_ok(t: Seq<Tok>, i: int) -> bool {
    cl_for_ok(t, i) && cl_pat_end(t, i) > i + 1
}

/// The `in` keyword follows the pattern.
pub open spec fn cl_in_ok(t: Seq<Tok>, i: int) -> bool {
    cl_pat_ok(t, i) && cl_pat_end(t, i) < t.len() && t[cl_pat_end(t, i)] == Tok::KwIn
}

/// Where the sequence expression starts and ends.
pub open spec fn cl_seq_start(t: Seq<Tok>, i: int) -> int {
    cl_pat_end(t, i) + 1
}

pub open spec fn cl_seq_end(t: Seq<Tok>, i: int) -> int {
    run_end(t, cl_seq_start(t, i))
}

/// The whole clause up to its sequence expression is well-formed.
pub open spec fn clause_ok(t: Seq<Tok>, i: int) -> bool {
    cl_in_ok(t, i) && cl_seq_end(t, i) > cl_seq_start(t, i)
}

// The guard repetition.  At position `i`: an `if` keyword followed by a
// nonempty expression run is one more guard; an `if` keyword whose
// expression run is empty is consumed and ends the repetition (the probe
// committed to the keyword before the sub-parse failed); anything else ends
// the repetition with nothing consumed.

/// One guard can be parsed at `i`.
pub open spec fn guard_here(t: Seq<Tok>, i: int) -> bool {
    0 <= i < t.len() && t[i] == Tok::KwIf && run_end(t, i + 1) > i + 1
}

/// Where a failed probe at `i` leaves the cursor.
pub open spec fn probe_stop(t: Seq<Tok>, i: int) -> int {
    if 0 <= i < t.len() && t[i] == Tok::KwIf {
        i + 1
    } else {
        i
    }
}

/// Where the guard repetition started at `i` leaves the cursor.
pub open spec fn guards_end(t: Seq<Tok>, i: int) -> int
    decreases t.len() - i,
    via guards_end_decreases
{
    if guard_here(t, i) {
        guards_end(t, run_end(t, i + 1))
    } else {
        probe_stop(t, i)
    }
}

#[via_fn]
proof fn guards_end_decreases(t: Seq<Tok>, i: int) {
    if guard_here(t, i) {
        lemma_run_end(t, i + 1);
    }
}

/// The guard expressions collected by the repetition started at `i`, in
/// source order.
pub open spec fn guards_list(t: Seq<Tok>, i: int) -> Seq<Seq<u64>>
    decreases t.len() - i,
    via guards_list_decreases
{
    if guard_here(t, i) {
        seq![seg_ids(t, i + 1, run_end(t, i + 1))] + guards_list(t, run_end(t, i + 1))
    } else {
        Seq::empty()
    }
}

#[via_fn]
proof fn guards_list_decreases(t: Seq<Tok>, i: int) {
    if guard_here(t, i) {
        lemma_run_end(t, i + 1);
    }
}

// ---------------------------------------------------------------------------
// The parsed views: what a successful parse denotes.
// ---------------------------------------------------------------------------

/// The view of a parsed for..if clause: the three embedded pieces, each as
/// the identifiers of its symbol run.
pub ghost struct ClauseView {
    pub pattern: Seq<u64>,
    pub sequence: Seq<u64>,
    pub conditions: Seq<Seq<u64>>,
}

/// The view of a parsed comprehension.
pub ghost struct CompView {
    pub mapping: Seq<u64>,
    pub clause: ClauseView,
}

/// The clause denoted by a well-formed parse at position `i`.
pub open spec fn parsed_clause(t: Seq<Tok>, i: int) -> ClauseView {
    ClauseView {
        pattern: seg_ids(t, i + 1, cl_pat_end(t, i)),
        sequence: seg_ids(t, cl_seq_start(t, i), cl_seq_end(t, i)),
        conditions: guards_list(t, cl_seq_end(t, i)),
    }
}

/// Where a clause parse started at `i` leaves the cursor.
pub open spec fn clause_end(t: Seq<Tok>, i: int) -> int {
    guards_end(t, cl_seq_end(t, i))
}

/// The whole input begins with a well-formed comprehension.
pub open spec fn comp_ok(t: Seq<Tok>) -> bool {
    mapping_ok(t) && clause_ok(t, mapping_end(t))
}

/// The comprehension denoted by a well-formed parse of `t`.
pub open spec fn parsed(t: Seq<Tok>) -> CompView {
    CompView {
        mapping: seg_ids(t, 0, mapping_end(t)),
        clause: parsed_clause(t, mapping_end(t)),
    }
}

/// Where the comprehension parse leaves the cursor.
pub open spec fn parse_end(t: Seq<Tok>) -> int {
    clause_end(t, mapping_end(t))
}

// ---------------------------------------------------------------------------
// Errors: which construct was missing, and where.
// ---------------------------------------------------------------------------

/// The construct a failed parse was looking for.
#[derive(Clone, Copy, PartialEq, Eq, Structural, Debug)]
pub enum Expected {
    MappingExpr,
    ForKeyword,
    BindingPattern,
    InKeyword,
    SequenceExpr,
}

/// A structural parse failure: the position of the offending token (or the
/// end of input) and the construct expected there.
#[derive(Clone, Copy, PartialEq, Eq, Structural, Debug)]
pub struct SyntaxError {
    pub pos: usize,
    pub expected: Expected,
}

/// The error a clause parse started at `i` reports when `clause_ok` fails:
/// the first requirement not met decides.
pub open spec fn clause_error(t: Seq<Tok>, i: int) -> SyntaxError {
    if !cl_for_ok(t, i) {
        SyntaxError { pos: i as usize, expected: Expected::ForKeyword }
    } else if !cl_pat_ok(t, i) {
        SyntaxError { pos: (i + 1) as usize, expected: Expected::BindingPattern }
    } else if !cl_in_ok(t, i) {
        SyntaxError { pos: cl_pat_end(t, i) as usize, expected: Expected::InKeyword }
    } else {
        SyntaxError { pos: cl_seq_start(t, i) as usize, expected: Expected::SequenceExpr }
    }
}

/// The error a comprehension parse of `t` reports when `comp_ok` fails.
pub open spec fn comp_error(t: Seq<Tok>) -> SyntaxError {
    if !mapping_ok(t) {
        SyntaxError { pos: 0, expected: Expected::MappingExpr }
    } else {
        clause_error(t, mapping_end(t))
    }
}

// ---------------------------------------------------------------------------
// The abstract syntax tree.
// ---------------------------------------------------------------------------

/// The mapping expression: the value produced per accepted element.
pub struct Mapping {
    pub expr: Vec<u64>,
}

impl View for Mapping {
    type V = Seq<u64>;

    open spec fn view(&self) -> Seq<u64> {
        self.expr@
    }
}

/// The binding pattern of the clause.
pub struct Pattern {
    pub pat: Vec<u64>,
}

impl View for Pattern {
    type V = Seq<u64>;

    open spec fn view(&self) -> Seq<u64> {
        self.pat@
    }
}

/// One guard: an `if`-introduced expression.
pub struct Condition {
    pub expr: Vec<u64>,
}

impl View for Condition {
    type V = Seq<u64>;

    open spec fn view(&self) -> Seq<u64> {
        self.expr@
    }
}

/// The `for pattern in sequence (if guard)*` clause.
pub struct ForIfClause {
    pub pattern: Pattern,
    pub sequence: Vec<u64>,
    pub conditions: Vec<Condition>,
}

/// The views of a sequence of conditions, in order.
pub open spec fn conds_view(cs: Seq<Condition>) -> Seq<Seq<u64>> {
    Seq::new(cs.len(), |i: int| cs[i]@)
}

impl View for ForIfClause {
    type V = ClauseView;

    open spec fn view(&self) -> ClauseView {
        ClauseView {
            pattern: self.pattern@,
            sequence: self.sequence@,
            conditions: conds_view(self.conditions@),
        }
    }
}

/// The whole parsed comprehension: one mapping, one clause.
pub struct Comprehension {
    pub mapping: Mapping,
    pub for_if_clause: ForIfClause,
}

impl View for Comprehension {
    type V = CompView;

    open spec fn view(&self) -> CompView {
        CompView {
            mapping: self.mapping@,
            clause: self.for_if_clause@,
        }
    }
}

// ---------------------------------------------------------------------------
// The executable parser.
// ---------------------------------------------------------------------------

/// The expression/pattern sub-parser: consume the maximal symbol run at
/// `pos` and report where it ended.
fn scan_run(toks: &Vec<Tok>, pos: usize) -> (end: usize)
    requires
        pos <= toks@.len(),
    ensures
        end == run_end(toks@, pos as int),
        pos <= end <= toks@.len(),
{
    let mut i: usize = pos;
    while i < toks.len() && is_sym_tok(&toks[i])
        invariant
            pos <= i <= toks@.len(),
            run_end(toks@, i as int) == run_end(toks@, pos as int),
        decreases toks@.len() - i,
    {
        i = i + 1;
    }
    proof {
        lemma_run_end(toks@, pos as int);
    }
    i
}

/// Collect the identifiers of the symbol run `toks[start .. end]`.
fn collect_ids(toks: &Vec<Tok>, start: usize, end: usize) -> (ids: Vec<u64>)
    requires
        start <= end <= toks@.len(),
    ensures
        ids@ == seg_ids(toks@, start as int, end as int),
{
    let mut ids: Vec<u64> = Vec::new();
    let mut i: usize = start;
    while i < end
        invariant
            start <= i <= end <= toks@.len(),
            ids@ == seg_ids(toks@, start as int, i as int),
        decreases end - i,
    {
        let id = match toks[i] {
            Tok::Sym(id) => id,
            _ => 0,
        };
        ids.push(id);
        proof {
            assert(seg_ids(toks@, start as int, i + 1 as int) =~= seg_ids(
                toks@,
                start as int,
                i as int,
            ).push(sym_id(toks@[i as int])));
        }
        i = i + 1;
    }
    proof {
        assert(ids@ =~= seg_ids(toks@, start as int, end as int));
    }
    ids
}

/// Delegate parse of one embedded expression or pattern at `pos`: the
/// maximal symbol run there, which must be nonempty.  `missing` names the
/// construct for the error when it is empty.
fn parse_run(toks: &Vec<Tok>, pos: usize, missing: Expected) -> (r: Result<
    (Vec<u64>, usize),
    SyntaxError,
>)
    requires
        pos <= toks@.len(),
    ensures
        match r {
            Ok((ids, end)) => {
                &&& run_end(toks@, pos as int) > pos as int
                &&& end == run_end(toks@, pos as int)
                &&& end <= toks@.len()
                &&& ids@ == seg_ids(toks@, pos as int, end as int)
            },
            Err(e) => {
                &&& run_end(toks@, pos as int) == pos as int
                &&& e == (SyntaxError { pos, expected: missing })
            },
        },
{
    let end = scan_run(toks, pos);
    if end == pos {
        Err(SyntaxError { pos, expected: missing })
    } else {
        let ids = collect_ids(toks, pos, end);
        Ok((ids, end))
    }
}

impl Mapping {
    /// Parse the leading mapping expression.
    pub fn parse(toks: &Vec<Tok>, pos: usize) -> (r: Result<(Mapping, usize), SyntaxError>)
        requires
            pos <= toks@.len(),
        ensures
            match r {
                Ok((m, end)) => {
                    &&& run_end(toks@, pos as int) > pos as int
                    &&& end == run_end(toks@, pos as int)
                    &&& end <= toks@.len()
                    &&& m@ == seg_ids(toks@, pos as int, end as int)
                },
                Err(e) => {
                    &&& run_end(toks@, pos as int) == pos as int
                    &&& e == (SyntaxError { pos, expected: Expected::MappingExpr })
                },
            },
    {
        match parse_run(toks, pos, Expected::MappingExpr) {
            Ok((ids, end)) => Ok((Mapping { expr: ids }, end)),
            Err(e) => Err(e),
        }
    }
}

impl Pattern {
    /// Parse one binding pattern (delegated to the pattern sub-parser).
    pub fn parse(toks: &Vec<Tok>, pos: usize) -> (r: Result<(Pattern, usize), SyntaxError>)
        requires
            pos <= toks@.len(),
        ensures
            match r {
                Ok((p, end)) => {
                    &&& run_end(toks@, pos as int) > pos as int
                    &&& end == run_end(toks@, pos as int)
                    &&& end <= toks@.len()
                    &&& p@ == seg_ids(toks@, pos as int, end as int)
                },
                Err(e) => {
                    &&& run_end(toks@, pos as int) == pos as int
                    &&& e == (SyntaxError { pos, expected: Expected::BindingPattern })
                },
            },
    {
        match parse_run(toks, pos, Expected::BindingPattern) {
            Ok((ids, end)) => Ok((Pattern { pat: ids }, end)),
            Err(e) => Err(e),
        }
    }
}

impl Condition {
    /// Probe for one `if expression` guard at `pos`.  `Err(stop)` means the
    /// repetition ends, with the cursor left at `stop`: past a lone `if`
    /// whose expression was missing (the probe had committed to the
    /// keyword), otherwise at `pos` itself.
    pub fn parse(toks: &Vec<Tok>, pos: usize) -> (r: Result<(Condition, usize), usize>)
        requires
            pos <= toks@.len(),
        ensures
            match r {
                Ok((c, end)) => {
                    &&& guard_here(toks@, pos as int)
                    &&& end == run_end(toks@, pos + 1 as int)
                    &&& end <= toks@.len()
                    &&& c@ == seg_ids(toks@, pos + 1 as int, end as int)
                },
                Err(stop) => {
                    &&& !guard_here(toks@, pos as int)
                    &&& stop == probe_stop(toks@, pos as int)
                    &&& pos <= stop <= toks@.len()
                },
            },
    {
        if pos < toks.len() && toks[pos] == Tok::KwIf {
            let end = scan_run(toks, pos + 1);
            if end == pos + 1 {
                Err(pos + 1)
            } else {
                let ids = collect_ids(toks, pos + 1, end);
                Ok((Condition { expr: ids }, end))
            }
        } else {
            Err(pos)
        }
    }
}

/// The guard repetition: parse conditions until a probe fails, swallowing
/// the failed probe rather than propagating it.
pub fn parse_zero_or_more(toks: &Vec<Tok>, pos: usize) -> (r: (Vec<Condition>, usize))
    requires
        pos <= toks@.len(),
    ensures
        conds_view(r.0@) == guards_list(toks@, pos as int),
        r.1 == guards_end(toks@, pos as int),
        pos <= r.1 <= toks@.len(),
{
    let mut conds: Vec<Condition> = Vec::new();
    let mut i: usize = pos;
    loop
        invariant
            pos <= i <= toks@.len(),
            guards_end(toks@, pos as int) == guards_end(toks@, i as int),
            guards_list(toks@, pos as int) =~= conds_view(conds@) + guards_list(
                toks@,
                i as int,
            ),
        ensures
            pos <= i <= toks@.len(),
            !guard_here(toks@, i as int),
            guards_end(toks@, pos as int) == probe_stop(toks@, i as int),
            guards_list(toks@, pos as int) == conds_view(conds@),
        decreases toks@.len() - i,
    {
        match Condition::parse(toks, i) {
            Ok((c, end)) => {
                proof {
                    assert(conds_view(conds@.push(c)) =~= conds_view(conds@).push(c@));
                    assert(guards_list(toks@, pos as int) =~= conds_view(conds@.push(c))
                        + guards_list(toks@, end as int));
                }
                conds.push(c);
                proof {
                    lemma_run_end(toks@, i + 1 as int);
                }
                i = end;
            },
            Err(_) => {
                proof {
                    assert(guards_list(toks@, i as int) =~= Seq::<Seq<u64>>::empty());
                    assert(guards_list(toks@, pos as int) =~= conds_view(conds@));
                }
                break;
            },
        }
    }
    let stop = if i < toks.len() && toks[i] == Tok::KwIf {
        i + 1
    } else {
        i
    };
    (conds, stop)
}

impl ForIfClause {
    /// Parse one `for pattern in sequence (if guard)*` clause at `pos`.
    pub fn parse(toks: &Vec<Tok>, pos: usize) -> (r: Result<(ForIfClause, usize), SyntaxError>)
        requires
            pos <= toks@.len(),
        ensures
            match r {
                Ok((c, end)) => {
                    &&& clause_ok(toks@, pos as int)
                    &&& c@ == parsed_clause(toks@, pos as int)
                    &&& end == clause_end(toks@, pos as int)
                    &&& pos <= end <= toks@.len()
                },
                Err(e) => {
                    &&& !clause_ok(toks@, pos as int)
                    &&& e == clause_error(toks@, pos as int)
                },
            },
    {
        if !(pos < toks.len() && toks[pos] == Tok::KwFor) {
            return Err(SyntaxError { pos, expected: Expected::ForKeyword });
        }
        let (pattern, pat_end) = match Pattern::parse(toks, pos + 1) {
            Ok(p) => p,
            Err(e) => {
                return Err(e);
            },
        };
        if !(pat_end < toks.len() && toks[pat_end] == Tok::KwIn) {
            return Err(SyntaxError { pos: pat_end, expected: Expected::InKeyword });
        }
        let (sequence, seq_end) = match parse_run(toks, pat_end + 1, Expected::SequenceExpr) {
            Ok(s) => s,
            Err(e) => {
                return Err(e);
            },
        };
        let (conditions, end) = parse_zero_or_more(toks, seq_end);
        Ok((ForIfClause { pattern, sequence, conditions }, end))
    }
}

impl Comprehension {
    /// Parse one whole comprehension from the start of the stream: a
    /// mapping expression immediately followed by exactly one clause.
    /// Tokens past the clause's last guard are not consumed.
    pub fn parse(toks: &Vec<Tok>) -> (r: Result<(Comprehension, usize), SyntaxError>)
        ensures
            match r {
                Ok((c, end)) => {
                    &&& comp_ok(toks@)
                    &&& c@ == parsed(toks@)
                    &&& end == parse_end(toks@)
                    &&& end <= toks@.len()
                },
                Err(e) => {
                    &&& !comp_ok(toks@)
                    &&& e == comp_error(toks@)
                },
            },
    {
        let (mapping, m_end) = match Mapping::parse(toks, 0) {
            Ok(m) => m,
            Err(e) => {
                return Err(e);
            },
        };
        match ForIfClause::parse(toks, m_end) {
            Ok((for_if_clause, end)) => Ok((Comprehension { mapping, for_if_clause }, end)),
            Err(e) => Err(e),
        }
    }
}

} // verus!
