//! The run controller and the sink model.
//!
//! The controller is a state machine from phase and event to next phase and
//! action; the surrounding program performs the actions (connect, count,
//! truncate, read, insert) and reports the outcomes back as events. The sink
//! is modeled as the operation list a run issues: one truncate, then one
//! insert per surviving row.

use vstd::prelude::*;
use crate::record::LineError;
use crate::record::StoredModel;
use crate::record::StoredRow;
use crate::record::process_line;
use crate::record::spec_line_outcome;
use crate::record::stored_model;

verus! {

/// Phases of a run, in order. A fatal condition in any phase aborts.
#[derive(Clone, Copy, Debug, PartialEq, Eq, Structural)]
pub enum Phase {
    /// Acquiring destination connectivity.
    Init,
    /// Pre-scanning the source to count its lines.
    Counting,
    /// Truncating the destination table.
    Loading,
    /// Processing the source line by line.
    Streaming,
    /// Normal completion.
    Done,
    /// Fatal condition: the process exits non-zero.
    Aborted,
}

/// What the outside world reports back to the controller.
#[derive(Clone, Copy, Debug, PartialEq, Eq, Structural)]
pub enum Event {
    ConnReady,
    ConnFailed,
    CountDone(usize),
    CountFailed,
    TruncateDone,
    TruncateFailed,
    /// The source file could not be reopened for the streaming pass.
    SourceOpenFailed,
    /// One line was read and handled: parsed and either persisted, skipped
    /// as stale, or its per-row insert failure reported.
    LineHandled,
    SourceExhausted,
}

/// What the controller asks the outside world to do next.
#[derive(Clone, Copy, Debug, PartialEq, Eq, Structural)]
pub enum Action {
    CountLines,
    Truncate,
    ReadLine,
    ExitOk,
    ExitFail,
}

/// The controller's whole state: the phase, the pre-counted line total
/// (never re-derived mid-run) and the monotonic processed count.
#[derive(Clone, Copy, Debug, PartialEq, Eq, Structural)]
pub struct RunState {
    pub phase: Phase,
    pub total_lines: usize,
    pub processed: usize,
}

/// The initial state: connectivity is acquired first, and its outcome is the
/// first event.
pub open spec fn spec_initial_state() -> RunState {
    RunState { phase: Phase::Init, total_lines: 0, processed: 0 }
}

pub fn initial_state() -> (r: RunState)
    ensures
        r == spec_initial_state(),
{
    RunState { phase: Phase::Init, total_lines: 0, processed: 0 }
}

/// The transition relation. Every failure event aborts; an event that does
/// not belong to the current phase is a protocol violation and aborts too.
/// `LineHandled` increments the processed count whether the record was
/// persisted or skipped.
pub open spec fn spec_step(s: RunState, e: Event) -> (RunState, Action) {
    match (s.phase, e) {
        (Phase::Init, Event::ConnReady) => (
            RunState { phase: Phase::Counting, total_lines: s.total_lines, processed: s.processed },
            Action::CountLines,
        ),
        (Phase::Counting, Event::CountDone(n)) => (
            RunState { phase: Phase::Loading, total_lines: n, processed: 0 },
            Action::Truncate,
        ),
        (Phase::Loading, Event::TruncateDone) => (
            RunState { phase: Phase::Streaming, total_lines: s.total_lines, processed: s.processed },
            Action::ReadLine,
        ),
        (Phase::Streaming, Event::LineHandled) => (
            RunState {
                phase: Phase::Streaming,
                total_lines: s.total_lines,
                processed: (s.processed + 1) as usize,
            },
            Action::ReadLine,
        ),
        (Phase::Streaming, Event::SourceExhausted) => (
            RunState { phase: Phase::Done, total_lines: s.total_lines, processed: s.processed },
            Action::ExitOk,
        ),
        _ => (
            RunState { phase: Phase::Aborted, total_lines: s.total_lines, processed: s.processed },
            Action::ExitFail,
        ),
    }
}

pub fn step(s: &RunState, e: &Event) -> (r: (RunState, Action))
    requires
        s.phase == Phase::Streaming && *e == Event::LineHandled ==> s.processed < usize::MAX,
    ensures
        r == spec_step(*s, *e),
{
    match (s.phase, *e) {
        (Phase::Init, Event::ConnReady) => (
            RunState { phase: Phase::Counting, total_lines: s.total_lines, processed: s.processed },
            Action::CountLines,
        ),
        (Phase::Counting, Event::CountDone(n)) => (
            RunState { phase: Phase::Loading, total_lines: n, processed: 0 },
            Action::Truncate,
        ),
        (Phase::Loading, Event::TruncateDone) => (
            RunState { phase: Phase::Streaming, total_lines: s.total_lines, processed: s.processed },
            Action::ReadLine,
        ),
        (Phase::Streaming, Event::LineHandled) => (
            RunState {
                phase: Phase::Streaming,
                total_lines: s.total_lines,
                processed: s.processed + 1,
            },
            Action::ReadLine,
        ),
        (Phase::Streaming, Event::SourceExhausted) => (
            RunState { phase: Phase::Done, total_lines: s.total_lines, processed: s.processed },
            Action::ExitOk,
        ),
        _ => (
            RunState { phase: Phase::Aborted, total_lines: s.total_lines, processed: s.processed },
            Action::ExitFail,
        ),
    }
}

/// Streaming is only reachable through a completed truncate: from the
/// initial state, any event sequence that never passes `TruncateDone` leaves
/// the controller short of the streaming phase.
pub proof fn lemma_no_truncate_no_streaming(s: RunState, e: Event)
    requires
        s.phase != Phase::Streaming,
        e != Event::TruncateDone,
    ensures
        spec_step(s, e).0.phase != Phase::Streaming,
{
}

/// A failure event aborts from every phase, and the action is a non-zero
/// exit.
pub proof fn lemma_failure_aborts(s: RunState, e: Event)
    requires
        e == Event::ConnFailed || e == Event::CountFailed || e == Event::TruncateFailed
            || e == Event::SourceOpenFailed,
    ensures
        spec_step(s, e).0.phase == Phase::Aborted,
        spec_step(s, e).1 == Action::ExitFail,
{
}

/// The aborted phase is final: no event leaves it.
pub proof fn lemma_aborted_is_final(s: RunState, e: Event)
    requires
        s.phase == Phase::Aborted,
    ensures
        spec_step(s, e).0.phase == Phase::Aborted,
{
}

/// Handling a line increments the processed count, whether the record was
/// persisted or skipped as stale.
pub proof fn lemma_line_counts(s: RunState, e: Event)
    requires
        s.phase == Phase::Streaming,
        e == Event::LineHandled,
        s.processed < usize::MAX,
    ensures
        spec_step(s, e).0.processed == s.processed + 1,
        spec_step(s, e).0.total_lines == s.total_lines,
{
}

/// The progress shown after each record, in hundredths of a percent.
pub open spec fn spec_progress_hundredths(processed: int, total: int) -> int {
    processed * 10000 / total
}

/// The two parts of the progress percentage: whole percents and two decimal
/// places, truncated.
pub fn progress_parts(processed: usize, total: usize) -> (r: (u64, u64))
    requires
        1 <= total,
        processed <= total,
    ensures
        r.0 == spec_progress_hundredths(processed as int, total as int) / 100,
        r.1 == spec_progress_hundredths(processed as int, total as int) % 100,
        r.0 <= 100,
{
    let h: u128 = (processed as u128) * 10000 / (total as u128);
    proof {
        assert((processed as int) * 10000 / (total as int) <= 10000) by (nonlinear_arith)
            requires
                1 <= total as int,
                processed as int <= total as int,
        ;
        assert((processed as int) * 10000 / (total as int) >= 0) by (nonlinear_arith)
            requires
                1 <= total as int,
                0 <= processed as int,
        ;
    }
    ((h / 100) as u64, (h % 100) as u64)
}

/// One operation against the destination table.
pub ghost enum SinkOp {
    Truncate,
    Insert(StoredModel),
}

pub open spec fn apply_op(table: Seq<StoredModel>, op: SinkOp) -> Seq<StoredModel> {
    match op {
        SinkOp::Truncate => Seq::empty(),
        SinkOp::Insert(r) => table.push(r),
    }
}

/// The table after a list of operations, applied in order.
pub open spec fn apply_ops(table: Seq<StoredModel>, ops: Seq<SinkOp>) -> Seq<StoredModel>
    decreases ops.len(),
{
    if ops.len() == 0 {
        table
    } else {
        apply_ops(apply_op(table, ops[0]), ops.skip(1))
    }
}

pub open spec fn insert_ops_of(rows: Seq<StoredModel>) -> Seq<SinkOp> {
    rows.map_values(|r: StoredModel| SinkOp::Insert(r))
}

/// Every run issues one truncate, then one insert per surviving row.
pub open spec fn run_ops_of(rows: Seq<StoredModel>) -> Seq<SinkOp> {
    seq![SinkOp::Truncate] + insert_ops_of(rows)
}

pub proof fn lemma_apply_insert_ops(table: Seq<StoredModel>, rows: Seq<StoredModel>)
    ensures
        apply_ops(table, insert_ops_of(rows)) == table + rows,
    decreases rows.len(),
{
    if rows.len() == 0 {
        assert(insert_ops_of(rows).len() == 0);
        assert(table + rows =~= table);
    } else {
        let ops = insert_ops_of(rows);
        assert(ops[0] == SinkOp::Insert(rows[0]));
        assert(ops.skip(1) =~= insert_ops_of(rows.skip(1)));
        lemma_apply_insert_ops(table.push(rows[0]), rows.skip(1));
        assert(table.push(rows[0]) + rows.skip(1) =~= table + rows);
    }
}

/// Truncate-then-reload: a run's operations leave the table holding exactly
/// the surviving rows, whatever it held before.
pub proof fn lemma_truncate_reload(table: Seq<StoredModel>, rows: Seq<StoredModel>)
    ensures
        apply_ops(table, run_ops_of(rows)) == rows,
{
    let ops = run_ops_of(rows);
    assert(ops[0] == SinkOp::Truncate);
    assert(ops.skip(1) =~= insert_ops_of(rows));
    lemma_apply_insert_ops(Seq::empty(), rows);
    assert(Seq::empty() + rows =~= rows);
}

/// Idempotence: running the import a second time against the same source
/// and the same current year-month (so the same surviving rows) leaves the
/// destination table content identical to the first run's.
pub proof fn lemma_import_idempotent(table: Seq<StoredModel>, rows: Seq<StoredModel>)
    ensures
        apply_ops(apply_ops(table, run_ops_of(rows)), run_ops_of(rows)) == apply_ops(
            table,
            run_ops_of(rows),
        ),
{
    lemma_truncate_reload(table, rows);
    lemma_truncate_reload(rows, rows);
}

/// The rows a whole run stores, or its first hard failure, lines in order.
pub open spec fn spec_plan(lines: Seq<Seq<u8>>, now_ym: u32) -> Result<Seq<StoredModel>, LineError>
    decreases lines.len(),
{
    if lines.len() == 0 {
        Result::Ok(Seq::empty())
    } else {
        match spec_plan(lines.drop_last(), now_ym) {
            Result::Err(e) => Result::Err(e),
            Result::Ok(rows) => match spec_line_outcome(lines.last(), now_ym) {
                Result::Err(e) => Result::Err(e),
                Result::Ok(Option::None) => Result::Ok(rows),
                Result::Ok(Option::Some(r)) => Result::Ok(rows.push(r)),
            },
        }
    }
}

proof fn lemma_spec_plan_err_persists(lines: Seq<Seq<u8>>, now_ym: u32, k: int, e: LineError)
    requires
        0 <= k <= lines.len(),
        spec_plan(lines.take(k), now_ym) == Result::<Seq<StoredModel>, LineError>::Err(e),
    ensures
        spec_plan(lines, now_ym) == Result::<Seq<StoredModel>, LineError>::Err(e),
    decreases lines.len() - k,
{
    if k < lines.len() {
        assert(lines.take(k + 1).drop_last() =~= lines.take(k));
        assert(spec_plan(lines.take(k + 1), now_ym) == Result::<Seq<StoredModel>, LineError>::Err(
            e,
        ));
        lemma_spec_plan_err_persists(lines, now_ym, k + 1, e);
    } else {
        assert(lines.take(k) =~= lines);
    }
}

pub open spec fn plan_model(r: Result<Vec<StoredRow>, LineError>) -> Result<
    Seq<StoredModel>,
    LineError,
> {
    match r {
        Result::Ok(rows) => Result::Ok(rows@.map_values(|row: StoredRow| stored_model(row))),
        Result::Err(e) => Result::Err(e),
    }
}

/// The batched variant of the streaming phase: runs every line through the
/// pipeline and collects the surviving rows in source order, or stops at the
/// first hard failure with no rows to store.
pub fn plan_import(lines: &Vec<Vec<u8>>, now_ym: u32) -> (r: Result<Vec<StoredRow>, LineError>)
    requires
        forall|i: int| 0 <= i < lines@.len() ==> (#[trigger] lines@[i])@.len() * 4 <= usize::MAX,
    ensures
        plan_model(r) == spec_plan(lines.deep_view(), now_ym),
{
    proof {
        assert forall|j: int| 0 <= j < lines@.len() implies #[trigger] lines.deep_view()[j]
            =~= lines@[j]@ by {}
    }
    let ghost lv = lines.deep_view();
    let mut out: Vec<StoredRow> = Vec::new();
    let mut i: usize = 0;
    proof {
        assert(lv.take(0).len() == 0);
        assert(out@.map_values(|row: StoredRow| stored_model(row)) =~= Seq::<StoredModel>::empty());
    }
    while i < lines.len()
        invariant
            i <= lines.len(),
            lv == lines.deep_view(),
            lines@.len() == lv.len(),
            forall|j: int| 0 <= j < lines@.len() ==> (#[trigger] lines@[j])@.len() * 4
                <= usize::MAX,
            forall|j: int| 0 <= j < lines@.len() ==> #[trigger] lv[j] == lines@[j]@,
            spec_plan(lv.take(i as int), now_ym) == Result::<Seq<StoredModel>, LineError>::Ok(
                out@.map_values(|row: StoredRow| stored_model(row)),
            ),
        decreases lines.len() - i,
    {
        let ghost rows_before = out@.map_values(|row: StoredRow| stored_model(row));
        proof {
            assert(lv.take(i + 1).drop_last() =~= lv.take(i as int));
            assert(lv.take(i + 1).last() == lv[i as int]);
        }
        match process_line(&lines[i], now_ym) {
            Result::Err(e) => {
                proof {
                    assert(spec_plan(lv.take(i + 1), now_ym) == Result::<
                        Seq<StoredModel>,
                        LineError,
                    >::Err(e));
                    lemma_spec_plan_err_persists(lv, now_ym, i + 1, e);
                }
                return Result::Err(e);
            },
            Result::Ok(Option::None) => {
                proof {
                    assert(spec_plan(lv.take(i + 1), now_ym) == Result::<
                        Seq<StoredModel>,
                        LineError,
                    >::Ok(rows_before));
                }
            },
            Result::Ok(Option::Some(row)) => {
                let ghost rm = stored_model(row);
                out.push(row);
                proof {
                    assert(out@.map_values(|r2: StoredRow| stored_model(r2)) =~= rows_before.push(
                        rm,
                    ));
                }
            },
        }
        i = i + 1;
    }
    proof {
        assert(lv.take(lv.len() as int) =~= lv);
    }
    Result::Ok(out)
}

} // verus!
