//! The benchmark as a state machine.
//!
//! The driver decides; the caller acts. Every [`Action`] names one thing for
//! the caller to do (create the pool, open the target, write one block) and
//! the caller answers with the [`Event`] that tells how it went. A run ends
//! with `Report` after the last block or with `Abort` at the first failure,
//! and from then on the driver asks for nothing more.

use crate::config::{pool_len_for, BenchmarkConfig};
use crate::error::{AllocationError, OpenError, RunError, WriteError};
use crate::page::is_pool_len;
use crate::pool::{request_len, AlignedMemoryPool, Strategy};
use crate::timing::{lemma_sum_push, sum, TimingResult, Timings};
use vstd::prelude::*;

verus! {

/// Where a run stands.
#[derive(Clone, Copy, Debug, PartialEq, Eq, Structural)]
pub enum Phase {
    /// The pool was asked for and is not there yet.
    Allocating,
    /// The pool is there; the target was asked for.
    Opening,
    /// A block is being written.
    Writing,
    /// Every block was written.
    Finished,
    /// The run failed.
    Aborted,
}

/// What the caller reports back to the driver.
#[derive(Clone, Copy, Debug, PartialEq, Eq, Structural)]
pub enum Event {
    /// The pool was created.
    PoolCreated,
    /// The pool could not be created.
    PoolFailed(AllocationError),
    /// The target is open and positioned at the starting offset; the clock
    /// read `now`.
    Opened { now: u128 },
    /// The target could not be opened or positioned.
    OpenFailed(OpenError),
    /// A write returned after moving `bytes` bytes; the clock read `started`
    /// just before the call and `finished` just after.
    Wrote { started: u128, finished: u128, bytes: usize },
    /// A write returned an error.
    WriteFailed,
}

/// What the driver asks the caller to do next.
#[derive(Clone, Copy, Debug, PartialEq, Eq, Structural)]
pub enum Action {
    /// Obtain `request` bytes from the system under `strategy` and create
    /// the pool of `len` bytes in them.
    CreatePool { strategy: Strategy, len: usize, request: usize },
    /// Open the target for direct writing, creating it if it is absent, and
    /// seek to `offset`.
    OpenTarget { offset: u64 },
    /// Write the first `len` bytes of the pool at the current position of the
    /// target, after refilling them when `fill` is set.
    Write { len: usize, fill: bool },
    /// The run is complete; its timings are ready.
    Report,
    /// The run has failed.
    Abort(RunError),
    /// Nothing: the run had ended, or the event answers no outstanding action.
    Halt,
}

/// The driver as a mathematical value.
pub struct DriverState {
    pub block_size: usize,
    pub count: usize,
    pub offset: u64,
    pub strategy: Strategy,
    pub fill: bool,
    pub phase: Phase,
    /// Number of `Write` actions handed out so far.
    pub issued: nat,
    /// Clock reading at which the write loop began.
    pub began_at: u128,
    /// Latest clock reading taken into account.
    pub clock: u128,
    /// Duration of each completed write, in order.
    pub durations: Seq<u128>,
    /// Why the run was aborted, if it was.
    pub failure: Option<RunError>,
}

impl DriverState {
    /// Number of blocks written in full.
    pub open spec fn completed(self) -> nat {
        self.durations.len()
    }

    /// Bytes that have gone to the target.
    pub open spec fn bytes_written(self) -> int {
        self.completed() * self.block_size
    }

    /// Position in the target behind the last block written.
    pub open spec fn position(self) -> int {
        self.offset + self.bytes_written()
    }

    /// Time since the write loop began.
    pub open spec fn elapsed(self) -> int {
        self.clock - self.began_at
    }

    /// The run is over: no event changes anything any more.
    pub open spec fn ended(self) -> bool {
        self.phase == Phase::Finished || self.phase == Phase::Aborted
    }

    /// What holds of every state a run can reach.
    ///
    /// The clock only moves forward and the time spent in writes never exceeds
    /// the time elapsed. While writing, exactly one write is outstanding;
    /// a finished run has issued and completed every write; an aborted run
    /// remembers why, and if a write failed it was the one outstanding.
    pub open spec fn inv(self) -> bool {
        &&& self.began_at <= self.clock
        &&& sum(self.durations) <= self.elapsed()
        &&& self.completed() <= self.issued <= self.count
        &&& self.failure is Some <==> self.phase == Phase::Aborted
        &&& match self.phase {
            Phase::Allocating | Phase::Opening => self.issued == 0,
            Phase::Writing => self.issued == self.completed() + 1,
            Phase::Finished => self.completed() == self.count,
            Phase::Aborted => match self.failure {
                Some(RunError::Write(WriteError::Failed { iteration })) => {
                    &&& self.issued == self.completed() + 1
                    &&& iteration == self.completed()
                },
                Some(RunError::Write(WriteError::Partial { iteration, written })) => {
                    &&& self.issued == self.completed() + 1
                    &&& iteration == self.completed()
                    &&& written != self.block_size
                },
                _ => self.issued == 0,
            },
        }
    }
}

/// The later of two clock readings.
pub open spec fn later(a: u128, b: u128) -> u128 {
    if a >= b {
        a
    } else {
        b
    }
}

/// The state in which the run has failed with `error`.
pub open spec fn aborted(s: DriverState, error: RunError) -> DriverState {
    DriverState { phase: Phase::Aborted, failure: Some(error), ..s }
}

/// The state a run starts in and its first action.
///
/// A block size that is not a positive whole number of pages is refused at
/// once as `InvalidSize`, and a pool too large for its request to be sized is
/// refused with the pool's own error: both before the system is asked for
/// anything.
pub open spec fn init(config: BenchmarkConfig) -> (DriverState, Action) {
    let s = DriverState {
        block_size: config.block_size,
        count: config.count,
        offset: config.offset,
        strategy: config.strategy,
        fill: config.fill is Random,
        phase: Phase::Allocating,
        issued: 0,
        began_at: 0,
        clock: 0,
        durations: Seq::empty(),
        failure: None,
    };
    let len = pool_len_for(config.block_size, config.strategy);
    if !is_pool_len(config.block_size as int) {
        let error = RunError::Allocation(AllocationError::InvalidSize);
        (aborted(s, error), Action::Abort(error))
    } else {
        match request_len(len as int, config.strategy) {
            Ok(request) => (
                s,
                Action::CreatePool { strategy: config.strategy, len, request: request as usize },
            ),
            Err(e) => (aborted(s, RunError::Allocation(e)), Action::Abort(RunError::Allocation(e))),
        }
    }
}

/// The state after a write of a whole block that the clock bracketed with
/// `started` and `finished`.
///
/// A reading that lies before one already seen counts as that one, so a write
/// never takes negative time and the clock never runs backwards.
pub open spec fn after_write(s: DriverState, started: u128, finished: u128) -> DriverState {
    let from = later(started, s.clock);
    let to = later(finished, from);
    DriverState { clock: to, durations: s.durations.push((to - from) as u128), ..s }
}

/// One step of the run: the state after `event` and the action it calls for.
pub open spec fn next(s: DriverState, event: Event) -> (DriverState, Action) {
    match (s.phase, event) {
        (Phase::Allocating, Event::PoolCreated) => (
            DriverState { phase: Phase::Opening, ..s },
            Action::OpenTarget { offset: s.offset },
        ),
        (Phase::Allocating, Event::PoolFailed(e)) => (
            aborted(s, RunError::Allocation(e)),
            Action::Abort(RunError::Allocation(e)),
        ),
        (Phase::Opening, Event::Opened { now }) => {
            let opened = DriverState { began_at: now, clock: now, ..s };
            if s.count == 0 {
                (DriverState { phase: Phase::Finished, ..opened }, Action::Report)
            } else {
                (
                    DriverState { phase: Phase::Writing, issued: 1, ..opened },
                    Action::Write { len: s.block_size, fill: s.fill },
                )
            }
        },
        (Phase::Opening, Event::OpenFailed(e)) => (
            aborted(s, RunError::Open(e)),
            Action::Abort(RunError::Open(e)),
        ),
        (Phase::Writing, Event::Wrote { started, finished, bytes }) => {
            if bytes != s.block_size {
                let error = RunError::Write(
                    WriteError::Partial { iteration: s.completed() as usize, written: bytes },
                );
                (aborted(s, error), Action::Abort(error))
            } else {
                let written = after_write(s, started, finished);
                if written.completed() == s.count {
                    (DriverState { phase: Phase::Finished, ..written }, Action::Report)
                } else {
                    (
                        DriverState { issued: s.issued + 1, ..written },
                        Action::Write { len: s.block_size, fill: s.fill },
                    )
                }
            }
        },
        (Phase::Writing, Event::WriteFailed) => {
            let error = RunError::Write(WriteError::Failed { iteration: s.completed() as usize });
            (aborted(s, error), Action::Abort(error))
        },
        _ => (s, Action::Halt),
    }
}

/// The state after a whole sequence of events.
pub open spec fn run(s: DriverState, events: Seq<Event>) -> DriverState
    decreases events.len(),
{
    if events.len() == 0 {
        s
    } else {
        next(run(s, events.drop_last()), events.last()).0
    }
}

/// The actions that answer a sequence of events, one for each.
pub open spec fn answers(s: DriverState, events: Seq<Event>) -> Seq<Action>
    decreases events.len(),
{
    if events.len() == 0 {
        Seq::empty()
    } else {
        answers(s, events.drop_last()).push(next(run(s, events.drop_last()), events.last()).1)
    }
}

/// Number of `Write` actions among `actions`.
pub open spec fn writes_in(actions: Seq<Action>) -> nat
    decreases actions.len(),
{
    if actions.len() == 0 {
        0
    } else {
        writes_in(actions.drop_last()) + if actions.last() is Write {
            1nat
        } else {
            0nat
        }
    }
}

/// Every one of `actions` is `Halt`.
pub open spec fn all_halt(actions: Seq<Action>) -> bool {
    forall|i: int| 0 <= i < actions.len() ==> actions[i] == Action::Halt
}

/// The timings of a finished run; none of any other.
pub open spec fn report(s: DriverState) -> Option<Timings> {
    if s.phase == Phase::Finished {
        Some(
            Timings {
                per_write: s.durations,
                aggregate: sum(s.durations) as int,
                total: s.elapsed(),
            },
        )
    } else {
        None
    }
}

/// The driver of one benchmark run.
#[derive(Debug)]
pub struct Driver {
    block_size: usize,
    count: usize,
    offset: u64,
    strategy: Strategy,
    fill: bool,
    phase: Phase,
    issued: usize,
    began_at: u128,
    clock: u128,
    aggregate: u128,
    per_write: Vec<u128>,
    failure: Option<RunError>,
}

impl View for Driver {
    type V = DriverState;

    closed spec fn view(&self) -> DriverState {
        DriverState {
            block_size: self.block_size,
            count: self.count,
            offset: self.offset,
            strategy: self.strategy,
            fill: self.fill,
            phase: self.phase,
            issued: self.issued as nat,
            began_at: self.began_at,
            clock: self.clock,
            durations: self.per_write@,
            failure: self.failure,
        }
    }
}

impl Driver {
    /// The running total kept beside the durations is their sum.
    pub closed spec fn sums_up(&self) -> bool {
        self.aggregate == sum(self.per_write@)
    }

    /// The driver's invariant: that of its state, and a running total that is
    /// right.
    pub open spec fn wf(&self) -> bool {
        &&& self@.inv()
        &&& self.sums_up()
    }

    /// Starts a run of `config` and says what to do first.
    pub fn new(config: &BenchmarkConfig) -> (r: (Driver, Action))
        ensures
            r.0.wf(),
            (r.0@, r.1) == init(*config),
    {
        let len: usize = config.pool_len();
        let start: Result<usize, AllocationError> = if config.is_valid() {
            AlignedMemoryPool::request(len, config.strategy)
        } else {
            Err(AllocationError::InvalidSize)
        };
        let mut driver = Driver {
            block_size: config.block_size,
            count: config.count,
            offset: config.offset,
            strategy: config.strategy,
            fill: config.refills(),
            phase: Phase::Allocating,
            issued: 0,
            began_at: 0,
            clock: 0,
            aggregate: 0,
            per_write: Vec::new(),
            failure: None,
        };
        let action = match start {
            Ok(request) => Action::CreatePool { strategy: config.strategy, len, request },
            Err(e) => driver.abort(RunError::Allocation(e)),
        };
        (driver, action)
    }

    /// Takes in what the caller reports and says what to do next.
    pub fn step(&mut self, event: Event) -> (action: Action)
        requires
            old(self).wf(),
        ensures
            final(self).wf(),
            (final(self)@, action) == next(old(self)@, event),
    {
        match (self.phase, event) {
            (Phase::Allocating, Event::PoolCreated) => {
                self.phase = Phase::Opening;
                Action::OpenTarget { offset: self.offset }
            },
            (Phase::Allocating, Event::PoolFailed(e)) => self.abort(RunError::Allocation(e)),
            (Phase::Opening, Event::Opened { now }) => {
                self.began_at = now;
                self.clock = now;
                if self.count == 0 {
                    self.phase = Phase::Finished;
                    Action::Report
                } else {
                    self.phase = Phase::Writing;
                    self.issued = 1;
                    Action::Write { len: self.block_size, fill: self.fill }
                }
            },
            (Phase::Opening, Event::OpenFailed(e)) => self.abort(RunError::Open(e)),
            (Phase::Writing, Event::Wrote { started, finished, bytes }) => {
                let iteration: usize = self.per_write.len();
                if bytes != self.block_size {
                    self.abort(RunError::Write(WriteError::Partial { iteration, written: bytes }))
                } else {
                    let from: u128 = if started >= self.clock {
                        started
                    } else {
                        self.clock
                    };
                    let to: u128 = if finished >= from {
                        finished
                    } else {
                        from
                    };
                    let spent: u128 = to - from;
                    proof {
                        lemma_sum_push(self.per_write@, spent);
                    }
                    self.aggregate = self.aggregate + spent;
                    self.per_write.push(spent);
                    self.clock = to;
                    if self.per_write.len() == self.count {
                        self.phase = Phase::Finished;
                        Action::Report
                    } else {
                        self.issued = self.issued + 1;
                        Action::Write { len: self.block_size, fill: self.fill }
                    }
                }
            },
            (Phase::Writing, Event::WriteFailed) => {
                let iteration: usize = self.per_write.len();
                self.abort(RunError::Write(WriteError::Failed { iteration }))
            },
            _ => Action::Halt,
        }
    }

    fn abort(&mut self, error: RunError) -> (action: Action)
        ensures
            final(self)@ == aborted(old(self)@, error),
            final(self).sums_up() == old(self).sums_up(),
            action == Action::Abort(error),
    {
        self.phase = Phase::Aborted;
        self.failure = Some(error);
        Action::Abort(error)
    }

    /// Where the run stands.
    pub fn phase(&self) -> (r: Phase)
        ensures
            r == self@.phase,
    {
        self.phase
    }

    /// Number of blocks written in full.
    pub fn completed(&self) -> (r: usize)
        ensures
            r == self@.completed(),
    {
        self.per_write.len()
    }

    /// Number of writes asked for so far.
    pub fn issued(&self) -> (r: usize)
        ensures
            r == self@.issued,
    {
        self.issued
    }

    /// Why the run was aborted, if it was.
    pub fn failure(&self) -> (r: Option<RunError>)
        ensures
            r == self@.failure,
    {
        self.failure
    }

    /// Bytes that have gone to the target.
    pub fn bytes_written(&self) -> (r: u128)
        ensures
            r == self@.bytes_written(),
    {
        let blocks: u128 = self.per_write.len() as u128;
        let size: u128 = self.block_size as u128;
        assert(blocks * size <= u128::MAX) by (nonlinear_arith)
            requires
                blocks <= 0xffff_ffff_ffff_ffff,
                size <= 0xffff_ffff_ffff_ffff,
        ;
        blocks * size
    }

    /// Ends the run and hands out its timings: those of a finished run, and
    /// none of a run that failed or is still under way.
    pub fn into_report(self) -> (r: Option<TimingResult>)
        requires
            self.wf(),
        ensures
            match r {
                Some(timing) => timing.wf() && report(self@) == Some(timing@),
                None => report(self@) is None,
            },
    {
        match self.phase {
            Phase::Finished => Some(
                TimingResult {
                    per_write: self.per_write,
                    aggregate: self.aggregate,
                    total: self.clock - self.began_at,
                },
            ),
            _ => None,
        }
    }
}

/// A run starts in a state that meets the invariant.
pub proof fn lemma_init_inv(config: BenchmarkConfig)
    ensures
        init(config).0.inv(),
{
}

/// No event leads out of the invariant.
pub proof fn lemma_next_keeps_inv(s: DriverState, event: Event)
    requires
        s.inv(),
    ensures
        next(s, event).0.inv(),
{
    match (s.phase, event) {
        (Phase::Writing, Event::Wrote { started, finished, bytes }) => {
            if bytes == s.block_size {
                let from = later(started, s.clock);
                let to = later(finished, from);
                lemma_sum_push(s.durations, (to - from) as u128);
            }
        },
        _ => {},
    }
}

/// Every state a run can reach meets the invariant.
pub proof fn lemma_run_keeps_inv(s: DriverState, events: Seq<Event>)
    requires
        s.inv(),
    ensures
        run(s, events).inv(),
    decreases events.len(),
{
    if events.len() > 0 {
        lemma_run_keeps_inv(s, events.drop_last());
        lemma_next_keeps_inv(run(s, events.drop_last()), events.last());
    }
}

/// Each event has one answer, and it is the step the driver takes from the
/// state that the events before it lead to.
pub proof fn lemma_answer_at(s: DriverState, events: Seq<Event>, i: int)
    requires
        0 <= i < events.len(),
    ensures
        answers(s, events).len() == events.len(),
        answers(s, events)[i] == next(run(s, events.take(i)), events[i]).1,
    decreases events.len(),
{
    lemma_answers_len(s, events);
    lemma_answers_len(s, events.drop_last());
    if i == events.len() - 1 {
        assert(events.take(i) =~= events.drop_last());
    } else {
        lemma_answer_at(s, events.drop_last(), i);
        assert(events.drop_last().take(i) =~= events.take(i));
    }
}

proof fn lemma_answers_len(s: DriverState, events: Seq<Event>)
    ensures
        answers(s, events).len() == events.len(),
    decreases events.len(),
{
    if events.len() > 0 {
        lemma_answers_len(s, events.drop_last());
    }
}

/// Once a run has ended it stays as it is: whatever is reported afterwards,
/// the state does not change and every answer is `Halt`, so nothing more is
/// opened or written.
pub proof fn lemma_ended_run_stays(s: DriverState, events: Seq<Event>)
    requires
        s.ended(),
    ensures
        run(s, events) == s,
        answers(s, events).len() == events.len(),
        all_halt(answers(s, events)),
        writes_in(answers(s, events)) == 0,
    decreases events.len(),
{
    if events.len() > 0 {
        lemma_ended_run_stays(s, events.drop_last());
        assert(answers(s, events).drop_last() =~= answers(s, events.drop_last()));
    }
}

/// A write that fails or moves anything but the whole block aborts the run on
/// the spot: the answer is `Abort` with the number of the failed write, the
/// failed write is not counted as completed, every later answer is `Halt`, so
/// no further write is asked for, and no timings come out of the run.
pub proof fn lemma_failed_write_ends_run(s: DriverState, event: Event, afterwards: Seq<Event>)
    requires
        s.inv(),
        s.phase == Phase::Writing,
        event is WriteFailed || (event matches Event::Wrote { bytes, .. } && bytes != s.block_size),
    ensures
        next(s, event).1 matches Action::Abort(RunError::Write(error)) && (match error {
            WriteError::Failed { iteration } => iteration == s.completed(),
            WriteError::Partial { iteration, .. } => iteration == s.completed(),
        }),
        next(s, event).0.phase == Phase::Aborted,
        next(s, event).0.durations == s.durations,
        next(s, event).0.issued == s.issued,
        run(next(s, event).0, afterwards) == next(s, event).0,
        all_halt(answers(next(s, event).0, afterwards)),
        writes_in(answers(next(s, event).0, afterwards)) == 0,
        report(run(next(s, event).0, afterwards)) is None,
{
    lemma_ended_run_stays(next(s, event).0, afterwards);
}

/// The writes handed out so far are those handed out before plus one for
/// every `Write` among the answers.
pub proof fn lemma_issued_counts_writes(s: DriverState, events: Seq<Event>)
    requires
        s.inv(),
    ensures
        run(s, events).issued == s.issued + writes_in(answers(s, events)),
    decreases events.len(),
{
    if events.len() > 0 {
        lemma_issued_counts_writes(s, events.drop_last());
        lemma_run_keeps_inv(s, events.drop_last());
        assert(answers(s, events).drop_last() =~= answers(s, events.drop_last()));
    }
}

/// No event changes what the run was configured with.
pub proof fn lemma_run_keeps_config(s: DriverState, events: Seq<Event>)
    ensures
        run(s, events).block_size == s.block_size,
        run(s, events).count == s.count,
        run(s, events).offset == s.offset,
        run(s, events).strategy == s.strategy,
        run(s, events).fill == s.fill,
    decreases events.len(),
{
    if events.len() > 0 {
        lemma_run_keeps_config(s, events.drop_last());
    }
}

/// A run that finishes has asked for exactly `count` writes and completed
/// every one of them in full, so the target holds `count` blocks of
/// `block_size` bytes from `offset` on and the timings hold one duration for
/// each.
pub proof fn lemma_finished_run_wrote_everything(config: BenchmarkConfig, events: Seq<Event>)
    requires
        run(init(config).0, events).phase == Phase::Finished,
    ensures
        writes_in(answers(init(config).0, events)) == config.count,
        run(init(config).0, events).completed() == config.count,
        run(init(config).0, events).bytes_written() == config.count * config.block_size,
        run(init(config).0, events).position() == config.offset + config.count
            * config.block_size,
        report(run(init(config).0, events)) matches Some(timing) && timing.per_write.len()
            == config.count,
{
    lemma_init_inv(config);
    lemma_run_keeps_inv(init(config).0, events);
    lemma_issued_counts_writes(init(config).0, events);
    lemma_run_keeps_config(init(config).0, events);
}

/// At every point of every run the time spent inside writes is at most the
/// time elapsed since the loop began; the timings of a finished run therefore
/// have an aggregate that does not exceed their total.
pub proof fn lemma_writes_within_elapsed(config: BenchmarkConfig, events: Seq<Event>)
    ensures
        sum(run(init(config).0, events).durations) <= run(init(config).0, events).elapsed(),
        report(run(init(config).0, events)) matches Some(timing) ==> timing.wf(),
{
    lemma_init_inv(config);
    lemma_run_keeps_inv(init(config).0, events);
}

/// With a clock that does not run backwards a write is charged exactly the
/// time between its two readings.
pub proof fn lemma_monotonic_clock_is_exact(s: DriverState, started: u128, finished: u128)
    requires
        s.clock <= started <= finished,
    ensures
        after_write(s, started, finished).clock == finished,
        after_write(s, started, finished).durations == s.durations.push(
            (finished - started) as u128,
        ),
{
}

/// A pool that could not be created aborts the run with the pool's error, and
/// every later answer is `Halt`: the target is never opened and nothing is
/// written.
pub proof fn lemma_failed_pool_ends_run(
    s: DriverState,
    error: AllocationError,
    afterwards: Seq<Event>,
)
    requires
        s.phase == Phase::Allocating,
    ensures
        next(s, Event::PoolFailed(error)).1 == Action::Abort(RunError::Allocation(error)),
        next(s, Event::PoolFailed(error)).0.phase == Phase::Aborted,
        run(next(s, Event::PoolFailed(error)).0, afterwards) == next(
            s,
            Event::PoolFailed(error),
        ).0,
        all_halt(answers(next(s, Event::PoolFailed(error)).0, afterwards)),
        report(run(next(s, Event::PoolFailed(error)).0, afterwards)) is None,
{
    lemma_ended_run_stays(next(s, Event::PoolFailed(error)).0, afterwards);
}

/// In any run the target is asked for only in answer to the pool's creation.
pub proof fn lemma_target_follows_pool(s: DriverState, events: Seq<Event>, i: int)
    requires
        0 <= i < events.len(),
        answers(s, events)[i] is OpenTarget,
    ensures
        events[i] == Event::PoolCreated,
        run(s, events.take(i)).phase == Phase::Allocating,
        run(s, events.take(i + 1)).phase == Phase::Opening,
{
    lemma_answer_at(s, events, i);
    assert(events.take(i + 1).drop_last() =~= events.take(i));
}

/// In any run a write is asked for only once the target is open, and always
/// for one whole block.
pub proof fn lemma_write_follows_open(s: DriverState, events: Seq<Event>, i: int)
    requires
        0 <= i < events.len(),
        answers(s, events)[i] is Write,
    ensures
        events[i] is Opened || events[i] is Wrote,
        run(s, events.take(i + 1)).phase == Phase::Writing,
        answers(s, events)[i] == (Action::Write { len: s.block_size, fill: s.fill }),
{
    lemma_answer_at(s, events, i);
    lemma_run_keeps_config(s, events.take(i));
    assert(events.take(i + 1).drop_last() =~= events.take(i));
}

} // verus!
