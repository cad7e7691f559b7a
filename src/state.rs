use vstd::prelude::*;

use crate::action;
use crate::record::{content_of, line_views, CommandResult, CommandResultSummary, TargetCommand};
use crate::store::{complete_spec, create_spec, get_spec, history_spec, ExecutionStore};

verus! {

/// Resolution of the scheduler's timer, in milliseconds: how often the
/// admission check runs.
pub const TICK_MS: u64 = 10;

/// The shortest dispatch interval, in milliseconds; shorter ones are raised
/// to it.
pub const MIN_INTERVAL_MS: u64 = 500;

/// What the viewer looks at.
#[derive(Debug, Clone, Copy, PartialEq, Eq, Structural)]
pub struct Ui {
    pub show_history: bool,
    pub vertical_scroll: u16,
    pub show_help: bool,
    pub target_command: TargetCommand,
}

impl Default for Ui {
    fn default() -> (r: Self)
        ensures
            r == (Ui {
                show_history: false,
                vertical_scroll: 0,
                show_help: false,
                target_command: TargetCommand::Latest,
            }),
    {
        Ui {
            show_history: false,
            vertical_scroll: 0,
            show_help: false,
            target_command: TargetCommand::Latest,
        }
    }
}

/// The scheduler's state: timer resolution and the tick of the latest
/// dispatch (milliseconds on a monotonic clock), and how many executions
/// are in flight.
#[derive(Debug, Clone, Copy, PartialEq, Eq, Structural)]
pub struct Command {
    pub tick: u64,
    pub prev_tick: u64,
    pub running_count: u8,
}

impl Default for Command {
    fn default() -> (r: Self)
        ensures
            r == (Command { tick: TICK_MS, prev_tick: 0, running_count: 0 }),
    {
        Command { tick: TICK_MS, prev_tick: 0, running_count: 0 }
    }
}

/// Configuration set once at startup, the running flag, and the execution
/// log. The interval is in milliseconds.
pub struct Global {
    pub running: bool,
    pub command: Vec<String>,
    pub interval: u64,
    pub concurrency: u8,
    pub store: ExecutionStore,
}

pub open spec fn clamp_interval(interval: u64) -> u64 {
    if interval < MIN_INTERVAL_MS {
        MIN_INTERVAL_MS
    } else {
        interval
    }
}

/// Everything but the log is the same in `a` and `b`.
pub open spec fn same_config(a: Global, b: Global) -> bool {
    &&& b.running == a.running
    &&& b.command@ == a.command@
    &&& b.interval == a.interval
    &&& b.concurrency == a.concurrency
}

impl Global {
    pub fn new(command: Vec<String>, interval: u64, concurrency: u8) -> (r: Global)
        ensures
            r.running,
            r.command@ == command@,
            r.interval == clamp_interval(interval),
            r.concurrency == concurrency,
            r.store@ == Seq::<CommandResult>::empty(),
            r.store.wf(),
    {
        let interval = if interval < MIN_INTERVAL_MS {
            MIN_INTERVAL_MS
        } else {
            interval
        };
        Global { running: true, command, interval, concurrency, store: ExecutionStore::new() }
    }

    /// Records a pending execution started at `start`; its id, or `None`
    /// when the log has no id left.
    pub fn record_command(&mut self, start: u64) -> (r: Option<u16>)
        requires
            old(self).store.wf(),
        ensures
            final(self).store.wf(),
            same_config(*old(self), *final(self)),
            final(self).store@ == create_spec(old(self).store@, start),
            r.is_some() == (old(self).store@.len() < crate::store::MAX_RECORDS),
            r.is_some() ==> r.unwrap() == old(self).store@.len(),
    {
        self.store.create(start)
    }

    /// Finalizes the pending execution started at `start`; false when there
    /// is none.
    pub fn record_command_result(
        &mut self,
        start: u64,
        end: u64,
        stdout: String,
        stderr: String,
        status: u8,
    ) -> (r: bool)
        requires
            old(self).store.wf(),
        ensures
            final(self).store.wf(),
            same_config(*old(self), *final(self)),
            final(self).store@ == complete_spec(old(self).store@, start, end, stdout, stderr, status),
            r == crate::store::has_pending_at(old(self).store@, start),
    {
        self.store.complete(start, end, stdout, stderr, status)
    }

    pub fn get_target_command_result(&self, target_command: &TargetCommand) -> (r: Option<
        CommandResult,
    >)
        requires
            self.store.wf(),
        ensures
            r == get_spec(self.store@, *target_command),
    {
        self.store.get(target_command)
    }

    pub fn get_history(&self) -> (r: Vec<CommandResultSummary>)
        requires
            self.store.wf(),
        ensures
            r@ == history_spec(self.store@),
    {
        self.store.history()
    }
}

/// What a tick of the scheduler decided.
#[derive(Debug, Clone, Copy, PartialEq, Eq, Structural)]
pub enum TickOutcome {
    /// Shutdown was requested: the scheduler stops.
    Stopped,
    /// No dispatch on this tick.
    Waiting,
    /// An execution was admitted and is to be launched; the id of its
    /// record, unless the log had no id left.
    Dispatched(Option<u16>),
}

/// All shared state, mutated only through the methods below.
pub struct State {
    pub global: Global,
    pub ui: Ui,
    pub command: Command,
}

/// A target names the latest result or an id that the log holds.
pub open spec fn target_valid(target: TargetCommand, n: nat) -> bool {
    match target {
        TargetCommand::Latest => true,
        TargetCommand::Target(id) => id < n,
    }
}

/// Time since `prev` on a monotonic clock, zero if `now` is earlier.
pub open spec fn elapsed(now: u64, prev: u64) -> int {
    if now >= prev {
        now - prev
    } else {
        0
    }
}

/// The admission check at tick `t`: the interval has elapsed since the
/// latest dispatch, and the concurrency ceiling is not reached.
pub open spec fn admits_runner(c: Command, interval: u64, concurrency: u8, t: u64) -> bool {
    &&& elapsed(t, c.prev_tick) >= interval
    &&& c.running_count < concurrency
}

pub open spec fn admits(s: State, t: u64) -> bool {
    admits_runner(s.command, s.global.interval, s.global.concurrency, t)
}

/// The scheduler's state after a tick at `t`: a dispatch, if admitted,
/// counts one more execution in flight and becomes the latest dispatch.
pub open spec fn runner_tick(c: Command, interval: u64, concurrency: u8, t: u64) -> Command {
    if admits_runner(c, interval, concurrency, t) {
        Command { prev_tick: t, running_count: (c.running_count + 1) as u8, ..c }
    } else {
        c
    }
}

/// The scheduler's state after an execution finished.
pub open spec fn runner_done(c: Command) -> Command {
    Command {
        running_count: if c.running_count > 0 {
            (c.running_count - 1) as u8
        } else {
            0
        },
        ..c
    }
}

/// The scheduler's state after a sequence of events, where `Some(t)` is a
/// tick at `t` and `None` is an execution that finished.
pub open spec fn run_events(c: Command, interval: u64, concurrency: u8, events: Seq<Option<u64>>) -> Command
    decreases events.len(),
{
    if events.len() == 0 {
        c
    } else {
        let before = run_events(c, interval, concurrency, events.drop_last());
        match events.last() {
            Some(t) => runner_tick(before, interval, concurrency, t),
            None => runner_done(before),
        }
    }
}

/// Whatever ticks and completions come, and in whatever order, no more
/// executions are in flight than the concurrency ceiling allows.
pub proof fn lemma_in_flight_bounded(
    c: Command,
    interval: u64,
    concurrency: u8,
    events: Seq<Option<u64>>,
)
    requires
        c.running_count <= concurrency,
    ensures
        run_events(c, interval, concurrency, events).running_count <= concurrency,
    decreases events.len(),
{
    if events.len() > 0 {
        lemma_in_flight_bounded(c, interval, concurrency, events.drop_last());
    }
}

/// Events without a dispatch leave the tick of the latest dispatch as it was.
pub proof fn lemma_no_dispatch_keeps_prev_tick(
    c: Command,
    interval: u64,
    concurrency: u8,
    events: Seq<Option<u64>>,
)
    requires
        forall|k: int|
            0 <= k < events.len() && (#[trigger] events[k]).is_some() ==> !admits_runner(
                run_events(c, interval, concurrency, events.take(k)),
                interval,
                concurrency,
                events[k].unwrap(),
            ),
    ensures
        run_events(c, interval, concurrency, events).prev_tick == c.prev_tick,
        run_events(c, interval, concurrency, events).tick == c.tick,
    decreases events.len(),
{
    if events.len() > 0 {
        let e = events.drop_last();
        assert forall|k: int|
            0 <= k < e.len() && (#[trigger] e[k]).is_some() implies !admits_runner(
            run_events(c, interval, concurrency, e.take(k)),
            interval,
            concurrency,
            e[k].unwrap(),
        ) by {
            assert(e.take(k) =~= events.take(k));
            assert(e[k] == events[k]);
        }
        lemma_no_dispatch_keeps_prev_tick(c, interval, concurrency, e);
        assert(events.take(events.len() - 1) =~= e);
    }
}

/// Two consecutive dispatches, at ticks `t1` and `t2` with only events
/// that dispatch nothing between them, lie at least the interval apart.
pub proof fn lemma_dispatch_spacing(
    c: Command,
    interval: u64,
    concurrency: u8,
    t1: u64,
    between: Seq<Option<u64>>,
    t2: u64,
)
    requires
        admits_runner(c, interval, concurrency, t1),
        forall|k: int|
            0 <= k < between.len() && (#[trigger] between[k]).is_some() ==> !admits_runner(
                run_events(runner_tick(c, interval, concurrency, t1), interval, concurrency, between.take(k)),
                interval,
                concurrency,
                between[k].unwrap(),
            ),
        admits_runner(
            run_events(runner_tick(c, interval, concurrency, t1), interval, concurrency, between),
            interval,
            concurrency,
            t2,
        ),
    ensures
        elapsed(t2, t1) >= interval,
{
    lemma_no_dispatch_keeps_prev_tick(runner_tick(c, interval, concurrency, t1), interval, concurrency, between);
}

/// `SelectNext` and `SelectPrev` undo each other along the chain from
/// `Latest` down to the oldest id, and clamp at its two ends: `SelectNext`
/// stays at the oldest id, `SelectPrev` stays at `Latest`.
pub proof fn lemma_select_inverse(target: TargetCommand, n: nat)
    requires
        target_valid(target, n),
        n <= crate::store::MAX_RECORDS,
    ensures
        target != TargetCommand::Target(0) ==> select_prev(select_next(target, n), n) == target,
        target != TargetCommand::Latest ==> select_next(select_prev(target, n), n) == target,
        target_valid(select_next(target, n), n),
        target_valid(select_prev(target, n), n),
        n > 0 ==> select_next(TargetCommand::Target(0), n) == TargetCommand::Target(0),
        select_prev(TargetCommand::Latest, n) == TargetCommand::Latest,
{
}

/// The id that the next record gets in a log of `n` records, if any is left.
pub open spec fn next_id(n: nat) -> Option<u16> {
    if n < crate::store::MAX_RECORDS {
        Some(n as u16)
    } else {
        None
    }
}

/// `b` is `a` after a dispatch at tick `t` of an execution started at `start`.
pub open spec fn launched(a: State, b: State, t: u64, start: u64) -> bool {
    &&& b.ui == a.ui
    &&& same_config(a.global, b.global)
    &&& b.global.store@ == create_spec(a.global.store@, start)
    &&& b.command.tick == a.command.tick
    &&& b.command.prev_tick == t
    &&& b.command.running_count == a.command.running_count + 1
}

/// `b` is `a` after the execution started at `start` finished.
pub open spec fn finished(
    a: State,
    b: State,
    start: u64,
    end: u64,
    stdout: String,
    stderr: String,
    status: u8,
) -> bool {
    &&& b.ui == a.ui
    &&& same_config(a.global, b.global)
    &&& b.global.store@ == complete_spec(a.global.store@, start, end, stdout, stderr, status)
    &&& b.command.tick == a.command.tick
    &&& b.command.prev_tick == a.command.prev_tick
    &&& b.command.running_count == (if a.command.running_count > 0 {
        a.command.running_count - 1
    } else {
        0
    })
}

/// `SelectNext`: from `Latest` to the highest id, from an id to the one
/// below it, staying at the oldest id.
pub open spec fn select_next(target: TargetCommand, n: nat) -> TargetCommand {
    match target {
        TargetCommand::Latest => if n == 0 {
            TargetCommand::Latest
        } else {
            TargetCommand::Target((n - 1) as u16)
        },
        TargetCommand::Target(id) => if id == 0 {
            TargetCommand::Target(0)
        } else {
            TargetCommand::Target((id - 1) as u16)
        },
    }
}

/// `SelectPrev`: from the highest id to `Latest`, from another id to the
/// one above it, staying at `Latest`.
pub open spec fn select_prev(target: TargetCommand, n: nat) -> TargetCommand {
    match target {
        TargetCommand::Latest => TargetCommand::Latest,
        TargetCommand::Target(id) => if id + 1 == n {
            TargetCommand::Latest
        } else {
            TargetCommand::Target((id + 1) as u16)
        },
    }
}

/// `ScrollDown` on content of `len` lines: one line further, at most to
/// the last line; nothing without content.
pub open spec fn scroll_down(scroll: u16, len: nat) -> u16 {
    if len == 0 {
        scroll
    } else if scroll + 1 <= len - 1 && scroll < u16::MAX {
        (scroll + 1) as u16
    } else if len - 1 <= u16::MAX {
        (len - 1) as u16
    } else {
        scroll
    }
}

/// The number of lines the viewer can scroll through for the current
/// target: none while it names nothing.
pub open spec fn target_content_len(s: State) -> nat {
    match get_spec(s.global.store@, s.ui.target_command) {
        Some(r) => content_of(r).len(),
        None => 0,
    }
}

/// The navigation state after `action`, for a log of `n` records and
/// target content of `len` lines. The scroll offset is kept when the
/// target changes.
pub open spec fn navigate(ui: Ui, action: action::Ui, n: nat, len: nat) -> Ui {
    match action {
        action::Ui::Quit => ui,
        action::Ui::ScrollUp => Ui {
            vertical_scroll: if ui.vertical_scroll > 0 {
                (ui.vertical_scroll - 1) as u16
            } else {
                0
            },
            ..ui
        },
        action::Ui::ScrollDown => Ui { vertical_scroll: scroll_down(ui.vertical_scroll, len), ..ui },
        action::Ui::ToggleShowHistory => Ui { show_history: !ui.show_history, ..ui },
        action::Ui::ToggleShowHelp => Ui { show_help: !ui.show_help, ..ui },
        action::Ui::SelectNext => Ui { target_command: select_next(ui.target_command, n), ..ui },
        action::Ui::SelectPrev => Ui { target_command: select_prev(ui.target_command, n), ..ui },
        action::Ui::SelectLatest => Ui { target_command: TargetCommand::Latest, ..ui },
    }
}

impl State {
    /// The invariant: the log is well formed, the ceiling is positive and
    /// never exceeded, and the target names an existing record.
    pub open spec fn wf(&self) -> bool {
        &&& self.global.store.wf()
        &&& 1 <= self.global.concurrency
        &&& self.command.running_count <= self.global.concurrency
        &&& target_valid(self.ui.target_command, self.global.store@.len())
    }

    /// A fresh state: running, nothing in flight, nothing recorded, the
    /// viewer on `Latest`. An interval under the minimum is raised to it.
    pub fn new(command: Vec<String>, interval: u64, concurrency: u8) -> (r: State)
        requires
            concurrency >= 1,
        ensures
            r.wf(),
            r.global.running,
            r.global.command@ == command@,
            r.global.interval == clamp_interval(interval),
            r.global.concurrency == concurrency,
            r.global.store@ == Seq::<CommandResult>::empty(),
            r.command == (Command { tick: TICK_MS, prev_tick: 0, running_count: 0 }),
            r.ui == (Ui {
                show_history: false,
                vertical_scroll: 0,
                show_help: false,
                target_command: TargetCommand::Latest,
            }),
    {
        State { global: Global::new(command, interval, concurrency), ui: Ui::default(), command: Command::default() }
    }

    /// Whether a dispatch is admitted at tick `t`.
    pub fn can_run(&self, t: u64) -> (r: bool)
        requires
            self.wf(),
        ensures
            r == admits(*self, t),
    {
        let tick_diff = if t >= self.command.prev_tick {
            t - self.command.prev_tick
        } else {
            0
        };
        tick_diff >= self.global.interval
            && self.command.running_count < self.global.concurrency
    }

    fn launch(&mut self, t: u64, start: u64) -> (r: Option<u16>)
        requires
            old(self).wf(),
            old(self).command.running_count < old(self).global.concurrency,
        ensures
            final(self).wf(),
            launched(*old(self), *final(self), t, start),
            r == next_id(old(self).global.store@.len()),
    {
        let id = self.global.record_command(start);
        self.command.prev_tick = t;
        self.command.running_count = self.command.running_count + 1;
        id
    }

    /// The dispatch at startup, which waits for no interval: admitted unless
    /// the concurrency ceiling is reached.
    pub fn start_first_run(&mut self, t: u64, start: u64) -> (r: TickOutcome)
        requires
            old(self).wf(),
        ensures
            final(self).wf(),
            r == (if old(self).command.running_count < old(self).global.concurrency {
                TickOutcome::Dispatched(next_id(old(self).global.store@.len()))
            } else {
                TickOutcome::Waiting
            }),
            r is Dispatched ==> launched(*old(self), *final(self), t, start),
            !(r is Dispatched) ==> *final(self) == *old(self),
    {
        if self.command.running_count < self.global.concurrency {
            let id = self.launch(t, start);
            TickOutcome::Dispatched(id)
        } else {
            TickOutcome::Waiting
        }
    }

    /// A dispatch at tick `t` of an execution started at `start`, if the
    /// admission check lets it through: the execution is then counted in
    /// flight and recorded as pending. Checking and counting in one step
    /// keeps the ceiling whatever order events come in.
    pub fn start_run(&mut self, t: u64, start: u64) -> (r: bool)
        requires
            old(self).wf(),
        ensures
            final(self).wf(),
            final(self).command.running_count <= final(self).global.concurrency,
            r == admits(*old(self), t),
            r ==> launched(*old(self), *final(self), t, start),
            !r ==> *final(self) == *old(self),
            final(self).command == runner_tick(
                old(self).command,
                old(self).global.interval,
                old(self).global.concurrency,
                t,
            ),
    {
        if self.can_run(t) {
            let _ = self.launch(t, start);
            true
        } else {
            false
        }
    }

    /// An execution finished: its pending record takes the outcome (when
    /// there is one) and it no longer counts as in flight. Returns whether
    /// a pending record matched.
    pub fn finish_run(
        &mut self,
        start: u64,
        end: u64,
        stdout: String,
        stderr: String,
        status: u8,
    ) -> (r: bool)
        requires
            old(self).wf(),
        ensures
            final(self).wf(),
            finished(*old(self), *final(self), start, end, stdout, stderr, status),
            final(self).command == runner_done(old(self).command),
            r == crate::store::has_pending_at(old(self).global.store@, start),
    {
        let r = self.global.record_command_result(start, end, stdout, stderr, status);
        if self.command.running_count > 0 {
            self.command.running_count = self.command.running_count - 1;
        }
        r
    }

    /// Applies one lifecycle event of an execution. A `StartRun` is a
    /// dispatch that the scheduler admitted, so a slot is free for it: it
    /// becomes the latest dispatch, is counted in flight and is recorded as
    /// pending. A `RunResult` completes the matching pending record and
    /// frees a slot.
    pub fn handle_command_action(&mut self, command_action: action::Command)
        requires
            old(self).wf(),
            command_action is StartRun ==> old(self).command.running_count < old(
                self,
            ).global.concurrency,
        ensures
            final(self).wf(),
            final(self).command.running_count <= final(self).global.concurrency,
            match command_action {
                action::Command::StartRun(t, start) => launched(
                    *old(self),
                    *final(self),
                    t,
                    start,
                ),
                action::Command::RunResult(start, end, stdout, stderr, status) => finished(
                    *old(self),
                    *final(self),
                    start,
                    end,
                    stdout,
                    stderr,
                    status,
                ),
            },
    {
        match command_action {
            action::Command::RunResult(start, end, stdout, stderr, status) => {
                let _ = self.finish_run(start, end, stdout, stderr, status);
            },
            action::Command::StartRun(t, start) => {
                let _ = self.launch(t, start);
            },
        }
    }

    /// One tick of the scheduler at tick `t`, with `start` the wall-clock
    /// time: stop once shutdown was requested, else dispatch if admitted.
    pub fn on_tick(&mut self, t: u64, start: u64) -> (r: TickOutcome)
        requires
            old(self).wf(),
        ensures
            final(self).wf(),
            final(self).command.running_count <= final(self).global.concurrency,
            r == (if !old(self).global.running {
                TickOutcome::Stopped
            } else if admits(*old(self), t) {
                TickOutcome::Dispatched(next_id(old(self).global.store@.len()))
            } else {
                TickOutcome::Waiting
            }),
            r is Dispatched ==> launched(*old(self), *final(self), t, start),
            !(r is Dispatched) ==> *final(self) == *old(self),
            old(self).global.running ==> final(self).command == runner_tick(
                old(self).command,
                old(self).global.interval,
                old(self).global.concurrency,
                t,
            ),
    {
        if !self.global.running {
            return TickOutcome::Stopped;
        }
        if self.can_run(t) {
            let id = self.launch(t, start);
            TickOutcome::Dispatched(id)
        } else {
            TickOutcome::Waiting
        }
    }

    /// Applies one viewer intent: `Quit` clears the running flag, the rest
    /// change the navigation state as `navigate` says.
    pub fn handle_ui_action(&mut self, ui_action: action::Ui)
        requires
            old(self).wf(),
        ensures
            final(self).wf(),
            final(self).global.running == (old(self).global.running && ui_action
                != action::Ui::Quit),
            final(self).global.command@ == old(self).global.command@,
            final(self).global.interval == old(self).global.interval,
            final(self).global.concurrency == old(self).global.concurrency,
            final(self).global.store@ == old(self).global.store@,
            final(self).command == old(self).command,
            final(self).ui == navigate(
                old(self).ui,
                ui_action,
                old(self).global.store@.len(),
                target_content_len(*old(self)),
            ),
    {
        match ui_action {
            action::Ui::Quit => {
                self.global.running = false;
            },
            action::Ui::ScrollUp => {
                if self.ui.vertical_scroll > 0 {
                    self.ui.vertical_scroll = self.ui.vertical_scroll - 1;
                }
            },
            action::Ui::ScrollDown => {
                let length: usize = match self.global.get_target_command_result(
                    &self.ui.target_command,
                ) {
                    Some(r) => {
                        let content = r.get_content();
                        proof {
                            assert(line_views(content@).len() == content@.len());
                        }
                        content.len()
                    },
                    None => 0,
                };
                if length > 0 {
                    let last = length - 1;
                    if (self.ui.vertical_scroll as usize) < last && self.ui.vertical_scroll < u16::MAX {
                        self.ui.vertical_scroll = self.ui.vertical_scroll + 1;
                    } else if last <= u16::MAX as usize {
                        self.ui.vertical_scroll = last as u16;
                    }
                }
            },
            action::Ui::ToggleShowHistory => {
                self.ui.show_history = !self.ui.show_history;
            },
            action::Ui::ToggleShowHelp => {
                self.ui.show_help = !self.ui.show_help;
            },
            action::Ui::SelectNext => {
                let n = self.global.store.len();
                match self.ui.target_command {
                    TargetCommand::Latest => {
                        if n > 0 {
                            self.ui.target_command = TargetCommand::Target((n - 1) as u16);
                        }
                    },
                    TargetCommand::Target(id) => {
                        let id = if id == 0 {
                            0
                        } else {
                            id - 1
                        };
                        self.ui.target_command = TargetCommand::Target(id);
                    },
                }
            },
            action::Ui::SelectPrev => {
                let n = self.global.store.len();
                match self.ui.target_command {
                    TargetCommand::Latest => {},
                    TargetCommand::Target(id) => {
                        if id as usize + 1 == n {
                            self.ui.target_command = TargetCommand::Latest;
                        } else {
                            self.ui.target_command = TargetCommand::Target(id + 1);
                        }
                    },
                }
            },
            action::Ui::SelectLatest => {
                self.ui.target_command = TargetCommand::Latest;
            },
        }
    }
}

} // verus!
