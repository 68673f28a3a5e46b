//! The run procedure: replays a preset's commands one at a time as a state
//! machine. Each event from outside (go on, a value typed for a placeholder,
//! a command's exit) gives the notices to show and the next thing to do
//! outside (ask for a value, run a command line, go on, or end the run).
use vstd::prelude::*;
use crate::placeholder::{has_placeholder, has_token, replace_first, resolve_placeholder, trimmed};
use crate::store::{lines_of, PresetStore, StoreError};

verus! {

/// How a preset is run.
#[derive(Debug, Clone, Copy, PartialEq, Eq, Structural)]
pub struct RunConfig {
    /// Go on past a failing command instead of ending the run.
    pub skip_errors: bool,
    /// Show no notices at all.
    pub no_message: bool,
    /// Resolve and show each command, but run none.
    pub dry_run: bool,
}

/// The tally of a run.
#[derive(Debug, Clone, Copy, PartialEq, Eq, Structural)]
pub struct RunOutcome {
    pub succeeded: usize,
    pub failed: usize,
    pub total: usize,
}

/// Where a run stands.
#[derive(Debug, Clone, Copy, PartialEq, Eq, Structural)]
pub enum RunPhase {
    /// About to take up the command at the current position.
    Ready,
    /// The current command still holds a placeholder: a value is awaited.
    Resolving,
    /// The current command was handed out to run: its exit is awaited.
    Running,
    /// The run is over, with this exit status.
    Done(i32),
}

/// A line to show the user.
#[derive(Debug)]
pub enum Notice {
    /// In a dry run: this command line would be executed.
    WouldExecute(String),
    /// This command line is being executed.
    Executing(String),
    /// A command failed and the run stops.
    Stopping,
    /// The counts of a run that stopped early.
    PartialSummary { succeeded: usize, failed: usize },
    /// A command failed and the run goes on.
    Skipping,
    /// The counts of a run that went through every command.
    Completed { succeeded: usize, failed: usize },
}

/// What is to be done outside the run next.
#[derive(Debug)]
pub enum Action {
    /// Ask for one line of input for a placeholder of this (original) command.
    Prompt(String),
    /// Run this command line through the shell and report whether it succeeded.
    Execute(String),
    /// Nothing to do outside: send `Event::Proceed`.
    Continue,
    /// The run is over: end with this exit status.
    Finish(i32),
    /// The event did not fit where the run stands; nothing changed.
    Ignored,
}

/// What happened outside the run.
#[derive(Debug)]
pub enum Event {
    /// Go on (start the run, or after `Action::Continue`).
    Proceed,
    /// The line that the user entered for a placeholder.
    Value(String),
    /// The command handed out ended: `true` when it succeeded.
    Exited(bool),
}

/// The model of a `Notice`.
pub enum NoticeModel {
    WouldExecute(Seq<char>),
    Executing(Seq<char>),
    Stopping,
    PartialSummary { succeeded: nat, failed: nat },
    Skipping,
    Completed { succeeded: nat, failed: nat },
}

/// The model of an `Action`.
pub enum ActionModel {
    Prompt(Seq<char>),
    Execute(Seq<char>),
    Continue,
    Finish(i32),
    Ignored,
}

/// The model of an `Event`.
pub enum EventModel {
    Proceed,
    Value(Seq<char>),
    Exited(bool),
}

impl View for Notice {
    type V = NoticeModel;

    open spec fn view(&self) -> NoticeModel {
        match self {
            Notice::WouldExecute(c) => NoticeModel::WouldExecute(c@),
            Notice::Executing(c) => NoticeModel::Executing(c@),
            Notice::Stopping => NoticeModel::Stopping,
            Notice::PartialSummary { succeeded, failed } => NoticeModel::PartialSummary {
                succeeded: *succeeded as nat,
                failed: *failed as nat,
            },
            Notice::Skipping => NoticeModel::Skipping,
            Notice::Completed { succeeded, failed } => NoticeModel::Completed {
                succeeded: *succeeded as nat,
                failed: *failed as nat,
            },
        }
    }
}

impl View for Action {
    type V = ActionModel;

    open spec fn view(&self) -> ActionModel {
        match self {
            Action::Prompt(c) => ActionModel::Prompt(c@),
            Action::Execute(c) => ActionModel::Execute(c@),
            Action::Continue => ActionModel::Continue,
            Action::Finish(code) => ActionModel::Finish(*code),
            Action::Ignored => ActionModel::Ignored,
        }
    }
}

impl View for Event {
    type V = EventModel;

    open spec fn view(&self) -> EventModel {
        match self {
            Event::Proceed => EventModel::Proceed,
            Event::Value(line) => EventModel::Value(line@),
            Event::Exited(ok) => EventModel::Exited(*ok),
        }
    }
}

/// The model of a run: the command lines, the configuration, the position of
/// the current command, the phase, the working copy of the current command,
/// and the tally.
pub struct RunState {
    pub commands: Seq<Seq<char>>,
    pub config: RunConfig,
    pub index: nat,
    pub phase: RunPhase,
    pub working: Seq<char>,
    pub succeeded: nat,
    pub failed: nat,
}

/// What one event yields: the new state, the notices, the next action.
pub type Transition = (RunState, Seq<NoticeModel>, ActionModel);

/// The states a run can reach.
pub open spec fn run_wf(s: RunState) -> bool {
    &&& s.index <= s.commands.len()
    &&& s.succeeded + s.failed <= s.commands.len()
    &&& !(s.phase is Done) ==> s.succeeded + s.failed <= s.index
    &&& (s.phase is Resolving || s.phase is Running) ==> s.index < s.commands.len()
    &&& s.phase is Running ==> !has_token(s.working) && !s.config.dry_run
}

/// `n` as a list of notices, empty when notices are off.
pub open spec fn announce(config: RunConfig, n: NoticeModel) -> Seq<NoticeModel> {
    if config.no_message {
        Seq::empty()
    } else {
        seq![n]
    }
}

/// The step once the working copy of the current command is known: ask for
/// a value while it holds a placeholder; else show it and, unless in a dry
/// run, hand it out to run.
pub open spec fn dispatch(s: RunState) -> Transition {
    if has_token(s.working) {
        (RunState { phase: RunPhase::Resolving, ..s }, Seq::empty(), ActionModel::Prompt(s.commands[s.index as int]))
    } else if s.config.dry_run {
        (
            RunState { phase: RunPhase::Ready, index: s.index + 1, ..s },
            announce(s.config, NoticeModel::WouldExecute(s.working)),
            ActionModel::Continue,
        )
    } else {
        (
            RunState { phase: RunPhase::Running, ..s },
            announce(s.config, NoticeModel::Executing(s.working)),
            ActionModel::Execute(s.working),
        )
    }
}

/// The step after the current command exited with `ok`: count it; on a
/// failure without `skip_errors` stop with status 1; else warn of a failure,
/// show the summary once every command has been counted, and go on.
pub open spec fn after_exit(s: RunState, ok: bool) -> Transition {
    let succeeded = if ok { s.succeeded + 1 } else { s.succeeded };
    let failed = if ok { s.failed } else { s.failed + 1 };
    if !ok && !s.config.skip_errors {
        (
            RunState { phase: RunPhase::Done(1), succeeded, failed, ..s },
            if s.config.no_message {
                Seq::empty()
            } else {
                seq![NoticeModel::Stopping, NoticeModel::PartialSummary { succeeded, failed }]
            },
            ActionModel::Finish(1),
        )
    } else {
        (
            RunState { phase: RunPhase::Ready, index: s.index + 1, succeeded, failed, ..s },
            (if ok {
                Seq::empty()
            } else {
                announce(s.config, NoticeModel::Skipping)
            }) + (if succeeded + failed == s.commands.len() {
                announce(s.config, NoticeModel::Completed { succeeded, failed })
            } else {
                Seq::empty()
            }),
            ActionModel::Continue,
        )
    }
}

/// The transition of a run on one event.
pub open spec fn next(s: RunState, e: EventModel) -> Transition {
    match s.phase {
        RunPhase::Done(code) => (s, Seq::empty(), ActionModel::Finish(code)),
        RunPhase::Ready => match e {
            EventModel::Proceed => if s.index >= s.commands.len() {
                (RunState { phase: RunPhase::Done(0), ..s }, Seq::empty(), ActionModel::Finish(0))
            } else {
                dispatch(RunState { working: s.commands[s.index as int], ..s })
            },
            _ => (s, Seq::empty(), ActionModel::Ignored),
        },
        RunPhase::Resolving => match e {
            EventModel::Value(line) => dispatch(
                RunState { working: replace_first(s.working, trimmed(line)), ..s },
            ),
            _ => (s, Seq::empty(), ActionModel::Ignored),
        },
        RunPhase::Running => match e {
            EventModel::Exited(ok) => after_exit(s, ok),
            _ => (s, Seq::empty(), ActionModel::Ignored),
        },
    }
}


/// Every transition keeps a run within the states it can reach.
pub proof fn lemma_next_wf(s: RunState, e: EventModel)
    requires
        run_wf(s),
    ensures
        run_wf(next(s, e).0),
{
}

/// The notices of a step, as models.
pub open spec fn notices_of(v: Seq<Notice>) -> Seq<NoticeModel> {
    v.map_values(|n: Notice| n@)
}

/// What a run yields on one event.
#[derive(Debug)]
pub struct Step {
    /// The lines to show, in order.
    pub notices: Vec<Notice>,
    /// What to do next outside the run.
    pub action: Action,
}

/// A run of one preset's commands, in list order.
pub struct PresetRun {
    commands: Vec<String>,
    config: RunConfig,
    index: usize,
    phase: RunPhase,
    working: String,
    succeeded: usize,
    failed: usize,
}

impl View for PresetRun {
    type V = RunState;

    closed spec fn view(&self) -> RunState {
        RunState {
            commands: lines_of(self.commands@),
            config: self.config,
            index: self.index as nat,
            phase: self.phase,
            working: self.working@,
            succeeded: self.succeeded as nat,
            failed: self.failed as nat,
        }
    }
}

/// `n` alone, or nothing when notices are off.
fn announce_exec(config: RunConfig, n: Notice) -> (r: Vec<Notice>)
    ensures
        notices_of(r@) == announce(config, n@),
{
    let mut r: Vec<Notice> = Vec::new();
    if !config.no_message {
        r.push(n);
    }
    assert(notices_of(r@) =~= announce(config, n@));
    r
}

impl PresetRun {
    /// A run of `commands` under `config`, before its first event.
    pub fn new(commands: Vec<String>, config: RunConfig) -> (r: PresetRun)
        ensures
            run_wf(r@),
            r@ == (RunState {
                commands: lines_of(commands@),
                config,
                index: 0,
                phase: RunPhase::Ready,
                working: Seq::empty(),
                succeeded: 0,
                failed: 0,
            }),
    {
        PresetRun {
            commands,
            config,
            index: 0,
            phase: RunPhase::Ready,
            working: String::new(),
            succeeded: 0,
            failed: 0,
        }
    }

    /// Where the run stands.
    pub fn phase(&self) -> (r: RunPhase)
        ensures
            r == self@.phase,
    {
        self.phase
    }

    /// The tally so far, with the number of commands in the list.
    pub fn outcome(&self) -> (r: RunOutcome)
        ensures
            r.succeeded == self@.succeeded,
            r.failed == self@.failed,
            r.total == self@.commands.len(),
    {
        RunOutcome { succeeded: self.succeeded, failed: self.failed, total: self.commands.len() }
    }

    /// The step once the working copy of the current command is known.
    fn dispatch(&mut self) -> (r: Step)
        requires
            old(self)@.index < old(self)@.commands.len(),
        ensures
            (final(self)@, notices_of(r.notices@), r.action@) == dispatch(old(self)@),
    {
        let n = self.commands.len();
        assert(self@.commands.len() == n);
        if has_placeholder(self.working.as_str()) {
            self.phase = RunPhase::Resolving;
            let original = self.commands[self.index].clone();
            let r = Step { notices: Vec::new(), action: Action::Prompt(original) };
            assert(notices_of(r.notices@) =~= Seq::<NoticeModel>::empty());
            r
        } else if self.config.dry_run {
            let notices = announce_exec(self.config, Notice::WouldExecute(self.working.clone()));
            self.phase = RunPhase::Ready;
            self.index = self.index + 1;
            Step { notices, action: Action::Continue }
        } else {
            let notices = announce_exec(self.config, Notice::Executing(self.working.clone()));
            self.phase = RunPhase::Running;
            Step { notices, action: Action::Execute(self.working.clone()) }
        }
    }

    /// The step after the current command exited with `ok`.
    fn after_exit(&mut self, ok: bool) -> (r: Step)
        requires
            run_wf(old(self)@),
            old(self)@.phase is Running,
        ensures
            (final(self)@, notices_of(r.notices@), r.action@) == after_exit(old(self)@, ok),
    {
        let n = self.commands.len();
        assert(self@.commands.len() == n);
        if ok {
            self.succeeded = self.succeeded + 1;
        } else {
            self.failed = self.failed + 1;
        }
        let mut notices: Vec<Notice> = Vec::new();
        if !ok && !self.config.skip_errors {
            if !self.config.no_message {
                notices.push(Notice::Stopping);
                notices.push(
                    Notice::PartialSummary { succeeded: self.succeeded, failed: self.failed },
                );
            }
            self.phase = RunPhase::Done(1);
            let r = Step { notices, action: Action::Finish(1) };
            proof {
                let t = after_exit(old(self)@, ok);
                assert(notices_of(r.notices@) =~= t.1);
            }
            return r;
        }
        if !ok && !self.config.no_message {
            notices.push(Notice::Skipping);
        }
        let ghost first = notices_of(notices@);
        if self.succeeded + self.failed == n && !self.config.no_message {
            notices.push(Notice::Completed { succeeded: self.succeeded, failed: self.failed });
        }
        self.phase = RunPhase::Ready;
        self.index = self.index + 1;
        let r = Step { notices, action: Action::Continue };
        proof {
            let t = after_exit(old(self)@, ok);
            let a = if ok {
                Seq::<NoticeModel>::empty()
            } else {
                announce(old(self)@.config, NoticeModel::Skipping)
            };
            assert(first =~= a);
            assert(notices_of(r.notices@) =~= t.1);
        }
        r
    }

    /// Takes in one event and yields the notices to show and the next action.
    pub fn step(&mut self, event: Event) -> (r: Step)
        requires
            run_wf(old(self)@),
        ensures
            run_wf(final(self)@),
            (final(self)@, notices_of(r.notices@), r.action@) == next(old(self)@, event@),
    {
        let ghost e = event@;
        let r = match self.phase {
            RunPhase::Done(code) => Step { notices: Vec::new(), action: Action::Finish(code) },
            RunPhase::Ready => match event {
                Event::Proceed => {
                    if self.index >= self.commands.len() {
                        self.phase = RunPhase::Done(0);
                        Step { notices: Vec::new(), action: Action::Finish(0) }
                    } else {
                        self.working = self.commands[self.index].clone();
                        self.dispatch()
                    }
                },
                _ => Step { notices: Vec::new(), action: Action::Ignored },
            },
            RunPhase::Resolving => match event {
                Event::Value(line) => {
                    self.working = resolve_placeholder(self.working.as_str(), line.as_str());
                    self.dispatch()
                },
                _ => Step { notices: Vec::new(), action: Action::Ignored },
            },
            RunPhase::Running => match event {
                Event::Exited(ok) => self.after_exit(ok),
                _ => Step { notices: Vec::new(), action: Action::Ignored },
            },
        };
        proof {
            let t = next(old(self)@, e);
            lemma_next_wf(old(self)@, e);
            if t.1.len() == 0 {
                assert(notices_of(r.notices@) =~= t.1) by {}
            }
        }
        r
    }
}


/// A copy of a list of command strings.
fn copy_commands(v: &Vec<String>) -> (r: Vec<String>)
    ensures
        lines_of(r@) == lines_of(v@),
{
    let mut r: Vec<String> = Vec::new();
    let mut i: usize = 0;
    while i < v.len()
        invariant
            i <= v@.len(),
            lines_of(r@) == lines_of(v@).subrange(0, i as int),
        decreases v@.len() - i,
    {
        let ghost before = r@;
        let c = v[i].clone();
        r.push(c);
        proof {
            assert(r@ == before.push(v@[i as int]));
            assert(lines_of(r@) =~= lines_of(before).push(v@[i as int]@));
            assert(lines_of(r@) =~= lines_of(v@).subrange(0, i + 1));
        }
        i = i + 1;
    }
    assert(lines_of(v@).subrange(0, i as int) =~= lines_of(v@));
    r
}

/// A run of the preset named `name` under `config`, before its first event;
/// `PresetNotFound` where the store has no such preset.
pub fn start_run(store: &PresetStore, name: &str, config: RunConfig) -> (r: Result<
    PresetRun,
    StoreError,
>)
    requires
        store.wf(),
    ensures
        r is Ok <==> store@.contains_key(name@),
        match r {
            Ok(run) => run_wf(run@) && run@ == (RunState {
                commands: store@[name@],
                config,
                index: 0,
                phase: RunPhase::Ready,
                working: Seq::empty(),
                succeeded: 0,
                failed: 0,
            }),
            Err(e) => e == StoreError::PresetNotFound,
        },
{
    match store.get(name) {
        None => Err(StoreError::PresetNotFound),
        Some(commands) => Ok(PresetRun::new(copy_commands(commands), config)),
    }
}

/// In a dry run no event hands a command out to run, the tally never moves,
/// the run stays a dry run, and no completion summary is ever shown.
pub proof fn lemma_dry_run_runs_nothing(s: RunState, e: EventModel)
    requires
        run_wf(s),
        s.config.dry_run,
    ensures
        !(next(s, e).2 is Execute),
        next(s, e).0.config == s.config,
        next(s, e).0.succeeded == s.succeeded,
        next(s, e).0.failed == s.failed,
        forall|i: int| 0 <= i < next(s, e).1.len() ==> !(#[trigger] next(s, e).1[i] is Completed),
{
}

/// Without `skip_errors`, a failed command ends the run with status 1 and
/// the tally counts it; no event afterwards starts another command or
/// changes the run.
pub proof fn lemma_failure_ends_run(s: RunState, e: EventModel)
    requires
        run_wf(s),
        s.phase is Running,
        !s.config.skip_errors,
    ensures
        next(s, EventModel::Exited(false)).0.phase == RunPhase::Done(1),
        next(s, EventModel::Exited(false)).0.failed == s.failed + 1,
        next(s, EventModel::Exited(false)).0.succeeded == s.succeeded,
        next(s, EventModel::Exited(false)).2 == ActionModel::Finish(1),
        next(next(s, EventModel::Exited(false)).0, e).0 == next(s, EventModel::Exited(false)).0,
        next(next(s, EventModel::Exited(false)).0, e).2 == ActionModel::Finish(1),
{
}

} // verus!
