use vstd::prelude::*;

use crate::config::{
    lemma_record_assignment, lemma_record_keeps_unique, record_assignment, unique_names,
    variable_map, Assignment, ConfigView, TesseractConfiguration,
};
use crate::error::TesseractError;

verus! {

/// A call the shell around the manager makes on the native engine.
pub enum EngineCall {
    /// Release the engine's internal state without destroying it.
    End,
    /// Initialise the engine with a data path and a language selector.
    Init(String, String),
    /// Assign an engine variable: a name and a value.
    SetVariable(String, String),
}

/// What the manager asks of the shell next: one engine call, or the outcome of
/// the operation in progress.
pub enum Step {
    Call(EngineCall),
    Done(Result<(), TesseractError>),
}

/// The abstract form of an [`EngineCall`].
pub enum CallView {
    End,
    Init(Seq<char>, Seq<char>),
    SetVariable(Seq<char>, Seq<char>),
}

/// The abstract form of a [`Step`].
pub enum StepView {
    Call(CallView),
    Done(Result<(), TesseractError>),
}

impl View for EngineCall {
    type V = CallView;

    open spec fn view(&self) -> CallView {
        match self {
            EngineCall::End => CallView::End,
            EngineCall::Init(d, l) => CallView::Init(d@, l@),
            EngineCall::SetVariable(n, v) => CallView::SetVariable(n@, v@),
        }
    }
}

impl View for Step {
    type V = StepView;

    open spec fn view(&self) -> StepView {
        match self {
            Step::Call(c) => StepView::Call(c@),
            Step::Done(r) => StepView::Done(*r),
        }
    }
}

/// The engine call the manager is waiting on, if any.
#[derive(Clone, Copy)]
pub enum Pending {
    /// No operation is in progress.
    Idle,
    /// An `End` was issued ahead of a reinitialisation.
    Ending,
    /// An `Init` was issued with the snapshot's data path and language.
    Initializing,
    /// The variable at this position of the snapshot is being replayed.
    Replaying(usize),
    /// A caller's assignment, recorded at this position, is being applied;
    /// `resync` says whether the engine held the snapshot before it.
    Setting { index: usize, resync: bool },
}

/// The abstract form of a [`Pending`].
pub enum PendingView {
    Idle,
    Ending,
    Initializing,
    Replaying(nat),
    Setting { index: nat, resync: bool },
}

impl View for Pending {
    type V = PendingView;

    open spec fn view(&self) -> PendingView {
        match *self {
            Pending::Idle => PendingView::Idle,
            Pending::Ending => PendingView::Ending,
            Pending::Initializing => PendingView::Initializing,
            Pending::Replaying(n) => PendingView::Replaying(n as nat),
            Pending::Setting { index, resync } => PendingView::Setting {
                index: index as nat,
                resync,
            },
        }
    }
}

/// The abstract state of a [`LifecycleManager`].
pub struct ManagerView {
    /// The configuration snapshot.
    pub config: ConfigView,
    /// The engine holds the snapshot: it was initialised with the snapshot's
    /// data path and language, has accepted every snapshot variable since, and
    /// was not ended or initialised otherwise after that.
    pub in_sync: bool,
    /// The engine call awaited.
    pub pending: PendingView,
    /// The variables this manager has assigned on the engine, and the engine
    /// accepted, since the engine was last initialised or ended.
    pub engine: Map<Seq<char>, Seq<char>>,
}

/// The state of a manager before its first operation.
pub open spec fn fresh_spec(config: ConfigView) -> ManagerView {
    ManagerView { config, in_sync: false, pending: PendingView::Idle, engine: Map::empty() }
}

/// The invariant every manager keeps.
pub open spec fn manager_inv(m: ManagerView) -> bool {
    let vars = m.config.variables;
    &&& unique_names(vars)
    &&& m.in_sync ==> m.pending is Idle && m.engine == variable_map(vars)
    &&& match m.pending {
        PendingView::Replaying(n) => n < vars.len() && m.engine == variable_map(vars.take(n as int)),
        PendingView::Setting { index, resync } => index < vars.len() && (resync ==> m.engine.insert(
            vars[index as int].0,
            vars[index as int].1,
        ) == variable_map(vars)),
        _ => true,
    }
}

/// The step that sends the snapshot variable at position `n`, or ends the
/// replay with success when none is left.
pub open spec fn replay_spec(m: ManagerView, n: nat) -> (ManagerView, StepView) {
    let vars = m.config.variables;
    if n >= vars.len() {
        (ManagerView { in_sync: true, pending: PendingView::Idle, ..m }, StepView::Done(Ok(())))
    } else {
        (
            ManagerView { in_sync: false, pending: PendingView::Replaying(n), ..m },
            StepView::Call(CallView::SetVariable(vars[n as int].0, vars[n as int].1)),
        )
    }
}

/// `init(datapath, language)`: the engine is ended first when it was
/// initialised with another data path or language; then it is initialised and
/// every snapshot variable is replayed. When the engine already holds the
/// snapshot and both arguments are unchanged, nothing is called.
pub open spec fn begin_init_spec(m: ManagerView, datapath: Seq<char>, language: Seq<char>) -> (
    ManagerView,
    StepView,
) {
    let was_initialized = m.config.is_initialized();
    let same = m.config.datapath == datapath && m.config.language == language;
    let config = ConfigView { datapath, language, ..m.config };
    if was_initialized && same && m.in_sync {
        (m, StepView::Done(Ok(())))
    } else if was_initialized && !same {
        (
            ManagerView { config, in_sync: false, pending: PendingView::Ending, ..m },
            StepView::Call(CallView::End),
        )
    } else {
        (
            ManagerView { config, in_sync: false, pending: PendingView::Initializing, ..m },
            StepView::Call(CallView::Init(datapath, language)),
        )
    }
}

/// `set_variable(name, value)`: the assignment is recorded in the snapshot, so
/// that later initialisations replay it, and then sent to the engine.
pub open spec fn begin_set_variable_spec(m: ManagerView, name: Seq<char>, value: Seq<char>) -> (
    ManagerView,
    StepView,
) {
    let vars = record_assignment(m.config.variables, name, value);
    let index = choose|i: int| 0 <= i < vars.len() && #[trigger] vars[i].0 == name;
    (
        ManagerView {
            config: ConfigView { variables: vars, ..m.config },
            in_sync: false,
            pending: PendingView::Setting { index: index as nat, resync: m.in_sync },
            ..m
        },
        StepView::Call(CallView::SetVariable(name, value)),
    )
}

/// The manager's answer to the status the engine returned for the call it
/// awaited (`End` returns none: any value stands for it).
///
/// An `Init` status other than 0 is a failure: the snapshot returns to the
/// uninitialised sentinel and `InitError` is reported. A `SetVariable` status
/// other than 1 is a failure reported as `SetVariableError`; the snapshot keeps
/// the assignment.
pub open spec fn resume_spec(m: ManagerView, status: i32) -> (ManagerView, StepView) {
    let vars = m.config.variables;
    match m.pending {
        PendingView::Idle => (m, StepView::Done(Ok(()))),
        PendingView::Ending => (
            ManagerView { pending: PendingView::Initializing, engine: Map::empty(), ..m },
            StepView::Call(CallView::Init(m.config.datapath, m.config.language)),
        ),
        PendingView::Initializing => {
            if status != 0 {
                (
                    ManagerView {
                        config: ConfigView { datapath: Seq::empty(), language: Seq::empty(), ..m.config },
                        in_sync: false,
                        pending: PendingView::Idle,
                        engine: Map::empty(),
                    },
                    StepView::Done(Err(TesseractError::InitError)),
                )
            } else {
                replay_spec(ManagerView { engine: Map::empty(), ..m }, 0)
            }
        },
        PendingView::Replaying(n) => {
            if status != 1 {
                (
                    ManagerView { in_sync: false, pending: PendingView::Idle, ..m },
                    StepView::Done(Err(TesseractError::SetVariableError)),
                )
            } else {
                replay_spec(
                    ManagerView { engine: m.engine.insert(vars[n as int].0, vars[n as int].1), ..m },
                    n + 1,
                )
            }
        },
        PendingView::Setting { index, resync } => {
            if status != 1 {
                (
                    ManagerView { in_sync: false, pending: PendingView::Idle, ..m },
                    StepView::Done(Err(TesseractError::SetVariableError)),
                )
            } else {
                (
                    ManagerView {
                        in_sync: resync,
                        pending: PendingView::Idle,
                        engine: m.engine.insert(vars[index as int].0, vars[index as int].1),
                        ..m
                    },
                    StepView::Done(Ok(())),
                )
            }
        },
    }
}

/// The state after the engine was ended or initialised by a call this manager
/// did not plan: the engine no longer holds the snapshot.
pub open spec fn detach_spec(m: ManagerView) -> ManagerView {
    ManagerView { in_sync: false, engine: Map::empty(), ..m }
}

/// Drives the manager from `m`, about to take `step`, with the engine returning
/// `statuses` in turn; the run stops at the first `Done`.
pub open spec fn run(m: ManagerView, step: StepView, statuses: Seq<i32>) -> (ManagerView, StepView)
    decreases statuses.len(),
{
    if statuses.len() == 0 || step is Done {
        (m, step)
    } else {
        let (next, next_step) = resume_spec(m, statuses[0]);
        run(next, next_step, statuses.drop_first())
    }
}

/// The engine calls issued while driving the manager from `m`, about to take
/// `step`, with the engine returning `statuses` in turn; the run stops at the
/// first `Done`.
pub open spec fn calls_of(m: ManagerView, step: StepView, statuses: Seq<i32>) -> Seq<CallView>
    decreases statuses.len(),
{
    match step {
        StepView::Done(_) => Seq::empty(),
        StepView::Call(c) => if statuses.len() == 0 {
            seq![c]
        } else {
            let (next, next_step) = resume_spec(m, statuses[0]);
            seq![c] + calls_of(next, next_step, statuses.drop_first())
        },
    }
}

/// The calls that replay a list of assignments, one per entry, in order.
pub open spec fn replay_calls(vars: Seq<Assignment>) -> Seq<CallView> {
    vars.map_values(|a: Assignment| CallView::SetVariable(a.0, a.1))
}

/// A sequence of statuses that each report success for a variable assignment.
pub open spec fn all_accepted(statuses: Seq<i32>) -> bool {
    forall|i: int| 0 <= i < statuses.len() ==> #[trigger] statuses[i] == 1
}

/// Owns the configuration snapshot of one engine and decides every call that
/// keeps the engine consistent with it.
///
/// An operation starts with `begin_init` or `begin_set_variable`, which returns
/// the first [`Step`]. The shell performs each `Step::Call` on the engine and
/// hands the status it returned to `resume`, until a `Step::Done` gives the
/// operation's result.
pub struct LifecycleManager {
    config: TesseractConfiguration,
    in_sync: bool,
    pending: Pending,
    engine: Ghost<Map<Seq<char>, Seq<char>>>,
}

impl View for LifecycleManager {
    type V = ManagerView;

    closed spec fn view(&self) -> ManagerView {
        ManagerView {
            config: self.config@,
            in_sync: self.in_sync,
            pending: self.pending@,
            engine: self.engine@,
        }
    }
}

impl LifecycleManager {
    pub open spec fn wf(&self) -> bool {
        manager_inv(self@)
    }

    proof fn lemma_config_wf(&self)
        requires
            self.wf(),
        ensures
            self.config.wf(),
    {
    }

    /// A manager for a freshly created engine: empty snapshot, nothing pending.
    pub fn new() -> (r: Self)
        ensures
            r.wf(),
            r@ == fresh_spec(r@.config),
            r@.config.datapath.len() == 0,
            r@.config.language.len() == 0,
            r@.config.variables.len() == 0,
    {
        LifecycleManager {
            config: TesseractConfiguration::new(),
            in_sync: false,
            pending: Pending::Idle,
            engine: Ghost(Map::empty()),
        }
    }

    /// A manager for a second, freshly created engine that is to be configured
    /// like this one: it takes the snapshot's variables, but starts
    /// uninitialised, so that an `init` with this snapshot's data path and
    /// language replays all of them onto the new engine.
    pub fn fresh_copy(&self) -> (r: Self)
        requires
            self.wf(),
        ensures
            r.wf(),
            r@ == fresh_spec(r@.config),
            r@.config.datapath.len() == 0,
            r@.config.language.len() == 0,
            r@.config.variables == self@.config.variables,
    {
        proof {
            self.lemma_config_wf();
        }
        LifecycleManager {
            config: self.config.variables_only(),
            in_sync: false,
            pending: Pending::Idle,
            engine: Ghost(Map::empty()),
        }
    }

    /// The configuration snapshot.
    pub fn config(&self) -> (r: &TesseractConfiguration)
        ensures
            r@ == self@.config,
            self.wf() ==> r.wf(),
    {
        &self.config
    }

    /// Whether the snapshot records a successful initialisation.
    pub fn is_initialized(&self) -> (r: bool)
        ensures
            r == self@.config.is_initialized(),
    {
        self.config.is_initialized()
    }

    /// The data path and language a copy of this manager is to be initialised
    /// with: the snapshot's, when it records an initialisation.
    pub fn init_target(&self) -> (r: Option<(String, String)>)
        ensures
            r is Some <==> self@.config.is_initialized(),
            r is Some ==> r->Some_0.0@ == self@.config.datapath && r->Some_0.1@
                == self@.config.language,
    {
        if self.config.is_initialized() {
            Some((self.config.datapath().to_owned(), self.config.language().to_owned()))
        } else {
            None
        }
    }

    /// Whether no operation is in progress.
    pub fn is_idle(&self) -> (r: bool)
        ensures
            r == self@.pending is Idle,
    {
        match self.pending {
            Pending::Idle => true,
            _ => false,
        }
    }

    /// Starts `init(datapath, language)`; see [`begin_init_spec`].
    pub fn begin_init(&mut self, datapath: String, language: String) -> (r: Step)
        requires
            old(self).wf(),
            old(self)@.pending is Idle,
        ensures
            final(self).wf(),
            (final(self)@, r@) == begin_init_spec(old(self)@, datapath@, language@),
    {
        let was_initialized = self.config.is_initialized();
        let same = self.config.has_target(&datapath, &language);
        if was_initialized && same && self.in_sync {
            return Step::Done(Ok(()));
        }
        let d = datapath.clone();
        let l = language.clone();
        self.config.set_target(datapath, language);
        self.in_sync = false;
        if was_initialized && !same {
            self.pending = Pending::Ending;
            Step::Call(EngineCall::End)
        } else {
            self.pending = Pending::Initializing;
            Step::Call(EngineCall::Init(d, l))
        }
    }

    /// Starts `set_variable(name, value)`; see [`begin_set_variable_spec`].
    pub fn begin_set_variable(&mut self, name: String, value: String) -> (r: Step)
        requires
            old(self).wf(),
            old(self)@.pending is Idle,
        ensures
            final(self).wf(),
            (final(self)@, r@) == begin_set_variable_spec(old(self)@, name@, value@),
    {
        let ghost before = self@;
        proof {
            self.lemma_config_wf();
            lemma_record_assignment(before.config.variables, name@, value@);
        }
        let n = name.clone();
        let v = value.clone();
        let index = self.config.set_variable(name, value);
        proof {
            let vars = self@.config.variables;
            let j = choose|i: int| 0 <= i < vars.len() && #[trigger] vars[i].0 == n@;
            assert(vars[index as int].0 == n@);
            assert(j == index);
        }
        self.pending = Pending::Setting { index, resync: self.in_sync };
        self.in_sync = false;
        Step::Call(EngineCall::SetVariable(n, v))
    }

    /// Answers the status the engine returned for the call awaited; see
    /// [`resume_spec`].
    pub fn resume(&mut self, status: i32) -> (r: Step)
        requires
            old(self).wf(),
            !(old(self)@.pending is Idle),
        ensures
            final(self).wf(),
            (final(self)@, r@) == resume_spec(old(self)@, status),
    {
        proof {
            self.lemma_config_wf();
        }
        match self.pending {
            Pending::Idle => Step::Done(Ok(())),
            Pending::Ending => {
                self.pending = Pending::Initializing;
                self.engine = Ghost(Map::empty());
                Step::Call(
                    EngineCall::Init(
                        self.config.datapath().to_owned(),
                        self.config.language().to_owned(),
                    ),
                )
            },
            Pending::Initializing => {
                self.engine = Ghost(Map::empty());
                if status != 0 {
                    self.config.clear_target();
                    self.in_sync = false;
                    self.pending = Pending::Idle;
                    Step::Done(Err(TesseractError::InitError))
                } else {
                    proof {
                        assert(self@.config.variables.take(0) == Seq::<Assignment>::empty());
                    }
                    self.replay(0)
                }
            },
            Pending::Replaying(n) => {
                if status != 1 {
                    self.in_sync = false;
                    self.pending = Pending::Idle;
                    Step::Done(Err(TesseractError::SetVariableError))
                } else {
                    let ghost vars = self@.config.variables;
                    let count = self.config.variable_count();
                    assert(n < count);
                    self.engine = Ghost(self.engine@.insert(vars[n as int].0, vars[n as int].1));
                    proof {
                        assert(vars.take(n as int + 1).drop_last() == vars.take(n as int));
                    }
                    self.replay(n + 1)
                }
            },
            Pending::Setting { index, resync } => {
                if status != 1 {
                    self.in_sync = false;
                    self.pending = Pending::Idle;
                    Step::Done(Err(TesseractError::SetVariableError))
                } else {
                    let ghost vars = self@.config.variables;
                    self.engine = Ghost(
                        self.engine@.insert(vars[index as int].0, vars[index as int].1),
                    );
                    self.in_sync = resync;
                    self.pending = Pending::Idle;
                    Step::Done(Ok(()))
                }
            },
        }
    }

    /// Sends the snapshot variable at position `n`, or finishes the replay.
    fn replay(&mut self, n: usize) -> (r: Step)
        requires
            unique_names(old(self)@.config.variables),
            n <= old(self)@.config.variables.len(),
            old(self)@.engine == variable_map(old(self)@.config.variables.take(n as int)),
        ensures
            final(self).wf(),
            (final(self)@, r@) == replay_spec(old(self)@, n as nat),
    {
        if n >= self.config.variable_count() {
            proof {
                assert(self@.config.variables.take(n as int) == self@.config.variables);
            }
            self.in_sync = true;
            self.pending = Pending::Idle;
            Step::Done(Ok(()))
        } else {
            let (name, value) = self.config.variable_at(n);
            let call = EngineCall::SetVariable(name.to_owned(), value.to_owned());
            self.in_sync = false;
            self.pending = Pending::Replaying(n);
            Step::Call(call)
        }
    }

    /// Records that the engine was ended, or initialised by a call this manager
    /// did not plan, so that the next `init` initialises it again.
    pub fn detach(&mut self)
        requires
            old(self).wf(),
            old(self)@.pending is Idle,
        ensures
            final(self).wf(),
            final(self)@ == detach_spec(old(self)@),
    {
        self.in_sync = false;
        self.engine = Ghost(Map::empty());
    }
}

/// The state of a run of `init(datapath, language)`: the invariant holds, a
/// `Done` comes exactly when nothing is pending, no caller assignment is in
/// flight, success means the engine holds the snapshot, and the snapshot holds
/// the requested pair unless the engine rejected the initialisation.
pub open spec fn init_run_state(
    m: ManagerView,
    step: StepView,
    datapath: Seq<char>,
    language: Seq<char>,
) -> bool {
    &&& manager_inv(m)
    &&& (step is Done <==> m.pending is Idle)
    &&& !(m.pending is Setting)
    &&& (step == StepView::Done(Ok(())) ==> m.in_sync)
    &&& if step == StepView::Done(Err(TesseractError::InitError)) {
        m.config.datapath.len() == 0 && m.config.language.len() == 0
    } else {
        m.config.datapath == datapath && m.config.language == language
    }
}

/// One answer from the engine keeps the invariant and the snapshot's variables,
/// and changes the snapshot's data path and language only by clearing both when
/// an initialisation fails.
proof fn lemma_resume_facts(m: ManagerView, status: i32)
    requires
        manager_inv(m),
        !(m.pending is Idle),
    ensures
        ({
            let (n, step) = resume_spec(m, status);
            &&& manager_inv(n)
            &&& n.config.variables == m.config.variables
            &&& (step is Done <==> n.pending is Idle)
            &&& if step == StepView::Done(Err(TesseractError::InitError)) {
                n.config.datapath.len() == 0 && n.config.language.len() == 0
            } else {
                n.config.datapath == m.config.datapath && n.config.language == m.config.language
            }
            &&& !(m.pending is Setting) ==> !(n.pending is Setting) && (step == StepView::Done(
                Ok(()),
            ) ==> n.in_sync)
        }),
{
    let vars = m.config.variables;
    match m.pending {
        PendingView::Initializing => {
            assert(vars.take(0) == Seq::<Assignment>::empty());
            assert(variable_map(vars.take(0)) == Map::<Seq<char>, Seq<char>>::empty());
            assert(vars.take(vars.len() as int) == vars);
        },
        PendingView::Replaying(n) => {
            assert(vars.take(n as int + 1).drop_last() == vars.take(n as int));
            assert(vars.take(vars.len() as int) == vars);
        },
        _ => {},
    }
}

/// Starting `init` sets up a run of it.
proof fn lemma_begin_init_facts(m: ManagerView, datapath: Seq<char>, language: Seq<char>)
    requires
        manager_inv(m),
        m.pending is Idle,
    ensures
        ({
            let (n, step) = begin_init_spec(m, datapath, language);
            init_run_state(n, step, datapath, language) && n.config.variables == m.config.variables
        }),
{
}

/// A run of `init` stays a run of `init` whatever the engine answers, and keeps
/// the snapshot's variables.
pub proof fn lemma_init_run(
    m: ManagerView,
    step: StepView,
    statuses: Seq<i32>,
    datapath: Seq<char>,
    language: Seq<char>,
)
    requires
        init_run_state(m, step, datapath, language),
    ensures
        ({
            let (n, last) = run(m, step, statuses);
            init_run_state(n, last, datapath, language) && n.config.variables == m.config.variables
        }),
    decreases statuses.len(),
{
    if statuses.len() > 0 && step is Call {
        lemma_resume_facts(m, statuses[0]);
        let (next, next_step) = resume_spec(m, statuses[0]);
        lemma_init_run(next, next_step, statuses.drop_first(), datapath, language);
    }
}

/// Any run keeps the invariant and the snapshot's variables, and ends with
/// nothing pending once it is done.
pub proof fn lemma_run(m: ManagerView, step: StepView, statuses: Seq<i32>)
    requires
        manager_inv(m),
        step is Done <==> m.pending is Idle,
    ensures
        ({
            let (n, last) = run(m, step, statuses);
            &&& manager_inv(n)
            &&& n.config.variables == m.config.variables
            &&& (last is Done <==> n.pending is Idle)
        }),
    decreases statuses.len(),
{
    if statuses.len() > 0 && step is Call {
        lemma_resume_facts(m, statuses[0]);
        let (next, next_step) = resume_spec(m, statuses[0]);
        lemma_run(next, next_step, statuses.drop_first());
    }
}

/// Calling `init` twice in succession with the same data path and language
/// ends the engine at most once: whatever the engine answered during the first
/// call, the second one does not start with `End`; and when the first one
/// succeeded, the second one calls nothing and changes nothing.
pub proof fn lemma_repeated_init_does_not_end(
    m: ManagerView,
    datapath: Seq<char>,
    language: Seq<char>,
    statuses: Seq<i32>,
)
    requires
        manager_inv(m),
        m.pending is Idle,
    ensures
        ({
            let (first, first_step) = begin_init_spec(m, datapath, language);
            let (done, last) = run(first, first_step, statuses);
            &&& last is Done ==> begin_init_spec(done, datapath, language).1 != StepView::Call(
                CallView::End,
            )
            &&& last == StepView::Done(Ok(())) && datapath.len() > 0 ==> begin_init_spec(
                done,
                datapath,
                language,
            ) == (done, StepView::Done(Ok(())))
        }),
{
    lemma_begin_init_facts(m, datapath, language);
    let (first, first_step) = begin_init_spec(m, datapath, language);
    lemma_init_run(first, first_step, statuses, datapath, language);
}

/// An `init` that succeeds leaves its data path and language in the snapshot
/// and the engine holding every snapshot variable.
pub proof fn lemma_init_success(
    m: ManagerView,
    datapath: Seq<char>,
    language: Seq<char>,
    statuses: Seq<i32>,
)
    requires
        manager_inv(m),
        m.pending is Idle,
    ensures
        ({
            let (first, first_step) = begin_init_spec(m, datapath, language);
            let (done, last) = run(first, first_step, statuses);
            last == StepView::Done(Ok(())) ==> {
                &&& done.config.datapath == datapath
                &&& done.config.language == language
                &&& done.config.variables == m.config.variables
                &&& done.in_sync
                &&& done.engine == variable_map(done.config.variables)
            }
        }),
{
    lemma_begin_init_facts(m, datapath, language);
    let (first, first_step) = begin_init_spec(m, datapath, language);
    lemma_init_run(first, first_step, statuses, datapath, language);
}

/// After an `init` that succeeded, an `init` with another data path or
/// language ends the engine, then initialises it with the new pair; once that
/// succeeds, the snapshot holds the new pair.
pub proof fn lemma_changed_init_ends_first(
    m: ManagerView,
    datapath: Seq<char>,
    language: Seq<char>,
    statuses: Seq<i32>,
    new_datapath: Seq<char>,
    new_language: Seq<char>,
    end_status: i32,
    new_statuses: Seq<i32>,
)
    requires
        manager_inv(m),
        m.pending is Idle,
        datapath.len() > 0,
        new_datapath != datapath || new_language != language,
        ({
            let (first, first_step) = begin_init_spec(m, datapath, language);
            run(first, first_step, statuses).1 == StepView::Done(Ok(()))
        }),
    ensures
        ({
            let (first, first_step) = begin_init_spec(m, datapath, language);
            let done = run(first, first_step, statuses).0;
            let (second, second_step) = begin_init_spec(done, new_datapath, new_language);
            let (reinit, reinit_step) = resume_spec(second, end_status);
            let (finished, last) = run(second, second_step, new_statuses);
            &&& second_step == StepView::Call(CallView::End)
            &&& reinit_step == StepView::Call(CallView::Init(new_datapath, new_language))
            &&& last == StepView::Done(Ok(())) ==> finished.config.datapath == new_datapath
                && finished.config.language == new_language
        }),
{
    lemma_init_success(m, datapath, language, statuses);
    let (first, first_step) = begin_init_spec(m, datapath, language);
    let done = run(first, first_step, statuses).0;
    lemma_init_run(first, first_step, statuses, datapath, language);
    lemma_init_success(done, new_datapath, new_language, new_statuses);
}

/// After `set_variable(name, value)`, whatever its outcome, an `init` that
/// succeeds leaves the engine holding `value` under `name`.
pub proof fn lemma_variable_replayed(
    m: ManagerView,
    name: Seq<char>,
    value: Seq<char>,
    set_statuses: Seq<i32>,
    datapath: Seq<char>,
    language: Seq<char>,
    init_statuses: Seq<i32>,
)
    requires
        manager_inv(m),
        m.pending is Idle,
        ({
            let (set, set_step) = begin_set_variable_spec(m, name, value);
            run(set, set_step, set_statuses).1 is Done
        }),
    ensures
        ({
            let (set, set_step) = begin_set_variable_spec(m, name, value);
            let after_set = run(set, set_step, set_statuses).0;
            let (first, first_step) = begin_init_spec(after_set, datapath, language);
            let (done, last) = run(first, first_step, init_statuses);
            last == StepView::Done(Ok(())) ==> done.engine.contains_key(name) && done.engine[name]
                == value
        }),
{
    lemma_begin_set_variable_facts(m, name, value);
    let (set, set_step) = begin_set_variable_spec(m, name, value);
    lemma_run(set, set_step, set_statuses);
    let after_set = run(set, set_step, set_statuses).0;
    lemma_init_success(after_set, datapath, language, init_statuses);
}

/// Starting `set_variable` keeps the invariant and records the assignment.
proof fn lemma_begin_set_variable_facts(m: ManagerView, name: Seq<char>, value: Seq<char>)
    requires
        manager_inv(m),
        m.pending is Idle,
    ensures
        ({
            let (n, step) = begin_set_variable_spec(m, name, value);
            &&& manager_inv(n)
            &&& step is Call
            &&& !(n.pending is Idle)
            &&& variable_map(n.config.variables) == variable_map(m.config.variables).insert(
                name,
                value,
            )
        }),
{
    let vars = m.config.variables;
    lemma_record_assignment(vars, name, value);
    lemma_record_keeps_unique(vars, name, value);
    let recorded = record_assignment(vars, name, value);
    if exists|i: int| 0 <= i < vars.len() && #[trigger] vars[i].0 == name {
        let i = choose|i: int| 0 <= i < vars.len() && #[trigger] vars[i].0 == name;
        assert(recorded[i].0 == name);
    } else {
        assert(recorded[vars.len() as int].0 == name);
    }
    let index = choose|i: int| 0 <= i < recorded.len() && #[trigger] recorded[i].0 == name;
    assert(recorded[index] == (name, value));
    if m.in_sync {
        assert(m.engine.insert(recorded[index].0, recorded[index].1) == variable_map(recorded));
    }
}

/// An `init` whose engine initialisation fails leaves the snapshot
/// uninitialised, whatever it held before.
pub proof fn lemma_failed_init_uninitialises(
    m: ManagerView,
    datapath: Seq<char>,
    language: Seq<char>,
    statuses: Seq<i32>,
)
    requires
        manager_inv(m),
        m.pending is Idle,
    ensures
        ({
            let (first, first_step) = begin_init_spec(m, datapath, language);
            let (done, last) = run(first, first_step, statuses);
            last == StepView::Done(Err(TesseractError::InitError)) ==> !done.config.is_initialized()
        }),
{
    lemma_begin_init_facts(m, datapath, language);
    let (first, first_step) = begin_init_spec(m, datapath, language);
    lemma_init_run(first, first_step, statuses, datapath, language);
}

/// A copy made for a second engine carries the source's variables and none of
/// its engine state. Assigning a variable on the copy changes the copy's
/// snapshot alone, and assigning one on the source leaves the copy as it was.
pub proof fn lemma_copy_independent(
    source: ManagerView,
    copy: ManagerView,
    name: Seq<char>,
    value: Seq<char>,
)
    requires
        manager_inv(source),
        source.pending is Idle,
        copy == fresh_spec(
            ConfigView {
                datapath: Seq::empty(),
                language: Seq::empty(),
                variables: source.config.variables,
            },
        ),
    ensures
        !copy.in_sync,
        copy.engine == Map::<Seq<char>, Seq<char>>::empty(),
        begin_set_variable_spec(copy, name, value).0.config.variable_map()
            == source.config.variable_map().insert(name, value),
        begin_set_variable_spec(source, name, value).0.config.variable_map()
            == copy.config.variable_map().insert(name, value),
{
    lemma_begin_set_variable_facts(source, name, value);
    lemma_begin_set_variable_facts(copy, name, value);
}

/// Replaying from position `n`, with the engine accepting every assignment,
/// sends each remaining snapshot variable once, in order, and then succeeds.
proof fn lemma_replay_calls(m: ManagerView, n: nat, statuses: Seq<i32>)
    requires
        n <= m.config.variables.len(),
        statuses.len() == m.config.variables.len() - n,
        all_accepted(statuses),
    ensures
        ({
            let vars = m.config.variables;
            let (r, step) = replay_spec(m, n);
            &&& calls_of(r, step, statuses) == replay_calls(vars.subrange(n as int, vars.len() as int))
            &&& run(r, step, statuses).1 == StepView::Done(Ok(()))
        }),
    decreases m.config.variables.len() - n,
{
    let vars = m.config.variables;
    if n < vars.len() {
        let (r, step) = replay_spec(m, n);
        assert(statuses[0] == 1);
        let next = ManagerView { engine: r.engine.insert(vars[n as int].0, vars[n as int].1), ..r };
        assert(resume_spec(r, statuses[0]) == replay_spec(next, n + 1));
        lemma_replay_calls(next, n + 1, statuses.drop_first());
        assert(replay_calls(vars.subrange(n as int, vars.len() as int)) == seq![
            CallView::SetVariable(vars[n as int].0, vars[n as int].1),
        ] + replay_calls(vars.subrange(n + 1 as int, vars.len() as int)));
    } else {
        assert(replay_calls(vars.subrange(n as int, vars.len() as int)) == Seq::<CallView>::empty());
    }
}

/// The calls `init(datapath, language)` issues when the engine accepts every
/// call: none when the engine already holds the snapshot with this pair;
/// otherwise `End` first exactly when another pair was initialised, then one
/// `Init` with the requested pair, then one assignment per snapshot variable,
/// in the snapshot's order, each after the `Init`. Such a run succeeds.
pub proof fn lemma_init_call_sequence(
    m: ManagerView,
    datapath: Seq<char>,
    language: Seq<char>,
    accepted: Seq<i32>,
)
    requires
        manager_inv(m),
        m.pending is Idle,
        accepted.len() == m.config.variables.len(),
        all_accepted(accepted),
    ensures
        ({
            let vars = m.config.variables;
            let (first, step) = begin_init_spec(m, datapath, language);
            let was_initialized = m.config.is_initialized();
            let same = m.config.datapath == datapath && m.config.language == language;
            let init_and_replay = seq![CallView::Init(datapath, language)] + replay_calls(vars);
            if was_initialized && same && m.in_sync {
                step == StepView::Done(Ok(())) && calls_of(first, step, accepted) == Seq::<
                    CallView,
                >::empty()
            } else if was_initialized && !same {
                let statuses = seq![0i32, 0i32] + accepted;
                &&& calls_of(first, step, statuses) == seq![CallView::End] + init_and_replay
                &&& run(first, step, statuses).1 == StepView::Done(Ok(()))
            } else {
                let statuses = seq![0i32] + accepted;
                &&& calls_of(first, step, statuses) == init_and_replay
                &&& run(first, step, statuses).1 == StepView::Done(Ok(()))
            }
        }),
{
    let vars = m.config.variables;
    let (first, step) = begin_init_spec(m, datapath, language);
    let was_initialized = m.config.is_initialized();
    let same = m.config.datapath == datapath && m.config.language == language;
    assert(vars.subrange(0, vars.len() as int) == vars);
    if was_initialized && same && m.in_sync {
    } else if was_initialized && !same {
        let statuses = seq![0i32, 0i32] + accepted;
        let (initializing, init_step) = resume_spec(first, statuses[0]);
        let (replaying, replay_step) = resume_spec(initializing, statuses[1]);
        assert(statuses.drop_first().drop_first() == accepted);
        assert(statuses.drop_first()[0] == 0i32);
        lemma_replay_calls(ManagerView { engine: Map::empty(), ..initializing }, 0, accepted);
        assert(calls_of(first, step, statuses) == seq![CallView::End] + calls_of(
            initializing,
            init_step,
            statuses.drop_first(),
        ));
        assert(calls_of(initializing, init_step, statuses.drop_first()) == seq![
            CallView::Init(datapath, language),
        ] + calls_of(replaying, replay_step, accepted));
        assert(run(first, step, statuses) == run(initializing, init_step, statuses.drop_first()));
        assert(run(initializing, init_step, statuses.drop_first()) == run(
            replaying,
            replay_step,
            accepted,
        ));
        assert(seq![CallView::End] + (seq![CallView::Init(datapath, language)] + replay_calls(vars))
            == seq![CallView::End] + seq![CallView::Init(datapath, language)] + replay_calls(vars));
    } else {
        let statuses = seq![0i32] + accepted;
        assert(statuses.drop_first() == accepted);
        lemma_replay_calls(ManagerView { engine: Map::empty(), ..first }, 0, accepted);
    }
}

} // verus!
