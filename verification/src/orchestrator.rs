//! Decoding orchestrator: the state machine that turns a stream of decoder
//! outcomes into a growing token sequence, applies the repetition guard and
//! the step budget, emits one event per outcome, and on reaching a
//! terminal non-aborted state persists the accumulated sequence into the
//! shared store.  The neural decoder itself is an external collaborator:
//! the caller performs each decode call and hands its outcome to `step`.

use vstd::prelude::*;

verus! {

use crate::repetition::{check_repetition, is_degenerate};
use crate::store::{set_tokens_spec, TemporaryData};

/// Decoder steps allowed per run before the loop is cut off.
pub const DEFAULT_MAX_STEPS: usize = 512;

/// Repeat threshold handed to the repetition guard.
pub const DEFAULT_REPEAT_COUNT: usize = 10;

/// Start-marker id used when the vocabulary defines none.
pub const FALLBACK_BOS_TOKEN: u32 = 0;

/// End-marker id used when the vocabulary defines none.
pub const FALLBACK_EOS_TOKEN: u32 = 30000;

/// Configuration of one generation run.
#[derive(Clone, Copy, PartialEq, Eq, Structural, Debug)]
pub struct OrchestratorConfig {
    pub max_steps: usize,
    pub repeat_count: usize,
    pub bos_token: u32,
    pub eos_token: u32,
}

impl OrchestratorConfig {
    /// The standard configuration: the default step budget and repeat
    /// threshold, and the given sequence markers, falling back to the
    /// fixed ids when the vocabulary does not define a marker.
    pub fn standard(bos_id: Option<u32>, eos_id: Option<u32>) -> (c: Self)
        ensures
            c.max_steps == DEFAULT_MAX_STEPS,
            c.repeat_count == DEFAULT_REPEAT_COUNT,
            c.bos_token == (match bos_id {
                Some(id) => id,
                None => FALLBACK_BOS_TOKEN,
            }),
            c.eos_token == (match eos_id {
                Some(id) => id,
                None => FALLBACK_EOS_TOKEN,
            }),
    {
        let bos_token = match bos_id {
            Some(id) => id,
            None => FALLBACK_BOS_TOKEN,
        };
        let eos_token = match eos_id {
            Some(id) => id,
            None => FALLBACK_EOS_TOKEN,
        };
        OrchestratorConfig {
            max_steps: DEFAULT_MAX_STEPS,
            repeat_count: DEFAULT_REPEAT_COUNT,
            bos_token,
            eos_token,
        }
    }
}

/// Where a run stands: stepping (terminal once the step budget is spent),
/// completed by the end marker or the repetition guard, or aborted by a
/// collaborator failure.
#[derive(Clone, Copy, PartialEq, Eq, Structural, Debug)]
pub enum Phase {
    Stepping,
    Completed,
    Aborted,
}

/// What one decoder collaborator call produced: the next token id, or a
/// failure.
#[derive(Clone, Copy, PartialEq, Eq, Structural, Debug)]
pub enum DecodeOutcome {
    Token(u32),
    Failure,
}

/// One event emitted towards the streaming client: a newly produced token,
/// or a diagnostic (initial inference failed, a step failed, the
/// repetition guard halted the run, or the step budget was exhausted).
#[derive(Clone, Copy, PartialEq, Eq, Structural, Debug)]
pub enum GenerationEvent {
    Token(u32),
    InitFailure,
    StepFailure,
    RepetitionHalt,
    BudgetExhausted,
}

/// The abstract state of a run.
#[verifier::ext_equal]
pub ghost struct RunView {
    pub config: OrchestratorConfig,
    pub tokens: Seq<u32>,
    pub steps: int,
    pub phase: Phase,
}

impl RunView {
    /// The run still wants another decoder call: it is in the stepping
    /// phase and the step budget is not exhausted.
    pub open spec fn running(self) -> bool {
        self.phase is Stepping && self.steps < self.config.max_steps
    }

    /// The step counter never leaves the budget.
    pub open spec fn wf(self) -> bool {
        0 <= self.steps <= self.config.max_steps
    }

    /// The run was cut off by the step budget: still in the stepping
    /// phase, but the budget is spent.
    pub open spec fn budget_spent(self) -> bool {
        self.phase is Stepping && self.steps == self.config.max_steps
    }
}

/// The informational event appended when a run ends by budget exhaustion,
/// and no event otherwise.
pub open spec fn budget_suffix(v: RunView) -> Seq<GenerationEvent> {
    if v.budget_spent() {
        seq![GenerationEvent::BudgetExhausted]
    } else {
        Seq::empty()
    }
}

/// The abstract effect of starting a run from the initial inference
/// outcome: on a token, the sequence opens with the start marker and that
/// token and the token is echoed; on a failure, the run is aborted before
/// it accumulates anything.
pub open spec fn start_view(config: OrchestratorConfig, init: DecodeOutcome) -> (RunView, GenerationEvent) {
    match init {
        DecodeOutcome::Token(t) => (
            RunView {
                config,
                tokens: seq![config.bos_token, t],
                steps: 0,
                phase: Phase::Stepping,
            },
            GenerationEvent::Token(t),
        ),
        DecodeOutcome::Failure => (
            RunView { config, tokens: Seq::empty(), steps: 0, phase: Phase::Aborted },
            GenerationEvent::InitFailure,
        ),
    }
}

/// The abstract effect of one step: a failure aborts the run; a token is
/// appended and then either the repetition guard completes the run with a
/// halt diagnostic, or the end marker completes it with the token echoed,
/// or the run continues with the token echoed.
pub open spec fn step_view(v: RunView, outcome: DecodeOutcome) -> (RunView, GenerationEvent) {
    match outcome {
        DecodeOutcome::Failure => (
            RunView { config: v.config, tokens: v.tokens, steps: v.steps, phase: Phase::Aborted },
            GenerationEvent::StepFailure,
        ),
        DecodeOutcome::Token(t) => {
            let tokens = v.tokens.push(t);
            let steps = v.steps + 1;
            if is_degenerate(tokens, v.config.repeat_count as int) {
                (
                    RunView { config: v.config, tokens, steps, phase: Phase::Completed },
                    GenerationEvent::RepetitionHalt,
                )
            } else if t == v.config.eos_token {
                (
                    RunView { config: v.config, tokens, steps, phase: Phase::Completed },
                    GenerationEvent::Token(t),
                )
            } else {
                (
                    RunView { config: v.config, tokens, steps, phase: v.phase },
                    GenerationEvent::Token(t),
                )
            }
        },
    }
}

/// The abstract effect of feeding outcomes to a run one at a time until
/// the run no longer wants a step or the outcomes are exhausted.
pub open spec fn drive_view(v: RunView, outs: Seq<DecodeOutcome>) -> (RunView, Seq<GenerationEvent>)
    decreases outs.len(),
{
    if outs.len() == 0 || !v.running() {
        (v, Seq::empty())
    } else {
        let sv = step_view(v, outs[0]);
        let rest = drive_view(sv.0, outs.drop_first());
        (rest.0, seq![sv.1] + rest.1)
    }
}

/// Law: the repetition guard's halt diagnostic is terminal.  In the event
/// sequence of a driven run, a halt diagnostic can only stand last: the
/// step that emits it completes the run, so no further event follows it.
pub proof fn lemma_halt_event_is_last(v: RunView, outs: Seq<DecodeOutcome>, idx: int)
    requires
        0 <= idx < drive_view(v, outs).1.len(),
        drive_view(v, outs).1[idx] is RepetitionHalt,
    ensures
        idx == drive_view(v, outs).1.len() - 1,
    decreases outs.len(),
{
    let d = drive_view(v, outs);
    let sv = step_view(v, outs[0]);
    let rest = drive_view(sv.0, outs.drop_first());
    assert(d.1 == seq![sv.1] + rest.1);
    if idx == 0 {
        assert(sv.1 is RepetitionHalt);
        assert(!sv.0.running());
        assert(rest.1 =~= Seq::<GenerationEvent>::empty());
    } else {
        assert(rest.1[idx - 1] == d.1[idx]);
        lemma_halt_event_is_last(sv.0, outs.drop_first(), idx - 1);
    }
}

/// Law: a driven run carries at most one halt diagnostic — the client
/// observes exactly one such event when the guard trips, and none
/// otherwise.
pub proof fn lemma_at_most_one_halt(v: RunView, outs: Seq<DecodeOutcome>, i: int, j: int)
    requires
        0 <= i <= j < drive_view(v, outs).1.len(),
        drive_view(v, outs).1[i] is RepetitionHalt,
        drive_view(v, outs).1[j] is RepetitionHalt,
    ensures
        i == j,
{
    lemma_halt_event_is_last(v, outs, i);
    lemma_halt_event_is_last(v, outs, j);
}

/// One generation run in progress.
pub struct Orchestrator {
    config: OrchestratorConfig,
    tokens: Vec<u32>,
    steps: usize,
    phase: Phase,
}

impl View for Orchestrator {
    type V = RunView;

    closed spec fn view(&self) -> RunView {
        RunView {
            config: self.config,
            tokens: self.tokens@,
            steps: self.steps as int,
            phase: self.phase,
        }
    }
}

impl Orchestrator {
    /// Starts a run from the outcome of the initial inference call.
    pub fn start(config: OrchestratorConfig, init: DecodeOutcome) -> (r: (Self, GenerationEvent))
        ensures
            r.0@ == start_view(config, init).0,
            r.1 == start_view(config, init).1,
            r.0@.wf(),
    {
        match init {
            DecodeOutcome::Token(t) => {
                let mut tokens: Vec<u32> = Vec::new();
                tokens.push(config.bos_token);
                tokens.push(t);
                proof {
                    assert(tokens@ =~= seq![config.bos_token, t]);
                }
                (
                    Orchestrator { config, tokens, steps: 0, phase: Phase::Stepping },
                    GenerationEvent::Token(t),
                )
            },
            DecodeOutcome::Failure => {
                let tokens: Vec<u32> = Vec::new();
                proof {
                    assert(tokens@ =~= Seq::<u32>::empty());
                }
                (
                    Orchestrator { config, tokens, steps: 0, phase: Phase::Aborted },
                    GenerationEvent::InitFailure,
                )
            },
        }
    }

    /// The run's configuration.
    pub fn config(&self) -> (c: OrchestratorConfig)
        ensures
            c == self@.config,
    {
        self.config
    }

    /// The token sequence accumulated so far.
    pub fn tokens(&self) -> (r: &Vec<u32>)
        ensures
            r@ == self@.tokens,
    {
        &self.tokens
    }

    /// Whether the run wants another decoder call.
    pub fn is_running(&self) -> (b: bool)
        ensures
            b == self@.running(),
    {
        self.phase == Phase::Stepping && self.steps < self.config.max_steps
    }

    /// Whether the run was cut off by the step budget; such a stop is a
    /// policy termination, reported to the client as an informational
    /// event.
    pub fn is_budget_spent(&self) -> (b: bool)
        ensures
            b == self@.budget_spent(),
    {
        self.phase == Phase::Stepping && self.steps == self.config.max_steps
    }

    /// Consumes one decoder outcome and returns the event to deliver.
    pub fn step(&mut self, outcome: DecodeOutcome) -> (ev: GenerationEvent)
        requires
            old(self)@.running(),
        ensures
            final(self)@ == step_view(old(self)@, outcome).0,
            ev == step_view(old(self)@, outcome).1,
            final(self)@.wf(),
            final(self)@.phase is Aborted ==> final(self)@.steps < final(self)@.config.max_steps,
    {
        match outcome {
            DecodeOutcome::Failure => {
                self.phase = Phase::Aborted;
                GenerationEvent::StepFailure
            },
            DecodeOutcome::Token(t) => {
                self.tokens.push(t);
                self.steps = self.steps + 1;
                let degenerate = check_repetition(self.tokens.as_slice(), self.config.repeat_count);
                if degenerate {
                    self.phase = Phase::Completed;
                    GenerationEvent::RepetitionHalt
                } else if t == self.config.eos_token {
                    self.phase = Phase::Completed;
                    GenerationEvent::Token(t)
                } else {
                    GenerationEvent::Token(t)
                }
            },
        }
    }

    /// Feeds decoder outcomes to the run, in order, until the run reaches
    /// a terminal state or the outcomes are exhausted, and reports a
    /// budget cut-off with one final informational event.  Law: however
    /// the decoder behaves — in particular if it never produces the end
    /// marker — the number of consumed outcomes, and so of decode steps,
    /// never exceeds the configured step budget.
    pub fn drive(&mut self, outcomes: &Vec<DecodeOutcome>) -> (events: Vec<GenerationEvent>)
        requires
            old(self)@.wf(),
        ensures
            final(self)@ == drive_view(old(self)@, outcomes@).0,
            events@ == drive_view(old(self)@, outcomes@).1 + budget_suffix(final(self)@),
            final(self)@.wf(),
            drive_view(old(self)@, outcomes@).1.len() + old(self)@.steps <= old(
                self,
            )@.config.max_steps,
            events@.len() <= drive_view(old(self)@, outcomes@).1.len() + 1,
            !final(self)@.running() || events@.len() == outcomes@.len(),
    {
        let mut events: Vec<GenerationEvent> = Vec::new();
        let mut i: usize = 0;
        let mut go = self.is_running();
        proof {
            assert(outcomes@.skip(0) =~= outcomes@);
            assert(events@ + drive_view(self@, outcomes@).1 =~= drive_view(self@, outcomes@).1);
        }
        while go && i < outcomes.len()
            invariant
                i <= outcomes@.len(),
                events@.len() == i,
                go == self@.running(),
                self@.wf(),
                self@.config == old(self)@.config,
                old(self)@.steps <= self@.steps,
                (self@.phase is Aborted && !(old(self)@.phase is Aborted)) ==> self@.steps
                    < self@.config.max_steps,
                events@.len() + old(self)@.steps <= self@.steps + (
                if self@.phase is Aborted && !(old(self)@.phase is Aborted) {
                    1int
                } else {
                    0int
                }),
                drive_view(self@, outcomes@.skip(i as int)).0 == drive_view(
                    old(self)@,
                    outcomes@,
                ).0,
                events@ + drive_view(self@, outcomes@.skip(i as int)).1 == drive_view(
                    old(self)@,
                    outcomes@,
                ).1,
            decreases outcomes@.len() - i,
        {
            let ghost prev = self@;
            let ghost prev_events = events@;
            let ghost outs_i = outcomes@.skip(i as int);
            let out = outcomes[i];
            let ev = self.step(out);
            events.push(ev);
            proof {
                assert(outs_i[0] == outcomes@[i as int]);
                assert(outs_i.drop_first() =~= outcomes@.skip(i as int + 1));
                assert(drive_view(prev, outs_i).0 == drive_view(self@, outs_i.drop_first()).0);
                assert(drive_view(prev, outs_i).1 == seq![ev] + drive_view(
                    self@,
                    outs_i.drop_first(),
                ).1);
                assert(events@ =~= prev_events + seq![ev]);
                assert(events@ + drive_view(self@, outcomes@.skip(i as int + 1)).1 =~= prev_events
                    + drive_view(prev, outs_i).1);
            }
            i = i + 1;
            go = self.is_running();
        }
        proof {
            if !go {
                assert(drive_view(self@, outcomes@.skip(i as int)) == (
                    self@,
                    Seq::<GenerationEvent>::empty(),
                ));
            } else {
                assert(i == outcomes@.len());
                assert(outcomes@.skip(i as int) =~= Seq::<DecodeOutcome>::empty());
                assert(drive_view(self@, outcomes@.skip(i as int)) == (
                    self@,
                    Seq::<GenerationEvent>::empty(),
                ));
            }
            assert(events@ + Seq::<GenerationEvent>::empty() =~= events@);
        }
        let ghost consumed = events@;
        if self.is_budget_spent() {
            events.push(GenerationEvent::BudgetExhausted);
            proof {
                assert(events@ =~= consumed + budget_suffix(self@));
            }
        } else {
            proof {
                assert(events@ =~= consumed + budget_suffix(self@));
            }
        }
        events
    }

    /// Terminal write-back.  Law: the accumulated token sequence is
    /// persisted into the shared store if and only if the run ended in a
    /// terminal, non-aborted state (end marker, repetition halt or step
    /// budget exhaustion); an aborted run leaves the store untouched.
    pub fn finish(self, store: &mut TemporaryData) -> (persisted: bool)
        requires
            !self@.running(),
        ensures
            persisted == !(self@.phase is Aborted),
            persisted ==> final(store)@ == set_tokens_spec(old(store)@, self@.tokens),
            !persisted ==> final(store)@ == old(store)@,
    {
        match self.phase {
            Phase::Aborted => false,
            _ => {
                store.set_token_id_array(self.tokens);
                true
            },
        }
    }
}

/// One whole generation run: start from the initial inference outcome,
/// feed the remaining outcomes in order, and, when the run has reached a
/// terminal state, write the accumulated tokens back — if and only if the
/// run was not aborted.  Returns the events in production order — with a
/// final informational event when the step budget cut the run off — and
/// whether the store was written.
pub fn run_to_end(
    config: OrchestratorConfig,
    init: DecodeOutcome,
    outcomes: &Vec<DecodeOutcome>,
    store: &mut TemporaryData,
) -> (r: (Vec<GenerationEvent>, bool))
    ensures
        r.0@ == seq![start_view(config, init).1] + drive_view(
            start_view(config, init).0,
            outcomes@,
        ).1 + budget_suffix(drive_view(start_view(config, init).0, outcomes@).0),
        r.0@.len() <= 2 + config.max_steps,
        r.1 == ({
            let end = drive_view(start_view(config, init).0, outcomes@).0;
            !(end.phase is Aborted) && !end.running()
        }),
        r.1 ==> final(store)@ == set_tokens_spec(
            old(store)@,
            drive_view(start_view(config, init).0, outcomes@).0.tokens,
        ),
        !r.1 ==> final(store)@ == old(store)@,
{
    let (mut orch, first_event) = Orchestrator::start(config, init);
    let mut events: Vec<GenerationEvent> = Vec::new();
    events.push(first_event);
    let mut rest = orch.drive(outcomes);
    let ghost rest_view = rest@;
    events.append(&mut rest);
    proof {
        assert(events@ =~= seq![start_view(config, init).1] + rest_view);
    }
    let persisted = if orch.is_running() {
        false
    } else {
        orch.finish(store)
    };
    (events, persisted)
}

} // verus!
