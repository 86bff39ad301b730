//! Committed history and the lifecycle of at most one active run.

use vstd::prelude::*;

use super::error::{HarnessError, RunFailure, RunFailureKind, RunStage};
use super::types::{EngineEvent, Message, Role, RunContext, RunEvent, RunId, RunRequest};
use crate::text::{is_blank, is_blank_text};

verus! {

/// A harness as contracts see it.
pub ghost struct HarnessState {
    /// The committed messages.
    pub history: Seq<Message>,
    /// The active run and its prompt.
    pub active: Option<(RunId, String)>,
    /// The number of the next run, or `None` once every number was used.
    pub next: Option<u64>,
}

/// Something that happens to a harness.
pub ghost enum HarnessStep {
    Submit { prompt: String, id: RunId },
    Event(Option<Result<EngineEvent, RunFailure>>),
    Cancel,
}

/// An engine event that ends the active run with a committed response.
pub open spec fn committed_response(event: Option<Result<EngineEvent, RunFailure>>) -> Option<
    String,
> {
    match event {
        Some(Ok(EngineEvent::Completed(response))) => if is_blank(response@) {
            None
        } else {
            Some(response)
        },
        _ => None,
    }
}

/// An engine event after which no run is active.
pub open spec fn ends_run(event: Option<Result<EngineEvent, RunFailure>>) -> bool {
    match event {
        Some(Ok(EngineEvent::Completed(_))) => true,
        Some(Ok(_)) => false,
        Some(Err(_)) => true,
        None => true,
    }
}

impl HarnessState {
    /// A harness that has run nothing over some history.
    pub open spec fn over(history: Seq<Message>) -> HarnessState {
        HarnessState { history, active: None, next: Some(0) }
    }

    /// Why a prompt is refused.
    pub open spec fn submit_error(self) -> Option<HarnessError> {
        if self.active is Some {
            Some(HarnessError::Busy)
        } else if self.next is None {
            Some(HarnessError::RunIdExhausted)
        } else {
            None
        }
    }

    /// The state after an accepted prompt.
    pub open spec fn after_submit(self, prompt: String, id: RunId) -> HarnessState {
        HarnessState {
            active: Some((id, prompt)),
            next: if self.next == Some(u64::MAX) {
                None
            } else {
                Some((self.next->0 + 1) as u64)
            },
            ..self
        }
    }

    /// The state after an event of the active run.
    pub open spec fn after_event(self, event: Option<Result<EngineEvent, RunFailure>>) -> HarnessState {
        match self.active {
            None => self,
            Some((_, prompt)) => HarnessState {
                history: match committed_response(event) {
                    Some(response) => self.history.push(
                        Message { role: Role::User, text: prompt },
                    ).push(Message { role: Role::Assistant, text: response }),
                    None => self.history,
                },
                active: if ends_run(event) {
                    None
                } else {
                    self.active
                },
                ..self
            },
        }
    }

    /// The state after a cancellation.
    pub open spec fn after_cancel(self) -> HarnessState {
        HarnessState { active: None, ..self }
    }

    /// The state after a step; a refused prompt or cancellation changes nothing.
    pub open spec fn after(self, step: HarnessStep) -> HarnessState {
        match step {
            HarnessStep::Submit { prompt, id } => if self.submit_error() is None && id.number()
                == self.next->0 {
                self.after_submit(prompt, id)
            } else {
                self
            },
            HarnessStep::Event(event) => self.after_event(event),
            HarnessStep::Cancel => self.after_cancel(),
        }
    }

    /// The state after some steps.
    pub open spec fn after_all(self, steps: Seq<HarnessStep>) -> HarnessState
        decreases steps.len(),
    {
        if steps.len() == 0 {
            self
        } else {
            self.after_all(steps.drop_last()).after(steps.last())
        }
    }
}

/// The event that an engine event of run `id` gives rise to.
pub open spec fn projects(
    id: RunId,
    event: Option<Result<EngineEvent, RunFailure>>,
    projected: RunEvent,
) -> bool {
    match event {
        Some(Ok(EngineEvent::AssistantDelta(text))) => projected == (RunEvent::AssistantDelta {
            run_id: id,
            text,
        }),
        Some(Ok(EngineEvent::ContextUsage { input_tokens })) => projected == (
        RunEvent::ContextUsage { run_id: id, input_tokens }),
        Some(Ok(EngineEvent::ToolStarted { call_id, name, arguments })) => projected == (
        RunEvent::ToolStarted { run_id: id, call_id, name, arguments }),
        Some(Ok(EngineEvent::ToolFinished { call_id, name })) => projected == (
        RunEvent::ToolFinished { run_id: id, call_id, name }),
        Some(Ok(EngineEvent::Completed(response))) => if is_blank(response@) {
            fails_with(
                projected,
                id,
                RunFailureKind::EmptyResponse,
                "engine completed with an empty response"@,
            )
        } else {
            projected == (RunEvent::Completed { run_id: id, response })
        },
        Some(Err(failure)) => projected == (RunEvent::Failed { run_id: id, failure }),
        None => fails_with(
            projected,
            id,
            RunFailureKind::Protocol,
            "engine stream ended before completion"@,
        ),
    }
}

/// A failure that the harness itself found when a run ended.
pub open spec fn fails_with(
    projected: RunEvent,
    id: RunId,
    kind: RunFailureKind,
    message: Seq<char>,
) -> bool {
    match projected {
        RunEvent::Failed { run_id, failure } => {
            &&& run_id == id
            &&& failure.stage == RunStage::Finalization
            &&& failure.kind == kind
            &&& !failure.retryable
            &&& failure.message@ == message
            &&& failure.source is None
        },
        _ => false,
    }
}

/// No step changes or drops a committed message.
pub proof fn lemma_history_only_grows(state: HarnessState, steps: Seq<HarnessStep>)
    ensures
        state.history.is_prefix_of(state.after_all(steps).history),
    decreases steps.len(),
{
    if steps.len() > 0 {
        lemma_history_only_grows(state, steps.drop_last());
    }
}

/// Only a completed run with a response that is not blank changes the history, and it adds
/// exactly its prompt and its response.
pub proof fn lemma_only_success_is_committed(state: HarnessState, step: HarnessStep)
    ensures
        state.after(step).history != state.history ==> {
            &&& step is Event
            &&& state.active is Some
            &&& committed_response(step->Event_0) is Some
            &&& state.after(step).history == state.history + seq![
                Message { role: Role::User, text: (state.active->0).1 },
                Message { role: Role::Assistant, text: committed_response(step->Event_0)->0 },
            ]
            &&& state.after(step).active is None
        },
{
    if step is Event && state.active is Some && committed_response(step->Event_0) is Some {
        assert(state.after(step).history =~= state.history + seq![
            Message { role: Role::User, text: (state.active->0).1 },
            Message { role: Role::Assistant, text: committed_response(step->Event_0)->0 },
        ]);
    }
}

proof fn lemma_next_number_stays_above(state: HarnessState, steps: Seq<HarnessStep>, number: u64)
    requires
        state.next is Some ==> state.next->0 > number,
    ensures
        state.after_all(steps).next is Some ==> state.after_all(steps).next->0 > number,
    decreases steps.len(),
{
    if steps.len() > 0 {
        lemma_next_number_stays_above(state, steps.drop_last(), number);
    }
}

/// Whatever happens between two accepted prompts, the later run has the larger number.
pub proof fn lemma_run_numbers_increase(
    state: HarnessState,
    first: RunId,
    prompt: String,
    steps: Seq<HarnessStep>,
    second: RunId,
)
    requires
        state.submit_error() is None,
        first.number() == state.next->0,
        state.after_submit(prompt, first).after_all(steps).submit_error() is None,
        second.number() == state.after_submit(prompt, first).after_all(steps).next->0,
    ensures
        first.number() < second.number(),
{
    lemma_next_number_stays_above(state.after_submit(prompt, first), steps, first.number());
}

struct ActiveRun {
    id: RunId,
    prompt: String,
}

/// Owns committed history and the lifecycle of at most one active model run.
///
/// The caller starts the engine with the request of an accepted prompt, hands every item of its
/// stream to [`Harness::next_event`], and drops the stream when the run is cancelled.
pub struct Harness {
    history: Vec<Message>,
    active: Option<ActiveRun>,
    next_run_id: u64,
    ids_exhausted: bool,
}

impl Harness {
    /// The state of this harness.
    pub closed spec fn state(&self) -> HarnessState {
        HarnessState {
            history: self.history@,
            active: match self.active {
                Some(run) => Some((run.id, run.prompt)),
                None => None,
            },
            next: if self.ids_exhausted {
                None
            } else {
                Some(self.next_run_id)
            },
        }
    }

    /// Creates an empty harness.
    pub fn new() -> (harness: Self)
        ensures
            harness.state() == HarnessState::over(Seq::empty()),
    {
        Self::with_history(Vec::new())
    }

    /// Creates a harness with existing successful history.
    pub fn with_history(history: Vec<Message>) -> (harness: Self)
        ensures
            harness.state() == HarnessState::over(history@),
    {
        Harness { history, active: None, next_run_id: 0, ids_exhausted: false }
    }

    fn copied_history(&self) -> (history: Vec<Message>)
        ensures
            history@ == self.state().history,
    {
        let mut history: Vec<Message> = Vec::new();
        let mut index: usize = 0;
        while index < self.history.len()
            invariant
                index <= self.history@.len(),
                history@ == self.history@.subrange(0, index as int),
            decreases self.history@.len() - index,
        {
            history.push(self.history[index].duplicate());
            index += 1;
            assert(history@ =~= self.history@.subrange(0, index as int));
        }
        assert(history@ =~= self.history@);
        history
    }

    /// Accepts a prompt and returns its [`RunEvent::Started`] event with the request to start.
    pub fn submit(&mut self, prompt: String, context: RunContext) -> (result: Result<
        (RunEvent, RunRequest),
        HarnessError,
    >)
        ensures
            match result {
                Err(error) => old(self).state().submit_error() == Some(error) && final(self).state()
                    == old(self).state(),
                Ok((event, request)) => {
                    &&& old(self).state().submit_error() is None
                    &&& event is Started
                    &&& event->Started_run_id.number() == old(self).state().next->0
                    &&& final(self).state() == old(self).state().after_submit(
                        prompt,
                        event->Started_run_id,
                    )
                    &&& request.prompt == prompt
                    &&& request.history@ == old(self).state().history
                    &&& request.context == context
                },
            },
    {
        if self.active.is_some() {
            return Err(HarnessError::Busy);
        }
        if self.ids_exhausted {
            return Err(HarnessError::RunIdExhausted);
        }
        let id = RunId::new(self.next_run_id);
        match self.next_run_id.checked_add(1) {
            Some(next_run_id) => {
                self.next_run_id = next_run_id;
            },
            None => {
                self.ids_exhausted = true;
            },
        }
        let history = self.copied_history();
        let request = RunRequest { prompt: prompt.clone(), history, context };
        self.active = Some(ActiveRun { id, prompt });
        Ok((RunEvent::Started { run_id: id }, request))
    }

    /// Projects the next item of the active run's stream, where `None` is its end.
    ///
    /// Returns `None` only when no run is active.
    pub fn next_event(&mut self, engine_event: Option<Result<EngineEvent, RunFailure>>) -> (event:
        Option<RunEvent>)
        ensures
            final(self).state() == old(self).state().after_event(engine_event),
            match old(self).state().active {
                Some((id, _)) => event is Some && projects(id, engine_event, event->0),
                None => event is None,
            },
    {
        let active = match self.active.take() {
            Some(active) => active,
            None => {
                return None;
            },
        };
        let id = active.id;
        Some(
            match engine_event {
                Some(Ok(EngineEvent::AssistantDelta(text))) => {
                    self.active = Some(active);
                    RunEvent::AssistantDelta { run_id: id, text }
                },
                Some(Ok(EngineEvent::ContextUsage { input_tokens })) => {
                    self.active = Some(active);
                    RunEvent::ContextUsage { run_id: id, input_tokens }
                },
                Some(Ok(EngineEvent::ToolStarted { call_id, name, arguments })) => {
                    self.active = Some(active);
                    RunEvent::ToolStarted { run_id: id, call_id, name, arguments }
                },
                Some(Ok(EngineEvent::ToolFinished { call_id, name })) => {
                    self.active = Some(active);
                    RunEvent::ToolFinished { run_id: id, call_id, name }
                },
                Some(Ok(EngineEvent::Completed(response))) => {
                    if is_blank_text(&response) {
                        RunEvent::Failed {
                            run_id: id,
                            failure: RunFailure::new(
                                RunStage::Finalization,
                                RunFailureKind::EmptyResponse,
                                false,
                                "engine completed with an empty response".to_owned(),
                            ),
                        }
                    } else {
                        self.history.push(Message::new(Role::User, active.prompt));
                        self.history.push(Message::new(Role::Assistant, response.clone()));
                        RunEvent::Completed { run_id: id, response }
                    }
                },
                Some(Err(failure)) => RunEvent::Failed { run_id: id, failure },
                None => RunEvent::Failed {
                    run_id: id,
                    failure: RunFailure::new(
                        RunStage::Finalization,
                        RunFailureKind::Protocol,
                        false,
                        "engine stream ended before completion".to_owned(),
                    ),
                },
            },
        )
    }

    /// Cancels the active run.
    pub fn cancel(&mut self) -> (result: Result<RunEvent, HarnessError>)
        ensures
            final(self).state() == old(self).state().after_cancel(),
            match old(self).state().active {
                Some((id, _)) => result == Ok::<RunEvent, HarnessError>(
                    RunEvent::Cancelled { run_id: id },
                ),
                None => result == Err::<RunEvent, HarnessError>(HarnessError::NotRunning),
            },
    {
        match self.active.take() {
            Some(active) => Ok(RunEvent::Cancelled { run_id: active.id }),
            None => Err(HarnessError::NotRunning),
        }
    }

    /// The successful history committed by this harness.
    pub fn history(&self) -> (history: &[Message])
        ensures
            history@ == self.state().history,
    {
        self.history.as_slice()
    }

    /// Whether a run is active.
    pub fn is_running(&self) -> (running: bool)
        ensures
            running == (self.state().active is Some),
    {
        self.active.is_some()
    }
}

/// A prompt is taken where no run is active, with the exchanges that were committed before it; it
/// is not one of them yet. During a run it is refused and changes nothing.
pub proof fn lemma_prompts_start_one_run_at_a_time()
    ensures
        forall|
            harness: &mut Harness,
            prompt: String,
            context: RunContext,
            result: Result<(RunEvent, RunRequest), HarnessError>,
        | #[trigger]
            call_ensures(Harness::submit, (harness, prompt, context), result) ==> {
                let before = harness.state();
                let after = final(harness).state();
                &&& before.active is Some ==> result == Err::<(RunEvent, RunRequest), HarnessError>(
                    HarnessError::Busy,
                ) && after == before
                &&& before.active is None && before.next is None ==> result == Err::<
                    (RunEvent, RunRequest),
                    HarnessError,
                >(HarnessError::RunIdExhausted) && after == before
                &&& before.active is None && before.next is Some ==> {
                    &&& result is Ok
                    &&& (result->Ok_0).0 is Started
                    &&& (result->Ok_0).0->Started_run_id.number() == before.next->0
                    &&& (result->Ok_0).1.prompt == prompt
                    &&& (result->Ok_0).1.history@ == before.history
                    &&& (result->Ok_0).1.context == context
                    &&& after.history == before.history
                    &&& after.active == Some(((result->Ok_0).0->Started_run_id, prompt))
                    &&& before.next->0 < u64::MAX ==> after.next is Some && after.next->0
                        == before.next->0 + 1
                    &&& before.next->0 == u64::MAX ==> after.next is None
                }
            },
        forall|harness: Harness| #[trigger]
            call_ensures(Harness::new, (), harness) ==> harness.state().history.len() == 0
                && harness.state().active is None && harness.state().next == Some(0u64),
        forall|history: Vec<Message>, harness: Harness| #[trigger]
            call_ensures(Harness::with_history, (history,), harness) ==> harness.state().history
                == history@ && harness.state().active is None && harness.state().next == Some(
                0u64,
            ),
{
}

/// A run ends with its completion, its failure or the end of its events, and with nothing before.
/// Only a completion with an answer commits: the prompt, and behind it the answer. Every event
/// carries the number of its run.
pub proof fn lemma_runs_commit_prompt_and_answer()
    ensures
        forall|
            harness: &mut Harness,
            event: Option<Result<EngineEvent, RunFailure>>,
            told: Option<RunEvent>,
        | #[trigger]
            call_ensures(Harness::next_event, (harness, event), told) ==> {
                let before = harness.state();
                let after = final(harness).state();
                let completes = event is Some && event->0 is Ok && event->0->Ok_0 is Completed;
                let answered = completes && !is_blank(event->0->Ok_0->Completed_0@);
                &&& after.next == before.next
                &&& before.active is None ==> told is None && after == before
                &&& before.active is Some ==> {
                    let (id, prompt) = before.active->0;
                    &&& told is Some
                    &&& answered ==> {
                        &&& after.history.len() == before.history.len() + 2
                        &&& after.history.subrange(0, before.history.len() as int)
                            == before.history
                        &&& after.history[before.history.len() as int].role == Role::User
                        &&& after.history[before.history.len() as int].text == prompt
                        &&& after.history[before.history.len() as int + 1].role == Role::Assistant
                        &&& after.history[before.history.len() as int + 1].text
                            == event->0->Ok_0->Completed_0
                        &&& after.active is None
                        &&& told->0 == (RunEvent::Completed {
                            run_id: id,
                            response: event->0->Ok_0->Completed_0,
                        })
                    }
                    &&& !answered ==> after.history == before.history
                    &&& completes && !answered ==> after.active is None && told->0 is Failed
                        && told->0->Failed_run_id == id && told->0->Failed_failure.kind
                        == RunFailureKind::EmptyResponse && !told->0->Failed_failure.retryable
                    &&& event is None ==> after.active is None && told->0 is Failed
                        && told->0->Failed_run_id == id && told->0->Failed_failure.kind
                        == RunFailureKind::Protocol && !told->0->Failed_failure.retryable
                    &&& event is Some && event->0 is Err ==> after.active is None && told->0 == (
                    RunEvent::Failed { run_id: id, failure: event->0->Err_0 })
                    &&& event is Some && event->0 is Ok && !completes ==> after == before
                    &&& event is Some && event->0 is Ok && event->0->Ok_0 is AssistantDelta
                        ==> told->0 == (RunEvent::AssistantDelta {
                        run_id: id,
                        text: event->0->Ok_0->AssistantDelta_0,
                    })
                    &&& event is Some && event->0 is Ok && event->0->Ok_0 is ContextUsage
                        ==> told->0 == (RunEvent::ContextUsage {
                        run_id: id,
                        input_tokens: event->0->Ok_0->input_tokens,
                    })
                }
            },
        forall|harness: &mut Harness, result: Result<RunEvent, HarnessError>| #[trigger]
            call_ensures(Harness::cancel, (harness,), result) ==> {
                let before = harness.state();
                let after = final(harness).state();
                &&& after.history == before.history && after.active is None && after.next
                    == before.next
                &&& before.active is Some ==> result == Ok::<RunEvent, HarnessError>(
                    RunEvent::Cancelled { run_id: (before.active->0).0 },
                )
                &&& before.active is None ==> result == Err::<RunEvent, HarnessError>(
                    HarnessError::NotRunning,
                )
            },
        forall|harness: &Harness, running: bool| #[trigger]
            call_ensures(Harness::is_running, (harness,), running) ==> (running
                <==> harness.state().active is Some),
{
    assert forall|
        harness: &mut Harness,
        event: Option<Result<EngineEvent, RunFailure>>,
        told: Option<RunEvent>,
    | #[trigger]
        call_ensures(Harness::next_event, (harness, event), told) && event is Some
            && event->0 is Ok && event->0->Ok_0 is Completed && !is_blank(
            event->0->Ok_0->Completed_0@,
        ) && harness.state().active is Some implies final(harness).state().history.subrange(
        0,
        harness.state().history.len() as int,
    ) == harness.state().history by {
        assert(final(harness).state().history.subrange(0, harness.state().history.len() as int)
            =~= harness.state().history);
    }
}

/// The tools of a run are told with its number, as the engine reported them.
pub proof fn lemma_tools_are_told_as_reported()
    ensures
        forall|
            harness: &mut Harness,
            event: Option<Result<EngineEvent, RunFailure>>,
            told: Option<RunEvent>,
        | #[trigger]
            call_ensures(Harness::next_event, (harness, event), told)
                && harness.state().active is Some && event is Some && event->0 is Ok ==> {
                let id = (harness.state().active->0).0;
                let engine = event->0->Ok_0;
                &&& engine is ToolStarted ==> told == Some(
                    RunEvent::ToolStarted {
                        run_id: id,
                        call_id: engine->ToolStarted_call_id,
                        name: engine->ToolStarted_name,
                        arguments: engine->arguments,
                    },
                )
                &&& engine is ToolFinished ==> told == Some(
                    RunEvent::ToolFinished {
                        run_id: id,
                        call_id: engine->ToolFinished_call_id,
                        name: engine->ToolFinished_name,
                    },
                )
            },
{
}

} // verus!
