//! The generic tool loop: run the request, have the caller execute the tool calls, replay the
//! results, and repeat until the model answers without tool calls or the cap is hit. The library
//! never chooses or sandboxes tools; policy belongs to the caller.

use crate::engine::compaction::{out_of_turn, unexpected_event};
use crate::engine::reply::pending_calls;
use crate::errors::{result_view, PriestError, PriestErrorView};
use crate::lists;
use crate::schema::request::{PriestRequest, PriestRequestView};
use crate::schema::response::{PriestResponse, PriestResponseView};
use crate::schema::tools::{ToolCall, ToolCallView, ToolExchangeTurn, ToolExchangeTurnView};
use vstd::prelude::*;

verus! {

/// How often a request is run where the caller sets no cap.
pub const DEFAULT_MAX_ITERATIONS: usize = 10;

/// What came of executing a tool call.
#[derive(Debug)]
pub struct ToolExecutionResult {
    pub content: String,
    pub is_error: bool,
}

/// What a `ToolExecutionResult` holds.
pub struct ToolExecutionResultView {
    pub content: Seq<char>,
    pub is_error: bool,
}

impl DeepView for ToolExecutionResult {
    type V = ToolExecutionResultView;

    open spec fn deep_view(&self) -> ToolExecutionResultView {
        ToolExecutionResultView { content: self.content@, is_error: self.is_error }
    }
}

/// Whether a tool call may be executed.
#[derive(Debug)]
pub struct ApprovalDecision {
    pub approved: bool,
    pub reason: Option<String>,
}

/// What an `ApprovalDecision` holds.
pub struct ApprovalDecisionView {
    pub approved: bool,
    pub reason: Option<Seq<char>>,
}

impl DeepView for ApprovalDecision {
    type V = ApprovalDecisionView;

    open spec fn deep_view(&self) -> ApprovalDecisionView {
        ApprovalDecisionView { approved: self.approved, reason: self.reason.deep_view() }
    }
}

/// What a tool loop ends in.
#[derive(Debug)]
pub struct ToolLoopResult {
    /// The final response: the first one without tool calls, or the last iteration's response when
    /// the cap was hit or an error occurred.
    pub response: PriestResponse,
    /// Full tool exchange trace accumulated across iterations.
    pub exchange: Vec<ToolExchangeTurn>,
    /// True when the loop stopped because the iteration cap was reached.
    pub iteration_limit_reached: bool,
}

/// What a `ToolLoopResult` holds.
pub struct ToolLoopResultView {
    pub response: PriestResponseView,
    pub exchange: Seq<ToolExchangeTurnView>,
    pub iteration_limit_reached: bool,
}

impl DeepView for ToolLoopResult {
    type V = ToolLoopResultView;

    open spec fn deep_view(&self) -> ToolLoopResultView {
        ToolLoopResultView {
            response: self.response.deep_view(),
            exchange: self.exchange.deep_view(),
            iteration_limit_reached: self.iteration_limit_reached,
        }
    }
}

/// What a tool loop waits for. `at` is the position of the tool call in question.
#[derive(Debug)]
pub enum LoopStage {
    AwaitRun,
    AwaitDecision { response: PriestResponse, at: usize },
    AwaitExecution { response: PriestResponse, at: usize },
    Finished,
}

/// What a `LoopStage` holds.
pub enum LoopStageView {
    AwaitRun,
    AwaitDecision { response: PriestResponseView, at: nat },
    AwaitExecution { response: PriestResponseView, at: nat },
    Finished,
}

impl DeepView for LoopStage {
    type V = LoopStageView;

    open spec fn deep_view(&self) -> LoopStageView {
        match self {
            LoopStage::AwaitRun => LoopStageView::AwaitRun,
            LoopStage::AwaitDecision { response, at } => LoopStageView::AwaitDecision {
                response: response.deep_view(),
                at: *at as nat,
            },
            LoopStage::AwaitExecution { response, at } => LoopStageView::AwaitExecution {
                response: response.deep_view(),
                at: *at as nat,
            },
            LoopStage::Finished => LoopStageView::Finished,
        }
    }
}

/// A tool loop on its way.
#[derive(Debug)]
pub struct ToolLoop {
    pub request: PriestRequest,
    /// The tool exchange so far.
    pub exchange: Vec<ToolExchangeTurn>,
    /// How often the request may be run.
    pub max_iterations: usize,
    /// How often the request was run or is being run.
    pub started: usize,
    pub stage: LoopStage,
}

/// What a `ToolLoop` holds.
pub struct ToolLoopView {
    pub request: PriestRequestView,
    pub exchange: Seq<ToolExchangeTurnView>,
    pub max_iterations: usize,
    pub started: nat,
    pub stage: LoopStageView,
}

impl DeepView for ToolLoop {
    type V = ToolLoopView;

    open spec fn deep_view(&self) -> ToolLoopView {
        ToolLoopView {
            request: self.request.deep_view(),
            exchange: self.exchange.deep_view(),
            max_iterations: self.max_iterations,
            started: self.started as nat,
            stage: self.stage.deep_view(),
        }
    }
}

/// What is to be done next.
#[derive(Debug)]
pub enum LoopAction {
    Run { request: PriestRequest },
    Approve { call: ToolCall },
    Execute { call: ToolCall },
    Return(Result<ToolLoopResult, PriestError>),
}

/// What a `LoopAction` holds.
pub enum LoopActionView {
    Run { request: PriestRequestView },
    Approve { call: ToolCallView },
    Execute { call: ToolCallView },
    Return(Result<ToolLoopResultView, PriestErrorView>),
}

impl DeepView for LoopAction {
    type V = LoopActionView;

    open spec fn deep_view(&self) -> LoopActionView {
        match self {
            LoopAction::Run { request } => LoopActionView::Run { request: request.deep_view() },
            LoopAction::Approve { call } => LoopActionView::Approve { call: call.deep_view() },
            LoopAction::Execute { call } => LoopActionView::Execute { call: call.deep_view() },
            LoopAction::Return(r) => LoopActionView::Return(result_view(*r)),
        }
    }
}

/// What came of an action.
#[derive(Debug)]
pub enum LoopEvent {
    Ran(Result<PriestResponse, PriestError>),
    Decided(ApprovalDecision),
    Executed(ToolExecutionResult),
}

/// What a `LoopEvent` holds.
pub enum LoopEventView {
    Ran(Result<PriestResponseView, PriestErrorView>),
    Decided(ApprovalDecisionView),
    Executed(ToolExecutionResultView),
}

impl DeepView for LoopEvent {
    type V = LoopEventView;

    open spec fn deep_view(&self) -> LoopEventView {
        match self {
            LoopEvent::Ran(r) => LoopEventView::Ran(result_view(*r)),
            LoopEvent::Decided(d) => LoopEventView::Decided(d.deep_view()),
            LoopEvent::Executed(e) => LoopEventView::Executed(e.deep_view()),
        }
    }
}

// ---- What follows from what ----

/// The tool calls that a response asks the caller to execute: none where it tells of an error.
pub open spec fn calls_to_execute(response: PriestResponseView) -> Seq<ToolCallView> {
    match pending_calls(response.tool_calls) {
        Some(calls) if response.error is None => calls,
        _ => Seq::empty(),
    }
}

/// What the model is told of a call that the caller denied.
pub open spec fn denial(reason: Option<Seq<char>>) -> Seq<char> {
    "Tool call denied by the caller"@ + match reason {
        Some(r) => ": "@ + r,
        None => "."@,
    }
}

fn write_denial(reason: &Option<String>) -> (r: String)
    ensures
        r@ == denial(reason.deep_view()),
{
    let mut r = "Tool call denied by the caller".to_owned();
    match reason {
        Some(given) => {
            r.append(": ");
            r.append(given.as_str());
        },
        None => {
            r.append(".");
        },
    }
    assert(r@ =~= denial(reason.deep_view()));
    r
}

/// The result that stands for a denied call.
pub open spec fn denied_result(call: ToolCallView, reason: Option<Seq<char>>) -> ToolExchangeTurnView {
    ToolExchangeTurnView::ToolResult {
        tool_call_id: call.id,
        name: call.name,
        content: denial(reason),
        is_error: Some(true),
    }
}

/// The result of an executed call.
pub open spec fn executed_result(
    call: ToolCallView,
    result: ToolExecutionResultView,
) -> ToolExchangeTurnView {
    ToolExchangeTurnView::ToolResult {
        tool_call_id: call.id,
        name: call.name,
        content: result.content,
        is_error: if result.is_error {
            Some(true)
        } else {
            None
        },
    }
}

/// How a tool loop begins. The request is run at least once.
pub open spec fn loop_begun(request: PriestRequestView, max_iterations: Option<usize>) -> (
    ToolLoopView,
    LoopActionView,
) {
    let cap = match max_iterations {
        Some(n) => n,
        None => DEFAULT_MAX_ITERATIONS,
    };
    (
        ToolLoopView {
            request,
            exchange: request.tool_exchange,
            max_iterations: if cap == 0 {
                1
            } else {
                cap
            },
            started: 1,
            stage: LoopStageView::AwaitRun,
        },
        LoopActionView::Run { request },
    )
}

impl ToolLoopView {
    /// The end of the loop.
    pub open spec fn returning(self, outcome: Result<ToolLoopResultView, PriestErrorView>) -> (
        ToolLoopView,
        LoopActionView,
    ) {
        (
            ToolLoopView { stage: LoopStageView::Finished, ..self },
            LoopActionView::Return(outcome),
        )
    }

    /// The end of the loop with a response.
    pub open spec fn ending(self, response: PriestResponseView, iteration_limit_reached: bool) -> (
        ToolLoopView,
        LoopActionView,
    ) {
        self.returning(
            Ok(
                ToolLoopResultView {
                    response,
                    exchange: self.exchange,
                    iteration_limit_reached,
                },
            ),
        )
    }

    /// With one more entry in the tool exchange.
    pub open spec fn telling(self, turn: ToolExchangeTurnView) -> ToolLoopView {
        ToolLoopView { exchange: self.exchange.push(turn), ..self }
    }

    /// Going on with the tool call at `at`, or with another run where there is none left, or not at
    /// all where the cap is hit.
    pub open spec fn going_on(self, response: PriestResponseView, at: nat) -> (
        ToolLoopView,
        LoopActionView,
    ) {
        let calls = calls_to_execute(response);
        if at < calls.len() {
            (
                ToolLoopView { stage: LoopStageView::AwaitDecision { response, at }, ..self },
                LoopActionView::Approve { call: calls[at as int] },
            )
        } else if self.started < self.max_iterations {
            (
                ToolLoopView {
                    stage: LoopStageView::AwaitRun,
                    started: self.started + 1,
                    ..self
                },
                LoopActionView::Run {
                    request: PriestRequestView { tool_exchange: self.exchange, ..self.request },
                },
            )
        } else {
            self.ending(response, true)
        }
    }

    /// What an event leads to.
    pub open spec fn step(self, event: LoopEventView) -> (ToolLoopView, LoopActionView) {
        match (self.stage, event) {
            (LoopStageView::AwaitRun, LoopEventView::Ran(Err(e))) => self.returning(Err(e)),
            (LoopStageView::AwaitRun, LoopEventView::Ran(Ok(response))) => {
                let calls = calls_to_execute(response);
                if calls.len() == 0 {
                    self.ending(response, false)
                } else {
                    self.telling(
                        ToolExchangeTurnView::Assistant {
                            text: response.text,
                            tool_calls: calls,
                            reasoning: response.reasoning,
                        },
                    ).going_on(response, 0)
                }
            },
            (
                LoopStageView::AwaitDecision { response, at },
                LoopEventView::Decided(decision),
            ) => {
                let call = calls_to_execute(response)[at as int];
                if decision.approved {
                    (
                        ToolLoopView {
                            stage: LoopStageView::AwaitExecution { response, at },
                            ..self
                        },
                        LoopActionView::Execute { call },
                    )
                } else {
                    self.telling(denied_result(call, decision.reason)).going_on(response, at + 1)
                }
            },
            (
                LoopStageView::AwaitExecution { response, at },
                LoopEventView::Executed(result),
            ) => {
                let call = calls_to_execute(response)[at as int];
                self.telling(executed_result(call, result)).going_on(response, at + 1)
            },
            _ => self.returning(Err(out_of_turn())),
        }
    }
}

/// Whether an entry of the exchange answers a call.
pub open spec fn answers(turn: ToolExchangeTurnView, call: ToolCallView) -> bool {
    turn matches ToolExchangeTurnView::ToolResult { tool_call_id, name, .. } && tool_call_id
        == call.id && name == call.name
}

/// Whether the exchange ends with what a response asked for and the answers to its first `answered`
/// calls, in order.
pub open spec fn ends_with_answers(
    exchange: Seq<ToolExchangeTurnView>,
    response: PriestResponseView,
    answered: nat,
) -> bool {
    let calls = calls_to_execute(response);
    let base = exchange.len() - answered - 1;
    &&& 0 <= base
    &&& answered <= calls.len()
    &&& exchange[base] == (ToolExchangeTurnView::Assistant {
        text: response.text,
        tool_calls: calls,
        reasoning: response.reasoning,
    })
    &&& forall|j: int|
        0 <= j < answered ==> answers(#[trigger] exchange[base + 1 + j], calls[j])
}

impl ToolLoopView {
    /// What holds of a tool loop on its way: the request was run no more often than it may be; the
    /// exchange begins with that of the request; and while calls are being executed the exchange
    /// ends with the response that asked for them and one answer for each call that is through.
    pub open spec fn is_sound(self) -> bool {
        &&& 1 <= self.started <= self.max_iterations
        &&& self.request.tool_exchange.len() <= self.exchange.len()
        &&& self.exchange.take(self.request.tool_exchange.len() as int)
            == self.request.tool_exchange
        &&& match self.stage {
            LoopStageView::AwaitDecision { response, at } => at < calls_to_execute(response).len()
                && ends_with_answers(self.exchange, response, at),
            LoopStageView::AwaitExecution { response, at } => at < calls_to_execute(response).len()
                && ends_with_answers(self.exchange, response, at),
            _ => true,
        }
    }
}

proof fn lemma_telling(exchange: Seq<ToolExchangeTurnView>, own: Seq<ToolExchangeTurnView>, turn:
    ToolExchangeTurnView)
    requires
        own.len() <= exchange.len(),
        exchange.take(own.len() as int) == own,
    ensures
        exchange.push(turn).take(own.len() as int) == own,
{
    assert(exchange.push(turn).take(own.len() as int) =~= exchange.take(own.len() as int));
}

/// The loop stays sound, whatever is decided and whatever comes of it.
pub proof fn law_loop_stays_sound(run: ToolLoopView, event: LoopEventView)
    requires
        run.is_sound(),
    ensures
        run.step(event).0.is_sound(),
{
    let own = run.request.tool_exchange;
    match (run.stage, event) {
        (LoopStageView::AwaitRun, LoopEventView::Ran(Ok(response))) => {
            lemma_telling(
                run.exchange,
                own,
                ToolExchangeTurnView::Assistant {
                    text: response.text,
                    tool_calls: calls_to_execute(response),
                    reasoning: response.reasoning,
                },
            );
        },
        (LoopStageView::AwaitDecision { response, at }, LoopEventView::Decided(decision)) => {
            let call = calls_to_execute(response)[at as int];
            lemma_telling(run.exchange, own, denied_result(call, decision.reason));
            lemma_answered(run.exchange, response, at, denied_result(call, decision.reason));
        },
        (LoopStageView::AwaitExecution { response, at }, LoopEventView::Executed(result)) => {
            let call = calls_to_execute(response)[at as int];
            lemma_telling(run.exchange, own, executed_result(call, result));
            lemma_answered(run.exchange, response, at, executed_result(call, result));
        },
        _ => {},
    }
}

proof fn lemma_answered(
    exchange: Seq<ToolExchangeTurnView>,
    response: PriestResponseView,
    at: nat,
    turn: ToolExchangeTurnView,
)
    requires
        ends_with_answers(exchange, response, at),
        at < calls_to_execute(response).len(),
        answers(turn, calls_to_execute(response)[at as int]),
    ensures
        ends_with_answers(exchange.push(turn), response, at + 1),
{
    let calls = calls_to_execute(response);
    let after = exchange.push(turn);
    let base = exchange.len() - at - 1;
    assert(after.len() - (at + 1) - 1 == base);
    assert(after[base] == exchange[base]);
    assert forall|j: int| 0 <= j < at + 1 implies answers(
        #[trigger] after[base + 1 + j],
        calls[j],
    ) by {
        if j < at {
            assert(after[base + 1 + j] == exchange[base + 1 + j]);
        } else {
            assert(base + 1 + j == exchange.len());
        }
    }
}

/// Each run of the request is the request itself with the exchange so far; the call that is asked about
/// is the first of its response that is not answered yet; a tool is executed only after it was
/// approved; and the loop ends with a response that asks for no more tools, or with
/// the cap hit and every call of the last response answered, or with the error that a run met with.
pub proof fn law_loop_actions(run: ToolLoopView, event: LoopEventView)
    requires
        run.is_sound(),
    ensures
        match run.step(event).1 {
            LoopActionView::Run { request } => request == (PriestRequestView {
                tool_exchange: run.step(event).0.exchange,
                ..run.request
            }) && run.step(event).0.started == run.started + 1,
            LoopActionView::Execute { call } => run.stage matches LoopStageView::AwaitDecision {
                response,
                at,
            } && event matches LoopEventView::Decided(decision) && decision.approved && call
                == calls_to_execute(response)[at as int],
            LoopActionView::Approve { call } => run.step(event).0.stage matches
                LoopStageView::AwaitDecision { response, at } && call
                == calls_to_execute(response)[at as int] && ends_with_answers(
                run.step(event).0.exchange,
                response,
                at,
            ),
            LoopActionView::Return(Ok(result)) => if result.iteration_limit_reached {
                run.started == run.max_iterations && calls_to_execute(result.response).len() > 0
                    && ends_with_answers(
                    result.exchange,
                    result.response,
                    calls_to_execute(result.response).len(),
                )
            } else {
                calls_to_execute(result.response).len() == 0 && result.exchange == run.exchange
            },
            LoopActionView::Return(Err(e)) => event == LoopEventView::Ran(Err(e)) || e
                == out_of_turn(),
        },
{
    law_loop_stays_sound(run, event);
    match (run.stage, event) {
        (LoopStageView::AwaitDecision { response, at }, LoopEventView::Decided(decision)) => {
            let call = calls_to_execute(response)[at as int];
            lemma_answered(run.exchange, response, at, denied_result(call, decision.reason));
        },
        (LoopStageView::AwaitExecution { response, at }, LoopEventView::Executed(result)) => {
            let call = calls_to_execute(response)[at as int];
            lemma_answered(run.exchange, response, at, executed_result(call, result));
        },
        _ => {},
    }
}

/// How many events a loop can still take in before its cap, as far as runs and the calls of the
/// last response go: each event uses one up or begins another run.
pub open spec fn runs_left(run: ToolLoopView) -> int {
    match run.stage {
        LoopStageView::Finished => 0,
        LoopStageView::AwaitRun => 2 * (run.max_iterations - run.started) + 2,
        _ => 2 * (run.max_iterations - run.started) + 1,
    }
}

/// How much of the last response's calls is still to do.
pub open spec fn work_left(run: ToolLoopView) -> int {
    match run.stage {
        LoopStageView::AwaitDecision { response, at } => 2 * (calls_to_execute(response).len() - at),
        LoopStageView::AwaitExecution { response, at } => 2 * (calls_to_execute(response).len()
            - at) - 1,
        _ => 0,
    }
}

/// The loop comes to an end: every event leaves fewer runs, or as many and less to do.
pub proof fn law_loop_comes_to_an_end(run: ToolLoopView, event: LoopEventView)
    requires
        run.is_sound(),
        !(run.stage is Finished),
    ensures
        runs_left(run) >= 0 && work_left(run) >= 0,
        runs_left(run.step(event).0) < runs_left(run) || (runs_left(run.step(event).0)
            == runs_left(run) && work_left(run.step(event).0) < work_left(run)),
        run.step(event).0.stage is Finished <==> run.step(event).1 is Return,
{
}

// ---- The whole loop ----

/// What came of a call: the content of its result, and whether that is an error.
pub struct OutcomeView {
    pub content: Seq<char>,
    pub is_error: Option<bool>,
}

/// The result of a call.
pub open spec fn call_result(call: ToolCallView, outcome: OutcomeView) -> ToolExchangeTurnView {
    ToolExchangeTurnView::ToolResult {
        tool_call_id: call.id,
        name: call.name,
        content: outcome.content,
        is_error: outcome.is_error,
    }
}

/// What a response with calls is told as.
pub open spec fn assistant_turn(response: PriestResponseView) -> ToolExchangeTurnView {
    ToolExchangeTurnView::Assistant {
        text: response.text,
        tool_calls: calls_to_execute(response),
        reasoning: response.reasoning,
    }
}

/// The responses with calls that events brought, in order.
pub open spec fn responses_with_calls(events: Seq<LoopEventView>) -> Seq<PriestResponseView>
    decreases events.len(),
{
    if events.len() == 0 {
        Seq::empty()
    } else {
        let before = responses_with_calls(events.drop_last());
        match events.last() {
            LoopEventView::Ran(Ok(response)) if calls_to_execute(response).len() > 0 => before.push(
                response,
            ),
            _ => before,
        }
    }
}

/// What came of the calls, in order: what the caller said to those that it denied, and what executing
/// the others gave.
pub open spec fn outcomes(events: Seq<LoopEventView>) -> Seq<OutcomeView>
    decreases events.len(),
{
    if events.len() == 0 {
        Seq::empty()
    } else {
        let before = outcomes(events.drop_last());
        match events.last() {
            LoopEventView::Decided(decision) if !decision.approved => before.push(
                OutcomeView { content: denial(decision.reason), is_error: Some(true) },
            ),
            LoopEventView::Executed(result) => before.push(
                OutcomeView {
                    content: result.content,
                    is_error: if result.is_error {
                        Some(true)
                    } else {
                        None
                    },
                },
            ),
            _ => before,
        }
    }
}

/// How many calls responses ask for in all.
pub open spec fn total_calls(responses: Seq<PriestResponseView>) -> nat
    decreases responses.len(),
{
    if responses.len() == 0 {
        0
    } else {
        total_calls(responses.drop_last()) + calls_to_execute(responses.last()).len()
    }
}

/// The exchange that responses and the outcomes of their calls make: each response, and behind it one
/// result for each of its calls, in order. The last response may lack outcomes.
pub open spec fn trace(responses: Seq<PriestResponseView>, outcomes: Seq<OutcomeView>) -> Seq<
    ToolExchangeTurnView,
>
    decreases responses.len(),
{
    if responses.len() == 0 {
        Seq::empty()
    } else {
        let earlier = total_calls(responses.drop_last()) as int;
        let calls = calls_to_execute(responses.last());
        trace(responses.drop_last(), outcomes.take(earlier)).push(assistant_turn(responses.last()))
            + Seq::new(
            (outcomes.len() - earlier) as nat,
            |j: int| call_result(calls[j], outcomes[earlier + j]),
        )
    }
}

/// Where a loop stands after events.
pub open spec fn loop_after(begun: (ToolLoopView, LoopActionView), events: Seq<LoopEventView>) -> (
    ToolLoopView,
    LoopActionView,
)
    decreases events.len(),
{
    if events.len() == 0 {
        begun
    } else {
        loop_after(begun, events.drop_last()).0.step(events.last())
    }
}

proof fn lemma_trace_of_response(
    responses: Seq<PriestResponseView>,
    told: Seq<OutcomeView>,
    response: PriestResponseView,
)
    requires
        told.len() == total_calls(responses),
    ensures
        trace(responses.push(response), told) == trace(responses, told).push(
            assistant_turn(response),
        ),
{
    assert(responses.push(response).drop_last() =~= responses);
    assert(told.take(told.len() as int) =~= told);
    assert(trace(responses.push(response), told) =~= trace(responses, told).push(
        assistant_turn(response),
    ));
}

proof fn lemma_trace_of_outcome(
    responses: Seq<PriestResponseView>,
    told: Seq<OutcomeView>,
    outcome: OutcomeView,
)
    requires
        responses.len() > 0,
        told.len() >= total_calls(responses.drop_last()),
    ensures
        trace(responses, told.push(outcome)) == trace(responses, told).push(
            call_result(
                calls_to_execute(responses.last())[told.len() - total_calls(
                    responses.drop_last(),
                )],
                outcome,
            ),
        ),
{
    let earlier = total_calls(responses.drop_last()) as int;
    assert(told.push(outcome).take(earlier) =~= told.take(earlier));
    assert(trace(responses, told.push(outcome)) =~= trace(responses, told).push(
        call_result(calls_to_execute(responses.last())[told.len() - earlier], outcome),
    ));
}

/// What holds of a loop on its way and of its result: the exchange is the request's and the trace of
/// what came since, and every call but those that are still to come has its outcome.
spec fn is_traced(
    request: PriestRequestView,
    reached: (ToolLoopView, LoopActionView),
    events: Seq<LoopEventView>,
) -> bool {
    let responses = responses_with_calls(events);
    let told = outcomes(events);
    &&& reached.0.request == request
    &&& match reached.0.stage {
        LoopStageView::AwaitRun => told.len() == total_calls(responses) && reached.0.exchange
            == request.tool_exchange + trace(responses, told),
        LoopStageView::AwaitDecision { response, at } => is_midway(
            request,
            reached.0,
            responses,
            told,
            response,
            at,
        ),
        LoopStageView::AwaitExecution { response, at } => is_midway(
            request,
            reached.0,
            responses,
            told,
            response,
            at,
        ),
        LoopStageView::Finished => reached.1 matches LoopActionView::Return(Ok(result))
            ==> told.len() == total_calls(responses) && result.exchange == request.tool_exchange
            + trace(responses, told),
    }
}

spec fn is_midway(
    request: PriestRequestView,
    run: ToolLoopView,
    responses: Seq<PriestResponseView>,
    told: Seq<OutcomeView>,
    response: PriestResponseView,
    at: nat,
) -> bool {
    &&& responses.len() > 0
    &&& responses.last() == response
    &&& at < calls_to_execute(response).len()
    &&& told.len() == total_calls(responses.drop_last()) + at
    &&& run.exchange == request.tool_exchange + trace(responses, told)
}

proof fn lemma_is_traced(
    request: PriestRequestView,
    max_iterations: Option<usize>,
    events: Seq<LoopEventView>,
)
    ensures
        is_traced(request, loop_after(loop_begun(request, max_iterations), events), events),
    decreases events.len(),
{
    let begun = loop_begun(request, max_iterations);
    let own = request.tool_exchange;
    if events.len() == 0 {
        assert(own + trace(Seq::empty(), Seq::empty()) =~= own);
    } else {
        let earlier = events.drop_last();
        lemma_is_traced(request, max_iterations, earlier);
        let run = loop_after(begun, earlier).0;
        let responses = responses_with_calls(earlier);
        let told = outcomes(earlier);
        match (run.stage, events.last()) {
            (LoopStageView::AwaitRun, LoopEventView::Ran(Ok(response))) => {
                if calls_to_execute(response).len() > 0 {
                    lemma_trace_of_response(responses, told, response);
                    assert(responses.push(response).drop_last() =~= responses);
                    assert(run.exchange.push(assistant_turn(response)) =~= own + trace(
                        responses.push(response),
                        told,
                    ));
                }
            },
            (LoopStageView::AwaitDecision { response, at }, LoopEventView::Decided(decision)) => {
                if !decision.approved {
                    let outcome = outcomes(events).last();
                    lemma_trace_of_outcome(responses, told, outcome);
                    assert(run.exchange.push(
                        denied_result(calls_to_execute(response)[at as int], decision.reason),
                    ) =~= own + trace(responses, told.push(outcome)));
                }
            },
            (LoopStageView::AwaitExecution { response, at }, LoopEventView::Executed(result)) => {
                let outcome = outcomes(events).last();
                lemma_trace_of_outcome(responses, told, outcome);
                assert(run.exchange.push(
                    executed_result(calls_to_execute(response)[at as int], result),
                ) =~= own + trace(responses, told.push(outcome)));
            },
            _ => {},
        }
    }
}

/// The exchange that a whole loop ends in is the request's own, and behind it, for each response that
/// asked for calls, that response and one result for each of its calls, in order: what the caller
/// said to a call that it denied, and what came of executing any other.
pub proof fn law_exchange_of_a_loop(
    request: PriestRequestView,
    max_iterations: Option<usize>,
    events: Seq<LoopEventView>,
)
    ensures
        loop_after(loop_begun(request, max_iterations), events).1 matches LoopActionView::Return(
            Ok(result),
        ) ==> {
            &&& outcomes(events).len() == total_calls(responses_with_calls(events))
            &&& result.exchange == request.tool_exchange + trace(
                responses_with_calls(events),
                outcomes(events),
            )
        },
{
    lemma_is_traced(request, max_iterations, events);
    let reached = loop_after(loop_begun(request, max_iterations), events);
    if events.len() > 0 {
        let run = loop_after(loop_begun(request, max_iterations), events.drop_last()).0;
        assert(reached.1 is Return ==> reached.0.stage is Finished);
    }
}

// ---- Running ----

impl ToolLoop {
    /// Begins a tool loop.
    pub fn start(request: PriestRequest, max_iterations: Option<usize>) -> (r: (
        ToolLoop,
        LoopAction,
    ))
        ensures
            (r.0.deep_view(), r.1.deep_view()) == loop_begun(request.deep_view(), max_iterations),
            r.0.deep_view().is_sound(),
    {
        let cap = match max_iterations {
            Some(n) => n,
            None => DEFAULT_MAX_ITERATIONS,
        };
        let exchange = request.tool_exchange.clone();
        assert(exchange.deep_view() =~= request.tool_exchange.deep_view());
        let first = request.clone();
        let max_iterations: usize = if cap == 0 {
            1
        } else {
            cap
        };
        let run = ToolLoop {
            request,
            exchange,
            max_iterations,
            started: 1,
            stage: LoopStage::AwaitRun,
        };
        assert(run.deep_view().exchange.take(run.deep_view().exchange.len() as int)
            =~= run.deep_view().exchange);
        (run, LoopAction::Run { request: first })
    }

    fn finish(self, outcome: Result<ToolLoopResult, PriestError>) -> (r: (ToolLoop, LoopAction))
        ensures
            (r.0.deep_view(), r.1.deep_view()) == self.deep_view().returning(result_view(outcome)),
    {
        (ToolLoop { stage: LoopStage::Finished, ..self }, LoopAction::Return(outcome))
    }

    fn end(self, response: PriestResponse, iteration_limit_reached: bool) -> (r: (
        ToolLoop,
        LoopAction,
    ))
        ensures
            (r.0.deep_view(), r.1.deep_view()) == self.deep_view().ending(
                response.deep_view(),
                iteration_limit_reached,
            ),
    {
        let exchange = self.exchange.clone();
        assert(exchange.deep_view() =~= self.exchange.deep_view());
        self.finish(Ok(ToolLoopResult { response, exchange, iteration_limit_reached }))
    }

    fn tell(self, turn: ToolExchangeTurn) -> (r: ToolLoop)
        ensures
            r.deep_view() == self.deep_view().telling(turn.deep_view()),
            r.started == self.started,
    {
        let ToolLoop { request, exchange, max_iterations, started, stage } = self;
        let mut longer = exchange;
        lists::push_item(&mut longer, turn);
        ToolLoop { request, exchange: longer, max_iterations, started, stage }
    }

    fn go_on(self, response: PriestResponse, at: usize) -> (r: (ToolLoop, LoopAction))
        ensures
            (r.0.deep_view(), r.1.deep_view()) == self.deep_view().going_on(
                response.deep_view(),
                at as nat,
            ),
    {
        if at < count_calls(&response) {
            let call = call_at(&response, at);
            return (
                ToolLoop { stage: LoopStage::AwaitDecision { response, at }, ..self },
                LoopAction::Approve { call },
            );
        }
        if self.started < self.max_iterations {
            let started: usize = self.started + 1;
            let exchange = self.exchange.clone();
            assert(exchange.deep_view() =~= self.exchange.deep_view());
            let request = PriestRequest { tool_exchange: exchange, ..self.request.clone() };
            return (
                ToolLoop { stage: LoopStage::AwaitRun, started, ..self },
                LoopAction::Run { request },
            );
        }
        self.end(response, true)
    }

    /// Takes in what came of the last action, and says what is to be done next.
    pub fn step(self, event: LoopEvent) -> (r: (ToolLoop, LoopAction))
        requires
            self.deep_view().is_sound(),
        ensures
            (r.0.deep_view(), r.1.deep_view()) == self.deep_view().step(event.deep_view()),
            r.0.deep_view().is_sound(),
    {
        proof {
            law_loop_stays_sound(self.deep_view(), event.deep_view());
        }
        let ToolLoop { request, exchange, max_iterations, started, stage } = self;
        let run = ToolLoop {
            request,
            exchange,
            max_iterations,
            started,
            stage: LoopStage::Finished,
        };
        match (stage, event) {
            (LoopStage::AwaitRun, LoopEvent::Ran(ran)) => match ran {
                Err(e) => run.finish(Err(e)),
                Ok(response) => {
                    let count = count_calls(&response);
                    if count == 0 {
                        return run.end(response, false);
                    }
                    let turn = ToolExchangeTurn::Assistant {
                        text: response.text.clone(),
                        tool_calls: copy_calls(&response),
                        reasoning: response.reasoning.clone(),
                    };
                    run.tell(turn).go_on(response, 0)
                },
            },
            (LoopStage::AwaitDecision { response, at }, LoopEvent::Decided(decision)) => {
                let call = call_at(&response, at);
                let count = count_calls(&response);
                assert(at < count);
                if decision.approved {
                    return (
                        ToolLoop { stage: LoopStage::AwaitExecution { response, at }, ..run },
                        LoopAction::Execute { call },
                    );
                }
                let turn = ToolExchangeTurn::ToolResult {
                    tool_call_id: call.id,
                    name: call.name,
                    content: write_denial(&decision.reason),
                    is_error: Some(true),
                };
                run.tell(turn).go_on(response, at + 1)
            },
            (LoopStage::AwaitExecution { response, at }, LoopEvent::Executed(result)) => {
                let call = call_at(&response, at);
                let count = count_calls(&response);
                assert(at < count);
                let is_error = if result.is_error {
                    Some(true)
                } else {
                    None
                };
                let turn = ToolExchangeTurn::ToolResult {
                    tool_call_id: call.id,
                    name: call.name,
                    content: result.content,
                    is_error,
                };
                run.tell(turn).go_on(response, at + 1)
            },
            _ => run.finish(Err(unexpected_event())),
        }
    }
}

fn count_calls(response: &PriestResponse) -> (r: usize)
    ensures
        r == calls_to_execute(response.deep_view()).len(),
{
    match &response.tool_calls {
        Some(calls) => if response.error.is_none() {
            calls.len()
        } else {
            0
        },
        None => 0,
    }
}

fn call_at(response: &PriestResponse, at: usize) -> (r: ToolCall)
    requires
        at < calls_to_execute(response.deep_view()).len(),
    ensures
        r.deep_view() == calls_to_execute(response.deep_view())[at as int],
{
    match &response.tool_calls {
        Some(calls) => {
            assert(calls.deep_view()[at as int] == calls@[at as int].deep_view());
            calls[at].clone()
        },
        None => ToolCall {
            id: String::new(),
            name: String::new(),
            arguments: serde_json::Map::new(),
        },
    }
}

fn copy_calls(response: &PriestResponse) -> (r: Vec<ToolCall>)
    requires
        calls_to_execute(response.deep_view()).len() > 0,
    ensures
        r.deep_view() == calls_to_execute(response.deep_view()),
{
    match &response.tool_calls {
        Some(calls) => {
            let r = calls.clone();
            assert(r.deep_view() =~= calls.deep_view());
            r
        },
        None => lists::no_items(),
    }
}

} // verus!
