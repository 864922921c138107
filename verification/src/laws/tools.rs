//! Laws on tool loops.

use crate::schema::request::PriestRequestView;
use crate::schema::tools::ToolExchangeTurnView;
use crate::text::occurs_at;
use crate::tool_loop::{
    denial, ends_with_answers, loop_begun, LoopActionView, LoopEventView, LoopStageView,
    ToolLoopResultView, ToolLoopView,
};
use vstd::prelude::*;

verus! {

/// Whenever the loop asks whether a call may be executed, it is the first call of the response that
/// the exchange has no answer to yet: as many answers stand behind that response as there are calls
/// ahead of this one. What is then decided is decided of that call: approved, it is the very call
/// that is executed; denied, the answer told is an answer to it and ends with the reason given. And
/// what comes of executing it is told as an answer to it, with the content that came of it.
pub proof fn law_what_is_approved_is_executed(
    run: ToolLoopView,
    event: LoopEventView,
    next: LoopEventView,
    after_next: LoopEventView,
)
    requires
        run.is_sound(),
    ensures
        run.step(event).1 matches LoopActionView::Approve { call } ==> {
            let asked = run.step(event).0;
            let decided = asked.step(next);
            &&& asked.stage matches LoopStageView::AwaitDecision { response, at } && {
                &&& response.error is None
                &&& response.tool_calls is Some
                &&& at < response.tool_calls->0.len()
                &&& call == response.tool_calls->0[at as int]
                &&& ends_with_answers(asked.exchange, response, at)
            }
            &&& next matches LoopEventView::Decided(decision) ==> {
                &&& decision.approved ==> decided.1 == (LoopActionView::Execute { call })
                    && decided.0.exchange == asked.exchange
                &&& !decision.approved ==> !(decided.1 is Execute) && decided.0.exchange.len()
                    == asked.exchange.len() + 1 && decided.0.exchange.drop_last()
                    == asked.exchange && {
                    &&& decided.0.exchange.last() matches ToolExchangeTurnView::ToolResult {
                        tool_call_id,
                        name,
                        is_error,
                        ..
                    }
                    &&& tool_call_id == call.id
                    &&& name == call.name
                    &&& is_error == Some(true)
                }
                &&& !decision.approved ==> (decision.reason matches Some(reason) ==> {
                    let content = decided.0.exchange.last()->ToolResult_content;
                    occurs_at(content, reason, content.len() - reason.len())
                })
                &&& decision.approved ==> (after_next matches LoopEventView::Executed(result) ==> {
                    let told = decided.0.step(after_next).0.exchange;
                    &&& told == asked.exchange.push(
                        ToolExchangeTurnView::ToolResult {
                            tool_call_id: call.id,
                            name: call.name,
                            content: result.content,
                            is_error: if result.is_error {
                                Some(true)
                            } else {
                                None
                            },
                        },
                    )
                })
            }
        },
{
    crate::tool_loop::law_loop_stays_sound(run, event);
    let asked = run.step(event).0;
    if run.step(event).1 is Approve {
        let decided = asked.step(next).0;
        if decided.exchange.len() == asked.exchange.len() + 1 {
            assert(decided.exchange.drop_last() =~= asked.exchange);
            if let LoopEventView::Decided(decision) = next {
                if let Some(reason) = decision.reason {
                    let content = denial(decision.reason);
                    assert(content.subrange(
                        content.len() - reason.len(),
                        content.len() as int,
                    ) =~= reason);
                }
            }
        }
    }
}

/// A loop begins by running the request as it is, with nothing told yet, and may run it as often as
/// it was allowed to, ten times where nothing was said, but never less than once.
pub proof fn law_a_loop_begins_with_the_request(
    request: PriestRequestView,
    max_iterations: Option<usize>,
)
    ensures
        ({
            let (run, action) = loop_begun(request, max_iterations);
            &&& action == (LoopActionView::Run { request })
            &&& run.request == request
            &&& run.exchange == request.tool_exchange
            &&& run.started == 1
            &&& run.max_iterations >= 1
            &&& max_iterations is None ==> run.max_iterations == 10
            &&& max_iterations is Some && max_iterations->0 > 0 ==> run.max_iterations
                == max_iterations->0
            &&& max_iterations == Some(0usize) ==> run.max_iterations == 1
            &&& run.is_sound()
        }),
{
    assert(request.tool_exchange.take(request.tool_exchange.len() as int)
        =~= request.tool_exchange);
}

/// A response without an error and with calls is told whole, text, calls and reasoning, and its
/// first call is asked about; any other response ends the loop as it came, with the exchange as it
/// was.
pub proof fn law_responses_are_told_whole(run: ToolLoopView, event: LoopEventView)
    requires
        run.stage is AwaitRun,
    ensures
        event matches LoopEventView::Ran(Ok(response)) ==> {
            let (after, action) = run.step(event);
            if response.error is None && response.tool_calls is Some
                && response.tool_calls->0.len() > 0 {
                &&& action == (LoopActionView::Approve { call: response.tool_calls->0[0] })
                &&& after.exchange == run.exchange.push(
                    ToolExchangeTurnView::Assistant {
                        text: response.text,
                        tool_calls: response.tool_calls->0,
                        reasoning: response.reasoning,
                    },
                )
                &&& after.stage == (LoopStageView::AwaitDecision { response, at: 0 })
            } else {
                action == LoopActionView::Return(
                    Ok(
                        ToolLoopResultView {
                            response,
                            exchange: run.exchange,
                            iteration_limit_reached: false,
                        },
                    ),
                )
            }
        },
        event matches LoopEventView::Ran(Err(e)) ==> run.step(event).1 == LoopActionView::Return(
            Err(e),
        ),
{
}

/// No call is passed over: what is told of one call is followed by the question about the next one
/// of the same response, and only behind the last one is the request run again, or, with no run
/// left, is the response handed back with everything that was told.
pub proof fn law_every_call_gets_its_turn(run: ToolLoopView, event: LoopEventView)
    requires
        run.is_sound(),
    ensures
        (match (run.stage, event) {
            (
                LoopStageView::AwaitDecision { response, at },
                LoopEventView::Decided(decision),
            ) => if decision.approved {
                None
            } else {
                Some((response, at))
            },
            (LoopStageView::AwaitExecution { response, at }, LoopEventView::Executed(_)) => Some(
                (response, at),
            ),
            _ => None,
        }) matches Some((response, at)) ==> {
            let calls = response.tool_calls->0;
            let (after, action) = run.step(event);
            &&& after.exchange.len() == run.exchange.len() + 1
            &&& if at + 1 < calls.len() {
                &&& action == (LoopActionView::Approve { call: calls[at as int + 1] })
                &&& after.stage == (LoopStageView::AwaitDecision { response, at: at + 1 })
            } else if run.started < run.max_iterations {
                &&& action == (LoopActionView::Run {
                    request: PriestRequestView { tool_exchange: after.exchange, ..run.request },
                })
                &&& after.started == run.started + 1
                &&& after.stage is AwaitRun
            } else {
                action == LoopActionView::Return(
                    Ok(
                        ToolLoopResultView {
                            response,
                            exchange: after.exchange,
                            iteration_limit_reached: true,
                        },
                    ),
                )
            }
        },
{
}

} // verus!
