//! Laws on streamed answers of the responses API.

use crate::json::{compact_text, member, text, Json};
use crate::laws::streams::{summaries_told, texts_told};
use crate::laws::texts::mentions;
use crate::providers::adapter::{AdapterResultView, AdapterStreamEventView};
use crate::providers::openai_responses::response::{failure_text, result_of};
use crate::providers::openai_responses::stream as responses;
use crate::providers::openai_responses::stream::{PartialCallView, StreamStep, StreamView};
use crate::schema::tools::{arguments_in_text, synthesized_id, ToolCallView};
use crate::text::{if_not_empty, occurs_at};
use vstd::prelude::*;

verus! {

/// The pieces that values of one kind send, in order, up to the value that completes the response.
pub open spec fn deltas_sent(values: Seq<Json>, kind: Seq<char>, from: int) -> Seq<Seq<char>>
    decreases values.len() - from,
{
    if from < 0 || from >= values.len() || member(values[from], "type"@) == Json::Text(
        "response.completed"@,
    ) {
        Seq::empty()
    } else {
        if_not_empty(
            match member(values[from], "delta"@) {
                Json::Text(t) if member(values[from], "type"@) == Json::Text(kind) => t,
                _ => Seq::empty(),
            },
        ) + deltas_sent(values, kind, from + 1)
    }
}

proof fn lemma_kinds()
    ensures
        "response.output_text.delta"@ != "response.reasoning_summary_text.delta"@,
        "response.completed"@ != "response.output_text.delta"@,
        "response.completed"@ != "response.reasoning_summary_text.delta"@,
        "response.completed"@ != "response.output_item.added"@,
        "response.completed"@ != "response.function_call_arguments.delta"@,
        "response.completed"@ != "response.function_call_arguments.done"@,
        "response.completed"@ != "response.output_item.done"@,
        "response.output_item.added"@ != "response.output_text.delta"@,
        "response.output_item.added"@ != "response.reasoning_summary_text.delta"@,
        "response.function_call_arguments.delta"@ != "response.output_text.delta"@,
        "response.function_call_arguments.delta"@ != "response.reasoning_summary_text.delta"@,
        "response.function_call_arguments.delta"@ != "response.output_item.added"@,
        "response.function_call_arguments.done"@ != "response.output_text.delta"@,
        "response.function_call_arguments.done"@ != "response.reasoning_summary_text.delta"@,
        "response.function_call_arguments.done"@ != "response.output_item.added"@,
        "response.function_call_arguments.done"@ != "response.function_call_arguments.delta"@,
        "response.output_item.done"@ != "response.output_text.delta"@,
        "response.output_item.done"@ != "response.reasoning_summary_text.delta"@,
        "response.output_item.done"@ != "response.output_item.added"@,
        "response.output_item.done"@ != "response.function_call_arguments.delta"@,
        "response.output_item.done"@ != "response.function_call_arguments.done"@,
{
    reveal_strlit("response.output_text.delta");
    reveal_strlit("response.reasoning_summary_text.delta");
    reveal_strlit("response.output_item.added");
    reveal_strlit("response.function_call_arguments.delta");
    reveal_strlit("response.function_call_arguments.done");
    reveal_strlit("response.output_item.done");
    reveal_strlit("response.completed");
    assert("response.output_text.delta"@.len() == 26);
    assert("response.reasoning_summary_text.delta"@.len() == 37);
    assert("response.output_item.added"@.len() == 26);
    assert("response.function_call_arguments.delta"@.len() == 38);
    assert("response.function_call_arguments.done"@.len() == 37);
    assert("response.output_item.done"@.len() == 25);
    assert("response.completed"@.len() == 18);
    assert("response.output_text.delta"@[16] == 't' && "response.output_item.added"@[16] == 'i');
    assert("response.reasoning_summary_text.delta"@[9] == 'r'
        && "response.function_call_arguments.done"@[9] == 'f');
}

proof fn lemma_told_push(events: Seq<AdapterStreamEventView>, event: AdapterStreamEventView)
    ensures
        texts_told(events.push(event)) == texts_told(events) + if event is TextDelta {
            seq![event->TextDelta_text]
        } else {
            Seq::empty()
        },
        summaries_told(events.push(event)) == summaries_told(events) + if event
            is ReasoningSummaryDelta {
            seq![event->ReasoningSummaryDelta_text]
        } else {
            Seq::empty()
        },
{
    assert(events.push(event).drop_last() =~= events);
}

/// Two lists of events, one behind the other, tell what each of them tells.
proof fn lemma_told_concat(a: Seq<AdapterStreamEventView>, b: Seq<AdapterStreamEventView>)
    ensures
        texts_told(a + b) == texts_told(a) + texts_told(b),
        summaries_told(a + b) == summaries_told(a) + summaries_told(b),
    decreases b.len(),
{
    if b.len() == 0 {
        assert(a + b =~= a);
    } else {
        let rest = b.drop_last();
        lemma_told_concat(a, rest);
        lemma_told_push(a + rest, b.last());
        lemma_told_push(rest, b.last());
        assert(a + b =~= (a + rest).push(b.last()));
        assert(b =~= rest.push(b.last()));
    }
}

proof fn lemma_ending_tells_no_text(s: StreamView, from: int)
    requires
        0 <= from,
    ensures
        texts_told(s.ending_all(from).events) == texts_told(s.events),
        summaries_told(s.ending_all(from).events) == summaries_told(s.events),
    decreases s.partials.len() - from,
{
    if from < s.partials.len() {
        lemma_told_push(s.events, responses::end_of(s.partials[from]));
        lemma_ending_tells_no_text(s.ending(from), from + 1);
    }
}

proof fn lemma_missing_tells_no_text(
    calls: Seq<ToolCallView>,
    emitted: Seq<Seq<char>>,
    next: nat,
    from: int,
)
    ensures
        texts_told(responses::missing_calls(calls, emitted, next, from)).len() == 0,
        summaries_told(responses::missing_calls(calls, emitted, next, from)).len() == 0,
    decreases calls.len() - from,
{
    if 0 <= from < calls.len() {
        if emitted.contains(calls[from].id) {
            lemma_missing_tells_no_text(calls, emitted, next, from + 1);
        } else {
            let more = emitted.push(calls[from].id);
            lemma_missing_tells_no_text(calls, more, next + 1, from + 1);
            let whole = responses::whole_call(calls[from], next);
            lemma_told_concat(whole, responses::missing_calls(calls, more, next + 1, from + 1));
            let none = Seq::<AdapterStreamEventView>::empty();
            lemma_told_push(none, whole[0]);
            lemma_told_push(none.push(whole[0]), whole[1]);
            assert(whole =~= none.push(whole[0]).push(whole[1]));
        }
    }
}

proof fn lemma_completed_tells_no_text(s: StreamView, result: AdapterResultView)
    ensures
        texts_told(responses::completed(s, result)) == texts_told(s.events),
        summaries_told(responses::completed(s, result)) == summaries_told(s.events),
{
    let ended = s.ending_all(0);
    let missing = responses::missing_calls(
        responses::calls_of(result),
        ended.emitted,
        ended.partials.len(),
        0,
    );
    let usage = responses::usage_of_result(result);
    lemma_ending_tells_no_text(s, 0);
    lemma_missing_tells_no_text(
        responses::calls_of(result),
        ended.emitted,
        ended.partials.len(),
        0,
    );
    lemma_told_concat(ended.events, missing);
    let none = Seq::<AdapterStreamEventView>::empty();
    if usage.len() > 0 {
        lemma_told_push(none, usage[0]);
        assert(usage =~= none.push(usage[0]));
    } else {
        assert(usage =~= none);
    }
    lemma_told_concat(ended.events + missing, usage);
    lemma_told_push(
        ended.events + missing + usage,
        responses::completed(s, result).last(),
    );
    assert(texts_told(responses::completed(s, result)) =~= texts_told(s.events));
    assert(summaries_told(responses::completed(s, result)) =~= summaries_told(s.events));
}

proof fn lemma_read_on_tells(s: StreamView, values: Seq<Json>, from: int)
    requires
        0 <= from,
    ensures
        responses::read_on(s, values, from) matches Ok(events) ==> {
            &&& texts_told(events) == texts_told(s.events) + deltas_sent(
                values,
                "response.output_text.delta"@,
                from,
            )
            &&& summaries_told(events) == summaries_told(s.events) + deltas_sent(
                values,
                "response.reasoning_summary_text.delta"@,
                from,
            )
        },
    decreases values.len() - from,
{
    lemma_kinds();
    if from >= values.len() {
        lemma_ending_tells_no_text(s, 0);
        lemma_told_push(s.ending_all(0).events, responses::broken_off(s).last());
        assert(texts_told(responses::broken_off(s)) =~= texts_told(s.events));
        assert(summaries_told(responses::broken_off(s)) =~= summaries_told(s.events));
        assert(texts_told(s.events) + Seq::<Seq<char>>::empty() =~= texts_told(s.events));
        assert(summaries_told(s.events) + Seq::<Seq<char>>::empty() =~= summaries_told(s.events));
    } else {
        let value = values[from];
        match responses::step(s, value) {
            StreamStep::Continue(next) => {
                lemma_read_on_tells(next, values, from + 1);
                if next.events.len() > s.events.len() {
                    assert(next.events.len() == s.events.len() + 1);
                    lemma_told_push(s.events, next.events.last());
                    assert(next.events =~= s.events.push(next.events.last()));
                } else {
                    assert(next.events == s.events);
                }
                let t = "response.output_text.delta"@;
                let r = "response.reasoning_summary_text.delta"@;
                assert(deltas_sent(values, t, from) =~= (if member(value, "type"@) == Json::Text(t)
                    && text(member(value, "delta"@)) is Some {
                    if_not_empty(text(member(value, "delta"@))->0)
                } else {
                    Seq::empty()
                }) + deltas_sent(values, t, from + 1));
                assert(deltas_sent(values, r, from) =~= (if member(value, "type"@) == Json::Text(r)
                    && text(member(value, "delta"@)) is Some {
                    if_not_empty(text(member(value, "delta"@))->0)
                } else {
                    Seq::empty()
                }) + deltas_sent(values, r, from + 1));
                if let Ok(events) = responses::read_on(s, values, from) {
                    assert(texts_told(events) =~= texts_told(s.events) + deltas_sent(
                        values,
                        t,
                        from,
                    ));
                    assert(summaries_told(events) =~= summaries_told(s.events) + deltas_sent(
                        values,
                        r,
                        from,
                    ));
                }
            },
            StreamStep::Stop(Ok(events)) => {
                let result = result_of(member(value, "response"@))->Ok_0;
                lemma_completed_tells_no_text(s, result);
                assert(texts_told(s.events) + Seq::<Seq<char>>::empty() =~= texts_told(s.events));
                assert(summaries_told(s.events) + Seq::<Seq<char>>::empty() =~= summaries_told(
                    s.events,
                ));
            },
            StreamStep::Stop(Err(_)) => {},
        }
    }
}

/// For every stream that is read, the texts told are, in order, exactly those that are not empty of
/// the values that send a piece of the output's text, and the pieces of reasoning told are those of
/// the values that send a piece of a summary; all up to the value that completes the response.
pub proof fn law_responses_tell_what_was_sent(values: Seq<Json>)
    ensures
        responses::events_in(values) matches Ok(events) ==> {
            &&& texts_told(events) == deltas_sent(values, "response.output_text.delta"@, 0)
            &&& summaries_told(events) == deltas_sent(
                values,
                "response.reasoning_summary_text.delta"@,
                0,
            )
        },
{
    lemma_read_on_tells(responses::unread(), values, 0);
    if let Ok(events) = responses::events_in(values) {
        let none = Seq::<Seq<char>>::empty();
        let t = deltas_sent(values, "response.output_text.delta"@, 0);
        let r = deltas_sent(values, "response.reasoning_summary_text.delta"@, 0);
        assert(none + t =~= t);
        assert(none + r =~= r);
    }
}

/// Whatever was read before: a call that is added under a number of the output not seen yet is told
/// with the next number, its id and its name; a piece of its arguments is told under that number;
/// and its end, in turn, with its own id and name, and with the arguments that the end gives, or
/// else with those gathered piece by piece. Once its end was told, it is not told again.
pub proof fn law_responses_calls_are_told(
    s: StreamView,
    index: u64,
    added: Json,
    piece: Json,
    done: Json,
)
    requires
        responses::consistent(s),
        forall|i: int| 0 <= i < s.partials.len() ==> (#[trigger] s.partials[i]).output_index != index,
        member(added, "type"@) == Json::Text("response.output_item.added"@),
        member(member(added, "item"@), "type"@) == Json::Text("function_call"@),
        member(added, "output_index"@) == Json::Unsigned(index),
        member(piece, "type"@) == Json::Text("response.function_call_arguments.delta"@),
        member(piece, "output_index"@) == Json::Unsigned(index),
        text(member(piece, "delta"@)) is Some && text(member(piece, "delta"@))->0.len() > 0,
        member(done, "type"@) == Json::Text("response.function_call_arguments.done"@),
        member(done, "output_index"@) == Json::Unsigned(index),
    ensures
        ({
            let item = member(added, "item"@);
            let id = text(member(item, "call_id"@));
            let name = text(member(item, "name"@));
            let said = match member(item, "arguments"@) {
                Json::Text(a) => a,
                _ => Seq::empty(),
            };
            let fragment = text(member(piece, "delta"@))->0;
            let number = s.partials.len();
            let begun = s.events.push(
                AdapterStreamEventView::ToolCallStart { index: number, id, name },
            );
            let longer = begun.push(
                AdapterStreamEventView::ToolCallDelta { index: number, arguments_delta: fragment },
            );
            let ended = longer.push(
                AdapterStreamEventView::ToolCallEnd {
                    index: number,
                    tool_call: ToolCallView {
                        id: match id {
                            Some(i) => i,
                            None => synthesized_id(number),
                        },
                        name: match (member(done, "name"@), name) {
                            (Json::Text(n), _) => n,
                            (_, Some(n)) => n,
                            _ => ""@,
                        },
                        arguments: arguments_in_text(
                            match member(done, "arguments"@) {
                                Json::Text(a) => a,
                                _ => said + fragment,
                            },
                        ),
                    },
                },
            );
            &&& responses::step(s, added) matches StreamStep::Continue(s1) && s1.events == begun && {
                &&& responses::step(s1, piece) matches StreamStep::Continue(s2) && s2.events
                    == longer && {
                    &&& responses::step(s2, done) matches StreamStep::Continue(s3) && s3.events
                        == ended && {
                        &&& responses::step(s3, done) matches StreamStep::Continue(s4) && s4.events
                            == ended
                    }
                }
            }
        }),
{
    lemma_kinds();
    let at = responses::place(s.partials, index, 0);
    responses::lemma_place(s.partials, index, 0);
    let s1 = responses::on_added(s, added);
    assert(s1.partials[at].output_index == index);
    assert(forall|i: int| 0 <= i < at ==> s1.partials[i] == s.partials[i]);
    lemma_place_is(s1.partials, index, at);
    let s2 = responses::on_arguments_delta(s1, piece);
    assert(forall|i: int| 0 <= i < at ==> s2.partials[i] == s.partials[i]);
    lemma_place_is(s2.partials, index, at);
    let s3 = responses::on_arguments_done(s2, done);
    assert(forall|i: int| 0 <= i < at ==> s3.partials[i] == s.partials[i]);
    lemma_place_is(s3.partials, index, at);
}

proof fn lemma_place_is(partials: Seq<PartialCallView>, index: u64, at: int)
    requires
        0 <= at < partials.len(),
        partials[at].output_index == index,
        forall|i: int| 0 <= i < at ==> (#[trigger] partials[i]).output_index < index,
    ensures
        responses::place(partials, index, 0) == at,
{
    responses::lemma_place(partials, index, 0);
    let k = responses::place(partials, index, 0);
    if k < at {
        assert(partials[k].output_index < index);
    }
}

/// A stream that is completed ends by telling its counts, where there are any, and why it ended,
/// both as the complete response says. What is told of calls that had not been told before is told
/// of calls that the response lists: each its beginning and at once its end, as the response lists
/// it.
pub proof fn law_responses_are_completed(s: StreamView, event: Json)
    requires
        member(event, "type"@) == Json::Text("response.completed"@),
    ensures
        match (responses::step(s, event), result_of(member(event, "response"@))) {
            (StreamStep::Stop(Ok(events)), Ok(result)) => {
                let n = s.ending_all(0).events.len();
                let counted = result.input_tokens is Some || result.output_tokens is Some
                    || result.cached_input_tokens is Some || result.reasoning_tokens is Some;
                &&& events.last() == (AdapterStreamEventView::Finish {
                    finish_reason: result.finish_reason,
                    reasoning: result.reasoning,
                })
                &&& counted ==> events.len() >= 2 && events[events.len() - 2] == (
                AdapterStreamEventView::Usage {
                    input_tokens: result.input_tokens,
                    output_tokens: result.output_tokens,
                    cached_input_tokens: result.cached_input_tokens,
                    reasoning_tokens: result.reasoning_tokens,
                })
                &&& forall|k: int|
                    n <= k < events.len() && #[trigger] events[k] is ToolCallEnd ==> {
                        let call = events[k]->ToolCallEnd_tool_call;
                        &&& result.tool_calls is Some
                        &&& result.tool_calls->0.contains(call)
                        &&& events[k - 1] == (AdapterStreamEventView::ToolCallStart {
                            index: events[k]->ToolCallEnd_index,
                            id: Some(call.id),
                            name: Some(call.name),
                        })
                    }
            },
            (StreamStep::Stop(Err(e)), Err(f)) => e == f,
            _ => false,
        },
{
    lemma_kinds();
    if let Ok(result) = result_of(member(event, "response"@)) {
        let ended = s.ending_all(0);
        let calls = responses::calls_of(result);
        let missing = responses::missing_calls(calls, ended.emitted, ended.partials.len(), 0);
        let events = responses::completed(s, result);
        let n = ended.events.len() as int;
        lemma_missing_calls_are_listed(calls, ended.emitted, ended.partials.len(), 0);
        assert forall|k: int| n <= k < events.len() && #[trigger] events[k] is ToolCallEnd implies {
            let call = events[k]->ToolCallEnd_tool_call;
            &&& result.tool_calls is Some
            &&& result.tool_calls->0.contains(call)
            &&& events[k - 1] == (AdapterStreamEventView::ToolCallStart {
                index: events[k]->ToolCallEnd_index,
                id: Some(call.id),
                name: Some(call.name),
            })
        } by {
            assert(k < n + missing.len());
            assert(events[k] == missing[k - n]);
            assert(k - n >= 1);
            assert(events[k - 1] == missing[k - n - 1]);
        }
    }
}

proof fn lemma_missing_calls_are_listed(
    calls: Seq<ToolCallView>,
    emitted: Seq<Seq<char>>,
    next: nat,
    from: int,
)
    requires
        0 <= from,
    ensures
        ({
            let missing = responses::missing_calls(calls, emitted, next, from);
            forall|k: int|
                0 <= k < missing.len() && #[trigger] missing[k] is ToolCallEnd ==> {
                    let call = missing[k]->ToolCallEnd_tool_call;
                    &&& k >= 1
                    &&& calls.contains(call)
                    &&& missing[k - 1] == (AdapterStreamEventView::ToolCallStart {
                        index: missing[k]->ToolCallEnd_index,
                        id: Some(call.id),
                        name: Some(call.name),
                    })
                }
        }),
    decreases calls.len() - from,
{
    if from < calls.len() {
        if emitted.contains(calls[from].id) {
            lemma_missing_calls_are_listed(calls, emitted, next, from + 1);
        } else {
            let more = emitted.push(calls[from].id);
            lemma_missing_calls_are_listed(calls, more, next + 1, from + 1);
            let missing = responses::missing_calls(calls, emitted, next, from);
            let behind = responses::missing_calls(calls, more, next + 1, from + 1);
            assert forall|k: int|
                0 <= k < missing.len() && #[trigger] missing[k] is ToolCallEnd implies {
                let call = missing[k]->ToolCallEnd_tool_call;
                &&& k >= 1
                &&& calls.contains(call)
                &&& missing[k - 1] == (AdapterStreamEventView::ToolCallStart {
                    index: missing[k]->ToolCallEnd_index,
                    id: Some(call.id),
                    name: Some(call.name),
                })
            } by {
                if k >= 2 {
                    assert(missing[k] == behind[k - 2]);
                    assert(missing[k - 1] == behind[k - 3]);
                } else {
                    assert(calls.contains(calls[from]));
                }
            }
        }
    }
}

/// A stream that breaks off ends with what was told, the ends of the calls that were still open,
/// and a reason: calls where there were any, or else a plain stop.
pub proof fn law_responses_break_off(s: StreamView)
    ensures
        ({
            let events = responses::broken_off(s);
            &&& events.drop_last() == s.ending_all(0).events
            &&& events.last() is Finish
            &&& events.last()->finish_reason == Some(
                if s.partials.len() > 0 {
                    "tool_calls"@
                } else {
                    "stop"@
                },
            )
            &&& events.last()->Finish_reasoning is None
            &&& forall|i: int|
                0 <= i < s.partials.len() && !(#[trigger] s.partials[i]).ended ==> exists|k: int|
                    0 <= k < events.len() && #[trigger] events[k] == responses::end_of(
                        s.partials[i],
                    )
            &&& s.events.len() < events.len()
            &&& forall|k: int| 0 <= k < s.events.len() ==> #[trigger] events[k] == s.events[k]
        }),
{
    let events = responses::broken_off(s);
    assert(events.drop_last() =~= s.ending_all(0).events);
    lemma_all_are_ended(s, 0);
    let ended = s.ending_all(0);
    assert forall|i: int| 0 <= i < s.partials.len() && !(#[trigger] s.partials[i]).ended implies exists|
        k: int,
    | 0 <= k < events.len() && #[trigger] events[k] == responses::end_of(s.partials[i]) by {
        let k = choose|k: int|
            0 <= k < ended.events.len() && #[trigger] ended.events[k] == responses::end_of(
                s.partials[i],
            );
        assert(events[k] == ended.events[k]);
    }
}

proof fn lemma_all_are_ended(s: StreamView, from: int)
    requires
        0 <= from,
    ensures
        ({
            let events = s.ending_all(from).events;
            &&& s.events.len() <= events.len()
            &&& forall|k: int| 0 <= k < s.events.len() ==> #[trigger] events[k] == s.events[k]
            &&& forall|i: int|
                from <= i < s.partials.len() && !(#[trigger] s.partials[i]).ended ==> exists|k: int|
                    0 <= k < events.len() && #[trigger] events[k] == responses::end_of(
                        s.partials[i],
                    )
        }),
    decreases s.partials.len() - from,
{
    if from < s.partials.len() {
        let next = s.ending(from);
        lemma_all_are_ended(next, from + 1);
        let events = s.ending_all(from).events;
        assert(forall|k: int| 0 <= k < s.events.len() ==> next.events[k] == s.events[k]);
        assert forall|i: int|
            from <= i < s.partials.len() && !(#[trigger] s.partials[i]).ended implies exists|k: int|
            0 <= k < events.len() && #[trigger] events[k] == responses::end_of(s.partials[i]) by {
            if i == from {
                let k = s.events.len() as int;
                assert(next.events[k] == responses::end_of(s.partials[i]));
                assert(events[k] == responses::end_of(s.partials[i]));
            } else {
                assert(next.partials[i] == s.partials[i]);
            }
        }
    }
}

/// An item that ends a call whose end was not told yet is told as that end: with what the item says
/// of the id, the name and the arguments, and with what is known already of what it does not say. A
/// call that was not seen before is told with the next number. Nothing is told of a call that has
/// ended.
pub proof fn law_responses_items_end_calls(s: StreamView, index: u64, done: Json)
    requires
        responses::consistent(s),
        member(done, "type"@) == Json::Text("response.output_item.done"@),
        member(member(done, "item"@), "type"@) == Json::Text("function_call"@),
        member(done, "output_index"@) == Json::Unsigned(index),
    ensures
        ({
            let item = member(done, "item"@);
            let said = text(member(item, "arguments"@));
            &&& responses::step(s, done) is Continue
            &&& (forall|i: int|
                0 <= i < s.partials.len() ==> (#[trigger] s.partials[i]).output_index != index)
                ==> responses::step(s, done)->Continue_0.events == s.events.push(
                AdapterStreamEventView::ToolCallEnd {
                    index: s.partials.len(),
                    tool_call: ToolCallView {
                        id: match member(item, "call_id"@) {
                            Json::Text(id) => id,
                            _ => synthesized_id(s.partials.len()),
                        },
                        name: match member(item, "name"@) {
                            Json::Text(name) => name,
                            _ => ""@,
                        },
                        arguments: arguments_in_text(
                            match said {
                                Some(a) => a,
                                None => Seq::empty(),
                            },
                        ),
                    },
                },
            )
            &&& forall|i: int|
                0 <= i < s.partials.len() && (#[trigger] s.partials[i]).output_index == index
                    && s.partials[i].ended ==> responses::step(s, done)->Continue_0.events
                    == s.events
            &&& forall|i: int|
                0 <= i < s.partials.len() && (#[trigger] s.partials[i]).output_index == index
                    && !s.partials[i].ended ==> responses::step(s, done)->Continue_0.events
                    == s.events.push(
                    AdapterStreamEventView::ToolCallEnd {
                        index: s.partials[i].event_index,
                        tool_call: ToolCallView {
                            id: match (member(item, "call_id"@), s.partials[i].call_id) {
                                (Json::Text(id), _) => id,
                                (_, Some(id)) => id,
                                _ => synthesized_id(s.partials[i].event_index),
                            },
                            name: match (member(item, "name"@), s.partials[i].name) {
                                (Json::Text(name), _) => name,
                                (_, Some(name)) => name,
                                _ => ""@,
                            },
                            arguments: arguments_in_text(
                                match said {
                                    Some(a) => a,
                                    None => s.partials[i].arguments,
                                },
                            ),
                        },
                    },
                )
        }),
{
    lemma_kinds();
    responses::lemma_place(s.partials, index, 0);
    assert forall|i: int|
        0 <= i < s.partials.len() && (#[trigger] s.partials[i]).output_index == index implies responses::place(
        s.partials,
        index,
        0,
    ) == i by {
        assert forall|j: int| 0 <= j < i implies (#[trigger] s.partials[j]).output_index < index by {
            assert(s.partials[j].output_index < s.partials[i].output_index);
        }
        lemma_place_is(s.partials, index, i);
    }
}

/// Calls do not mix: whatever other calls are open, a piece of arguments is told of the call of its
/// own output item and goes behind the arguments of that one; the end of the arguments is told of
/// that call, unless its end was told already; and no other call changes.
pub proof fn law_responses_calls_do_not_mix(s: StreamView, index: u64, event: Json, k: int, j: int)
    requires
        responses::consistent(s),
        0 <= k < s.partials.len(),
        s.partials[k].output_index == index,
        member(event, "output_index"@) == Json::Unsigned(index),
        0 <= j < s.partials.len(),
        j != k,
    ensures
        ({
            let call = s.partials[k];
            let fragment = text(member(event, "delta"@));
            &&& member(event, "type"@) == Json::Text("response.function_call_arguments.delta"@)
                && fragment is Some && fragment->0.len() > 0 ==> {
                &&& responses::step(s, event) matches StreamStep::Continue(next) && {
                    &&& next.events == s.events.push(
                        AdapterStreamEventView::ToolCallDelta {
                            index: call.event_index,
                            arguments_delta: fragment->0,
                        },
                    )
                    &&& next.partials.len() == s.partials.len()
                    &&& next.partials[k] == (PartialCallView {
                        arguments: call.arguments + fragment->0,
                        ..call
                    })
                    &&& next.partials[j] == s.partials[j]
                }
            }
            &&& member(event, "type"@) == Json::Text("response.function_call_arguments.done"@) ==> {
                &&& responses::step(s, event) matches StreamStep::Continue(next) && {
                    &&& call.ended ==> next.events == s.events
                    &&& !call.ended ==> next.events == s.events.push(
                        AdapterStreamEventView::ToolCallEnd {
                            index: call.event_index,
                            tool_call: ToolCallView {
                                id: match call.call_id {
                                    Some(id) => id,
                                    None => synthesized_id(call.event_index),
                                },
                                name: match (member(event, "name"@), call.name) {
                                    (Json::Text(name), _) => name,
                                    (_, Some(name)) => name,
                                    _ => ""@,
                                },
                                arguments: arguments_in_text(
                                    match member(event, "arguments"@) {
                                        Json::Text(a) => a,
                                        _ => call.arguments,
                                    },
                                ),
                            },
                        },
                    )
                    &&& next.partials.len() == s.partials.len()
                    &&& next.partials[k].ended
                    &&& next.partials[j] == s.partials[j]
                }
            }
        }),
{
    lemma_kinds();
    assert forall|i: int| 0 <= i < k implies (#[trigger] s.partials[i]).output_index < index by {
        assert(s.partials[i].output_index < s.partials[k].output_index);
    }
    lemma_place_is(s.partials, index, k);
}

/// An event that does not say which output item it is about is taken to be about the first one, and
/// an item that is added without saying so about the next one.
pub proof fn law_responses_events_without_a_number(s: StreamView, event: Map<Seq<char>, Json>)
    requires
        !event.contains_key("output_index"@),
        s.partials.len() <= u64::MAX,
    ensures
        ({
            let kind = member(Json::Object(event), "type"@);
            let first = event.insert("output_index"@, Json::Unsigned(0));
            let next = event.insert("output_index"@, Json::Unsigned(s.partials.len() as u64));
            &&& kind == Json::Text("response.function_call_arguments.delta"@) || kind == Json::Text(
                "response.function_call_arguments.done"@,
            ) || kind == Json::Text("response.output_item.done"@) ==> responses::step(
                s,
                Json::Object(event),
            ) == responses::step(s, Json::Object(first))
            &&& kind == Json::Text("response.output_item.added"@) ==> responses::step(
                s,
                Json::Object(event),
            ) == responses::step(s, Json::Object(next))
        }),
{
    lemma_kinds();
    reveal_strlit("response.output_item.done");
    reveal_strlit("response.output_item.added");
    reveal_strlit("response.failed");
    reveal_strlit("response.cancelled");
    reveal_strlit("error");
    assert("response.output_item.done"@.len() == 25 && "response.output_item.added"@.len() == 26
        && "response.failed"@.len() == 15 && "response.cancelled"@.len() == 18 && "error"@.len()
        == 5);
    reveal_strlit("output_index");
    reveal_strlit("type");
    reveal_strlit("item");
    reveal_strlit("delta");
    reveal_strlit("arguments");
    reveal_strlit("name");
    assert("output_index"@.len() == 12 && "type"@.len() == 4 && "item"@.len() == 4 && "delta"@.len()
        == 5 && "arguments"@.len() == 9 && "name"@.len() == 4);
    let e = Json::Object(event);
    let first = Json::Object(event.insert("output_index"@, Json::Unsigned(0)));
    let next = Json::Object(
        event.insert("output_index"@, Json::Unsigned(s.partials.len() as u64)),
    );
    assert(member(e, "type"@) == member(first, "type"@) && member(e, "type"@) == member(
        next,
        "type"@,
    ));
    assert(member(e, "item"@) == member(first, "item"@) && member(e, "item"@) == member(
        next,
        "item"@,
    ));
    assert(member(e, "delta"@) == member(first, "delta"@));
    assert(member(e, "arguments"@) == member(first, "arguments"@));
    assert(member(e, "name"@) == member(first, "name"@));
    assert(responses::output_index(e, 0) == responses::output_index(first, 0));
    assert(responses::output_index(e, s.partials.len() as u64) == responses::output_index(
        next,
        s.partials.len() as u64,
    ));
    assert(responses::on_added(s, e) == responses::on_added(s, next));
    assert(responses::on_arguments_delta(s, e) == responses::on_arguments_delta(s, first));
    assert(responses::on_arguments_done(s, e) == responses::on_arguments_done(s, first));
    assert(responses::on_call_done(s, e) == responses::on_call_done(s, first));
}

/// A response that failed or was cancelled, and an error in the stream, end the stream as an error
/// of the provider that says what the provider said of it. A value without a kind changes nothing,
/// and neither does an item that is no call.
pub proof fn law_responses_stream_failures(s: StreamView, event: Json)
    ensures
        ({
            let kind = member(event, "type"@);
            let said = member(member(event, "response"@), "error"@);
            &&& kind == Json::Text("response.failed"@) || kind == Json::Text("response.cancelled"@)
                ==> {
                &&& responses::step(s, event) matches StreamStep::Stop(Err(e)) && e
                    is ProviderError && (member(said, "message"@) matches Json::Text(t)
                    ==> mentions(e->ProviderError_message, t))
            }
            &&& kind == Json::Text("error"@) ==> {
                &&& responses::step(s, event) matches StreamStep::Stop(Err(e)) && e
                    is ProviderError && e->ProviderError_message == match member(
                    event,
                    "message"@,
                ) {
                    Json::Text(t) => t,
                    _ => compact_text(event),
                }
            }
            &&& !(kind is Text) ==> responses::step(s, event) == StreamStep::Continue(s)
            &&& (kind == Json::Text("response.output_item.added"@) || kind == Json::Text(
                "response.output_item.done"@,
            )) && member(member(event, "item"@), "type"@) != Json::Text("function_call"@)
                ==> responses::step(s, event) == StreamStep::Continue(s)
        }),
{
    lemma_kinds();
    reveal_strlit("response.failed");
    reveal_strlit("response.cancelled");
    reveal_strlit("error");
    reveal_strlit("response.output_text.delta");
    reveal_strlit("response.reasoning_summary_text.delta");
    reveal_strlit("response.output_item.added");
    reveal_strlit("response.function_call_arguments.delta");
    reveal_strlit("response.function_call_arguments.done");
    reveal_strlit("response.output_item.done");
    reveal_strlit("response.completed");
    assert("response.failed"@.len() == 15 && "response.cancelled"@.len() == 18 && "error"@.len()
        == 5 && "response.output_text.delta"@.len() == 26
        && "response.reasoning_summary_text.delta"@.len() == 37
        && "response.output_item.added"@.len() == 26
        && "response.function_call_arguments.delta"@.len() == 38
        && "response.function_call_arguments.done"@.len() == 37
        && "response.output_item.done"@.len() == 25 && "response.completed"@.len() == 18);
    assert("response.completed"@[10] == 'o' && "response.cancelled"@[10] == 'a');
    let data = member(event, "response"@);
    let told = failure_text(data);
    if let Json::Text(t) = member(member(data, "error"@), "message"@) {
        let at = told.len() - t.len();
        assert(told.subrange(at, told.len() as int) =~= t);
        assert(occurs_at(told, t, at));
    }
}

/// Once a response was completed, nothing that follows it is read.
pub proof fn law_responses_end_where_they_are_completed(
    values: Seq<Json>,
    more: Seq<Json>,
    at: int,
)
    requires
        0 <= at < values.len(),
        member(values[at], "type"@) == Json::Text("response.completed"@),
    ensures
        responses::events_in(values) == responses::events_in(values + more),
{
    lemma_ends_at(responses::unread(), values, more, 0, at);
}

proof fn lemma_ends_at(s: StreamView, values: Seq<Json>, more: Seq<Json>, from: int, at: int)
    requires
        0 <= from <= at < values.len(),
        member(values[at], "type"@) == Json::Text("response.completed"@),
    ensures
        responses::read_on(s, values, from) == responses::read_on(s, values + more, from),
    decreases at - from,
{
    lemma_kinds();
    assert((values + more)[from] == values[from]);
    if from < at {
        if let StreamStep::Continue(next) = responses::step(s, values[from]) {
            lemma_ends_at(next, values, more, from + 1, at);
        }
    }
}

} // verus!
