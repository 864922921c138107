//! Laws on streamed answers: what is told of what a provider sent.

use crate::indexed::{
    holds_number, item_of, law_put, law_taken, lemma_put_entries, lemma_taken_entries, lists,
    ordered, place,
};
use crate::json::{member, members, text, unsigned, unsigned_32, Json};
use crate::providers::adapter::{usage_event, AdapterStreamEventView};
use crate::providers::anthropic::stream as anthropic;
use crate::schema::tools::{arguments_in_text, synthesized_id, ToolCallView};
use crate::text::if_not_empty;
use vstd::prelude::*;

verus! {

// ---- What events tell ----

/// The texts that events tell, in order.
pub open spec fn texts_told(events: Seq<AdapterStreamEventView>) -> Seq<Seq<char>>
    decreases events.len(),
{
    if events.len() == 0 {
        Seq::empty()
    } else {
        let before = texts_told(events.drop_last());
        match events.last() {
            AdapterStreamEventView::TextDelta { text } => before.push(text),
            _ => before,
        }
    }
}

/// The pieces of reasoning summaries that events tell, in order.
pub open spec fn summaries_told(events: Seq<AdapterStreamEventView>) -> Seq<Seq<char>>
    decreases events.len(),
{
    if events.len() == 0 {
        Seq::empty()
    } else {
        let before = summaries_told(events.drop_last());
        match events.last() {
            AdapterStreamEventView::ReasoningSummaryDelta { text } => before.push(text),
            _ => before,
        }
    }
}

/// The calls that events tell the beginning of, in order: number, id and name.
pub open spec fn starts_told(events: Seq<AdapterStreamEventView>) -> Seq<
    (nat, Option<Seq<char>>, Option<Seq<char>>),
>
    decreases events.len(),
{
    if events.len() == 0 {
        Seq::empty()
    } else {
        let before = starts_told(events.drop_last());
        match events.last() {
            AdapterStreamEventView::ToolCallStart { index, id, name } => before.push(
                (index, id, name),
            ),
            _ => before,
        }
    }
}

/// The arguments that events tell of one call, piece behind piece.
pub open spec fn arguments_told(events: Seq<AdapterStreamEventView>, number: nat) -> Seq<char>
    decreases events.len(),
{
    if events.len() == 0 {
        Seq::empty()
    } else {
        let before = arguments_told(events.drop_last(), number);
        match events.last() {
            AdapterStreamEventView::ToolCallDelta { index, arguments_delta } if index == number =>
                before + arguments_delta,
            _ => before,
        }
    }
}

/// How many events tell counts of tokens.
pub open spec fn usages_told(events: Seq<AdapterStreamEventView>) -> nat
    decreases events.len(),
{
    if events.len() == 0 {
        0
    } else {
        usages_told(events.drop_last()) + if events.last() is Usage {
            1nat
        } else {
            0
        }
    }
}

proof fn lemma_told_push(events: Seq<AdapterStreamEventView>, event: AdapterStreamEventView)
    ensures
        ({
            let after = events.push(event);
            &&& texts_told(after) == if event is TextDelta {
                texts_told(events).push(event->TextDelta_text)
            } else {
                texts_told(events)
            }
            &&& summaries_told(after) == if event is ReasoningSummaryDelta {
                summaries_told(events).push(event->ReasoningSummaryDelta_text)
            } else {
                summaries_told(events)
            }
            &&& starts_told(after) == if event is ToolCallStart {
                starts_told(events).push(
                    (event->ToolCallStart_index, event->ToolCallStart_id, event->ToolCallStart_name),
                )
            } else {
                starts_told(events)
            }
            &&& usages_told(after) == usages_told(events) + if event is Usage {
                1nat
            } else {
                0
            }
            &&& forall|number: nat| #[trigger]
                arguments_told(after, number) == arguments_told(events, number) + if event
                    is ToolCallDelta && event->ToolCallDelta_index == number {
                    event->arguments_delta
                } else {
                    Seq::empty()
                }
        }),
{
    let after = events.push(event);
    assert(after.drop_last() =~= events);
    assert forall|number: nat| #[trigger]
        arguments_told(after, number) == arguments_told(events, number) + if event
            is ToolCallDelta && event->ToolCallDelta_index == number {
            event->arguments_delta
        } else {
            Seq::empty()
        } by {
        assert(arguments_told(events, number) + Seq::<char>::empty() =~= arguments_told(
            events,
            number,
        ));
    }
}

// ---- Anthropic ----

/// A frame is of a kind: by its name, or, without a name, by the type in its data.
pub open spec fn is_frame_of(frame: (Seq<char>, Json), kind: Seq<char>) -> bool {
    if frame.0.len() > 0 {
        frame.0 == kind
    } else {
        member(frame.1, "type"@) == Json::Text(kind)
    }
}

/// The last frame of a kind.
pub open spec fn last_frame(frames: Seq<(Seq<char>, Json)>, kind: Seq<char>) -> Option<Json>
    decreases frames.len(),
{
    if frames.len() == 0 {
        None
    } else if is_frame_of(frames.last(), kind) {
        Some(frames.last().1)
    } else {
        last_frame(frames.drop_last(), kind)
    }
}

/// The text that one frame sends: that of a delta of text, whatever block it belongs to.
pub open spec fn text_sent(frame: (Seq<char>, Json)) -> Seq<char> {
    let delta = member(frame.1, "delta"@);
    match member(delta, "text"@) {
        Json::Text(t) if is_frame_of(frame, "content_block_delta"@) && member(delta, "type"@)
            == Json::Text("text_delta"@) => t,
        _ => Seq::empty(),
    }
}

/// The texts that frames send, in order, but for empty ones.
pub open spec fn texts_sent(frames: Seq<(Seq<char>, Json)>) -> Seq<Seq<char>>
    decreases frames.len(),
{
    if frames.len() == 0 {
        Seq::empty()
    } else {
        texts_sent(frames.drop_last()) + if_not_empty(text_sent(frames.last()))
    }
}

/// The thinking that one frame sends: that of a delta of thinking in a numbered block.
pub open spec fn thinking_sent(frame: (Seq<char>, Json)) -> Seq<char> {
    let delta = member(frame.1, "delta"@);
    match member(delta, "thinking"@) {
        Json::Text(t) if is_frame_of(frame, "content_block_delta"@) && member(delta, "type"@)
            == Json::Text("thinking_delta"@) && member(frame.1, "index"@) is Unsigned => t,
        _ => Seq::empty(),
    }
}

/// The pieces of thinking that frames send, in order, but for empty ones.
pub open spec fn thinkings_sent(frames: Seq<(Seq<char>, Json)>) -> Seq<Seq<char>>
    decreases frames.len(),
{
    if frames.len() == 0 {
        Seq::empty()
    } else {
        thinkings_sent(frames.drop_last()) + if_not_empty(thinking_sent(frames.last()))
    }
}

/// A frame begins the use of a tool in a numbered block.
pub open spec fn begins_call(frame: (Seq<char>, Json)) -> bool {
    &&& is_frame_of(frame, "content_block_start"@)
    &&& member(frame.1, "index"@) is Unsigned
    &&& member(member(frame.1, "content_block"@), "type"@) == Json::Text("tool_use"@)
}

/// The uses of tools that frames begin, in order: they are numbered from nought on, each with the
/// id and the name that its frame gives.
pub open spec fn calls_begun(frames: Seq<(Seq<char>, Json)>) -> Seq<
    (nat, Option<Seq<char>>, Option<Seq<char>>),
>
    decreases frames.len(),
{
    if frames.len() == 0 {
        Seq::empty()
    } else {
        let before = calls_begun(frames.drop_last());
        let block = member(frames.last().1, "content_block"@);
        if begins_call(frames.last()) {
            before.push((before.len(), text(member(block, "id"@)), text(member(block, "name"@))))
        } else {
            before
        }
    }
}

proof fn lemma_kinds()
    ensures
        "message_start"@ != "content_block_start"@,
        "message_start"@ != "content_block_delta"@,
        "message_start"@ != "content_block_stop"@,
        "message_start"@ != "message_delta"@,
        "content_block_start"@ != "content_block_delta"@,
        "content_block_start"@ != "content_block_stop"@,
        "content_block_start"@ != "message_delta"@,
        "content_block_delta"@ != "content_block_stop"@,
        "content_block_delta"@ != "message_delta"@,
        "content_block_stop"@ != "message_delta"@,
        "text_delta"@ != "thinking_delta"@,
        "text_delta"@ != "signature_delta"@,
        "text_delta"@ != "input_json_delta"@,
        "thinking_delta"@ != "signature_delta"@,
        "thinking_delta"@ != "input_json_delta"@,
        "signature_delta"@ != "input_json_delta"@,
        "tool_use"@ != "thinking"@,
        "tool_use"@ != "redacted_thinking"@,
        "message_start"@.len() > 0,
        "content_block_start"@.len() > 0,
        "content_block_delta"@.len() > 0,
        "content_block_stop"@.len() > 0,
        "message_delta"@.len() > 0,
        ""@.len() == 0,
{
    reveal_strlit("");
    reveal_strlit("message_start");
    reveal_strlit("message_delta");
    reveal_strlit("content_block_start");
    reveal_strlit("content_block_delta");
    reveal_strlit("content_block_stop");
    assert("message_start"@.len() == 13 && "message_delta"@.len() == 13
        && "content_block_start"@.len() == 19 && "content_block_delta"@.len() == 19
        && "content_block_stop"@.len() == 18);
    assert("message_start"@[8] == 's' && "message_delta"@[8] == 'd');
    assert("content_block_start"@[14] == 's' && "content_block_delta"@[14] == 'd');
    reveal_strlit("text_delta");
    reveal_strlit("thinking_delta");
    reveal_strlit("signature_delta");
    reveal_strlit("input_json_delta");
    assert("text_delta"@.len() == 10 && "thinking_delta"@.len() == 14 && "signature_delta"@.len()
        == 15 && "input_json_delta"@.len() == 16);
    reveal_strlit("tool_use");
    reveal_strlit("thinking");
    reveal_strlit("redacted_thinking");
    assert("tool_use"@.len() == 8 && "thinking"@.len() == 8 && "redacted_thinking"@.len() == 17);
    assert("tool_use"@[1] == 'o' && "thinking"@[1] == 'h');
}

proof fn lemma_anthropic_told(frames: Seq<(Seq<char>, Json)>)
    ensures
        ({
            let s = anthropic::read_through(frames);
            let start = last_frame(frames, "message_start"@);
            let delta = last_frame(frames, "message_delta"@);
            &&& texts_told(s.events) == texts_sent(frames)
            &&& summaries_told(s.events) == thinkings_sent(frames)
            &&& starts_told(s.events) == calls_begun(frames)
            &&& s.tool_count == calls_begun(frames).len()
            &&& usages_told(s.events) == 0
            &&& start is None ==> s.input_tokens is None && s.cached_input_tokens is None
            &&& start matches Some(value) ==> {
                let usage = member(member(value, "message"@), "usage"@);
                &&& s.input_tokens == unsigned_32(member(usage, "input_tokens"@))
                &&& s.cached_input_tokens == unsigned_32(member(usage, "cache_read_input_tokens"@))
            }
            &&& delta is None ==> s.output_tokens is None && s.reasoning_tokens is None
                && s.stop_reason is None
            &&& delta matches Some(value) ==> {
                let usage = member(value, "usage"@);
                &&& s.output_tokens == unsigned_32(member(usage, "output_tokens"@))
                &&& s.reasoning_tokens == unsigned_32(
                    member(member(usage, "output_tokens_details"@), "thinking_tokens"@),
                )
                &&& s.stop_reason == text(member(member(value, "delta"@), "stop_reason"@))
            }
        }),
    decreases frames.len(),
{
    lemma_kinds();
    if frames.len() > 0 {
        let rest = frames.drop_last();
        lemma_anthropic_told(rest);
        let before = anthropic::read_through(rest);
        let after = anthropic::read_through(frames);
        if after.events.len() > before.events.len() {
            lemma_told_push(before.events, after.events.last());
            assert(after.events =~= before.events.push(after.events.last()));
        } else {
            assert(after.events == before.events);
        }
        let t = text_sent(frames.last());
        let h = thinking_sent(frames.last());
        assert(texts_sent(rest) + Seq::<Seq<char>>::empty() =~= texts_sent(rest));
        assert(texts_sent(rest) + seq![t] =~= texts_sent(rest).push(t));
        assert(thinkings_sent(rest) + Seq::<Seq<char>>::empty() =~= thinkings_sent(rest));
        assert(thinkings_sent(rest) + seq![h] =~= thinkings_sent(rest).push(h));
    }
}

/// For every sequence of frames, the texts told are, in order, exactly the texts that are not empty
/// of the deltas of text, whatever block they belong to; the pieces of reasoning told are those of
/// the deltas of thinking; and the calls begun are those of the blocks that use a tool, numbered in
/// order, with their ids and names.
pub proof fn law_anthropic_tells_what_was_sent(frames: Seq<(Seq<char>, Json)>)
    ensures
        texts_told(anthropic::events_in(frames)) == texts_sent(frames),
        summaries_told(anthropic::events_in(frames)) == thinkings_sent(frames),
        starts_told(anthropic::events_in(frames)) == calls_begun(frames),
{
    lemma_anthropic_told(frames);
    lemma_closing(anthropic::read_through(frames));
}

proof fn lemma_closing(s: anthropic::StreamView)
    ensures
        ({
            let events = anthropic::closed_with(s);
            let usage = usage_event(
                s.input_tokens,
                s.output_tokens,
                s.cached_input_tokens,
                s.reasoning_tokens,
            );
            &&& texts_told(events) == texts_told(s.events)
            &&& summaries_told(events) == summaries_told(s.events)
            &&& starts_told(events) == starts_told(s.events)
            &&& usages_told(events) == usages_told(s.events) + usage.len()
        }),
{
    let usage = usage_event(
        s.input_tokens,
        s.output_tokens,
        s.cached_input_tokens,
        s.reasoning_tokens,
    );
    let told = s.events + usage;
    if usage.len() > 0 {
        assert(told =~= s.events.push(usage[0]));
        lemma_told_push(s.events, usage[0]);
    } else {
        assert(told =~= s.events);
    }
    lemma_told_push(told, anthropic::closed_with(s).last());
    assert(anthropic::closed_with(s) =~= told.push(anthropic::closed_with(s).last()));
}

/// A stream ends by telling its counts, once, where there are any, those of the input as the last
/// frame that opens the message gives them, those of the output as the last frame that closes it
/// does; and by telling why it ended, for the sake of calls where any were begun, or else as that
/// last frame says.
pub proof fn law_anthropic_counts_are_told(frames: Seq<(Seq<char>, Json)>)
    ensures
        ({
            let events = anthropic::events_in(frames);
            let opening = match last_frame(frames, "message_start"@) {
                Some(value) => member(member(value, "message"@), "usage"@),
                None => Json::Null,
            };
            let closing = match last_frame(frames, "message_delta"@) {
                Some(value) => value,
                None => Json::Null,
            };
            let usage = member(closing, "usage"@);
            let input = unsigned_32(member(opening, "input_tokens"@));
            let cached = unsigned_32(member(opening, "cache_read_input_tokens"@));
            let output = unsigned_32(member(usage, "output_tokens"@));
            let thought = unsigned_32(
                member(member(usage, "output_tokens_details"@), "thinking_tokens"@),
            );
            let counted = input is Some || cached is Some || output is Some || thought is Some;
            let reason = member(member(closing, "delta"@), "stop_reason"@);
            &&& usages_told(events) == if counted {
                1nat
            } else {
                0
            }
            &&& counted ==> events.len() >= 2 && events[events.len() - 2] == (
            AdapterStreamEventView::Usage {
                input_tokens: input,
                output_tokens: output,
                cached_input_tokens: cached,
                reasoning_tokens: thought,
            })
            &&& events.last() is Finish
            &&& calls_begun(frames).len() > 0 ==> events.last()->finish_reason == Some(
                "tool_calls"@,
            )
            &&& calls_begun(frames).len() == 0 ==> {
                &&& events.last()->finish_reason is Some <==> reason is Text
                &&& reason == Json::Text("end_turn"@) || reason == Json::Text("stop_sequence"@)
                    ==> events.last()->finish_reason == Some("stop"@)
                &&& reason == Json::Text("max_tokens"@) ==> events.last()->finish_reason == Some(
                    "length"@,
                )
            }
        }),
{
    lemma_anthropic_told(frames);
    lemma_closing(anthropic::read_through(frames));
    reveal_strlit("end_turn");
    reveal_strlit("stop_sequence");
    reveal_strlit("max_tokens");
    assert("end_turn"@.len() == 8 && "stop_sequence"@.len() == 13 && "max_tokens"@.len() == 10);
}

/// The end of a call is told as the call was: its number is that of a call whose beginning was
/// told; its id and name are those told there, or, where none was told, an id by its number and no
/// name; and its arguments are what the pieces told in between say.
pub open spec fn is_as_told(
    events: Seq<AdapterStreamEventView>,
    number: nat,
    call: ToolCallView,
) -> bool {
    let (index, id, name) = starts_told(events)[number as int];
    &&& number < starts_told(events).len()
    &&& index == number
    &&& id matches Some(i) ==> call.id == i
    &&& id is None ==> call.id == synthesized_id(number)
    &&& name matches Some(n) ==> call.name == n
    &&& name is None ==> call.name.len() == 0
    &&& call.arguments == arguments_in_text(arguments_told(events, number))
}

spec fn calls_are_as_told(s: anthropic::StreamView) -> bool {
    &&& starts_told(s.events).len() == s.tool_count
    &&& forall|n: nat| n >= s.tool_count ==> (#[trigger] arguments_told(s.events, n)).len() == 0
    &&& forall|i: int|
        0 <= i < s.tools.len() ==> {
            let call = (#[trigger] s.tools[i]).1;
            &&& call.arguments == arguments_told(s.events, call.event_index)
            &&& call.event_index < s.tool_count
            &&& starts_told(s.events)[call.event_index as int] == (
                call.event_index,
                call.id,
                call.name,
            )
        }
    &&& forall|k: int|
        0 <= k < s.events.len() && #[trigger] s.events[k] is ToolCallEnd ==> is_as_told(
            s.events,
            s.events[k]->ToolCallEnd_index,
            s.events[k]->ToolCallEnd_tool_call,
        )
}

proof fn lemma_anthropic_begins(s: anthropic::StreamView, index: u64, block: Json)
    requires
        anthropic::consistent(s),
        calls_are_as_told(s),
    ensures
        calls_are_as_told(anthropic::on_block_start(s, index, block)),
{
    let after = anthropic::on_block_start(s, index, block);
    if member(block, "type"@) == Json::Text("tool_use"@) {
        let event = after.events.last();
        lemma_told_push(s.events, event);
        let call = anthropic::StreamingToolCallView {
            event_index: s.tool_count,
            id: text(member(block, "id"@)),
            name: text(member(block, "name"@)),
            arguments: Seq::empty(),
        };
        lemma_put_entries(s.tools, index, call);
        assert(forall|n: nat|
            #[trigger] arguments_told(after.events, n) =~= arguments_told(s.events, n));
        assert(arguments_told(after.events, s.tool_count) =~= Seq::empty());
        assert forall|k: int|
            0 <= k < after.events.len() && #[trigger] after.events[k] is ToolCallEnd implies is_as_told(
            after.events,
            after.events[k]->ToolCallEnd_index,
            after.events[k]->ToolCallEnd_tool_call,
        ) by {
            assert(after.events[k] == s.events[k]);
        }
    }
}

proof fn lemma_anthropic_lengthens(s: anthropic::StreamView, index: u64, fragment: Seq<char>)
    requires
        anthropic::consistent(s),
        calls_are_as_told(s),
    ensures
        calls_are_as_told(anthropic::on_arguments(s, index, fragment)),
{
    let after = anthropic::on_arguments(s, index, fragment);
    if holds_number(s.tools, index) && fragment.len() > 0 {
        let event = after.events.last();
        lemma_told_push(s.events, event);
        let call = item_of(s.tools, index);
        let at = place(s.tools, index, 0);
        crate::indexed::lemma_place(s.tools, index, 0);
        assert(s.tools[at].1 == call);
        let longer = anthropic::StreamingToolCallView {
            arguments: call.arguments + fragment,
            ..call
        };
        lemma_put_entries(s.tools, index, longer);
        assert(forall|n: nat|
            n != call.event_index ==> #[trigger] arguments_told(after.events, n)
                =~= arguments_told(s.events, n));
        assert forall|i: int| 0 <= i < after.tools.len() implies {
            let c = (#[trigger] after.tools[i]).1;
            &&& c.arguments == arguments_told(after.events, c.event_index)
            &&& c.event_index < after.tool_count
            &&& starts_told(after.events)[c.event_index as int] == (c.event_index, c.id, c.name)
        } by {
            if i != at {
                assert(after.tools[i] == s.tools[i]);
                assert(s.tools[i].1.event_index != s.tools[at].1.event_index);
            }
        }
        assert forall|k: int|
            0 <= k < after.events.len() && #[trigger] after.events[k] is ToolCallEnd implies is_as_told(
            after.events,
            after.events[k]->ToolCallEnd_index,
            after.events[k]->ToolCallEnd_tool_call,
        ) by {
            assert(after.events[k] == s.events[k]);
            assert(s.events[k]->ToolCallEnd_index != s.tools[at].1.event_index);
        }
    }
}

proof fn lemma_anthropic_ends(s: anthropic::StreamView, index: u64)
    requires
        anthropic::consistent(s),
        calls_are_as_told(s),
    ensures
        calls_are_as_told(anthropic::on_block_stop(s, index)),
{
    reveal_strlit("");
    let after = anthropic::on_block_stop(s, index);
    if holds_number(s.tools, index) {
        let event = after.events.last();
        lemma_told_push(s.events, event);
        let call = item_of(s.tools, index);
        let at = place(s.tools, index, 0);
        lemma_taken_entries(s.tools, index);
        assert(s.tools[at].1 == call);
        assert(forall|n: nat|
            #[trigger] arguments_told(after.events, n) =~= arguments_told(s.events, n));
        assert forall|k: int|
            0 <= k < after.events.len() && #[trigger] after.events[k] is ToolCallEnd implies is_as_told(
            after.events,
            after.events[k]->ToolCallEnd_index,
            after.events[k]->ToolCallEnd_tool_call,
        ) by {
            if k < s.events.len() {
                assert(after.events[k] == s.events[k]);
            }
        }
    }
}

proof fn lemma_telling_else(s: anthropic::StreamView, event: AdapterStreamEventView)
    requires
        calls_are_as_told(s),
        event is TextDelta || event is ReasoningSummaryDelta || event is Usage || event is Finish,
    ensures
        calls_are_as_told(anthropic::StreamView { events: s.events.push(event), ..s }),
{
    lemma_told_push(s.events, event);
    let events = s.events.push(event);
    assert(forall|n: nat| #[trigger] arguments_told(events, n) =~= arguments_told(s.events, n));
    assert forall|k: int| 0 <= k < events.len() && #[trigger] events[k] is ToolCallEnd implies is_as_told(
        events,
        events[k]->ToolCallEnd_index,
        events[k]->ToolCallEnd_tool_call,
    ) by {
        assert(events[k] == s.events[k]);
    }
}

proof fn lemma_anthropic_calls(frames: Seq<(Seq<char>, Json)>)
    ensures
        anthropic::consistent(anthropic::read_through(frames)),
        calls_are_as_told(anthropic::read_through(frames)),
    decreases frames.len(),
{
    if frames.len() > 0 {
        let s = anthropic::read_through(frames.drop_last());
        let name = frames.last().0;
        let value = frames.last().1;
        lemma_anthropic_calls(frames.drop_last());
        anthropic::law_step_keeps_consistency(s, name, value);
        let delta = member(value, "delta"@);
        if let Some(index) = unsigned(member(value, "index"@)) {
            lemma_anthropic_begins(s, index, member(value, "content_block"@));
            lemma_anthropic_ends(s, index);
            if let Some(fragment) = text(member(delta, "partial_json"@)) {
                lemma_anthropic_lengthens(s, index, fragment);
            }
            if let Some(t) = text(member(delta, "thinking"@)) {
                lemma_telling_else(s, AdapterStreamEventView::ReasoningSummaryDelta { text: t });
            }
        }
        if let Some(t) = text(member(delta, "text"@)) {
            lemma_telling_else(s, AdapterStreamEventView::TextDelta { text: t });
        }
    }
}

/// For every sequence of frames, each call whose end is told is the call whose beginning was told
/// under the same number, with the id and name told there and with the arguments that the pieces
/// told under that number make up.
pub proof fn law_anthropic_calls_are_as_told(frames: Seq<(Seq<char>, Json)>)
    ensures
        ({
            let events = anthropic::events_in(frames);
            forall|k: int|
                0 <= k < events.len() && #[trigger] events[k] is ToolCallEnd ==> is_as_told(
                    events,
                    events[k]->ToolCallEnd_index,
                    events[k]->ToolCallEnd_tool_call,
                )
        }),
{
    lemma_anthropic_calls(frames);
    let s = anthropic::read_through(frames);
    let usage = usage_event(
        s.input_tokens,
        s.output_tokens,
        s.cached_input_tokens,
        s.reasoning_tokens,
    );
    let events = anthropic::events_in(frames);
    let t = anthropic::StreamView { events: s.events + usage, ..s };
    if usage.len() > 0 {
        lemma_telling_else(s, usage[0]);
        assert(s.events + usage =~= s.events.push(usage[0]));
    } else {
        assert(s.events + usage =~= s.events);
    }
    lemma_telling_else(t, events.last());
    assert(events =~= t.events.push(events.last()));
}

/// A frame that begins, lengthens or ends a use of a tool.
pub open spec fn is_frame_in_block(
    frame: (Seq<char>, Json),
    kind: Seq<char>,
    index: u64,
) -> bool {
    is_frame_of(frame, kind) && member(frame.1, "index"@) == Json::Unsigned(index)
}

/// Whatever block it stands in and whatever came before: a use of a tool that a frame begins is
/// told with the next number; a piece of its arguments that follows in its block is told under that
/// number; and its end, in turn, is told with its own id, name and arguments. Once it has ended,
/// nothing more in its block is told of a call.
pub proof fn law_anthropic_calls_are_told_in_their_block(
    frames: Seq<(Seq<char>, Json)>,
    start: (Seq<char>, Json),
    piece: (Seq<char>, Json),
    stop: (Seq<char>, Json),
    index: u64,
)
    requires
        begins_call(start),
        is_frame_in_block(start, "content_block_start"@, index),
        is_frame_in_block(piece, "content_block_delta"@, index),
        member(member(piece.1, "delta"@), "type"@) == Json::Text("input_json_delta"@),
        text(member(member(piece.1, "delta"@), "partial_json"@)) is Some,
        is_frame_in_block(stop, "content_block_stop"@, index),
    ensures
        ({
            let s = anthropic::read_through(frames);
            let begun = anthropic::read_through(frames.push(start));
            let lengthened = anthropic::read_through(frames.push(start).push(piece));
            let ended = anthropic::read_through(frames.push(start).push(piece).push(stop));
            let block = member(start.1, "content_block"@);
            let fragment = text(member(member(piece.1, "delta"@), "partial_json"@))->0;
            let id = text(member(block, "id"@));
            let name = text(member(block, "name"@));
            &&& begun.events == s.events.push(
                AdapterStreamEventView::ToolCallStart { index: s.tool_count, id, name },
            )
            &&& lengthened.events == begun.events + if fragment.len() == 0 {
                Seq::empty()
            } else {
                seq![
                    AdapterStreamEventView::ToolCallDelta {
                        index: s.tool_count,
                        arguments_delta: fragment,
                    },
                ]
            }
            &&& ended.events == lengthened.events.push(
                AdapterStreamEventView::ToolCallEnd {
                    index: s.tool_count,
                    tool_call: ToolCallView {
                        id: match id {
                            Some(i) => i,
                            None => synthesized_id(s.tool_count),
                        },
                        name: match name {
                            Some(n) => n,
                            None => ""@,
                        },
                        arguments: arguments_in_text(fragment),
                    },
                },
            )
            &&& anthropic::read_through(
                frames.push(start).push(piece).push(stop).push(stop),
            ).events == ended.events
            &&& anthropic::read_through(
                frames.push(start).push(piece).push(stop).push(piece),
            ).events == ended.events
        }),
{
    lemma_kinds();
    lemma_anthropic_calls(frames);
    let s = anthropic::read_through(frames);
    let f1 = frames.push(start);
    let f2 = f1.push(piece);
    let f3 = f2.push(stop);
    assert(f1.drop_last() =~= frames);
    assert(f2.drop_last() =~= f1);
    assert(f3.drop_last() =~= f2);
    assert(f3.push(stop).drop_last() =~= f3);
    assert(f3.push(piece).drop_last() =~= f3);
    lemma_anthropic_calls(f1);
    lemma_anthropic_calls(f2);
    let begun = anthropic::read_through(f1);
    let lengthened = anthropic::read_through(f2);
    let fragment = text(member(member(piece.1, "delta"@), "partial_json"@))->0;
    let block = member(start.1, "content_block"@);
    let call = anthropic::StreamingToolCallView {
        event_index: s.tool_count,
        id: text(member(block, "id"@)),
        name: text(member(block, "name"@)),
        arguments: Seq::empty(),
    };
    law_put(s.tools, index, call);
    let longer = anthropic::StreamingToolCallView { arguments: call.arguments + fragment, ..call };
    law_put(begun.tools, index, longer);
    assert(call.arguments + fragment =~= fragment);
    if fragment.len() == 0 {
        assert(fragment =~= Seq::empty());
        assert(lengthened.events =~= begun.events + Seq::empty());
    }
    law_taken(lengthened.tools, index);
}

/// A block of thinking keeps what its frame began it with, and each piece of thinking and of the
/// signature that follows in the block goes behind what is there already; nothing else in it
/// changes, and neither does any other block.
pub proof fn law_anthropic_thinking_is_gathered(
    frames: Seq<(Seq<char>, Json)>,
    piece: (Seq<char>, Json),
    index: u64,
    key: Seq<char>,
)
    requires
        is_frame_in_block(piece, "content_block_delta"@, index),
        holds_number(anthropic::read_through(frames).thinking, index),
    ensures
        ({
            let s = anthropic::read_through(frames);
            let after = anthropic::read_through(frames.push(piece));
            let delta = member(piece.1, "delta"@);
            let before = item_of(s.thinking, index);
            let grown = item_of(after.thinking, index);
            let is_thinking = member(delta, "type"@) == Json::Text("thinking_delta"@);
            let is_signature = member(delta, "type"@) == Json::Text("signature_delta"@);
            let so_far = |k: Seq<char>|
                match member(Json::Object(before), k) {
                    Json::Text(t) => t,
                    _ => Seq::empty(),
                };
            &&& holds_number(after.thinking, index)
            &&& is_thinking && (member(delta, "thinking"@) matches Json::Text(t) && t.len() > 0)
                ==> grown == before.insert(
                "thinking"@,
                Json::Text(so_far("thinking"@) + text(member(delta, "thinking"@))->0),
            )
            &&& is_signature && member(delta, "signature"@) is Text ==> grown == before.insert(
                "signature"@,
                Json::Text(so_far("signature"@) + text(member(delta, "signature"@))->0),
            )
            &&& !is_thinking && !is_signature ==> after.thinking == s.thinking
            &&& forall|other: u64, v: Map<Seq<char>, Json>|
                other != index ==> (#[trigger] lists(after.thinking, other, v) == lists(
                    s.thinking,
                    other,
                    v,
                ))
        }),
{
    lemma_kinds();
    lemma_anthropic_calls(frames);
    let s = anthropic::read_through(frames);
    assert(frames.push(piece).drop_last() =~= frames);
    let delta = member(piece.1, "delta"@);
    if let Some(t) = text(member(delta, "thinking"@)) {
        law_put(
            s.thinking,
            index,
            anthropic::lengthened(item_of(s.thinking, index), "thinking"@, t),
        );
    }
    if let Some(t) = text(member(delta, "signature"@)) {
        law_put(
            s.thinking,
            index,
            anthropic::lengthened(item_of(s.thinking, index), "signature"@, t),
        );
    }
}

proof fn lemma_listed<V>(entries: Seq<(u64, V)>, number: u64, item: V)
    requires
        ordered(entries),
        lists(entries, number, item),
    ensures
        holds_number(entries, number),
        item_of(entries, number) == item,
{
    crate::indexed::lemma_place(entries, number, 0);
    let k = place(entries, number, 0);
    let i = choose|i: int| 0 <= i < entries.len() && #[trigger] entries[i] == (number, item);
    if k < i {
        assert(entries[k].0 < entries[i].0);
    } else if i < k {
        assert(entries[i].0 < number);
    }
}

/// Blocks do not mix: whatever calls are open in other blocks, a piece of arguments is told of the
/// call that is open in its own block and goes behind the arguments of that one, the end of a block
/// is told of the call that is open in it, and a frame in one block leaves the calls in all others
/// as they are.
pub proof fn law_anthropic_blocks_do_not_mix(
    frames: Seq<(Seq<char>, Json)>,
    frame: (Seq<char>, Json),
    index: u64,
    call: anthropic::StreamingToolCallView,
    other: u64,
    theirs: anthropic::StreamingToolCallView,
)
    requires
        member(frame.1, "index"@) == Json::Unsigned(index),
        lists(anthropic::read_through(frames).tools, index, call),
    ensures
        ({
            let s = anthropic::read_through(frames);
            let after = anthropic::read_through(frames.push(frame));
            let delta = member(frame.1, "delta"@);
            let is_piece = is_frame_of(frame, "content_block_delta"@) && member(delta, "type"@)
                == Json::Text("input_json_delta"@);
            &&& is_piece ==> (member(delta, "partial_json"@) matches Json::Text(fragment) ==> (
            fragment.len() > 0 ==> after.events == s.events.push(
                AdapterStreamEventView::ToolCallDelta {
                    index: call.event_index,
                    arguments_delta: fragment,
                },
            ) && lists(
                after.tools,
                index,
                anthropic::StreamingToolCallView {
                    arguments: call.arguments + fragment,
                    ..call
                },
            )))
            &&& is_frame_of(frame, "content_block_stop"@) ==> after.events.len() == s.events.len() + 1
                && after.events.drop_last() == s.events && after.events.last() is ToolCallEnd
                && after.events.last()->ToolCallEnd_index == call.event_index
                && after.events.last()->ToolCallEnd_tool_call.arguments == arguments_in_text(
                call.arguments,
            )
            &&& other != index ==> lists(after.tools, other, theirs) == lists(
                s.tools,
                other,
                theirs,
            )
        }),
{
    lemma_kinds();
    lemma_anthropic_calls(frames);
    assert(frames.push(frame).drop_last() =~= frames);
    let s = anthropic::read_through(frames);
    let after = anthropic::read_through(frames.push(frame));
    lemma_listed(s.tools, index, call);
    let delta = member(frame.1, "delta"@);
    let block = member(frame.1, "content_block"@);
    let begun = anthropic::StreamingToolCallView {
        event_index: s.tool_count,
        id: text(member(block, "id"@)),
        name: text(member(block, "name"@)),
        arguments: Seq::empty(),
    };
    law_put(s.tools, index, begun);
    law_taken(s.tools, index);
    if let Some(fragment) = text(member(delta, "partial_json"@)) {
        let longer = anthropic::StreamingToolCallView {
            arguments: call.arguments + fragment,
            ..call
        };
        law_put(s.tools, index, longer);
        lemma_put_entries(s.tools, index, longer);
    }
    if is_frame_of(frame, "content_block_stop"@) {
        assert(after.events.drop_last() =~= s.events);
    }
}

/// A frame of any other kind changes nothing, and neither does one that begins, lengthens or ends a
/// block without saying which, unless it sends a text.
pub proof fn law_anthropic_other_frames_change_nothing(
    frames: Seq<(Seq<char>, Json)>,
    frame: (Seq<char>, Json),
)
    requires
        !is_frame_of(frame, "message_start"@),
        !is_frame_of(frame, "message_delta"@),
        !is_frame_of(frame, "content_block_start"@) && !is_frame_of(frame, "content_block_delta"@)
            && !is_frame_of(frame, "content_block_stop"@) || (!(member(frame.1, "index"@)
            is Unsigned) && member(member(frame.1, "delta"@), "type"@) != Json::Text(
            "text_delta"@,
        )),
    ensures
        anthropic::read_through(frames.push(frame)) == anthropic::read_through(frames),
{
    lemma_kinds();
    assert(frames.push(frame).drop_last() =~= frames);
}

/// What a block may hold under a name: a text, or nothing.
pub open spec fn is_text_or_nothing(block: Map<Seq<char>, Json>, key: Seq<char>) -> bool {
    member(Json::Object(block), key) is Text || member(Json::Object(block), key) is Null
}

/// The blocks gathered are told of in the order of their numbers. A block that has a type, and
/// texts or nothing where texts belong, is read whole: its type, text, id, name, input, thinking
/// and signature are what stands under these names, and whatever else is in it stays with it. Any
/// other block is left out.
pub proof fn law_anthropic_gathered_blocks_are_read(
    thinking: Seq<(u64, Map<Seq<char>, Json>)>,
    number: u64,
    block: Map<Seq<char>, Json>,
    key: Seq<char>,
)
    ensures
        ({
            let before = anthropic::thinking_blocks(thinking);
            let after = anthropic::thinking_blocks(thinking.push((number, block)));
            let value = Json::Object(block);
            let is_whole = member(value, "type"@) is Text && is_text_or_nothing(block, "text"@)
                && is_text_or_nothing(block, "id"@) && is_text_or_nothing(block, "name"@)
                && is_text_or_nothing(block, "thinking"@) && is_text_or_nothing(
                block,
                "signature"@,
            );
            let read = after.last();
            &&& anthropic::thinking_blocks(Seq::empty()).len() == 0
            &&& !is_whole ==> after == before
            &&& is_whole ==> {
                &&& after == before.push(read)
                &&& member(value, "type"@) == Json::Text(read.kind)
                &&& read.text == text(member(value, "text"@))
                &&& read.id == text(member(value, "id"@))
                &&& read.name == text(member(value, "name"@))
                &&& read.thinking == text(member(value, "thinking"@))
                &&& read.signature == text(member(value, "signature"@))
                &&& read.input is None <==> member(value, "input"@) == Json::Null
                &&& read.input matches Some(input) ==> input == member(value, "input"@)
                &&& key != "type"@ && key != "text"@ && key != "id"@ && key != "name"@ && key
                    != "input"@ && key != "thinking"@ && key != "signature"@ ==> (
                read.extra.contains_key(key) == block.contains_key(key) && (block.contains_key(key)
                    ==> read.extra[key] == block[key]))
            }
        }),
{
    assert(thinking.push((number, block)).drop_last() =~= thinking);
}

/// A block of thinking begins with what its frame says of it, and a stream that ends tells the
/// reasoning of its blocks as a complete answer with these blocks would tell it.
pub proof fn law_anthropic_thinking_is_told(
    frames: Seq<(Seq<char>, Json)>,
    start: (Seq<char>, Json),
    index: u64,
)
    ensures
        ({
            let s = anthropic::read_through(frames);
            let after = anthropic::read_through(frames.push(start));
            let block = member(start.1, "content_block"@);
            &&& is_frame_in_block(start, "content_block_start"@, index) && (member(block, "type"@)
                == Json::Text("thinking"@) || member(block, "type"@) == Json::Text(
                "redacted_thinking"@,
            )) ==> holds_number(after.thinking, index) && item_of(after.thinking, index) == members(
                block,
            ) && after.events == s.events
            &&& anthropic::events_in(frames).last()->Finish_reasoning
                == crate::providers::anthropic::content::reasoning_of(
                anthropic::thinking_blocks(s.thinking),
                calls_begun(frames).len() > 0,
            )
        }),
{
    lemma_kinds();
    lemma_anthropic_calls(frames);
    lemma_anthropic_told(frames);
    assert(frames.push(start).drop_last() =~= frames);
    law_put(
        anthropic::read_through(frames).thinking,
        index,
        members(member(start.1, "content_block"@)),
    );
}

} // verus!
