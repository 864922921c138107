//! Laws on the messages that a request is answered from.

use crate::context_builder::{
    compaction_of, fitted_system_text, fitting_memories, format_instruction, fresh_memory,
    law_memory_is_deduplicated, law_trimming, messages_for, section, solid_memories,
    summary_section, system_parts, system_text, user_text,
};
use crate::laws::texts::{
    in_order, law_joined, law_joined_holds_its_parts, lemma_in_order_around,
    lemma_in_order_behind, lemma_in_order_concat, lemma_in_order_each, lemma_in_order_nothing,
    lemma_in_order_one, lemma_joined_holds, mentions,
};
use crate::profile::model::ProfileView;
use crate::schema::request::PriestRequestView;
use crate::schema::tools::ToolExchangeTurnView;
use crate::session::model::SessionView;
use crate::text::{byte_len, if_not_empty, joined, not_empty, occurs_at, trimmed};
use vstd::prelude::*;

verus! {

/// The tool exchange is replayed entry by entry at the very end, behind the user's message: an
/// entry of the assistant as a message of the assistant with its text, its calls with their ids,
/// names and arguments in order, and its reasoning; a result as a message of the tool with its
/// call's id, its name and its content.
pub proof fn law_tool_exchange_is_replayed(
    request: PriestRequestView,
    profile: ProfileView,
    session: Option<SessionView>,
)
    ensures
        ({
            let messages = messages_for(request, profile, session);
            let from = messages.len() - request.tool_exchange.len();
            &&& from >= 1
            &&& messages[from - 1].role == "user"@
            &&& forall|i: int|
                0 <= i < request.tool_exchange.len() ==> {
                    let message = #[trigger] messages[from + i];
                    match request.tool_exchange[i] {
                        ToolExchangeTurnView::Assistant { text, tool_calls, reasoning } => {
                            &&& message.role == "assistant"@
                            &&& text matches Some(t) ==> message.content == t
                            &&& text is None ==> message.content.len() == 0
                            &&& message.tool_calls is Some
                            &&& message.tool_calls->0.len() == tool_calls.len()
                            &&& forall|k: int|
                                0 <= k < tool_calls.len() ==> #[trigger] message.tool_calls->0[k]
                                    == tool_calls[k]
                            &&& message.reasoning == reasoning
                            &&& message.tool_call_id is None
                            &&& message.name is None
                        },
                        ToolExchangeTurnView::ToolResult { tool_call_id, name, content, .. } => {
                            &&& message.role == "tool"@
                            &&& message.content == content
                            &&& message.tool_call_id == Some(tool_call_id)
                            &&& message.name == Some(name)
                            &&& message.tool_calls is None
                            &&& message.reasoning is None
                        },
                    }
                }
        }),
{
    reveal_strlit("");
    let messages = messages_for(request, profile, session);
    let from = messages.len() - request.tool_exchange.len();
    let behind = crate::context_builder::exchange_messages(request.tool_exchange);
    assert(messages.skip(from) =~= behind);
    assert forall|i: int| 0 <= i < request.tool_exchange.len() implies #[trigger] messages[from + i]
        == behind[i] by {
        assert(messages.skip(from)[i] == messages[from + i]);
    }
}

/// How many messages of the system stand at the head: one, where it is not empty.
pub open spec fn system_messages(
    request: PriestRequestView,
    profile: ProfileView,
    session: Option<SessionView>,
) -> int {
    let first = messages_for(request, profile, session)[0];
    let text = fitted_system_text(request, profile, compaction_of(session).summary);
    if first.role == "system"@ && first.content == text && first.content.len() > 0 {
        1
    } else {
        0
    }
}

/// The messages are, in this order: at most one of the system, the turns of the session from some
/// turn on, each with its role and its words, one of the user, and the tool exchange. All but those
/// of the tool exchange are plain: no calls, no call's id, no name, no reasoning.
pub proof fn law_order_of_the_messages(
    request: PriestRequestView,
    profile: ProfileView,
    session: Option<SessionView>,
)
    requires
        session is Some ==> session->0.compaction().summarized_through <= session->0.turns.len(),
    ensures
        ({
            let messages = messages_for(request, profile, session);
            let user = messages.len() - request.tool_exchange.len() - 1;
            let system = system_messages(request, profile, session);
            let turns = match session {
                Some(s) => s.turns,
                None => Seq::empty(),
            };
            let shown = user - system;
            &&& 0 <= user
            &&& 0 <= shown <= turns.len()
            &&& fitted_system_text(request, profile, compaction_of(session).summary).len() > 0
                ==> system == 1
            &&& messages[user].role == "user"@
            &&& messages[user].content == user_text(request)
            &&& forall|k: int|
                0 <= k < shown ==> {
                    let turn = turns[turns.len() - shown + k];
                    (#[trigger] messages[system + k]).role == turn.role
                        && messages[system + k].content == turn.content
                }
            &&& forall|k: int|
                0 <= k <= user ==> (#[trigger] messages[k]).tool_calls is None
                    && messages[k].tool_call_id is None && messages[k].name is None
                    && messages[k].reasoning is None
        }),
{
    let summary = compaction_of(session).summary;
    let messages = messages_for(request, profile, session);
    if let Some(s) = session {
        if let Some(cap) = request.config.session_context_turns {
            crate::context_builder::law_window(
                s.turns,
                s.compaction().summarized_through as nat,
                cap,
            );
        }
    }
}

/// The user's message opens with the prompt. A piece of context for the user goes behind what is
/// there already, with an empty line between; an empty piece leaves no trace.
pub proof fn law_user_message(request: PriestRequestView, piece: Seq<char>)
    ensures
        request.user_context.len() == 0 ==> user_text(request) == request.prompt,
        user_text(
            PriestRequestView { user_context: request.user_context.push(piece), ..request },
        ) == user_text(request) + if piece.len() == 0 {
            Seq::empty()
        } else {
            "\n\n"@ + piece
        },
        in_order(user_text(request), seq![request.prompt] + request.user_context),
        occurs_at(user_text(request), request.prompt, 0),
    decreases request.user_context.len(),
{
    let prompt = seq![request.prompt];
    let context = request.user_context;
    let own = not_empty(context);
    let longer = context.push(piece);
    assert(longer.drop_last() =~= context);
    let all = not_empty(longer);
    if piece.len() == 0 {
        assert(all =~= own);
        assert(user_text(request) =~= user_text(request) + Seq::<char>::empty());
    } else {
        assert(prompt + all =~= (prompt + own) + seq![piece]);
        law_joined(prompt + own, seq![piece], piece, "\n\n"@);
        assert(user_text(request) + "\n\n"@ + piece =~= user_text(request) + ("\n\n"@ + piece));
    }
    if context.len() == 0 {
        assert(prompt + own =~= prompt);
        lemma_in_order_one(request.prompt, request.prompt);
        assert(prompt + context =~= prompt);
        assert(request.prompt.subrange(0, request.prompt.len() as int) =~= request.prompt);
    } else {
        let shorter = PriestRequestView { user_context: context.drop_last(), ..request };
        let last = context.last();
        law_user_message(shorter, last);
        assert(context.drop_last().push(last) =~= context);
        let more = if last.len() == 0 {
            Seq::empty()
        } else {
            "\n\n"@ + last
        };
        if last.len() == 0 {
            lemma_in_order_one(more, last);
        } else {
            lemma_in_order_one(last, last);
            lemma_in_order_behind("\n\n"@, last, seq![last]);
        }
        lemma_in_order_concat(
            user_text(shorter),
            prompt + shorter.user_context,
            more,
            seq![last],
        );
        assert(prompt + shorter.user_context + seq![last] =~= prompt + context);
        let n = request.prompt.len() as int;
        assert((user_text(shorter) + more).subrange(0, n) =~= user_text(shorter).subrange(0, n));
    }
}

proof fn lemma_not_empty_holds(texts: Seq<Seq<char>>)
    ensures
        in_order(joined(not_empty(texts), "\n\n"@), texts),
    decreases texts.len(),
{
    if texts.len() > 0 {
        lemma_not_empty_holds(texts.drop_last());
        lemma_if_not_empty_holds(texts.last());
        lemma_joined_holds(
            not_empty(texts.drop_last()),
            texts.drop_last(),
            if_not_empty(texts.last()),
            seq![texts.last()],
            "\n\n"@,
        );
        assert(texts.drop_last() + seq![texts.last()] =~= texts);
    }
}

proof fn lemma_if_not_empty_holds(t: Seq<char>)
    ensures
        in_order(joined(if_not_empty(t), "\n\n"@), seq![t]),
{
    lemma_in_order_one(joined(if_not_empty(t), "\n\n"@), t);
}

proof fn lemma_section_holds(heading: Seq<char>, lines: Seq<Seq<char>>)
    ensures
        in_order(joined(section(heading, lines), "\n\n"@), lines),
{
    if lines.len() > 0 {
        law_joined_holds_its_parts(lines, "\n"@);
        lemma_in_order_behind(heading, joined(lines, "\n"@), lines);
    }
}

/// What a summary says, where it says anything.
pub open spec fn said_in(summary: Option<Seq<char>>) -> Seq<char> {
    match summary {
        Some(s) => trimmed(s),
        None => Seq::empty(),
    }
}

proof fn lemma_summary_holds(summary: Option<Seq<char>>)
    ensures
        in_order(joined(summary_section(summary), "\n\n"@), seq![said_in(summary)]),
{
    let said = said_in(summary);
    if said.len() == 0 {
        lemma_in_order_one(joined(summary_section(summary), "\n\n"@), said);
    } else {
        lemma_in_order_one(said, said);
        lemma_in_order_behind("## Conversation so far (summary)\n\n"@, said, seq![said]);
    }
}

/// A system text holds, in this order, everything that it is written from: the contexts of the
/// request, the profile's rules, identity and custom instructions, the memories of the profile and
/// of the request, the summary of what was said before, and what is asked of the answer's format.
pub proof fn law_system_text_holds_everything(
    request: PriestRequestView,
    profile: ProfileView,
    loaded: Seq<Seq<char>>,
    dynamic: Seq<Seq<char>>,
    summary: Option<Seq<char>>,
)
    ensures
        in_order(
            system_text(request, profile, loaded, dynamic, summary),
            request.context + seq![profile.rules, profile.identity, profile.custom] + loaded
                + dynamic + seq![
                said_in(summary),
                format_instruction(request.output.prompt_format),
            ],
        ),
{
    let sep = "\n\n"@;
    let instruction = format_instruction(request.output.prompt_format);
    lemma_not_empty_holds(request.context);
    lemma_if_not_empty_holds(profile.rules);
    lemma_if_not_empty_holds(profile.identity);
    lemma_if_not_empty_holds(profile.custom);
    lemma_if_not_empty_holds(instruction);
    lemma_section_holds("## Loaded Memories\n\n"@, loaded);
    lemma_section_holds("## Memory\n\n"@, dynamic);
    lemma_summary_holds(summary);
    let c = not_empty(request.context);
    let r = if_not_empty(profile.rules);
    let i = if_not_empty(profile.identity);
    let u = if_not_empty(profile.custom);
    let l = section("## Loaded Memories\n\n"@, loaded);
    let d = section("## Memory\n\n"@, dynamic);
    let s = summary_section(summary);
    let f = if_not_empty(instruction);
    let hc = request.context;
    let hr = hc + seq![profile.rules];
    let hi = hr + seq![profile.identity];
    let hu = hi + seq![profile.custom];
    let hl = hu + loaded;
    let hd = hl + dynamic;
    let hs = hd + seq![said_in(summary)];
    let hf = hs + seq![instruction];
    lemma_joined_holds(c, hc, r, seq![profile.rules], sep);
    lemma_joined_holds(c + r, hr, i, seq![profile.identity], sep);
    lemma_joined_holds(c + r + i, hi, u, seq![profile.custom], sep);
    lemma_joined_holds(c + r + i + u, hu, l, loaded, sep);
    lemma_joined_holds(c + r + i + u + l, hl, d, dynamic, sep);
    lemma_joined_holds(c + r + i + u + l + d, hd, s, seq![said_in(summary)], sep);
    lemma_joined_holds(c + r + i + u + l + d + s, hs, f, seq![instruction], sep);
    assert(hf =~= request.context + seq![profile.rules, profile.identity, profile.custom] + loaded
        + dynamic + seq![said_in(summary), instruction]);
}

/// Whatever the request, the profile or the session's summary has to say to the model stands in the
/// first message, the system's: the contexts, the profile's rules, identity and custom
/// instructions, the summary that the session carries, and what is asked of the format, in this
/// order.
pub proof fn law_the_model_is_told(
    request: PriestRequestView,
    profile: ProfileView,
    session: Option<SessionView>,
    i: int,
)
    ensures
        ({
            let messages = messages_for(request, profile, session);
            let summary = match session {
                Some(s) => s.compaction().summary,
                None => None,
            };
            let all = request.context + seq![profile.rules, profile.identity, profile.custom]
                + seq![said_in(summary), format_instruction(request.output.prompt_format)];
            0 <= i < all.len() && all[i].len() > 0 ==> messages[0].role == "system"@ && in_order(
                messages[0].content,
                all,
            )
        }),
{
    let summary = match session {
        Some(s) => s.compaction().summary,
        None => None,
    };
    law_nothing_but_memories_is_left_out(request, profile, summary);
    let text = fitted_system_text(request, profile, summary);
    let all = request.context + seq![profile.rules, profile.identity, profile.custom] + seq![
        said_in(summary),
        format_instruction(request.output.prompt_format),
    ];
    if 0 <= i < all.len() && all[i].len() > 0 {
        lemma_in_order_each(text, all, i);
        assert(text.len() > 0);
    }
}

proof fn lemma_solid_memories_are_all(
    s: Seq<char>,
    before: Seq<Seq<char>>,
    memories: Seq<Seq<char>>,
    behind: Seq<Seq<char>>,
)
    requires
        in_order(s, before + solid_memories(memories) + behind),
    ensures
        in_order(s, before + trimmed_each(memories) + behind),
    decreases memories.len(),
{
    if memories.len() == 0 {
        assert(trimmed_each(memories) =~= solid_memories(memories));
    } else {
        let rest = memories.drop_last();
        let last = trimmed(memories.last());
        let behind_rest = if_not_empty(last) + behind;
        assert(before + solid_memories(memories) + behind =~= before + solid_memories(rest)
            + behind_rest);
        lemma_solid_memories_are_all(s, before, rest, behind_rest);
        if last.len() == 0 {
            assert(before + trimmed_each(rest) + behind_rest =~= (before + trimmed_each(rest))
                + behind);
            lemma_in_order_nothing(s, before + trimmed_each(rest), behind);
            assert(last =~= Seq::empty());
        }
        assert(trimmed_each(memories) =~= trimmed_each(rest) + seq![last]);
        assert(before + trimmed_each(memories) + behind =~= (before + trimmed_each(rest)) + seq![
            last,
        ] + behind);
        assert(last.len() > 0 ==> before + trimmed_each(rest) + behind_rest =~= before
            + trimmed_each(memories) + behind);
    }
}

/// Texts, each without the white space round it.
pub open spec fn trimmed_each(texts: Seq<Seq<char>>) -> Seq<Seq<char>> {
    Seq::new(texts.len(), |i: int| trimmed(texts[i]))
}

/// Whatever has to be left out, the system text holds the contexts, the profile's rules, identity
/// and custom instructions, the summary and what is asked of the format, in this order. Where there
/// is no limit, or all of it is within the limit, it holds every memory too: those of the profile
/// at their place and in their order, and each of the request's.
pub proof fn law_nothing_but_memories_is_left_out(
    request: PriestRequestView,
    profile: ProfileView,
    summary: Option<Seq<char>>,
)
    ensures
        ({
            let text = fitted_system_text(request, profile, summary);
            let loaded = solid_memories(profile.memories);
            let whole = system_text(
                request,
                profile,
                loaded,
                fresh_memory(request.memory, loaded),
                summary,
            );
            let opening = request.context + seq![profile.rules, profile.identity, profile.custom];
            let ending = seq![
                said_in(summary),
                format_instruction(request.output.prompt_format),
            ];
            let limit = request.config.max_system_chars;
            &&& in_order(text, opening + ending)
            &&& limit is None || byte_len(whole) <= limit->0 ==> {
                &&& in_order(text, opening + trimmed_each(profile.memories) + ending)
                &&& forall|i: int|
                    0 <= i < request.memory.len() ==> mentions(
                        text,
                        trimmed(#[trigger] request.memory[i]),
                    )
            }
            &&& limit is Some && byte_len(text) > limit->0 ==> text == system_text(
                request,
                profile,
                Seq::empty(),
                Seq::empty(),
                summary,
            )
        }),
{
    let text = fitted_system_text(request, profile, summary);
    let loaded = solid_memories(profile.memories);
    let fresh = fresh_memory(request.memory, loaded);
    let (l, d) = fitting_memories(request, profile, loaded, fresh, summary);
    let opening = request.context + seq![profile.rules, profile.identity, profile.custom];
    let ending = seq![said_in(summary), format_instruction(request.output.prompt_format)];
    let limit = request.config.max_system_chars;
    law_system_text_holds_everything(request, profile, l, d, summary);
    law_trimming(request, profile, loaded, fresh, summary);
    let all = opening + l + d + ending;
    assert(opening + l + d + ending =~= opening + (l + d) + ending);
    lemma_in_order_around(text, opening, l + d, ending);
    if limit is None || byte_len(system_text(request, profile, loaded, fresh, summary)) <= limit->0 {
        assert(l == loaded && d == fresh);
        assert(all =~= (opening + loaded) + fresh + ending);
        lemma_in_order_around(text, opening + loaded, fresh, ending);
        lemma_solid_memories_are_all(text, opening, profile.memories, ending);
        law_memory_is_deduplicated(request.memory, loaded);
        assert forall|i: int| 0 <= i < request.memory.len() implies mentions(
            text,
            trimmed(#[trigger] request.memory[i]),
        ) by {
            let entry = trimmed(request.memory[i]);
            if entry.len() == 0 {
                assert(text.subrange(0, 0) =~= entry);
                assert(occurs_at(text, entry, 0));
            } else if loaded.contains(entry) {
                let k = choose|k: int| 0 <= k < loaded.len() && loaded[k] == entry;
                assert(all[opening.len() + k] == entry);
                lemma_in_order_each(text, all, opening.len() + k);
            } else {
                let k = choose|k: int| 0 <= k < fresh.len() && fresh[k] == entry;
                assert(all[opening.len() + loaded.len() + k] == entry);
                lemma_in_order_each(text, all, opening.len() + loaded.len() + k);
            }
        }
    }
    if limit is Some && byte_len(text) > limit->0 {
        assert(l =~= Seq::empty());
        assert(d =~= Seq::empty());
    }
}

/// The memories stand under their headings, one to a line, those of the profile apart from those of
/// the request, and the summary stands under its own; without memories or without a summary there
/// is no such heading's section.
pub proof fn law_sections_stand_under_their_headings(
    request: PriestRequestView,
    profile: ProfileView,
    loaded: Seq<Seq<char>>,
    dynamic: Seq<Seq<char>>,
    summary: Option<Seq<char>>,
)
    ensures
        ({
            let text = system_text(request, profile, loaded, dynamic, summary);
            &&& loaded.len() > 0 ==> mentions(
                text,
                "## Loaded Memories\n\n"@ + joined(loaded, "\n"@),
            )
            &&& dynamic.len() > 0 ==> mentions(text, "## Memory\n\n"@ + joined(dynamic, "\n"@))
            &&& said_in(summary).len() > 0 ==> mentions(
                text,
                "## Conversation so far (summary)\n\n"@ + said_in(summary),
            )
            &&& said_in(summary).len() == 0 ==> text == system_text(
                request,
                profile,
                loaded,
                dynamic,
                None,
            )
        }),
{
    let text = system_text(request, profile, loaded, dynamic, summary);
    let parts = system_parts(request, profile, loaded, dynamic, summary);
    law_joined_holds_its_parts(parts, "\n\n"@);
    let c = not_empty(request.context) + if_not_empty(profile.rules) + if_not_empty(
        profile.identity,
    ) + if_not_empty(profile.custom);
    let l = section("## Loaded Memories\n\n"@, loaded);
    let d = section("## Memory\n\n"@, dynamic);
    if loaded.len() > 0 {
        assert(parts[c.len() as int] == l[0]);
        lemma_in_order_each(text, parts, c.len() as int);
    }
    if dynamic.len() > 0 {
        let k = (c.len() + l.len()) as int;
        assert(parts[k] == d[0]);
        lemma_in_order_each(text, parts, k);
    }
    if said_in(summary).len() > 0 {
        let k = (c.len() + l.len() + d.len()) as int;
        assert(parts[k] == summary_section(summary)[0]);
        lemma_in_order_each(text, parts, k);
    }
}

/// The texts that are not empty, in order, are what the parts of a system text are, but for the
/// sections of memories and of the summary: nothing else is put in.
pub proof fn law_nothing_is_made_up(
    request: PriestRequestView,
    profile: ProfileView,
    part: Seq<char>,
)
    ensures
        system_parts(request, profile, Seq::empty(), Seq::empty(), None).contains(part) ==> part.len()
            > 0 && (request.context.contains(part) || part == profile.rules || part
            == profile.identity || part == profile.custom || part == format_instruction(
            request.output.prompt_format,
        )),
{
    let parts = system_parts(request, profile, Seq::empty(), Seq::empty(), None);
    lemma_not_empty_is_of(request.context);
    if parts.contains(part) {
        let k = choose|k: int| 0 <= k < parts.len() && parts[k] == part;
        let context = not_empty(request.context);
        if k < context.len() {
            assert(context[k] == part);
        }
    }
}

proof fn lemma_not_empty_is_of(texts: Seq<Seq<char>>)
    ensures
        forall|k: int|
            0 <= k < not_empty(texts).len() ==> (#[trigger] not_empty(texts)[k]).len() > 0
                && texts.contains(not_empty(texts)[k]),
    decreases texts.len(),
{
    if texts.len() > 0 {
        let rest = texts.drop_last();
        lemma_not_empty_is_of(rest);
        let all = not_empty(texts);
        assert forall|k: int| 0 <= k < all.len() implies (#[trigger] all[k]).len() > 0
            && texts.contains(all[k]) by {
            if k < not_empty(rest).len() {
                assert(all[k] == not_empty(rest)[k]);
                let i = choose|i: int| 0 <= i < rest.len() && rest[i] == all[k];
                assert(texts[i] == all[k]);
            } else {
                assert(texts[texts.len() - 1] == all[k]);
            }
        }
    }
}

/// An instruction is given for each of the three formats that a prompt can ask for, and for nothing
/// else.
pub proof fn law_formats(format: Option<Seq<char>>)
    ensures
        format_instruction(format).len() > 0 <==> format == Some("json"@) || format == Some("xml"@)
            || format == Some("code"@),
        format_instruction(Some("json"@)) != format_instruction(Some("xml"@)),
        format_instruction(Some("json"@)) != format_instruction(Some("code"@)),
        format_instruction(Some("xml"@)) != format_instruction(Some("code"@)),
{
    reveal_strlit("");
    reveal_strlit("json");
    reveal_strlit("xml");
    reveal_strlit("code");
    assert("json"@.len() == 4 && "xml"@.len() == 3 && "code"@.len() == 4);
    assert("json"@[0] == 'j' && "code"@[0] == 'c');
    reveal_strlit(
        "Respond only with valid JSON. No prose, no markdown code fences.",
    );
    reveal_strlit(
        "Respond only with valid XML. No prose, no markdown code fences.",
    );
    reveal_strlit(
        "Respond only with code. No prose, no markdown code fences around it.",
    );
    assert(crate::context_builder::FORMAT_INSTRUCTION_JSON@.len() == 64);
    assert(crate::context_builder::FORMAT_INSTRUCTION_XML@.len() == 63);
    assert(crate::context_builder::FORMAT_INSTRUCTION_CODE@.len() == 68);
}

} // verus!
