//! Builds the messages that go to a provider: one system message out of profile, context, memory
//! and summary, the replayed turns of the session, the user's message, and the tool exchange of the
//! current turn.

use crate::profile::model::{Profile, ProfileView};
use crate::schema::reasoning::{ReasoningInfo, ReasoningInfoView};
use crate::schema::request::{PriestRequest, PriestRequestView};
use crate::schema::tools::{ToolCall, ToolCallView, ToolExchangeTurn, ToolExchangeTurnView};
use crate::session::model::{no_compaction, CompactionState, CompactionStateView};
use crate::session::model::{Session, SessionView, Turn, TurnView};
use crate::text;
use crate::text::{byte_len, if_not_empty, joined, not_empty, trimmed};
use vstd::prelude::*;

verus! {

pub const FORMAT_INSTRUCTION_JSON: &'static str =
    "Respond only with valid JSON. No prose, no markdown code fences.";

pub const FORMAT_INSTRUCTION_XML: &'static str =
    "Respond only with valid XML. No prose, no markdown code fences.";

pub const FORMAT_INSTRUCTION_CODE: &'static str =
    "Respond only with code. No prose, no markdown code fences around it.";

// ---- Messages ----

/// One message to a provider.
#[derive(Debug)]
pub struct Message {
    pub role: String,
    pub content: String,
    /// Tool calls made by the model. Assistant role only.
    pub tool_calls: Option<Vec<ToolCall>>,
    /// Id of the tool call this message answers. Tool role only.
    pub tool_call_id: Option<String>,
    /// Tool name. Tool role only.
    pub name: Option<String>,
    /// Safe reasoning state on assistant tool-call turns.
    pub reasoning: Option<ReasoningInfo>,
}

/// What a `Message` holds.
pub struct MessageView {
    pub role: Seq<char>,
    pub content: Seq<char>,
    pub tool_calls: Option<Seq<ToolCallView>>,
    pub tool_call_id: Option<Seq<char>>,
    pub name: Option<Seq<char>>,
    pub reasoning: Option<ReasoningInfoView>,
}

impl DeepView for Message {
    type V = MessageView;

    open spec fn deep_view(&self) -> MessageView {
        MessageView {
            role: self.role@,
            content: self.content@,
            tool_calls: self.tool_calls.deep_view(),
            tool_call_id: self.tool_call_id.deep_view(),
            name: self.name.deep_view(),
            reasoning: self.reasoning.deep_view(),
        }
    }
}

/// A message of role and content alone.
pub open spec fn plain_message(role: Seq<char>, content: Seq<char>) -> MessageView {
    MessageView {
        role,
        content,
        tool_calls: None,
        tool_call_id: None,
        name: None,
        reasoning: None,
    }
}

impl Message {
    /// A message of role and content alone.
    pub fn plain(role: &str, content: &str) -> (r: Self)
        ensures
            r.deep_view() == plain_message(role@, content@),
    {
        Message {
            role: role.to_owned(),
            content: content.to_owned(),
            tool_calls: None,
            tool_call_id: None,
            name: None,
            reasoning: None,
        }
    }

    pub fn system(content: &str) -> (r: Self)
        ensures
            r.deep_view() == plain_message("system"@, content@),
    {
        Message::plain("system", content)
    }

    pub fn user(content: &str) -> (r: Self)
        ensures
            r.deep_view() == plain_message("user"@, content@),
    {
        Message::plain("user", content)
    }

    pub fn assistant(content: &str) -> (r: Self)
        ensures
            r.deep_view() == plain_message("assistant"@, content@),
    {
        Message::plain("assistant", content)
    }
}

impl Default for Message {
    fn default() -> (r: Self)
        ensures
            r.deep_view() == plain_message(""@, ""@),
    {
        Message::plain("", "")
    }
}

fn push_message(messages: &mut Vec<Message>, m: Message)
    ensures
        final(messages).deep_view() == old(messages).deep_view().push(m.deep_view()),
{
    messages.push(m);
    assert(messages.deep_view() =~= old(messages).deep_view().push(m.deep_view()));
}

// ---- Memory ----

/// A profile's memories without surrounding white space, and without those that are blank.
pub open spec fn solid_memories(memories: Seq<Seq<char>>) -> Seq<Seq<char>>
    decreases memories.len(),
{
    if memories.len() == 0 {
        Seq::empty()
    } else {
        solid_memories(memories.drop_last()) + if_not_empty(trimmed(memories.last()))
    }
}

fn normalize_memories(memories: &Vec<String>) -> (r: Vec<String>)
    ensures
        r.deep_view() == solid_memories(memories.deep_view()),
{
    let mut r: Vec<String> = Vec::new();
    let mut i: usize = 0;
    let ghost all = memories.deep_view();
    assert(r.deep_view() =~= solid_memories(all.take(0)));
    while i < memories.len()
        invariant
            i <= memories@.len(),
            all == memories.deep_view(),
            r.deep_view() == solid_memories(all.take(i as int)),
        decreases memories@.len() - i,
    {
        proof {
            assert(all.take(i + 1).drop_last() == all.take(i as int));
            assert(all.take(i + 1).last() == memories@[i as int]@);
        }
        let solid = text::trim(memories[i].as_str());
        text::push_if_not_empty(&mut r, solid.as_str());
        i += 1;
    }
    assert(all.take(i as int) == all);
    r
}

/// A request's memory without surrounding white space, and without entries that are blank, that
/// `known` holds, or that stand earlier.
pub open spec fn fresh_memory(entries: Seq<Seq<char>>, known: Seq<Seq<char>>) -> Seq<Seq<char>>
    decreases entries.len(),
{
    if entries.len() == 0 {
        Seq::empty()
    } else {
        let before = fresh_memory(entries.drop_last(), known);
        let entry = trimmed(entries.last());
        if entry.len() == 0 || known.contains(entry) || before.contains(entry) {
            before
        } else {
            before.push(entry)
        }
    }
}

fn deduplicate_memory(entries: &Vec<String>, known: &Vec<String>) -> (r: Vec<String>)
    ensures
        r.deep_view() == fresh_memory(entries.deep_view(), known.deep_view()),
{
    let mut r: Vec<String> = Vec::new();
    let mut i: usize = 0;
    let ghost all = entries.deep_view();
    assert(r.deep_view() =~= fresh_memory(all.take(0), known.deep_view()));
    while i < entries.len()
        invariant
            i <= entries@.len(),
            all == entries.deep_view(),
            r.deep_view() == fresh_memory(all.take(i as int), known.deep_view()),
        decreases entries@.len() - i,
    {
        proof {
            assert(all.take(i + 1).drop_last() == all.take(i as int));
            assert(all.take(i + 1).last() == entries@[i as int]@);
        }
        let entry = text::trim(entries[i].as_str());
        if !entry.as_str().is_empty() && !text::holds(known, entry.as_str()) && !text::holds(
            &r,
            entry.as_str(),
        ) {
            text::push_text(&mut r, entry);
        }
        i += 1;
    }
    assert(all.take(i as int) == all);
    r
}

/// Of the deduplicated memory no entry stands twice, none is blank and none repeats what is known;
/// and whatever the request remembered stands in it, unless it was blank or known.
pub proof fn law_memory_is_deduplicated(entries: Seq<Seq<char>>, known: Seq<Seq<char>>)
    ensures
        ({
            let fresh = fresh_memory(entries, known);
            &&& fresh.no_duplicates()
            &&& forall|i: int|
                0 <= i < fresh.len() ==> (#[trigger] fresh[i]).len() > 0 && !known.contains(
                    fresh[i],
                )
            &&& forall|i: int|
                0 <= i < entries.len() ==> {
                    let entry = trimmed(#[trigger] entries[i]);
                    entry.len() == 0 || known.contains(entry) || fresh.contains(entry)
                }
        }),
    decreases entries.len(),
{
    if entries.len() > 0 {
        law_memory_is_deduplicated(entries.drop_last(), known);
        let before = fresh_memory(entries.drop_last(), known);
        let fresh = fresh_memory(entries, known);
        assert forall|t: Seq<char>| before.contains(t) implies fresh.contains(t) by {
            let k = choose|k: int| 0 <= k < before.len() && before[k] == t;
            assert(fresh[k] == t);
        }
        let last = trimmed(entries.last());
        if fresh != before {
            assert(fresh[before.len() as int] == last);
        }
        assert forall|i: int| 0 <= i < entries.len() implies {
            let entry = trimmed(#[trigger] entries[i]);
            entry.len() == 0 || known.contains(entry) || fresh.contains(entry)
        } by {
            if i < entries.len() - 1 {
                assert(entries.drop_last()[i] == entries[i]);
            }
        }
    }
}

/// The deduplicated memory keeps the order of the request: each entry comes from one of the
/// request's, and of two entries the earlier one comes from the earlier one.
pub proof fn law_memory_keeps_its_order(entries: Seq<Seq<char>>, known: Seq<Seq<char>>)
    ensures
        exists|from: Seq<int>|
            #![trigger from.len()]
            {
                &&& from.len() == fresh_memory(entries, known).len()
                &&& forall|i: int|
                    0 <= i < from.len() ==> 0 <= #[trigger] from[i] < entries.len() && trimmed(
                        entries[from[i]],
                    ) == fresh_memory(entries, known)[i]
                &&& forall|i: int, j: int|
                    0 <= i < j < from.len() ==> #[trigger] from[i] < #[trigger] from[j]
            },
    decreases entries.len(),
{
    let fresh = fresh_memory(entries, known);
    if entries.len() == 0 {
        let from: Seq<int> = Seq::empty();
        assert(from.len() == fresh.len());
    } else {
        let rest = entries.drop_last();
        law_memory_keeps_its_order(rest, known);
        let before = fresh_memory(rest, known);
        let from = choose|from: Seq<int>|
            #![trigger from.len()]
            {
                &&& from.len() == before.len()
                &&& forall|i: int|
                    0 <= i < from.len() ==> 0 <= #[trigger] from[i] < rest.len() && trimmed(
                        rest[from[i]],
                    ) == before[i]
                &&& forall|i: int, j: int|
                    0 <= i < j < from.len() ==> #[trigger] from[i] < #[trigger] from[j]
            };
        let more = if fresh == before {
            from
        } else {
            from.push(entries.len() - 1)
        };
        assert forall|i: int| 0 <= i < more.len() implies 0 <= #[trigger] more[i] < entries.len()
            && trimmed(entries[more[i]]) == fresh[i] by {
            if i < from.len() {
                assert(more[i] == from[i]);
                assert(rest[from[i]] == entries[from[i]]);
            }
        }
        assert forall|i: int, j: int| 0 <= i < j < more.len() implies #[trigger] more[i]
            < #[trigger] more[j] by {
            assert(more[i] == from[i]);
            if j < from.len() {
                assert(more[j] == from[j]);
            }
        }
        assert(more.len() == fresh.len());
    }
}

// ---- The system message ----

/// The instruction that a prompt format stands for, empty where it stands for none.
pub open spec fn format_instruction(format: Option<Seq<char>>) -> Seq<char> {
    match format {
        Some(f) => if f == "json"@ {
            FORMAT_INSTRUCTION_JSON@
        } else if f == "xml"@ {
            FORMAT_INSTRUCTION_XML@
        } else if f == "code"@ {
            FORMAT_INSTRUCTION_CODE@
        } else {
            ""@
        },
        None => ""@,
    }
}

fn instruction_for(format: &Option<String>) -> (r: &'static str)
    ensures
        r@ == format_instruction(format.deep_view()),
{
    match format {
        Some(f) => if text::same(f.as_str(), "json") {
            FORMAT_INSTRUCTION_JSON
        } else if text::same(f.as_str(), "xml") {
            FORMAT_INSTRUCTION_XML
        } else if text::same(f.as_str(), "code") {
            FORMAT_INSTRUCTION_CODE
        } else {
            ""
        },
        None => "",
    }
}

/// A list of lines under a heading, or nothing where there is no line.
pub open spec fn section(heading: Seq<char>, lines: Seq<Seq<char>>) -> Seq<Seq<char>> {
    if lines.len() == 0 {
        Seq::empty()
    } else {
        seq![heading + joined(lines, "\n"@)]
    }
}

fn push_section(parts: &mut Vec<String>, heading: &str, lines: &Vec<String>)
    ensures
        final(parts).deep_view() == old(parts).deep_view() + section(heading@, lines.deep_view()),
{
    if lines.len() > 0 {
        let body = text::join(lines, "\n");
        text::push_text(parts, heading.to_owned().concat(body.as_str()));
    }
    assert(parts.deep_view() =~= old(parts).deep_view() + section(heading@, lines.deep_view()));
}

/// A conversation's summary under its heading, or nothing where it is missing or blank.
pub open spec fn summary_section(summary: Option<Seq<char>>) -> Seq<Seq<char>> {
    match summary {
        Some(s) => if trimmed(s).len() == 0 {
            Seq::empty()
        } else {
            seq!["## Conversation so far (summary)\n\n"@ + trimmed(s)]
        },
        None => Seq::empty(),
    }
}

fn push_summary(parts: &mut Vec<String>, summary: &Option<String>)
    ensures
        final(parts).deep_view() == old(parts).deep_view() + summary_section(summary.deep_view()),
{
    if let Some(s) = summary {
        let solid = text::trim(s.as_str());
        if !solid.as_str().is_empty() {
            text::push_text(
                parts,
                "## Conversation so far (summary)\n\n".to_owned().concat(solid.as_str()),
            );
        }
    }
    assert(parts.deep_view() =~= old(parts).deep_view() + summary_section(summary.deep_view()));
}

/// The parts of the system message in their order: context, rules, identity, custom text, the
/// profile's memories, the request's memory, the conversation's summary, the format instruction.
/// Parts that are empty are left out.
pub open spec fn system_parts(
    request: PriestRequestView,
    profile: ProfileView,
    loaded: Seq<Seq<char>>,
    dynamic: Seq<Seq<char>>,
    summary: Option<Seq<char>>,
) -> Seq<Seq<char>> {
    not_empty(request.context) + if_not_empty(profile.rules) + if_not_empty(profile.identity)
        + if_not_empty(profile.custom) + section("## Loaded Memories\n\n"@, loaded) + section(
        "## Memory\n\n"@,
        dynamic,
    ) + summary_section(summary) + if_not_empty(format_instruction(request.output.prompt_format))
}

/// The text of the system message.
pub open spec fn system_text(
    request: PriestRequestView,
    profile: ProfileView,
    loaded: Seq<Seq<char>>,
    dynamic: Seq<Seq<char>>,
    summary: Option<Seq<char>>,
) -> Seq<char> {
    joined(system_parts(request, profile, loaded, dynamic, summary), "\n\n"@)
}

/// The text of the system message.
pub fn assemble_system_content(
    request: &PriestRequest,
    profile: &Profile,
    profile_memories: &Vec<String>,
    dynamic_memory: &Vec<String>,
    conversation_summary: &Option<String>,
) -> (r: String)
    ensures
        r@ == system_text(
            request.deep_view(),
            profile.deep_view(),
            profile_memories.deep_view(),
            dynamic_memory.deep_view(),
            conversation_summary.deep_view(),
        ),
{
    let mut parts: Vec<String> = Vec::new();
    text::push_not_empty(&mut parts, &request.context);
    text::push_if_not_empty(&mut parts, profile.rules.as_str());
    text::push_if_not_empty(&mut parts, profile.identity.as_str());
    text::push_if_not_empty(&mut parts, profile.custom.as_str());
    push_section(&mut parts, "## Loaded Memories\n\n", profile_memories);
    push_section(&mut parts, "## Memory\n\n", dynamic_memory);
    push_summary(&mut parts, conversation_summary);
    text::push_if_not_empty(&mut parts, instruction_for(&request.output.prompt_format));
    assert(parts.deep_view() =~= system_parts(
        request.deep_view(),
        profile.deep_view(),
        profile_memories.deep_view(),
        dynamic_memory.deep_view(),
        conversation_summary.deep_view(),
    ));
    text::join(&parts, "\n\n")
}

/// Whether the system message fits a budget of bytes. Without a budget it does.
pub open spec fn fits(
    request: PriestRequestView,
    profile: ProfileView,
    loaded: Seq<Seq<char>>,
    dynamic: Seq<Seq<char>>,
    summary: Option<Seq<char>>,
) -> bool {
    request.config.max_system_chars is Some ==> byte_len(
        system_text(request, profile, loaded, dynamic, summary),
    ) <= request.config.max_system_chars->0
}

/// The memories that are left when, as long as the system message does not fit, the last entry goes:
/// of the request's memory while there is any, then of the profile's memories.
pub open spec fn fitting_memories(
    request: PriestRequestView,
    profile: ProfileView,
    loaded: Seq<Seq<char>>,
    dynamic: Seq<Seq<char>>,
    summary: Option<Seq<char>>,
) -> (Seq<Seq<char>>, Seq<Seq<char>>)
    decreases loaded.len() + dynamic.len(),
{
    if fits(request, profile, loaded, dynamic, summary) {
        (loaded, dynamic)
    } else if dynamic.len() > 0 {
        fitting_memories(request, profile, loaded, dynamic.drop_last(), summary)
    } else if loaded.len() > 0 {
        fitting_memories(request, profile, loaded.drop_last(), dynamic, summary)
    } else {
        (loaded, dynamic)
    }
}

fn fit_memories(
    request: &PriestRequest,
    profile: &Profile,
    loaded: &mut Vec<String>,
    dynamic: &mut Vec<String>,
    summary: &Option<String>,
) -> (r: String)
    ensures
        (final(loaded).deep_view(), final(dynamic).deep_view()) == fitting_memories(
            request.deep_view(),
            profile.deep_view(),
            old(loaded).deep_view(),
            old(dynamic).deep_view(),
            summary.deep_view(),
        ),
        r@ == system_text(
            request.deep_view(),
            profile.deep_view(),
            final(loaded).deep_view(),
            final(dynamic).deep_view(),
            summary.deep_view(),
        ),
{
    let mut content = assemble_system_content(request, profile, loaded, dynamic, summary);
    let budget = match request.config.max_system_chars {
        Some(budget) => budget,
        None => {
            return content;
        },
    };
    let ghost request_view = request.deep_view();
    let ghost profile_view = profile.deep_view();
    let ghost target = fitting_memories(
        request_view,
        profile_view,
        loaded.deep_view(),
        dynamic.deep_view(),
        summary.deep_view(),
    );
    while text::bytes_in(content.as_str()) > budget && (dynamic.len() > 0 || loaded.len() > 0)
        invariant
            request_view == request.deep_view(),
            profile_view == profile.deep_view(),
            request_view.config.max_system_chars == Some(budget),
            content@ == system_text(
                request_view,
                profile_view,
                loaded.deep_view(),
                dynamic.deep_view(),
                summary.deep_view(),
            ),
            target == fitting_memories(
                request_view,
                profile_view,
                loaded.deep_view(),
                dynamic.deep_view(),
                summary.deep_view(),
            ),
        decreases loaded@.len() + dynamic@.len(),
    {
        let ghost loaded_before = loaded.deep_view();
        let ghost dynamic_before = dynamic.deep_view();
        if dynamic.len() > 0 {
            dynamic.pop();
            assert(dynamic.deep_view() =~= dynamic_before.drop_last());
        } else {
            loaded.pop();
            assert(loaded.deep_view() =~= loaded_before.drop_last());
        }
        content = assemble_system_content(request, profile, loaded, dynamic, summary);
    }
    content
}

/// Trimming to the budget takes entries from the ends only, and none of the profile's memories
/// while one of the request's is left. It stops at the first fit, and never before: the result
/// fits or nothing is left, and with one entry more it did not fit.
pub proof fn law_trimming(
    request: PriestRequestView,
    profile: ProfileView,
    loaded: Seq<Seq<char>>,
    dynamic: Seq<Seq<char>>,
    summary: Option<Seq<char>>,
)
    ensures
        ({
            let (l, d) = fitting_memories(request, profile, loaded, dynamic, summary);
            &&& l.len() <= loaded.len() && l == loaded.take(l.len() as int)
            &&& d.len() <= dynamic.len() && d == dynamic.take(d.len() as int)
            &&& l.len() < loaded.len() ==> d.len() == 0
            &&& fits(request, profile, l, d, summary) || (l.len() == 0 && d.len() == 0)
            &&& d.len() < dynamic.len() && l.len() == loaded.len() ==> !fits(
                request,
                profile,
                loaded,
                dynamic.take(d.len() as int + 1),
                summary,
            )
            &&& l.len() < loaded.len() ==> !fits(
                request,
                profile,
                loaded.take(l.len() as int + 1),
                Seq::empty(),
                summary,
            )
        }),
    decreases loaded.len() + dynamic.len(),
{
    let (l, d) = fitting_memories(request, profile, loaded, dynamic, summary);
    if fits(request, profile, loaded, dynamic, summary) {
        assert(loaded.take(l.len() as int) == loaded);
        assert(dynamic.take(d.len() as int) == dynamic);
    } else if dynamic.len() > 0 {
        let shorter = dynamic.drop_last();
        law_trimming(request, profile, loaded, shorter, summary);
        assert(shorter.take(d.len() as int) == dynamic.take(d.len() as int));
        if d.len() + 1 == dynamic.len() {
            assert(dynamic.take(d.len() as int + 1) == dynamic);
        } else {
            assert(shorter.take(d.len() as int + 1) == dynamic.take(d.len() as int + 1));
        }
    } else if loaded.len() > 0 {
        let shorter = loaded.drop_last();
        law_trimming(request, profile, shorter, dynamic, summary);
        assert(shorter.take(l.len() as int) == loaded.take(l.len() as int));
        assert(dynamic == Seq::<Seq<char>>::empty());
        if l.len() + 1 == loaded.len() {
            assert(loaded.take(l.len() as int + 1) == loaded);
        } else {
            assert(shorter.take(l.len() as int + 1) == loaded.take(l.len() as int + 1));
        }
    } else {
        assert(loaded.take(0) == loaded);
        assert(dynamic.take(0) == dynamic);
    }
}

proof fn lemma_not_empty_keeps(texts: Seq<Seq<char>>, i: int)
    requires
        0 <= i < texts.len(),
        texts[i].len() > 0,
    ensures
        not_empty(texts).contains(texts[i]),
    decreases texts.len(),
{
    let before = not_empty(texts.drop_last());
    if i == texts.len() - 1 {
        assert(not_empty(texts)[before.len() as int] == texts[i]);
    } else {
        lemma_not_empty_keeps(texts.drop_last(), i);
        let k = before.index_of(texts[i]);
        assert(not_empty(texts)[k] == texts[i]);
    }
}

/// Whatever the budget, only memories are trimmed: context, rules, identity, custom text and the
/// format instruction stand in the system message, each as it is, unless they are empty.
pub proof fn law_only_memories_are_trimmed(
    request: PriestRequestView,
    profile: ProfileView,
    loaded: Seq<Seq<char>>,
    dynamic: Seq<Seq<char>>,
    summary: Option<Seq<char>>,
)
    ensures
        ({
            let (l, d) = fitting_memories(request, profile, loaded, dynamic, summary);
            let parts = system_parts(request, profile, l, d, summary);
            let instruction = format_instruction(request.output.prompt_format);
            &&& system_text(request, profile, l, d, summary) == joined(parts, "\n\n"@)
            &&& forall|i: int|
                0 <= i < request.context.len() && (#[trigger] request.context[i]).len() > 0
                    ==> parts.contains(request.context[i])
            &&& profile.rules.len() > 0 ==> parts.contains(profile.rules)
            &&& profile.identity.len() > 0 ==> parts.contains(profile.identity)
            &&& profile.custom.len() > 0 ==> parts.contains(profile.custom)
            &&& instruction.len() > 0 ==> parts.contains(instruction)
        }),
{
    let (l, d) = fitting_memories(request, profile, loaded, dynamic, summary);
    let parts = system_parts(request, profile, l, d, summary);
    let context = not_empty(request.context);
    assert forall|i: int|
        0 <= i < request.context.len() && (#[trigger] request.context[i]).len()
            > 0 implies parts.contains(request.context[i]) by {
        lemma_not_empty_keeps(request.context, i);
        let k = context.index_of(request.context[i]);
        assert(parts[k] == request.context[i]);
    }
    let at_rules = context.len() as int;
    let at_identity = at_rules + if_not_empty(profile.rules).len();
    let at_custom = at_identity + if_not_empty(profile.identity).len();
    if profile.rules.len() > 0 {
        assert(parts[at_rules] == profile.rules);
    }
    if profile.identity.len() > 0 {
        assert(parts[at_identity] == profile.identity);
    }
    if profile.custom.len() > 0 {
        assert(parts[at_custom] == profile.custom);
    }
    let instruction = format_instruction(request.output.prompt_format);
    if instruction.len() > 0 {
        assert(parts[parts.len() - 1] == instruction);
    }
}

// ---- The replayed turns ----

/// The nearest start of a window, from `start` down to `floor`, at which a user speaks.
pub open spec fn snapped(turns: Seq<TurnView>, floor: nat, start: nat) -> nat
    decreases start,
{
    if floor < start < turns.len() && turns[start as int].role != "user"@ {
        snapped(turns, floor, (start - 1) as nat)
    } else {
        start
    }
}

/// Where the replay of a session's turns starts: behind what is summarized, and with a cap on the
/// turns not before the last `cap` turns, or a little before, so that a user's turn comes first.
pub open spec fn window_start(turns: Seq<TurnView>, floor: nat, cap: Option<usize>) -> nat {
    match cap {
        Some(n) => {
            let tail = if turns.len() > n {
                (turns.len() - n) as nat
            } else {
                0
            };
            snapped(
                turns,
                floor,
                if tail > floor {
                    tail
                } else {
                    floor
                },
            )
        },
        None => floor,
    }
}

fn find_window_start(turns: &Vec<Turn>, floor: usize, cap: Option<usize>) -> (r: usize)
    requires
        floor <= turns@.len(),
    ensures
        r == window_start(turns.deep_view(), floor as nat, cap),
        floor <= r <= turns@.len(),
{
    let mut start: usize = floor;
    if let Some(n) = cap {
        let tail: usize = if turns.len() > n {
            turns.len() - n
        } else {
            0
        };
        if tail > floor {
            start = tail;
        }
        let ghost target = snapped(turns.deep_view(), floor as nat, start as nat);
        while start > floor && start < turns.len() && !text::same(
            turns[start].role.as_str(),
            "user",
        )
            invariant
                floor <= start <= turns@.len(),
                target == snapped(turns.deep_view(), floor as nat, start as nat),
            decreases start,
        {
            start -= 1;
        }
    }
    start
}

/// The replayed window never reaches back into summarized turns. With a cap it covers at least the
/// last `cap` turns that are not summarized, and it opens on a user's turn unless it opens at the
/// end of what is summarized or is empty; every turn that it takes in beyond the cap follows the
/// user's turn it opens on without another user's turn in between, and so does the first of the last
/// `cap`. With a cap of 0 it is empty.
pub proof fn law_window(turns: Seq<TurnView>, floor: nat, cap: usize)
    requires
        floor <= turns.len(),
    ensures
        ({
            let start = window_start(turns, floor, Some(cap));
            &&& floor <= start <= turns.len()
            &&& start == floor || start <= turns.len() - cap
            &&& start == floor || start == turns.len() || turns[start as int].role == "user"@
            &&& forall|i: int|
                start < i <= turns.len() - cap && i < turns.len() ==> (#[trigger] turns[i]).role
                    != "user"@
            &&& cap == 0 ==> start == turns.len()
        }),
        window_start(turns, floor, None) == floor,
{
    let tail = if turns.len() > cap {
        (turns.len() - cap) as nat
    } else {
        0
    };
    lemma_snapped(
        turns,
        floor,
        if tail > floor {
            tail
        } else {
            floor
        },
    );
}

proof fn lemma_snapped(turns: Seq<TurnView>, floor: nat, start: nat)
    requires
        floor <= start <= turns.len(),
    ensures
        ({
            let r = snapped(turns, floor, start);
            &&& floor <= r <= start
            &&& r == floor || r == turns.len() || turns[r as int].role == "user"@
            &&& forall|i: int| r < i <= start && i < turns.len() ==> (#[trigger] turns[i]).role
                != "user"@
        }),
    decreases start,
{
    if floor < start < turns.len() && turns[start as int].role != "user"@ {
        lemma_snapped(turns, floor, (start - 1) as nat);
    }
}

/// A turn as a message.
pub open spec fn turn_message(turn: TurnView) -> MessageView {
    plain_message(turn.role, turn.content)
}

/// The turns from `start` on as messages.
pub open spec fn replayed(turns: Seq<TurnView>, start: nat) -> Seq<MessageView> {
    Seq::new((turns.len() - start) as nat, |i: int| turn_message(turns[start + i]))
}

// ---- All messages ----

/// The text of the user's message: the prompt and what stands with it.
pub open spec fn user_text(request: PriestRequestView) -> Seq<char> {
    joined(seq![request.prompt] + not_empty(request.user_context), "\n\n"@)
}

fn assemble_user_content(request: &PriestRequest) -> (r: String)
    ensures
        r@ == user_text(request.deep_view()),
{
    let mut parts: Vec<String> = Vec::new();
    text::push_text(&mut parts, request.prompt.clone());
    text::push_not_empty(&mut parts, &request.user_context);
    assert(parts.deep_view() =~= seq![request.deep_view().prompt] + not_empty(
        request.deep_view().user_context,
    ));
    text::join(&parts, "\n\n")
}

/// An entry of the tool exchange as a message.
pub open spec fn exchange_message(turn: ToolExchangeTurnView) -> MessageView {
    match turn {
        ToolExchangeTurnView::Assistant { text, tool_calls, reasoning } => MessageView {
            role: "assistant"@,
            content: match text {
                Some(t) => t,
                None => ""@,
            },
            tool_calls: Some(tool_calls),
            tool_call_id: None,
            name: None,
            reasoning,
        },
        ToolExchangeTurnView::ToolResult { tool_call_id, name, content, .. } => MessageView {
            role: "tool"@,
            content,
            tool_calls: None,
            tool_call_id: Some(tool_call_id),
            name: Some(name),
            reasoning: None,
        },
    }
}

/// The tool exchange as messages.
pub open spec fn exchange_messages(turns: Seq<ToolExchangeTurnView>) -> Seq<MessageView> {
    Seq::new(turns.len(), |i: int| exchange_message(turns[i]))
}

fn replay_exchange_turn(turn: &ToolExchangeTurn) -> (r: Message)
    ensures
        r.deep_view() == exchange_message(turn.deep_view()),
{
    match turn {
        ToolExchangeTurn::Assistant { text, tool_calls, reasoning } => {
            let calls = tool_calls.clone();
            assert(calls.deep_view() =~= tool_calls.deep_view());
            Message {
                role: "assistant".to_owned(),
                content: match text {
                    Some(t) => t.clone(),
                    None => "".to_owned(),
                },
                tool_calls: Some(calls),
                tool_call_id: None,
                name: None,
                reasoning: reasoning.clone(),
            }
        },
        ToolExchangeTurn::ToolResult { tool_call_id, name, content, .. } => Message {
            role: "tool".to_owned(),
            content: content.clone(),
            tool_calls: None,
            tool_call_id: Some(tool_call_id.clone()),
            name: Some(name.clone()),
            reasoning: None,
        },
    }
}

/// The compaction state that shapes the messages: that of the session, if there is one.
pub open spec fn compaction_of(session: Option<SessionView>) -> CompactionStateView {
    match session {
        Some(s) => s.compaction(),
        None => no_compaction(),
    }
}

/// Whether a session's summary covers no more turns than there are.
pub open spec fn summary_in_bounds(session: SessionView) -> bool {
    session.compaction().summarized_through <= session.turns.len()
}

/// The system message's text once the memories are made to fit.
pub open spec fn fitted_system_text(
    request: PriestRequestView,
    profile: ProfileView,
    summary: Option<Seq<char>>,
) -> Seq<char> {
    let loaded = solid_memories(profile.memories);
    let (l, d) = fitting_memories(
        request,
        profile,
        loaded,
        fresh_memory(request.memory, loaded),
        summary,
    );
    system_text(request, profile, l, d, summary)
}

/// Where the replay of a session starts for a request.
pub open spec fn replay_start(request: PriestRequestView, session: SessionView) -> nat {
    window_start(
        session.turns,
        session.compaction().summarized_through as nat,
        request.config.session_context_turns,
    )
}

/// The messages that go to a provider, in order: the system message if it has any text, the
/// session's turns that are not summarized, the user's message, the tool exchange.
pub open spec fn messages_for(
    request: PriestRequestView,
    profile: ProfileView,
    session: Option<SessionView>,
) -> Seq<MessageView> {
    let compaction = compaction_of(session);
    let system = fitted_system_text(request, profile, compaction.summary);
    let opening = if system.len() == 0 {
        Seq::empty()
    } else {
        seq![plain_message("system"@, system)]
    };
    let history = match session {
        Some(s) => replayed(s.turns, replay_start(request, s)),
        None => Seq::empty(),
    };
    opening + history + seq![plain_message("user"@, user_text(request))] + exchange_messages(
        request.tool_exchange,
    )
}

/// Every turn of the window is replayed as it is, in order, between the system message, if there is
/// one, and the user's message. Without a cap the window is all that is not summarized.
pub proof fn law_history_is_replayed(
    request: PriestRequestView,
    profile: ProfileView,
    session: SessionView,
)
    requires
        summary_in_bounds(session),
    ensures
        ({
            let messages = messages_for(request, profile, Some(session));
            let start = replay_start(request, session);
            let count = session.turns.len() - start;
            let from: int = if fitted_system_text(
                request,
                profile,
                session.compaction().summary,
            ).len() == 0 {
                0
            } else {
                1
            };
            &&& session.compaction().summarized_through <= start <= session.turns.len()
            &&& request.config.session_context_turns is None ==> start
                == session.compaction().summarized_through
            &&& messages.len() == from + count + 1 + request.tool_exchange.len()
            &&& forall|i: int|
                0 <= i < count ==> #[trigger] messages[from + i] == plain_message(
                    session.turns[start + i].role,
                    session.turns[start + i].content,
                )
            &&& messages[from + count] == plain_message("user"@, user_text(request))
        }),
{
    if let Some(cap) = request.config.session_context_turns {
        law_window(session.turns, session.compaction().summarized_through as nat, cap);
    }
}

/// Builds the messages that go to a provider.
pub fn build_messages(
    request: &PriestRequest,
    profile: &Profile,
    session: Option<&Session>,
) -> (r: Vec<Message>)
    requires
        session is Some ==> summary_in_bounds(session->0.deep_view()),
    ensures
        r.deep_view() == messages_for(
            request.deep_view(),
            profile.deep_view(),
            session.deep_view(),
        ),
{
    let ghost request_view = request.deep_view();
    let ghost profile_view = profile.deep_view();
    let compaction = match session {
        Some(s) => s.get_compaction(),
        None => CompactionState::default(),
    };
    let mut loaded = normalize_memories(&profile.memories);
    let mut dynamic = deduplicate_memory(&request.memory, &loaded);
    let system = fit_memories(request, profile, &mut loaded, &mut dynamic, &compaction.summary);

    let mut messages: Vec<Message> = Vec::new();
    if !system.as_str().is_empty() {
        push_message(&mut messages, Message::system(system.as_str()));
    }
    let ghost opening = messages.deep_view();
    let ghost mut history: Seq<MessageView> = Seq::empty();
    if let Some(s) = session {
        let start = find_window_start(
            &s.turns,
            compaction.summarized_through,
            request.config.session_context_turns,
        );
        let ghost all = replayed(s.deep_view().turns, start as nat);
        let mut i: usize = start;
        assert(opening + all.take(0) =~= opening);
        while i < s.turns.len()
            invariant
                start <= i <= s.turns@.len(),
                all == replayed(s.deep_view().turns, start as nat),
                messages.deep_view() == opening + all.take(i - start),
            decreases s.turns@.len() - i,
        {
            let turn = &s.turns[i];
            assert(all.take(i - start + 1) =~= all.take(i - start).push(
                turn_message(turn.deep_view()),
            ));
            push_message(
                &mut messages,
                Message::plain(turn.role.as_str(), turn.content.as_str()),
            );
            i += 1;
            assert(messages.deep_view() =~= opening + all.take(i - start));
        }
        assert(all.take(i - start) =~= all);
        proof {
            history = all;
        }
    }
    assert(messages.deep_view() =~= opening + history);
    let user = assemble_user_content(request);
    push_message(&mut messages, Message::user(user.as_str()));

    let ghost before = messages.deep_view();
    let ghost all = exchange_messages(request_view.tool_exchange);
    let mut i: usize = 0;
    assert(before + all.take(0) =~= before);
    while i < request.tool_exchange.len()
        invariant
            i <= request.tool_exchange@.len(),
            request_view == request.deep_view(),
            all == exchange_messages(request_view.tool_exchange),
            messages.deep_view() == before + all.take(i as int),
        decreases request.tool_exchange@.len() - i,
    {
        let turn = &request.tool_exchange[i];
        assert(all.take(i + 1) =~= all.take(i as int).push(exchange_message(turn.deep_view())));
        push_message(&mut messages, replay_exchange_turn(turn));
        i += 1;
        assert(messages.deep_view() =~= before + all.take(i as int));
    }
    assert(all.take(i as int) =~= all);
    assert(messages.deep_view() =~= messages_for(
        request_view,
        profile_view,
        session.deep_view(),
    ));
    messages
}

} // verus!
