//! Conversation compaction.
//!
//! A long session replays its full turn history on every call, so input cost grows with each turn.
//! Compaction folds the older turns into a running summary and replays only a recent tail. It is
//! non-destructive: raw turns stay in the store, and only the replayed view shrinks. The summary
//! lives in session metadata.

use crate::context_builder::{plain_message, Message, MessageView};
use crate::session::model::{Turn, TurnView};
use crate::text;
use crate::text::{joined, trimmed, uppercase};
use vstd::prelude::*;

verus! {

/// Compact when the previous turn's input usage exceeds this fraction of the budget: four fifths.
pub const COMPACTION_TRIGGER_NUMERATOR: u64 = 4;

pub const COMPACTION_TRIGGER_DENOMINATOR: u64 = 5;

/// Most-recent turns kept verbatim; older turns fold into the summary.
pub const DEFAULT_COMPACTION_KEEP_TURNS: usize = 6;

/// Output cap for the summary-generation call, which keeps the summary itself bounded.
pub const SUMMARY_MAX_OUTPUT_TOKENS: u32 = 1024;

/// Whether the previous turn's input size exceeds four fifths of the budget. Without a budget, with
/// a budget of nothing and before the first measured turn it does not.
pub open spec fn over_budget(last: Option<u32>, budget: Option<u32>) -> bool {
    match (last, budget) {
        (Some(l), Some(b)) => b > 0 && COMPACTION_TRIGGER_DENOMINATOR * l
            > COMPACTION_TRIGGER_NUMERATOR * b,
        _ => false,
    }
}

/// Whether the previous turn's input size warrants compaction. Off when no budget is set.
pub fn should_compact(last_input_tokens: Option<u32>, max_context_tokens: Option<u32>) -> (r: bool)
    ensures
        r == over_budget(last_input_tokens, max_context_tokens),
{
    match (last_input_tokens, max_context_tokens) {
        (Some(last), Some(budget)) => budget > 0 && COMPACTION_TRIGGER_DENOMINATOR * (last as u64)
            > COMPACTION_TRIGGER_NUMERATOR * (budget as u64),
        _ => false,
    }
}

/// A planned compaction round.
#[derive(Debug)]
pub struct CompactionPlan {
    /// Turns to fold this round: those after what is already summarized and before the tail.
    pub to_summarize: Vec<Turn>,
    /// Index into the session's turns that the new summary will cover up to.
    pub summarized_through: usize,
}

/// What a `CompactionPlan` holds.
pub struct CompactionPlanView {
    pub to_summarize: Seq<TurnView>,
    pub summarized_through: usize,
}

impl DeepView for CompactionPlan {
    type V = CompactionPlanView;

    open spec fn deep_view(&self) -> CompactionPlanView {
        CompactionPlanView {
            to_summarize: self.to_summarize.deep_view(),
            summarized_through: self.summarized_through,
        }
    }
}

/// Where the turns that stay verbatim begin.
pub open spec fn tail_start(turns: Seq<TurnView>, keep: usize) -> int {
    if turns.len() > keep {
        turns.len() - keep
    } else {
        0
    }
}

/// The next compaction round: all turns between what is summarized and the tail, if there are any.
pub open spec fn planned(
    turns: Seq<TurnView>,
    already: usize,
    keep: usize,
) -> Option<CompactionPlanView> {
    let tail = tail_start(turns, keep);
    if tail <= already {
        None
    } else {
        Some(
            CompactionPlanView {
                to_summarize: turns.subrange(already as int, tail),
                summarized_through: tail as usize,
            },
        )
    }
}

/// Plans a compaction round: every turn after what is already summarized and before the kept tail
/// is folded. `None` when there is nothing new to fold.
pub fn plan_compaction(
    turns: &[Turn],
    already_summarized_through: usize,
    keep_turns: usize,
) -> (r: Option<CompactionPlan>)
    ensures
        r.deep_view() == planned(turns.deep_view(), already_summarized_through, keep_turns),
{
    let tail: usize = if turns.len() > keep_turns {
        turns.len() - keep_turns
    } else {
        0
    };
    if tail <= already_summarized_through {
        return None;
    }
    let mut to_summarize: Vec<Turn> = Vec::new();
    let mut i: usize = already_summarized_through;
    while i < tail
        invariant
            already_summarized_through <= i <= tail <= turns@.len(),
            to_summarize.deep_view() == turns.deep_view().subrange(
                already_summarized_through as int,
                i as int,
            ),
        decreases tail - i,
    {
        let ghost before = to_summarize.deep_view();
        let turn = turns[i].clone();
        assert(turn.deep_view() == turns.deep_view()[i as int]);
        to_summarize.push(turn);
        i += 1;
        assert(to_summarize.deep_view() =~= before.push(turn.deep_view()));
        assert(to_summarize.deep_view() =~= turns.deep_view().subrange(
            already_summarized_through as int,
            i as int,
        ));
    }
    Some(CompactionPlan { to_summarize, summarized_through: tail })
}

/// A round folds something, moves the summary forward, keeps the last `keep` turns out of it, and
/// leaves no gap: what was summarized, what is folded now and the tail are all turns in order. Once
/// the round is done, planning again with the same turns gives nothing.
pub proof fn law_compaction_round(turns: Seq<TurnView>, already: usize, keep: usize)
    requires
        turns.len() <= usize::MAX,
        planned(turns, already, keep) is Some,
    ensures
        ({
            let plan = planned(turns, already, keep)->0;
            &&& plan.to_summarize.len() > 0
            &&& already < plan.summarized_through <= turns.len()
            &&& turns.len() - plan.summarized_through == keep
            &&& turns == turns.take(already as int) + plan.to_summarize + turns.skip(
                plan.summarized_through as int,
            )
            &&& planned(turns, plan.summarized_through, keep) is None
        }),
{
    let plan = planned(turns, already, keep)->0;
    assert(turns =~= turns.take(already as int) + plan.to_summarize + turns.skip(
        plan.summarized_through as int,
    ));
}

/// What the model that writes the summary is told.
pub const SUMMARY_SYSTEM: &'static str =
    "You compress prior conversation into a compact running summary so the assistant can continue without the full transcript. Preserve the user's goals and constraints, decisions made, facts established within the conversation, and open or unresolved threads. Durable user facts are stored separately as memory — do not re-list them. Capture the conversation's trajectory and the context needed to continue it. Write a tight synopsis, not a turn-by-turn log. When an earlier summary is provided, merge the new turns into it and return a single updated summary with no preamble.";

/// A turn as a line of a transcript.
pub open spec fn transcript_entry(turn: TurnView) -> Seq<char> {
    uppercase(turn.role) + ": "@ + turn.content
}

/// The turns as a transcript.
pub open spec fn transcript(turns: Seq<TurnView>) -> Seq<char> {
    joined(Seq::new(turns.len(), |i: int| transcript_entry(turns[i])), "\n\n"@)
}

fn write_transcript(turns: &[Turn]) -> (r: String)
    ensures
        r@ == transcript(turns.deep_view()),
{
    let mut entries: Vec<String> = Vec::new();
    let ghost all = Seq::new(
        turns.deep_view().len(),
        |i: int| transcript_entry(turns.deep_view()[i]),
    );
    let mut i: usize = 0;
    assert(entries.deep_view() =~= all.take(0));
    while i < turns.len()
        invariant
            i <= turns@.len(),
            all == Seq::new(
                turns.deep_view().len(),
                |i: int| transcript_entry(turns.deep_view()[i]),
            ),
            entries.deep_view() == all.take(i as int),
        decreases turns@.len() - i,
    {
        let turn = &turns[i];
        assert(turn.deep_view() == turns.deep_view()[i as int]);
        let entry = text::to_upper(turn.role.as_str()).concat(": ").concat(turn.content.as_str());
        text::push_text(&mut entries, entry);
        i += 1;
        assert(entries.deep_view() =~= all.take(i as int));
    }
    assert(all.take(i as int) =~= all);
    text::join(&entries, "\n\n")
}

/// What the model that writes the summary is asked.
pub open spec fn summary_request(existing: Option<Seq<char>>, turns: Seq<TurnView>) -> Seq<char> {
    if existing is Some && trimmed(existing->0).len() > 0 {
        "Existing summary so far:\n\n"@ + trimmed(existing->0)
            + "\n\n---\n\nNew conversation turns to fold in:\n\n"@ + transcript(turns)
            + "\n\n---\n\nReturn one updated summary."@
    } else {
        "Conversation turns to summarize:\n\n"@ + transcript(turns)
            + "\n\n---\n\nReturn the summary."@
    }
}

/// The messages of the summary-generation call.
pub open spec fn summary_messages(
    existing: Option<Seq<char>>,
    turns: Seq<TurnView>,
) -> Seq<MessageView> {
    seq![
        plain_message("system"@, SUMMARY_SYSTEM@),
        plain_message("user"@, summary_request(existing, turns)),
    ]
}

/// Builds the messages of the summary-generation call, in which the existing summary and the new
/// turns become one updated summary.
pub fn build_summary_messages(existing_summary: Option<&str>, to_summarize: &[Turn]) -> (r: Vec<
    Message,
>)
    ensures
        r.deep_view() == summary_messages(
            existing_summary.deep_view(),
            to_summarize.deep_view(),
        ),
{
    let transcript_text = write_transcript(to_summarize);
    let prior = match existing_summary {
        Some(s) => text::trim(s),
        None => String::new(),
    };
    let user = if prior.as_str().is_empty() {
        "Conversation turns to summarize:\n\n".to_owned().concat(transcript_text.as_str()).concat(
            "\n\n---\n\nReturn the summary.",
        )
    } else {
        "Existing summary so far:\n\n".to_owned().concat(prior.as_str()).concat(
            "\n\n---\n\nNew conversation turns to fold in:\n\n",
        ).concat(transcript_text.as_str()).concat("\n\n---\n\nReturn one updated summary.")
    };
    let mut messages: Vec<Message> = Vec::new();
    messages.push(Message::system(SUMMARY_SYSTEM));
    messages.push(Message::user(user.as_str()));
    assert(messages.deep_view() =~= summary_messages(
        existing_summary.deep_view(),
        to_summarize.deep_view(),
    ));
    messages
}

} // verus!
