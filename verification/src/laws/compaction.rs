//! Laws on the summaries of long conversations.

use crate::compactor::{summary_request, transcript, transcript_entry, SUMMARY_SYSTEM};
use crate::engine::compaction::{keep_turns, summary_call};
use crate::laws::context::said_in;
use crate::laws::texts::{
    in_order, law_joined_holds_its_parts, lemma_in_order_behind, lemma_in_order_concat,
    lemma_in_order_longer, lemma_in_order_one,
};
use crate::schema::config::PriestConfigView;
use crate::session::model::{SessionView, TurnView};
use crate::text::uppercase;
use vstd::prelude::*;

verus! {

/// Turns as a transcript tells them: who speaks, and what is said.
pub open spec fn told(turns: Seq<TurnView>) -> Seq<Seq<char>> {
    Seq::new(turns.len(), |i: int| uppercase(turns[i].role) + ": "@ + turns[i].content)
}

/// What the model is asked to summarise holds the summary so far, where there is one, and behind it
/// every turn with its speaker, in order.
pub proof fn law_summary_request_holds_everything(
    existing: Option<Seq<char>>,
    turns: Seq<TurnView>,
)
    ensures
        in_order(summary_request(existing, turns), seq![said_in(existing)] + told(turns)),
{
    let entries = Seq::new(turns.len(), |i: int| transcript_entry(turns[i]));
    assert(entries =~= told(turns));
    law_joined_holds_its_parts(entries, "\n\n"@);
    let said = said_in(existing);
    if said.len() > 0 {
        let opening = "Existing summary so far:\n\n"@ + said;
        let between = "\n\n---\n\nNew conversation turns to fold in:\n\n"@;
        let ending = "\n\n---\n\nReturn one updated summary."@;
        lemma_in_order_one(said, said);
        lemma_in_order_behind("Existing summary so far:\n\n"@, said, seq![said]);
        lemma_in_order_longer(opening, seq![said], between);
        lemma_in_order_concat(opening + between, seq![said], transcript(turns), told(turns));
        lemma_in_order_longer(
            opening + between + transcript(turns),
            seq![said] + told(turns),
            ending,
        );
    } else {
        let opening = "Conversation turns to summarize:\n\n"@;
        lemma_in_order_one(opening, said);
        lemma_in_order_concat(opening, seq![said], transcript(turns), told(turns));
        lemma_in_order_longer(
            opening + transcript(turns),
            seq![said] + told(turns),
            "\n\n---\n\nReturn the summary."@,
        );
    }
}

/// A new summary is written from all that it replaces: the messages of the summary call are one of
/// the system and one of the user, and the latter holds the summary that the session had and every
/// turn that was not summarised yet, up to the new mark, in order. The mark moves on, and as many
/// turns as are to be kept stay behind it. The call is made as the request's own would be, but for
/// a bound on what is written.
pub proof fn law_summaries_are_carried_on(session: SessionView, config: PriestConfigView)
    requires
        session.turns.len() <= usize::MAX,
    ensures
        summary_call(session, config) matches Some(call) ==> {
            let state = session.compaction();
            let kept: int = match config.compaction_keep_turns {
                Some(n) => n as int,
                None => 6,
            };
            &&& state.summarized_through < call.through <= session.turns.len()
            &&& call.through == session.turns.len() - kept
            &&& call.messages.len() == 2
            &&& call.messages[0].role == "system"@
            &&& call.messages[0].content == SUMMARY_SYSTEM@
            &&& call.messages[1].role == "user"@
            &&& in_order(
                call.messages[1].content,
                seq![said_in(state.summary)] + told(
                    session.turns.subrange(state.summarized_through as int, call.through as int),
                ),
            )
            &&& forall|i: int|
                0 <= i < 2 ==> (#[trigger] call.messages[i]).tool_calls is None
                    && call.messages[i].tool_call_id is None && call.messages[i].name is None
                    && call.messages[i].reasoning is None
            &&& call.config == (PriestConfigView {
                max_output_tokens: call.config.max_output_tokens,
                ..config
            })
            &&& config.max_output_tokens is None ==> call.config.max_output_tokens == Some(1024u32)
            &&& config.max_output_tokens is Some ==> call.config == config
        },
        summary_call(session, config) is None <==> session.turns.len() - keep_turns(config)
            <= session.compaction().summarized_through,
{
    let state = session.compaction();
    if let Some(call) = summary_call(session, config) {
        law_summary_request_holds_everything(
            state.summary,
            session.turns.subrange(state.summarized_through as int, call.through as int),
        );
    }
}

} // verus!
