//! When and how the engine compacts a session.

use crate::clock;
use crate::clock::Timestamp;
use crate::compactor::{
    build_summary_messages, plan_compaction, planned, summary_messages,
    DEFAULT_COMPACTION_KEEP_TURNS, SUMMARY_MAX_OUTPUT_TOKENS,
};
use crate::context_builder::{Message, MessageView};
use crate::errors::{result_view, PriestError, PriestErrorView};
use crate::providers::adapter::{AdapterResult, AdapterResultView};
use crate::schema::config::{PriestConfig, PriestConfigView};
use crate::session::model::{Session, SessionView};
use crate::text;
use crate::text::trimmed;
use vstd::prelude::*;

verus! {

/// A call that writes a summary.
#[derive(Debug)]
pub struct SummaryCall {
    pub messages: Vec<Message>,
    pub config: PriestConfig,
    /// How many turns the summary will cover.
    pub through: usize,
}

/// What a `SummaryCall` holds.
pub struct SummaryCallView {
    pub messages: Seq<MessageView>,
    pub config: PriestConfigView,
    pub through: usize,
}

impl DeepView for SummaryCall {
    type V = SummaryCallView;

    open spec fn deep_view(&self) -> SummaryCallView {
        SummaryCallView {
            messages: self.messages.deep_view(),
            config: self.config.deep_view(),
            through: self.through,
        }
    }
}

/// How many turns stay verbatim.
pub open spec fn keep_turns(config: PriestConfigView) -> usize {
    match config.compaction_keep_turns {
        Some(n) => n,
        None => DEFAULT_COMPACTION_KEEP_TURNS,
    }
}

/// The configuration of a call that writes a summary: the caller's, with a cap on the output where
/// the caller set none.
pub open spec fn summary_config(config: PriestConfigView) -> PriestConfigView {
    PriestConfigView {
        max_output_tokens: match config.max_output_tokens {
            Some(n) => Some(n),
            None => Some(SUMMARY_MAX_OUTPUT_TOKENS),
        },
        ..config
    }
}

/// The call that writes the next summary of a session: none where there is nothing new to fold.
pub open spec fn summary_call(session: SessionView, config: PriestConfigView) -> Option<
    SummaryCallView,
> {
    let state = session.compaction();
    match planned(session.turns, state.summarized_through, keep_turns(config)) {
        Some(plan) => Some(
            SummaryCallView {
                messages: summary_messages(state.summary, plan.to_summarize),
                config: summary_config(config),
                through: plan.summarized_through,
            },
        ),
        None => None,
    }
}

/// The call that writes the next summary of a session.
pub fn plan_summary(session: &Session, config: &PriestConfig) -> (r: Option<SummaryCall>)
    ensures
        r.deep_view() == summary_call(session.deep_view(), config.deep_view()),
        r matches Some(call) ==> call.through <= session.turns@.len(),
{
    let keep = match config.compaction_keep_turns {
        Some(n) => n,
        None => DEFAULT_COMPACTION_KEEP_TURNS,
    };
    let state = session.get_compaction();
    match plan_compaction(session.turns.as_slice(), state.summarized_through, keep) {
        Some(plan) => {
            let messages = match &state.summary {
                Some(summary) => build_summary_messages(
                    Some(summary.as_str()),
                    plan.to_summarize.as_slice(),
                ),
                None => build_summary_messages(None, plan.to_summarize.as_slice()),
            };
            let mut summary_config = config.clone();
            if summary_config.max_output_tokens.is_none() {
                summary_config.max_output_tokens = Some(SUMMARY_MAX_OUTPUT_TOKENS);
            }
            Some(
                SummaryCall {
                    messages,
                    config: summary_config,
                    through: plan.summarized_through,
                },
            )
        },
        None => None,
    }
}

/// A session once its summary was written: none where the summary is blank.
pub open spec fn compacted(
    session: SessionView,
    summary: Seq<char>,
    through: usize,
    now: Timestamp,
) -> Option<SessionView> {
    if trimmed(summary).len() == 0 {
        None
    } else {
        Some(session.with_summary(trimmed(summary), through, now, now))
    }
}

/// Folds a summary into a session, and says whether it did: a blank summary changes nothing.
pub fn fold_summary(session: &mut Session, summary: &str, through: usize, now: Timestamp) -> (r:
    bool)
    requires
        now.is_instant(),
    ensures
        r == (compacted(old(session).deep_view(), summary@, through, now) is Some),
        final(session).deep_view() == match compacted(
            old(session).deep_view(),
            summary@,
            through,
            now,
        ) {
            Some(after) => after,
            None => old(session).deep_view(),
        },
{
    let solid = text::trim(summary);
    if solid.as_str().is_empty() {
        return false;
    }
    session.apply_compaction_at(solid, through, now, now);
    true
}

// ---- Compaction on demand ----

/// Where a compaction on demand stands.
#[derive(Debug)]
pub enum CompactStage {
    AwaitSession,
    AwaitSummary { session: Session, through: usize },
    AwaitSaved { through: usize },
    Finished,
}

/// What a `CompactStage` holds.
pub enum CompactStageView {
    AwaitSession,
    AwaitSummary { session: SessionView, through: usize },
    AwaitSaved { through: usize },
    Finished,
}

impl DeepView for CompactStage {
    type V = CompactStageView;

    open spec fn deep_view(&self) -> CompactStageView {
        match self {
            CompactStage::AwaitSession => CompactStageView::AwaitSession,
            CompactStage::AwaitSummary { session, through } => CompactStageView::AwaitSummary {
                session: session.deep_view(),
                through: *through,
            },
            CompactStage::AwaitSaved { through } => CompactStageView::AwaitSaved {
                through: *through,
            },
            CompactStage::Finished => CompactStageView::Finished,
        }
    }
}

/// A compaction on demand.
#[derive(Debug)]
pub struct CompactRun {
    pub session_id: String,
    pub config: PriestConfig,
    /// Whether there is an adapter for the configured provider.
    pub registered: bool,
    pub stage: CompactStage,
}

/// What a `CompactRun` holds.
pub struct CompactRunView {
    pub session_id: Seq<char>,
    pub config: PriestConfigView,
    pub registered: bool,
    pub stage: CompactStageView,
}

impl DeepView for CompactRun {
    type V = CompactRunView;

    open spec fn deep_view(&self) -> CompactRunView {
        CompactRunView {
            session_id: self.session_id@,
            config: self.config.deep_view(),
            registered: self.registered,
            stage: self.stage.deep_view(),
        }
    }
}

/// What came of an action.
#[derive(Debug)]
pub enum CompactEvent {
    SessionFound(Result<Option<Session>, PriestError>),
    Summarized(Result<AdapterResult, PriestError>),
    Saved(Result<(), PriestError>),
}

/// What a `CompactEvent` holds.
pub enum CompactEventView {
    SessionFound(Result<Option<SessionView>, PriestErrorView>),
    Summarized(Result<AdapterResultView, PriestErrorView>),
    Saved(Result<(), PriestErrorView>),
}

impl DeepView for CompactEvent {
    type V = CompactEventView;

    open spec fn deep_view(&self) -> CompactEventView {
        match self {
            CompactEvent::SessionFound(r) => CompactEventView::SessionFound(result_view(*r)),
            CompactEvent::Summarized(r) => CompactEventView::Summarized(result_view(*r)),
            CompactEvent::Saved(r) => CompactEventView::Saved(result_view(*r)),
        }
    }
}

/// What is to be done next.
#[derive(Debug)]
pub enum CompactAction {
    GetSession { id: String },
    /// Call the configured provider without tools and without an output format.
    Summarize { messages: Vec<Message>, config: PriestConfig },
    SaveSession { session: Session },
    /// The compaction is over. It says whether anything was folded, and how many turns the summary
    /// covers.
    Return(Result<(bool, usize), PriestError>),
}

/// What a `CompactAction` holds.
pub enum CompactActionView {
    GetSession { id: Seq<char> },
    Summarize { messages: Seq<MessageView>, config: PriestConfigView },
    SaveSession { session: SessionView },
    Return(Result<(bool, usize), PriestErrorView>),
}

impl DeepView for CompactAction {
    type V = CompactActionView;

    open spec fn deep_view(&self) -> CompactActionView {
        match self {
            CompactAction::GetSession { id } => CompactActionView::GetSession { id: id@ },
            CompactAction::Summarize { messages, config } => CompactActionView::Summarize {
                messages: messages.deep_view(),
                config: config.deep_view(),
            },
            CompactAction::SaveSession { session } => CompactActionView::SaveSession {
                session: session.deep_view(),
            },
            CompactAction::Return(r) => CompactActionView::Return(result_view(*r)),
        }
    }
}

/// How a compaction on demand begins. Without a store there is nothing to compact.
pub open spec fn compact_start(
    session_id: Seq<char>,
    config: PriestConfigView,
    registered: bool,
    has_store: bool,
) -> (CompactRunView, CompactActionView) {
    let run = CompactRunView {
        session_id,
        config,
        registered,
        stage: CompactStageView::AwaitSession,
    };
    if has_store {
        (run, CompactActionView::GetSession { id: session_id })
    } else {
        (
            CompactRunView { stage: CompactStageView::Finished, ..run },
            CompactActionView::Return(Ok((false, 0))),
        )
    }
}

/// The error for what came out of turn.
pub open spec fn out_of_turn() -> PriestErrorView {
    PriestErrorView::InternalError { message: "unexpected event"@ }
}

/// The error for what came out of turn.
pub fn unexpected_event() -> (r: PriestError)
    ensures
        r.deep_view() == out_of_turn(),
{
    PriestError::InternalError { message: "unexpected event".to_owned() }
}

impl CompactRunView {
    /// The end of the compaction.
    pub open spec fn returning(self, outcome: Result<(bool, usize), PriestErrorView>) -> (
        CompactRunView,
        CompactActionView,
    ) {
        (
            CompactRunView { stage: CompactStageView::Finished, ..self },
            CompactActionView::Return(outcome),
        )
    }

    /// What a session that was found leads to.
    pub open spec fn on_session(self, session: SessionView) -> (CompactRunView, CompactActionView) {
        match summary_call(session, self.config) {
            None => self.returning(Ok((false, session.compaction().summarized_through))),
            Some(call) => if !self.registered {
                self.returning(
                    Err(
                        PriestErrorView::ProviderNotRegistered {
                            provider: self.config.provider,
                        },
                    ),
                )
            } else {
                (
                    CompactRunView {
                        stage: CompactStageView::AwaitSummary { session, through: call.through },
                        ..self
                    },
                    CompactActionView::Summarize { messages: call.messages, config: call.config },
                )
            },
        }
    }

    /// What an event leads to.
    pub open spec fn step(self, event: CompactEventView, now: Timestamp) -> (
        CompactRunView,
        CompactActionView,
    ) {
        match (self.stage, event) {
            (CompactStageView::AwaitSession, CompactEventView::SessionFound(found)) => match found {
                Err(e) => self.returning(Err(e)),
                Ok(None) => self.returning(
                    Err(PriestErrorView::SessionNotFound { session_id: self.session_id }),
                ),
                Ok(Some(session)) => self.on_session(session),
            },
            (
                CompactStageView::AwaitSummary { session, through },
                CompactEventView::Summarized(written),
            ) => match written {
                Err(e) => self.returning(Err(e)),
                Ok(result) => match compacted(session, result.text, through, now) {
                    None => self.returning(
                        Ok((false, session.compaction().summarized_through)),
                    ),
                    Some(after) => (
                        CompactRunView {
                            stage: CompactStageView::AwaitSaved { through },
                            ..self
                        },
                        CompactActionView::SaveSession { session: after },
                    ),
                },
            },
            (CompactStageView::AwaitSaved { through }, CompactEventView::Saved(saved)) => match saved {
                Err(e) => self.returning(Err(e)),
                Ok(_) => self.returning(Ok((true, through))),
            },
            _ => self.returning(Err(out_of_turn())),
        }
    }
}

impl CompactRun {
    /// Begins a compaction on demand.
    pub fn start(session_id: &str, config: PriestConfig, registered: bool, has_store: bool) -> (r: (
        CompactRun,
        CompactAction,
    ))
        ensures
            (r.0.deep_view(), r.1.deep_view()) == compact_start(
                session_id@,
                config.deep_view(),
                registered,
                has_store,
            ),
    {
        let mut run = CompactRun {
            session_id: session_id.to_owned(),
            config,
            registered,
            stage: CompactStage::AwaitSession,
        };
        if has_store {
            (run, CompactAction::GetSession { id: session_id.to_owned() })
        } else {
            run.stage = CompactStage::Finished;
            (run, CompactAction::Return(Ok((false, 0))))
        }
    }

    fn finish(self, outcome: Result<(bool, usize), PriestError>) -> (r: (
        CompactRun,
        CompactAction,
    ))
        ensures
            (r.0.deep_view(), r.1.deep_view()) == self.deep_view().returning(result_view(outcome)),
    {
        (CompactRun { stage: CompactStage::Finished, ..self }, CompactAction::Return(outcome))
    }

    fn take_session(self, session: Session) -> (r: (CompactRun, CompactAction))
        ensures
            (r.0.deep_view(), r.1.deep_view()) == self.deep_view().on_session(
                session.deep_view(),
            ),
    {
        let planned_call = plan_summary(&session, &self.config);
        match planned_call {
            None => {
                let through = session.get_compaction().summarized_through;
                self.finish(Ok((false, through)))
            },
            Some(call) => {
                if !self.registered {
                    let provider = self.config.provider.clone();
                    return self.finish(Err(PriestError::ProviderNotRegistered { provider }));
                }
                (
                    CompactRun {
                        stage: CompactStage::AwaitSummary { session, through: call.through },
                        ..self
                    },
                    CompactAction::Summarize { messages: call.messages, config: call.config },
                )
            },
        }
    }

    /// Takes in what came of the last action at the given time, and says what is to be done next.
    pub fn step_at(self, event: CompactEvent, now: Timestamp) -> (r: (CompactRun, CompactAction))
        requires
            now.is_instant(),
        ensures
            (r.0.deep_view(), r.1.deep_view()) == self.deep_view().step(event.deep_view(), now),
    {
        let CompactRun { session_id, config, registered, stage } = self;
        let mut run = CompactRun {
            session_id,
            config,
            registered,
            stage: CompactStage::Finished,
        };
        match (stage, event) {
            (CompactStage::AwaitSession, CompactEvent::SessionFound(found)) => match found {
                Err(e) => run.finish(Err(e)),
                Ok(None) => {
                    let session_id = run.session_id.clone();
                    run.finish(Err(PriestError::SessionNotFound { session_id }))
                },
                Ok(Some(session)) => {
                    run.stage = CompactStage::AwaitSession;
                    run.take_session(session)
                },
            },
            (
                CompactStage::AwaitSummary { session, through },
                CompactEvent::Summarized(written),
            ) => match written {
                Err(e) => run.finish(Err(e)),
                Ok(result) => {
                    let mut after = session;
                    if fold_summary(&mut after, result.text.as_str(), through, now) {
                        run.stage = CompactStage::AwaitSaved { through };
                        (run, CompactAction::SaveSession { session: after })
                    } else {
                        let covered = after.get_compaction().summarized_through;
                        run.finish(Ok((false, covered)))
                    }
                },
            },
            (CompactStage::AwaitSaved { through }, CompactEvent::Saved(saved)) => match saved {
                Err(e) => run.finish(Err(e)),
                Ok(_) => run.finish(Ok((true, through))),
            },
            _ => run.finish(Err(unexpected_event())),
        }
    }

    /// Takes in what came of the last action now, and says what is to be done next.
    pub fn step(self, event: CompactEvent) -> (r: (CompactRun, CompactAction))
        ensures
            exists|now: Timestamp|
                now.is_instant() && (r.0.deep_view(), r.1.deep_view())
                    == #[trigger] self.deep_view().step(event.deep_view(), now),
    {
        let now = clock::now();
        self.step_at(event, now)
    }
}

} // verus!
