//! A request on its way: which step follows from what came of the last one.

use super::compaction::{
    compacted, fold_summary, out_of_turn, plan_summary, summary_call, unexpected_event,
};
use super::event::{
    sum_events, summed, totals_fit, EventStream, EventStreamView, PriestStreamEvent,
    PriestStreamEventView, SummedView, TextStream, TextStreamView,
};
use super::reply::{
    answered_response, call_options, failed_response, info_of, options_of, pending_calls,
    session_info, streamed_response, streamed_text, write_answered_response,
    write_failed_response, write_streamed_response,
};
use crate::clock;
use crate::clock::Timestamp;
use crate::compactor::{over_budget, should_compact};
use crate::context_builder::{build_messages, messages_for, summary_in_bounds, Message, MessageView};
use crate::errors::{result_view, PriestError, PriestErrorView};
use crate::lists;
use crate::profile::model::{Profile, ProfileView};
use crate::providers::adapter::{
    AdapterCallOptions, AdapterCallOptionsView, AdapterResult, AdapterResultView,
};
use crate::schema::config::{PriestConfig, PriestConfigView};
use crate::schema::request::{PriestRequest, PriestRequestView};
use crate::schema::response::{PriestResponse, PriestResponseView};
use crate::schema::tools::ProviderToolDefinition;
use crate::session::model::{law_compaction_keeps_raw_turns, Session, SessionView};
use crate::text;
use crate::text::{joined, trimmed};
use vstd::prelude::*;

verus! {

/// How the answer is wanted.
#[derive(Clone, Copy, Debug, PartialEq, Eq, Structural)]
pub enum EngineMode {
    /// As one response.
    Run,
    /// As a stream of text.
    Stream,
    /// As a stream of structured events.
    StreamEvents,
}

/// A session that a request belongs to.
#[derive(Debug)]
pub struct OpenSession {
    pub session: Session,
    /// Whether the session was made for this request.
    pub is_new: bool,
}

/// What an `OpenSession` holds.
pub struct OpenSessionView {
    pub session: SessionView,
    pub is_new: bool,
}

impl DeepView for OpenSession {
    type V = OpenSessionView;

    open spec fn deep_view(&self) -> OpenSessionView {
        OpenSessionView { session: self.session.deep_view(), is_new: self.is_new }
    }
}

/// What a request ends in.
#[derive(Debug)]
pub enum EngineReply {
    Response(PriestResponse),
    Texts(Vec<String>),
    /// A stream of text of which nothing but an error is handed on.
    Broken(PriestError),
    Events(Vec<PriestStreamEvent>),
}

/// What an `EngineReply` holds.
pub enum EngineReplyView {
    Response(PriestResponseView),
    Texts(Seq<Seq<char>>),
    Broken(PriestErrorView),
    Events(Seq<PriestStreamEventView>),
}

impl DeepView for EngineReply {
    type V = EngineReplyView;

    open spec fn deep_view(&self) -> EngineReplyView {
        match self {
            EngineReply::Response(r) => EngineReplyView::Response(r.deep_view()),
            EngineReply::Texts(t) => EngineReplyView::Texts(t.deep_view()),
            EngineReply::Broken(e) => EngineReplyView::Broken(e.deep_view()),
            EngineReply::Events(e) => EngineReplyView::Events(e.deep_view()),
        }
    }
}

/// What a request waits for.
#[derive(Debug)]
pub enum EngineStage {
    AwaitProfile,
    AwaitFound { profile: Profile },
    AwaitCreated { profile: Profile },
    AwaitSummary { profile: Profile, open: OpenSession, through: usize },
    AwaitCompacted { profile: Profile, open: OpenSession },
    AwaitAnswer { opened: Option<OpenSession> },
    /// The reply is ready. Where `strict` is set a session that cannot be saved is an error.
    AwaitSaved { reply: EngineReply, strict: bool },
    Finished,
}

/// What an `EngineStage` holds.
pub enum EngineStageView {
    AwaitProfile,
    AwaitFound { profile: ProfileView },
    AwaitCreated { profile: ProfileView },
    AwaitSummary { profile: ProfileView, open: OpenSessionView, through: usize },
    AwaitCompacted { profile: ProfileView, open: OpenSessionView },
    AwaitAnswer { opened: Option<OpenSessionView> },
    AwaitSaved { reply: EngineReplyView, strict: bool },
    Finished,
}

impl DeepView for EngineStage {
    type V = EngineStageView;

    open spec fn deep_view(&self) -> EngineStageView {
        match self {
            EngineStage::AwaitProfile => EngineStageView::AwaitProfile,
            EngineStage::AwaitFound { profile } => EngineStageView::AwaitFound {
                profile: profile.deep_view(),
            },
            EngineStage::AwaitCreated { profile } => EngineStageView::AwaitCreated {
                profile: profile.deep_view(),
            },
            EngineStage::AwaitSummary { profile, open, through } => EngineStageView::AwaitSummary {
                profile: profile.deep_view(),
                open: open.deep_view(),
                through: *through,
            },
            EngineStage::AwaitCompacted { profile, open } => EngineStageView::AwaitCompacted {
                profile: profile.deep_view(),
                open: open.deep_view(),
            },
            EngineStage::AwaitAnswer { opened: open } => EngineStageView::AwaitAnswer {
                opened: open.deep_view(),
            },
            EngineStage::AwaitSaved { reply, strict } => EngineStageView::AwaitSaved {
                reply: reply.deep_view(),
                strict: *strict,
            },
            EngineStage::Finished => EngineStageView::Finished,
        }
    }
}

/// A request on its way.
#[derive(Debug)]
pub struct EngineRun {
    pub mode: EngineMode,
    pub request: PriestRequest,
    /// Whether there is a store for sessions.
    pub has_store: bool,
    pub stage: EngineStage,
}

/// What an `EngineRun` holds.
pub struct EngineRunView {
    pub mode: EngineMode,
    pub request: PriestRequestView,
    pub has_store: bool,
    pub stage: EngineStageView,
}

impl DeepView for EngineRun {
    type V = EngineRunView;

    open spec fn deep_view(&self) -> EngineRunView {
        EngineRunView {
            mode: self.mode,
            request: self.request.deep_view(),
            has_store: self.has_store,
            stage: self.stage.deep_view(),
        }
    }
}

/// What is to be done next.
#[derive(Debug)]
pub enum EngineAction {
    LoadProfile { name: String },
    GetSession { id: String },
    CreateSession { profile_name: String, wanted_id: Option<String> },
    /// Call the provider without tools and without an output format.
    Summarize { messages: Vec<Message>, config: PriestConfig },
    SaveSession { session: Session },
    /// Call the provider with the request's configuration and output format, in the way that the
    /// mode says.
    Call { messages: Vec<Message>, options: Option<AdapterCallOptions> },
    Return(Result<EngineReply, PriestError>),
}

/// What an `EngineAction` holds.
pub enum EngineActionView {
    LoadProfile { name: Seq<char> },
    GetSession { id: Seq<char> },
    CreateSession { profile_name: Seq<char>, wanted_id: Option<Seq<char>> },
    Summarize { messages: Seq<MessageView>, config: PriestConfigView },
    SaveSession { session: SessionView },
    Call { messages: Seq<MessageView>, options: Option<AdapterCallOptionsView> },
    Return(Result<EngineReplyView, PriestErrorView>),
}

impl DeepView for EngineAction {
    type V = EngineActionView;

    open spec fn deep_view(&self) -> EngineActionView {
        match self {
            EngineAction::LoadProfile { name } => EngineActionView::LoadProfile { name: name@ },
            EngineAction::GetSession { id } => EngineActionView::GetSession { id: id@ },
            EngineAction::CreateSession {
                profile_name,
                wanted_id,
            } => EngineActionView::CreateSession {
                profile_name: profile_name@,
                wanted_id: wanted_id.deep_view(),
            },
            EngineAction::Summarize { messages, config } => EngineActionView::Summarize {
                messages: messages.deep_view(),
                config: config.deep_view(),
            },
            EngineAction::SaveSession { session } => EngineActionView::SaveSession {
                session: session.deep_view(),
            },
            EngineAction::Call { messages, options } => EngineActionView::Call {
                messages: messages.deep_view(),
                options: options.deep_view(),
            },
            EngineAction::Return(r) => EngineActionView::Return(result_view(*r)),
        }
    }
}

/// What came of an action.
#[derive(Debug)]
pub enum EngineEvent {
    ProfileLoaded(Result<Profile, PriestError>),
    SessionFound(Result<Option<Session>, PriestError>),
    SessionCreated(Result<Session, PriestError>),
    Summarized(Result<AdapterResult, PriestError>),
    Saved(Result<(), PriestError>),
    Completed { result: Result<AdapterResult, PriestError>, latency_ms: i64 },
    TextStreamed { texts: Result<TextStream, PriestError> },
    EventsStreamed { events: Result<EventStream, PriestError>, latency_ms: i64 },
}

/// What an `EngineEvent` holds.
pub enum EngineEventView {
    ProfileLoaded(Result<ProfileView, PriestErrorView>),
    SessionFound(Result<Option<SessionView>, PriestErrorView>),
    SessionCreated(Result<SessionView, PriestErrorView>),
    Summarized(Result<AdapterResultView, PriestErrorView>),
    Saved(Result<(), PriestErrorView>),
    Completed { result: Result<AdapterResultView, PriestErrorView>, latency_ms: i64 },
    TextStreamed { texts: Result<TextStreamView, PriestErrorView> },
    EventsStreamed { events: Result<EventStreamView, PriestErrorView>, latency_ms: i64 },
}

impl DeepView for EngineEvent {
    type V = EngineEventView;

    open spec fn deep_view(&self) -> EngineEventView {
        match self {
            EngineEvent::ProfileLoaded(r) => EngineEventView::ProfileLoaded(result_view(*r)),
            EngineEvent::SessionFound(r) => EngineEventView::SessionFound(result_view(*r)),
            EngineEvent::SessionCreated(r) => EngineEventView::SessionCreated(result_view(*r)),
            EngineEvent::Summarized(r) => EngineEventView::Summarized(result_view(*r)),
            EngineEvent::Saved(r) => EngineEventView::Saved(result_view(*r)),
            EngineEvent::Completed { result, latency_ms } => EngineEventView::Completed {
                result: result_view(*result),
                latency_ms: *latency_ms,
            },
            EngineEvent::TextStreamed { texts: result } => EngineEventView::TextStreamed {
                texts: result_view(*result),
            },
            EngineEvent::EventsStreamed { events: result, latency_ms } => EngineEventView::EventsStreamed {
                events: result_view(*result),
                latency_ms: *latency_ms,
            },
        }
    }
}

impl EngineEventView {
    /// Whether an event can be taken in: a session's summary covers no more turns than there are,
    /// and the totals of token counts can be written down.
    pub open spec fn is_sound(self) -> bool {
        match self {
            EngineEventView::SessionFound(Ok(Some(session))) => summary_in_bounds(session),
            EngineEventView::SessionCreated(Ok(session)) => summary_in_bounds(session),
            EngineEventView::Completed { result: Ok(result), .. } => result.totals_fit(),
            EngineEventView::EventsStreamed { events: Ok(stream), .. } => totals_fit(stream.events),
            _ => true,
        }
    }
}

impl EngineRunView {
    /// Whether the sessions that a request holds on to are sound.
    pub open spec fn is_sound(self) -> bool {
        match self.stage {
            EngineStageView::AwaitSummary { open, through, .. } => summary_in_bounds(open.session)
                && through <= open.session.turns.len(),
            EngineStageView::AwaitCompacted { open, .. } => summary_in_bounds(open.session),
            _ => true,
        }
    }

    /// The request at another stage, and what is to be done there.
    pub open spec fn moving_to(self, stage: EngineStageView, action: EngineActionView) -> (
        EngineRunView,
        EngineActionView,
    ) {
        (EngineRunView { stage, ..self }, action)
    }

    /// The end of the request.
    pub open spec fn returning(self, outcome: Result<EngineReplyView, PriestErrorView>) -> (
        EngineRunView,
        EngineActionView,
    ) {
        self.moving_to(EngineStageView::Finished, EngineActionView::Return(outcome))
    }

    /// The end of a request that the provider failed. The failure is answered in the response, which
    /// only a stream of text cannot carry: that raises it.
    pub open spec fn failing(self, error: PriestErrorView) -> (EngineRunView, EngineActionView) {
        let response = failed_response(self.request, error, None);
        match self.mode {
            EngineMode::Run => self.returning(Ok(EngineReplyView::Response(response))),
            EngineMode::Stream => self.returning(Err(error)),
            EngineMode::StreamEvents => self.returning(
                Ok(EngineReplyView::Events(seq![PriestStreamEventView::Done { response }])),
            ),
        }
    }

    /// Calling the provider.
    pub open spec fn calling(self, profile: ProfileView, open: Option<OpenSessionView>) -> (
        EngineRunView,
        EngineActionView,
    ) {
        let session = match open {
            Some(o) => Some(o.session),
            None => None,
        };
        self.moving_to(
            EngineStageView::AwaitAnswer { opened: open },
            EngineActionView::Call {
                messages: messages_for(self.request, profile, session),
                options: options_of(self.request),
            },
        )
    }

    /// What a loaded profile leads to: the session, if the request names one and there is a store.
    pub open spec fn on_profile(self, profile: ProfileView) -> (EngineRunView, EngineActionView) {
        match self.request.session {
            Some(reference) if self.has_store => if reference.continue_existing {
                self.moving_to(
                    EngineStageView::AwaitFound { profile },
                    EngineActionView::GetSession { id: reference.id },
                )
            } else {
                self.moving_to(
                    EngineStageView::AwaitCreated { profile },
                    EngineActionView::CreateSession {
                        profile_name: self.request.profile,
                        wanted_id: None,
                    },
                )
            },
            _ => self.calling(profile, None),
        }
    }

    /// What a session that is not there leads to.
    pub open spec fn on_missing(self, profile: ProfileView) -> (EngineRunView, EngineActionView) {
        match self.request.session {
            Some(reference) => if reference.create_if_missing {
                self.moving_to(
                    EngineStageView::AwaitCreated { profile },
                    EngineActionView::CreateSession {
                        profile_name: self.request.profile,
                        wanted_id: Some(reference.id),
                    },
                )
            } else {
                self.returning(
                    Err(PriestErrorView::SessionNotFound { session_id: reference.id }),
                )
            },
            None => self.returning(Err(out_of_turn())),
        }
    }

    /// What a session that is there leads to: a summary first where the last turn's input went over
    /// the budget and there is something to fold.
    pub open spec fn on_session(self, profile: ProfileView, open: OpenSessionView) -> (
        EngineRunView,
        EngineActionView,
    ) {
        match summary_call(open.session, self.request.config) {
            Some(call) if over_budget(
                open.session.compaction().last_input_tokens,
                self.request.config.max_context_tokens,
            ) => self.moving_to(
                EngineStageView::AwaitSummary { profile, open, through: call.through },
                EngineActionView::Summarize { messages: call.messages, config: call.config },
            ),
            _ => self.calling(profile, Some(open)),
        }
    }

    /// What a written summary leads to. A blank one changes nothing.
    pub open spec fn on_summary(
        self,
        profile: ProfileView,
        open: OpenSessionView,
        through: usize,
        summary: Seq<char>,
        now: Timestamp,
    ) -> (EngineRunView, EngineActionView) {
        match compacted(open.session, summary, through, now) {
            Some(session) => self.moving_to(
                EngineStageView::AwaitCompacted {
                    profile,
                    open: OpenSessionView { session, ..open },
                },
                EngineActionView::SaveSession { session },
            ),
            None => self.calling(profile, Some(open)),
        }
    }

    /// What a complete answer leads to. A failure at the provider is answered in the response. Tool
    /// calls leave the session as it is; a final answer is appended and saved, with the size of the
    /// input where no tool exchange inflated it.
    pub open spec fn on_completed(
        self,
        open: Option<OpenSessionView>,
        result: Result<AdapterResultView, PriestErrorView>,
        latency_ms: i64,
        now: Timestamp,
    ) -> (EngineRunView, EngineActionView) {
        match result {
            Err(e) => self.returning(
                Ok(EngineReplyView::Response(failed_response(self.request, e, Some(latency_ms)))),
            ),
            Ok(answer) => match open {
                None => self.returning(
                    Ok(
                        EngineReplyView::Response(
                            answered_response(self.request, answer, latency_ms, None),
                        ),
                    ),
                ),
                Some(o) => if pending_calls(answer.tool_calls) is Some {
                    self.returning(
                        Ok(
                            EngineReplyView::Response(
                                answered_response(
                                    self.request,
                                    answer,
                                    latency_ms,
                                    Some(info_of(o.session, o.is_new)),
                                ),
                            ),
                        ),
                    )
                } else {
                    let told = with_exchange(o.session, self.request.prompt, answer.text, now);
                    let after = if self.request.tool_exchange.len() == 0 {
                        told.with_input_tokens(answer.input_tokens, now)
                    } else {
                        told
                    };
                    self.moving_to(
                        EngineStageView::AwaitSaved {
                            reply: EngineReplyView::Response(
                                answered_response(
                                    self.request,
                                    answer,
                                    latency_ms,
                                    Some(info_of(after, o.is_new)),
                                ),
                            ),
                            strict: true,
                        },
                        EngineActionView::SaveSession { session: after },
                    )
                },
            },
        }
    }

    /// What a stream of text leads to. Of a stream with an error nothing but the error is handed
    /// on; otherwise all text is appended to the session.
    pub open spec fn on_texts(
        self,
        open: Option<OpenSessionView>,
        result: Result<TextStreamView, PriestErrorView>,
        now: Timestamp,
    ) -> (EngineRunView, EngineActionView) {
        match result {
            Err(e) => self.returning(Err(e)),
            Ok(stream) => match (stream.error, open) {
                (Some(e), _) => self.returning(Ok(EngineReplyView::Broken(e))),
                (None, None) => self.returning(Ok(EngineReplyView::Texts(stream.chunks))),
                (None, Some(o)) => self.moving_to(
                    EngineStageView::AwaitSaved {
                        reply: EngineReplyView::Texts(stream.chunks),
                        strict: false,
                    },
                    EngineActionView::SaveSession {
                        session: with_exchange(
                            o.session,
                            self.request.prompt,
                            joined(stream.chunks, ""@),
                            now,
                        ),
                    },
                ),
            },
        }
    }

    /// The events that a stream ends in: those of the provider, and the response.
    pub open spec fn all_events(self, sum: SummedView, response: PriestResponseView) -> Result<
        EngineReplyView,
        PriestErrorView,
    > {
        Ok(
            EngineReplyView::Events(
                sum.forwarded.push(PriestStreamEventView::Done { response }),
            ),
        )
    }

    /// What a stream of events leads to. A failure at the provider is answered in the response. A
    /// final answer with text is appended to the session.
    pub open spec fn on_events(
        self,
        open: Option<OpenSessionView>,
        result: Result<EventStreamView, PriestErrorView>,
        latency_ms: i64,
        now: Timestamp,
    ) -> (EngineRunView, EngineActionView) {
        let stream = match result {
            Ok(stream) => stream,
            Err(e) => EventStreamView { events: Seq::empty(), error: Some(e) },
        };
        let sum = summed(stream.events);
        match (open, streamed_text(sum.texts)) {
            (Some(o), Some(text)) if stream.error is None && sum.tool_calls.len() == 0 => {
                let after = with_exchange(o.session, self.request.prompt, text, now);
                let response = streamed_response(
                    self.request,
                    sum,
                    None,
                    latency_ms,
                    Some(info_of(after, o.is_new)),
                );
                self.moving_to(
                    EngineStageView::AwaitSaved {
                        reply: EngineReplyView::Events(
                            sum.forwarded.push(PriestStreamEventView::Done { response }),
                        ),
                        strict: false,
                    },
                    EngineActionView::SaveSession { session: after },
                )
            },
            _ => {
                let info = match open {
                    Some(o) if stream.error is None => Some(info_of(o.session, o.is_new)),
                    _ => None,
                };
                self.returning(
                    self.all_events(
                        sum,
                        streamed_response(self.request, sum, stream.error, latency_ms, info),
                    ),
                )
            },
        }
    }

    /// What an event leads to.
    pub open spec fn step(self, event: EngineEventView, now: Timestamp) -> (
        EngineRunView,
        EngineActionView,
    ) {
        match (self.stage, event) {
            (EngineStageView::AwaitProfile, EngineEventView::ProfileLoaded(loaded)) => match loaded {
                Ok(profile) => self.on_profile(profile),
                Err(e) => self.returning(Err(e)),
            },
            (
                EngineStageView::AwaitFound { profile },
                EngineEventView::SessionFound(found),
            ) => match found {
                Ok(Some(session)) => self.on_session(
                    profile,
                    OpenSessionView { session, is_new: false },
                ),
                Ok(None) => self.on_missing(profile),
                Err(e) => self.returning(Err(e)),
            },
            (
                EngineStageView::AwaitCreated { profile },
                EngineEventView::SessionCreated(created),
            ) => match created {
                Ok(session) => self.on_session(
                    profile,
                    OpenSessionView { session, is_new: true },
                ),
                Err(e) => self.returning(Err(e)),
            },
            (
                EngineStageView::AwaitSummary { profile, open, through },
                EngineEventView::Summarized(written),
            ) => match written {
                Ok(result) => self.on_summary(profile, open, through, result.text, now),
                Err(e) => self.failing(e),
            },
            (
                EngineStageView::AwaitCompacted { profile, open },
                EngineEventView::Saved(saved),
            ) => match saved {
                Ok(_) => self.calling(profile, Some(open)),
                Err(e) => self.returning(Err(e)),
            },
            (
                EngineStageView::AwaitAnswer { opened: open },
                EngineEventView::Completed { result, latency_ms },
            ) => if self.mode == EngineMode::Run {
                self.on_completed(open, result, latency_ms, now)
            } else {
                self.returning(Err(out_of_turn()))
            },
            (
                EngineStageView::AwaitAnswer { opened: open },
                EngineEventView::TextStreamed { texts: result },
            ) => if self.mode == EngineMode::Stream {
                self.on_texts(open, result, now)
            } else {
                self.returning(Err(out_of_turn()))
            },
            (
                EngineStageView::AwaitAnswer { opened: open },
                EngineEventView::EventsStreamed { events: result, latency_ms },
            ) => if self.mode == EngineMode::StreamEvents {
                self.on_events(open, result, latency_ms, now)
            } else {
                self.returning(Err(out_of_turn()))
            },
            (
                EngineStageView::AwaitSaved { reply, strict },
                EngineEventView::Saved(saved),
            ) => match saved {
                Err(e) if strict => self.returning(Err(e)),
                _ => self.returning(Ok(reply)),
            },
            _ => self.returning(Err(out_of_turn())),
        }
    }
}

/// A session with one more exchange between user and assistant.
pub open spec fn with_exchange(
    session: SessionView,
    prompt: Seq<char>,
    answer: Seq<char>,
    now: Timestamp,
) -> SessionView {
    session.with_turn("user"@, prompt, now, now).with_turn("assistant"@, answer, now, now)
}

fn append_exchange(session: &mut Session, prompt: &str, answer: &str, now: Timestamp)
    ensures
        final(session).deep_view() == with_exchange(
            old(session).deep_view(),
            prompt@,
            answer@,
            now,
        ),
{
    session.append_turn_at("user", prompt, now, now);
    session.append_turn_at("assistant", answer, now, now);
}

// ---- The beginning ----

/// The first of a request's provider tools that the provider does not support. What nothing is said
/// of is not supported.
pub open spec fn first_unsupported(
    tools: Seq<ProviderToolDefinition>,
    supported: Seq<bool>,
    from: int,
) -> Option<ProviderToolDefinition>
    decreases tools.len() - from,
{
    if from < 0 || from >= tools.len() {
        None
    } else if from < supported.len() && supported[from] {
        first_unsupported(tools, supported, from + 1)
    } else {
        Some(tools[from])
    }
}

fn find_unsupported(tools: &Vec<ProviderToolDefinition>, supported: &Vec<bool>) -> (r: Option<
    ProviderToolDefinition,
>)
    ensures
        r == first_unsupported(tools.deep_view(), supported@, 0),
{
    let ghost all = tools.deep_view();
    let mut i: usize = 0;
    while i < tools.len()
        invariant
            i <= tools@.len(),
            all == tools.deep_view(),
            first_unsupported(all, supported@, 0) == first_unsupported(all, supported@, i as int),
        decreases tools@.len() - i,
    {
        assert(all[i as int] == tools@[i as int]);
        if i >= supported.len() || !supported[i] {
            return Some(tools[i]);
        }
        i += 1;
    }
    None
}

/// The error for a tool that the provider does not support.
pub open spec fn unsupported_tool(
    request: PriestRequestView,
    tool: ProviderToolDefinition,
) -> PriestErrorView {
    PriestErrorView::ProviderError {
        provider: request.config.provider,
        message: "provider tool '"@ + tool.wire_name() + "' is not supported for model '"@
            + request.config.model + "'"@,
    }
}

/// How a request begins: with its profile, if there is a provider for it that supports the tools it
/// asks for.
pub open spec fn begun(
    mode: EngineMode,
    request: PriestRequestView,
    registered: bool,
    supported: Seq<bool>,
    has_store: bool,
) -> (EngineRunView, EngineActionView) {
    let run = EngineRunView { mode, request, has_store, stage: EngineStageView::AwaitProfile };
    if !registered {
        run.returning(
            Err(PriestErrorView::ProviderNotRegistered { provider: request.config.provider }),
        )
    } else {
        match first_unsupported(request.provider_tools, supported, 0) {
            Some(tool) => run.failing(unsupported_tool(request, tool)),
            None => (run, EngineActionView::LoadProfile { name: request.profile }),
        }
    }
}

impl EngineRun {
    /// Begins a request. It is told whether there is an adapter for the request's provider, which
    /// of the request's provider tools that adapter supports, and whether there is a store for
    /// sessions.
    pub fn start(
        mode: EngineMode,
        request: PriestRequest,
        registered: bool,
        supported: &Vec<bool>,
        has_store: bool,
    ) -> (r: (EngineRun, EngineAction))
        ensures
            (r.0.deep_view(), r.1.deep_view()) == begun(
                mode,
                request.deep_view(),
                registered,
                supported@,
                has_store,
            ),
            r.0.deep_view().is_sound(),
    {
        let run = EngineRun { mode, request, has_store, stage: EngineStage::AwaitProfile };
        if !registered {
            let provider = run.request.config.provider.clone();
            return run.finish(Err(PriestError::ProviderNotRegistered { provider }));
        }
        match find_unsupported(&run.request.provider_tools, supported) {
            Some(tool) => {
                let error = PriestError::ProviderError {
                    provider: run.request.config.provider.clone(),
                    message: "provider tool '".to_owned().concat(tool.name()).concat(
                        "' is not supported for model '",
                    ).concat(run.request.config.model.as_str()).concat("'"),
                };
                run.fail(error)
            },
            None => {
                let name = run.request.profile.clone();
                (run, EngineAction::LoadProfile { name })
            },
        }
    }

    // ---- What follows from what ----

    fn at(self, stage: EngineStage, action: EngineAction) -> (r: (EngineRun, EngineAction))
        ensures
            (r.0.deep_view(), r.1.deep_view()) == self.deep_view().moving_to(
                stage.deep_view(),
                action.deep_view(),
            ),
    {
        (EngineRun { stage, ..self }, action)
    }

    fn finish(self, outcome: Result<EngineReply, PriestError>) -> (r: (EngineRun, EngineAction))
        ensures
            (r.0.deep_view(), r.1.deep_view()) == self.deep_view().returning(result_view(outcome)),
    {
        self.at(EngineStage::Finished, EngineAction::Return(outcome))
    }

    fn fail(self, error: PriestError) -> (r: (EngineRun, EngineAction))
        ensures
            (r.0.deep_view(), r.1.deep_view()) == self.deep_view().failing(error.deep_view()),
    {
        match self.mode {
            EngineMode::Run => {
                let response = write_failed_response(&self.request, &error, None);
                self.finish(Ok(EngineReply::Response(response)))
            },
            EngineMode::Stream => self.finish(Err(error)),
            EngineMode::StreamEvents => {
                let response = write_failed_response(&self.request, &error, None);
                let mut events: Vec<PriestStreamEvent> = lists::no_items();
                lists::push_item(&mut events, PriestStreamEvent::Done { response });
                assert(events.deep_view() =~= seq![events.deep_view()[0]]);
                self.finish(Ok(EngineReply::Events(events)))
            },
        }
    }

    fn call(self, profile: &Profile, open: Option<OpenSession>) -> (r: (EngineRun, EngineAction))
        requires
            open matches Some(o) ==> summary_in_bounds(o.deep_view().session),
        ensures
            (r.0.deep_view(), r.1.deep_view()) == self.deep_view().calling(
                profile.deep_view(),
                open.deep_view(),
            ),
            r.0.deep_view().is_sound(),
    {
        let messages = match &open {
            Some(o) => build_messages(&self.request, profile, Some(&o.session)),
            None => build_messages(&self.request, profile, None),
        };
        let options = call_options(&self.request);
        self.at(EngineStage::AwaitAnswer { opened: open }, EngineAction::Call { messages, options })
    }

    fn take_profile(self, profile: Profile) -> (r: (EngineRun, EngineAction))
        ensures
            (r.0.deep_view(), r.1.deep_view()) == self.deep_view().on_profile(
                profile.deep_view(),
            ),
            r.0.deep_view().is_sound(),
    {
        if let Some(reference) = &self.request.session {
            if self.has_store {
                if reference.continue_existing {
                    let id = reference.id.clone();
                    return self.at(
                        EngineStage::AwaitFound { profile },
                        EngineAction::GetSession { id },
                    );
                }
                let profile_name = self.request.profile.clone();
                return self.at(
                    EngineStage::AwaitCreated { profile },
                    EngineAction::CreateSession { profile_name, wanted_id: None },
                );
            }
        }
        self.call(&profile, None)
    }

    fn take_missing(self, profile: Profile) -> (r: (EngineRun, EngineAction))
        ensures
            (r.0.deep_view(), r.1.deep_view()) == self.deep_view().on_missing(
                profile.deep_view(),
            ),
            r.0.deep_view().is_sound(),
    {
        match &self.request.session {
            Some(reference) => {
                let id = reference.id.clone();
                if reference.create_if_missing {
                    let profile_name = self.request.profile.clone();
                    self.at(
                        EngineStage::AwaitCreated { profile },
                        EngineAction::CreateSession { profile_name, wanted_id: Some(id) },
                    )
                } else {
                    self.finish(Err(PriestError::SessionNotFound { session_id: id }))
                }
            },
            None => self.finish(Err(unexpected_event())),
        }
    }

    fn take_session(self, profile: Profile, open: OpenSession) -> (r: (EngineRun, EngineAction))
        requires
            summary_in_bounds(open.deep_view().session),
        ensures
            (r.0.deep_view(), r.1.deep_view()) == self.deep_view().on_session(
                profile.deep_view(),
                open.deep_view(),
            ),
            r.0.deep_view().is_sound(),
    {
        let last = open.session.get_compaction().last_input_tokens;
        if should_compact(last, self.request.config.max_context_tokens) {
            if let Some(call) = plan_summary(&open.session, &self.request.config) {
                return self.at(
                    EngineStage::AwaitSummary { profile, open, through: call.through },
                    EngineAction::Summarize { messages: call.messages, config: call.config },
                );
            }
        }
        self.call(&profile, Some(open))
    }

    fn take_summary(
        self,
        profile: Profile,
        open: OpenSession,
        through: usize,
        summary: &str,
        now: Timestamp,
    ) -> (r: (EngineRun, EngineAction))
        requires
            now.is_instant(),
            summary_in_bounds(open.deep_view().session),
            through <= open.deep_view().session.turns.len(),
        ensures
            (r.0.deep_view(), r.1.deep_view()) == self.deep_view().on_summary(
                profile.deep_view(),
                open.deep_view(),
                through,
                summary@,
                now,
            ),
            r.0.deep_view().is_sound(),
    {
        proof {
            law_compaction_keeps_raw_turns(
                open.deep_view().session,
                trimmed(summary@),
                through,
                now,
                now,
            );
        }
        let OpenSession { session, is_new } = open;
        let mut after = session;
        if fold_summary(&mut after, summary, through, now) {
            let saved = after.clone();
            self.at(
                EngineStage::AwaitCompacted {
                    profile,
                    open: OpenSession { session: after, is_new },
                },
                EngineAction::SaveSession { session: saved },
            )
        } else {
            self.call(&profile, Some(OpenSession { session: after, is_new }))
        }
    }

    fn take_answer(
        self,
        open: Option<OpenSession>,
        result: Result<AdapterResult, PriestError>,
        latency_ms: i64,
        now: Timestamp,
    ) -> (r: (EngineRun, EngineAction))
        requires
            result matches Ok(answer) ==> answer.deep_view().totals_fit(),
        ensures
            (r.0.deep_view(), r.1.deep_view()) == self.deep_view().on_completed(
                open.deep_view(),
                result_view(result),
                latency_ms,
                now,
            ),
            r.0.deep_view().is_sound(),
    {
        let answer = match result {
            Err(e) => {
                let response = write_failed_response(&self.request, &e, Some(latency_ms));
                return self.finish(Ok(EngineReply::Response(response)));
            },
            Ok(answer) => answer,
        };
        let OpenSession { session, is_new } = match open {
            None => {
                let response = write_answered_response(&self.request, answer, latency_ms, None);
                return self.finish(Ok(EngineReply::Response(response)));
            },
            Some(o) => o,
        };
        let pending = match &answer.tool_calls {
            Some(calls) => calls.len() > 0,
            None => false,
        };
        assert(pending == (pending_calls(answer.deep_view().tool_calls) is Some));
        if pending {
            let info = session_info(&session, is_new);
            let response = write_answered_response(&self.request, answer, latency_ms, Some(info));
            return self.finish(Ok(EngineReply::Response(response)));
        }
        let mut after = session;
        append_exchange(&mut after, self.request.prompt.as_str(), answer.text.as_str(), now);
        if self.request.tool_exchange.len() == 0 {
            after.record_input_tokens_at(answer.input_tokens, now);
        }
        let info = session_info(&after, is_new);
        let response = write_answered_response(&self.request, answer, latency_ms, Some(info));
        self.at(
            EngineStage::AwaitSaved { reply: EngineReply::Response(response), strict: true },
            EngineAction::SaveSession { session: after },
        )
    }

    fn take_texts(
        self,
        open: Option<OpenSession>,
        result: Result<TextStream, PriestError>,
        now: Timestamp,
    ) -> (r: (EngineRun, EngineAction))
        ensures
            (r.0.deep_view(), r.1.deep_view()) == self.deep_view().on_texts(
                open.deep_view(),
                result_view(result),
                now,
            ),
            r.0.deep_view().is_sound(),
    {
        let stream = match result {
            Err(e) => {
                return self.finish(Err(e));
            },
            Ok(stream) => stream,
        };
        if let Some(e) = stream.error {
            return self.finish(Ok(EngineReply::Broken(e)));
        }
        match open {
            None => self.finish(Ok(EngineReply::Texts(stream.chunks))),
            Some(o) => {
                let whole = text::join(&stream.chunks, "");
                let mut after = o.session;
                append_exchange(
                    &mut after,
                    self.request.prompt.as_str(),
                    whole.as_str(),
                    now,
                );
                self.at(
                    EngineStage::AwaitSaved {
                        reply: EngineReply::Texts(stream.chunks),
                        strict: false,
                    },
                    EngineAction::SaveSession { session: after },
                )
            },
        }
    }

    fn take_events(
        self,
        open: Option<OpenSession>,
        result: Result<EventStream, PriestError>,
        latency_ms: i64,
        now: Timestamp,
    ) -> (r: (EngineRun, EngineAction))
        requires
            result matches Ok(stream) ==> totals_fit(stream.deep_view().events),
        ensures
            (r.0.deep_view(), r.1.deep_view()) == self.deep_view().on_events(
                open.deep_view(),
                result_view(result),
                latency_ms,
                now,
            ),
            r.0.deep_view().is_sound(),
    {
        let stream = match result {
            Ok(stream) => stream,
            Err(e) => EventStream { events: lists::no_items(), error: Some(e) },
        };
        let error = stream.error;
        let ghost sum = summed(stream.events.deep_view());
        let summary = sum_events(stream.events);
        let whole = if summary.texts.len() == 0 {
            None
        } else {
            Some(text::join(&summary.texts, ""))
        };
        assert(whole.deep_view() == streamed_text(sum.texts));
        let mut saved: Option<Session> = None;
        let mut info = None;
        if error.is_none() {
            if let Some(o) = open {
                let mut session = o.session;
                let mut changed = false;
                if summary.tool_calls.len() == 0 {
                    if let Some(t) = &whole {
                        append_exchange(
                            &mut session,
                            self.request.prompt.as_str(),
                            t.as_str(),
                            now,
                        );
                        changed = true;
                    }
                }
                info = Some(session_info(&session, o.is_new));
                if changed {
                    saved = Some(session);
                }
            }
        }
        let response = write_streamed_response(
            &self.request,
            whole,
            summary.tool_calls,
            summary.usage,
            summary.finish_reason,
            summary.reasoning,
            &error,
            latency_ms,
            info,
        );
        assert(response.deep_view() == streamed_response(
            self.request.deep_view(),
            sum,
            error.deep_view(),
            latency_ms,
            info.deep_view(),
        ));
        let mut events = summary.forwarded;
        lists::push_item(&mut events, PriestStreamEvent::Done { response });
        match saved {
            Some(session) => self.at(
                EngineStage::AwaitSaved { reply: EngineReply::Events(events), strict: false },
                EngineAction::SaveSession { session },
            ),
            None => self.finish(Ok(EngineReply::Events(events))),
        }
    }

    /// Takes in what came of the last action at the given time, and says what is to be done next.
    pub fn step_at(self, event: EngineEvent, now: Timestamp) -> (r: (EngineRun, EngineAction))
        requires
            now.is_instant(),
            self.deep_view().is_sound(),
            event.deep_view().is_sound(),
        ensures
            (r.0.deep_view(), r.1.deep_view()) == self.deep_view().step(event.deep_view(), now),
            r.0.deep_view().is_sound(),
    {
        let EngineRun { mode, request, has_store, stage } = self;
        let run = EngineRun { mode, request, has_store, stage: EngineStage::Finished };
        match (stage, event) {
            (EngineStage::AwaitProfile, EngineEvent::ProfileLoaded(loaded)) => match loaded {
                Ok(profile) => run.take_profile(profile),
                Err(e) => run.finish(Err(e)),
            },
            (EngineStage::AwaitFound { profile }, EngineEvent::SessionFound(found)) => match found {
                Ok(Some(session)) => run.take_session(
                    profile,
                    OpenSession { session, is_new: false },
                ),
                Ok(None) => run.take_missing(profile),
                Err(e) => run.finish(Err(e)),
            },
            (
                EngineStage::AwaitCreated { profile },
                EngineEvent::SessionCreated(created),
            ) => match created {
                Ok(session) => run.take_session(profile, OpenSession { session, is_new: true }),
                Err(e) => run.finish(Err(e)),
            },
            (
                EngineStage::AwaitSummary { profile, open, through },
                EngineEvent::Summarized(written),
            ) => match written {
                Ok(result) => run.take_summary(profile, open, through, result.text.as_str(), now),
                Err(e) => run.fail(e),
            },
            (EngineStage::AwaitCompacted { profile, open }, EngineEvent::Saved(saved)) => match saved {
                Ok(_) => run.call(&profile, Some(open)),
                Err(e) => run.finish(Err(e)),
            },
            (
                EngineStage::AwaitAnswer { opened: open },
                EngineEvent::Completed { result, latency_ms },
            ) => match mode {
                EngineMode::Run => run.take_answer(open, result, latency_ms, now),
                _ => run.finish(Err(unexpected_event())),
            },
            (
                EngineStage::AwaitAnswer { opened: open },
                EngineEvent::TextStreamed { texts: result },
            ) => match mode {
                EngineMode::Stream => run.take_texts(open, result, now),
                _ => run.finish(Err(unexpected_event())),
            },
            (
                EngineStage::AwaitAnswer { opened: open },
                EngineEvent::EventsStreamed { events: result, latency_ms },
            ) => match mode {
                EngineMode::StreamEvents => run.take_events(open, result, latency_ms, now),
                _ => run.finish(Err(unexpected_event())),
            },
            (EngineStage::AwaitSaved { reply, strict }, EngineEvent::Saved(saved)) => match saved {
                Ok(_) => run.finish(Ok(reply)),
                Err(e) => if strict {
                    run.finish(Err(e))
                } else {
                    run.finish(Ok(reply))
                },
            },
            _ => run.finish(Err(unexpected_event())),
        }
    }

    /// Takes in what came of the last action now, and says what is to be done next.
    pub fn step(self, event: EngineEvent) -> (r: (EngineRun, EngineAction))
        requires
            self.deep_view().is_sound(),
            event.deep_view().is_sound(),
        ensures
            exists|now: Timestamp|
                now.is_instant() && (r.0.deep_view(), r.1.deep_view())
                    == #[trigger] self.deep_view().step(event.deep_view(), now),
            r.0.deep_view().is_sound(),
    {
        let now = clock::now();
        self.step_at(event, now)
    }
}

} // verus!
