use vstd::prelude::*;
use vstd::string::StringExecFns;

use crate::client::{ChatMessage, ChatRequest};
use crate::models::{bot_views, opt_view, Bot, BotView};
use crate::text::{chars_eq, chars_of, decimal, decimal_string};
use crate::urls::views;

verus! {

/// How many times a rate-limited request is tried again.
pub const MAX_RETRIES: u32 = 3;

/// The longest wait before trying again, in seconds.
pub const MAX_RETRY_WAIT_SECS: u64 = 30;

/// The HTTP status of a rate-limited request.
pub const STATUS_TOO_MANY_REQUESTS: u16 = 429;

/// The error of a chat request for a topic without any bot to answer.
pub const NO_BOTS_ERROR: &'static str = "No bots available for this topic";

/// What the frontend is told while a bot answers: a status change, a piece of the answer, an
/// error, or that the answer is complete.
pub struct StreamEvent {
    pub topic_id: String,
    pub bot_id: String,
    pub bot_name: String,
    pub delta: String,
    pub done: bool,
    pub error: Option<String>,
    pub message_id: Option<String>,
    pub status: Option<String>,
}

/// A request to have the bots of a topic answer: all of them, or those listed.
pub struct ChatWithBotsRequest {
    pub topic_id: String,
    pub bot_ids: Option<Vec<String>>,
}

pub struct StreamEventView {
    pub topic_id: Seq<char>,
    pub bot_id: Seq<char>,
    pub bot_name: Seq<char>,
    pub delta: Seq<char>,
    pub done: bool,
    pub error: Option<Seq<char>>,
    pub message_id: Option<Seq<char>>,
    pub status: Option<Seq<char>>,
}

impl View for StreamEvent {
    type V = StreamEventView;

    open spec fn view(&self) -> StreamEventView {
        StreamEventView {
            topic_id: self.topic_id@,
            bot_id: self.bot_id@,
            bot_name: self.bot_name@,
            delta: self.delta@,
            done: self.done,
            error: opt_view(self.error),
            message_id: opt_view(self.message_id),
            status: opt_view(self.status),
        }
    }
}

// ---------------------------------------------------------------------------
// Which bots answer
// ---------------------------------------------------------------------------

/// The bots that answer: the topic's bots, in their order, restricted to the requested
/// identifiers when a list is given.
pub open spec fn selected_bots(topic_bots: Seq<BotView>, ids: Option<Seq<Seq<char>>>) -> Seq<BotView>
    decreases topic_bots.len(),
{
    if topic_bots.len() == 0 {
        Seq::empty()
    } else {
        let rest = selected_bots(topic_bots.drop_last(), ids);
        let b = topic_bots.last();
        match ids {
            Some(l) => if l.contains(b.id) {
                rest.push(b)
            } else {
                rest
            },
            None => rest.push(b),
        }
    }
}

fn has_id(ids: &Vec<String>, id: &Vec<char>) -> (r: bool)
    ensures
        r == views(ids@).contains(id@),
{
    let mut i: usize = 0;
    while i < ids.len()
        invariant
            i <= ids.len(),
            forall|j: int| 0 <= j < i ==> ids@[j]@ != id@,
        decreases ids.len() - i,
    {
        if chars_eq(&chars_of(ids[i].as_str()), id) {
            assert(views(ids@)[i as int] == id@);
            return true;
        }
        i += 1;
    }
    assert forall|j: int| 0 <= j < views(ids@).len() implies views(ids@)[j] != id@ by {
        assert(views(ids@)[j] == ids@[j]@);
    }
    false
}

/// The bots that answer a request, or `NO_BOTS_ERROR` when there are none.
pub fn select_bots(topic_bots: Vec<Bot>, bot_ids: &Option<Vec<String>>) -> (r: Result<Vec<Bot>, String>)
    ensures
        ({
            let chosen = selected_bots(
                bot_views(topic_bots@),
                match bot_ids {
                    Some(l) => Some(views(l@)),
                    None => None,
                },
            );
            match r {
                Ok(bots) => chosen.len() > 0 && bot_views(bots@) == chosen,
                Err(e) => chosen.len() == 0 && e@ == NO_BOTS_ERROR@,
            }
        }),
{
    let ghost ids = match bot_ids {
        Some(l) => Some(views(l@)),
        None => None::<Seq<Seq<char>>>,
    };
    let ghost all = bot_views(topic_bots@);
    let mut chosen: Vec<Bot> = Vec::new();
    let mut i: usize = 0;
    while i < topic_bots.len()
        invariant
            i <= topic_bots@.len(),
            all == bot_views(topic_bots@),
            ids == match bot_ids {
                Some(l) => Some(views(l@)),
                None => None::<Seq<Seq<char>>>,
            },
            bot_views(chosen@) == selected_bots(all.take(i as int), ids),
        decreases topic_bots.len() - i,
    {
        assert(all.take(i + 1).drop_last() =~= all.take(i as int));
        assert(all.take(i + 1).last() == topic_bots@[i as int]@);
        let keep = match bot_ids {
            Some(l) => has_id(l, &chars_of(topic_bots[i].id.as_str())),
            None => true,
        };
        if keep {
            let ghost before = chosen@;
            chosen.push(topic_bots[i].duplicate());
            assert(bot_views(chosen@) =~= bot_views(before).push(topic_bots@[i as int]@));
        }
        i += 1;
    }
    assert(all.take(topic_bots@.len() as int) =~= all);
    if chosen.len() == 0 {
        Err(String::from_str(NO_BOTS_ERROR))
    } else {
        Ok(chosen)
    }
}

/// The request sent for a bot: its model, the conversation as it sees it, streamed.
pub fn chat_request_for(bot: &Bot, messages: Vec<ChatMessage>) -> (r: ChatRequest)
    ensures
        r.model@ == bot.model@,
        r.messages@ == messages@,
        r.stream,
{
    ChatRequest { model: bot.model.clone(), messages, stream: true }
}

// ---------------------------------------------------------------------------
// Events
// ---------------------------------------------------------------------------

/// What an event says, apart from whose turn it belongs to.
pub enum EventKind {
    /// The request is about to be sent.
    Thinking,
    /// The request was rate limited and will be tried again; the attempt that was refused
    /// (0 is the first).
    Retrying(nat),
    /// A piece of the answer.
    Delta(Seq<char>),
    /// The turn failed with this error.
    Failed(Seq<char>),
    /// The answer is complete and was stored under this message identifier, if storing it
    /// succeeded.
    Finished(Option<Seq<char>>),
}

/// The note shown while a rate-limited request waits to be tried again.
pub open spec fn retry_note(attempt: nat) -> Seq<char> {
    "Rate limited, retrying ("@ + decimal(attempt + 1) + "/"@ + decimal(MAX_RETRIES as nat)
        + ")..."@
}

/// The event of `kind` for `bot` answering in `topic_id`.
pub open spec fn event_of(topic_id: Seq<char>, bot: BotView, kind: EventKind) -> StreamEventView {
    let base = StreamEventView {
        topic_id: topic_id,
        bot_id: bot.id,
        bot_name: bot.name,
        delta: Seq::empty(),
        done: false,
        error: None,
        message_id: None,
        status: None,
    };
    match kind {
        EventKind::Thinking => StreamEventView { status: Some("thinking"@), ..base },
        EventKind::Retrying(a) => StreamEventView {
            delta: retry_note(a),
            status: Some("retrying"@),
            ..base
        },
        EventKind::Delta(t) => StreamEventView { delta: t, ..base },
        EventKind::Failed(e) => StreamEventView { done: true, error: Some(e), ..base },
        EventKind::Finished(m) => StreamEventView { done: true, message_id: m, ..base },
    }
}

fn event_base(topic_id: &str, bot: &Bot) -> (ev: StreamEvent)
    ensures
        ev@ == event_of(topic_id@, bot@, EventKind::Delta(Seq::empty())),
{
    StreamEvent {
        topic_id: String::from_str(topic_id),
        bot_id: bot.id.clone(),
        bot_name: bot.name.clone(),
        delta: String::new(),
        done: false,
        error: None,
        message_id: None,
        status: None,
    }
}

/// The event sent before a bot's request goes out.
pub fn thinking_event(topic_id: &str, bot: &Bot) -> (ev: StreamEvent)
    ensures
        ev@ == event_of(topic_id@, bot@, EventKind::Thinking),
{
    let mut ev = event_base(topic_id, bot);
    ev.status = Some(String::from_str("thinking"));
    ev
}

/// The note of a retry, computed.
pub fn retry_note_text(attempt: u32) -> (s: String)
    requires
        attempt < MAX_RETRIES,
    ensures
        s@ == retry_note(attempt as nat),
{
    let mut s = String::from_str("Rate limited, retrying (");
    s.append(decimal_string((attempt + 1) as u64).as_str());
    s.append("/");
    s.append(decimal_string(MAX_RETRIES as u64).as_str());
    s.append(")...");
    s
}

/// The event sent when a request was rate limited and will be tried again.
pub fn retrying_event(topic_id: &str, bot: &Bot, attempt: u32) -> (ev: StreamEvent)
    requires
        attempt < MAX_RETRIES,
    ensures
        ev@ == event_of(topic_id@, bot@, EventKind::Retrying(attempt as nat)),
{
    let mut ev = event_base(topic_id, bot);
    ev.delta = retry_note_text(attempt);
    ev.status = Some(String::from_str("retrying"));
    ev
}

/// The event carrying a piece of the answer.
pub fn delta_event(topic_id: &str, bot: &Bot, delta: &str) -> (ev: StreamEvent)
    ensures
        ev@ == event_of(topic_id@, bot@, EventKind::Delta(delta@)),
{
    let mut ev = event_base(topic_id, bot);
    ev.delta = String::from_str(delta);
    ev
}

/// The event that ends a failed turn.
pub fn failed_event(topic_id: &str, bot: &Bot, error: String) -> (ev: StreamEvent)
    ensures
        ev@ == event_of(topic_id@, bot@, EventKind::Failed(error@)),
{
    let mut ev = event_base(topic_id, bot);
    ev.done = true;
    ev.error = Some(error);
    ev
}

/// The event that ends a turn whose answer is complete.
pub fn finished_event(topic_id: &str, bot: &Bot, message_id: Option<String>) -> (ev: StreamEvent)
    ensures
        ev@ == event_of(topic_id@, bot@, EventKind::Finished(opt_view(message_id))),
{
    let mut ev = event_base(topic_id, bot);
    ev.done = true;
    ev.message_id = message_id;
    ev
}

// ---------------------------------------------------------------------------
// One bot's turn
// ---------------------------------------------------------------------------

/// How a chat request was answered.
pub enum Reply {
    /// It could not be sent; the message of the error.
    Unsent(String),
    /// The server answered with `code`; `line` is how the status reads
    /// ("500 Internal Server Error").
    Status { code: u16, line: String },
}

/// Where a bot's turn stands.
pub enum TurnState {
    /// Nothing was sent yet.
    Start,
    /// The request of this attempt (0 is the first) was sent; its reply is awaited.
    Awaiting(u32),
    /// Waiting before the attempt with this number.
    Backoff(u32),
    /// The request was refused; its body is read to report it after this text.
    ReadingError(String),
    /// The answer is being streamed.
    Streaming,
    /// The complete answer is being stored.
    Saving,
    /// The turn is over.
    Over,
}

/// What happened since the last step.
pub enum TurnEvent {
    /// The turn begins.
    Begin,
    /// The request was answered.
    Replied(Reply),
    /// The wait is over.
    Slept,
    /// The body of a refused request was read (empty when it could not be).
    BodyRead(String),
    /// The stream ended: the complete answer, or the error that ended it.
    Streamed(Result<String, String>),
    /// The answer was stored under this message identifier, or could not be.
    Saved(Option<String>),
}

/// What is to be done next.
pub enum TurnAction {
    /// Send the chat request.
    Send,
    /// Wait this many seconds.
    Sleep(u64),
    /// Read the body of the reply.
    ReadBody,
    /// Read the answer's stream, sending each piece as a `delta_event`.
    Stream,
    /// Store this text as the bot's message.
    Save(String),
    /// Nothing more: the turn is over.
    Stop,
}

/// The state after a step, the event to send (if any), and what to do next.
pub struct TurnStep {
    pub state: TurnState,
    pub emit: Option<StreamEvent>,
    pub action: TurnAction,
}

pub enum TurnStateView {
    Start,
    Awaiting(nat),
    Backoff(nat),
    ReadingError(Seq<char>),
    Streaming,
    Saving,
    Over,
}

pub enum ReplyView {
    Unsent(Seq<char>),
    Status(nat, Seq<char>),
}

pub enum TurnEventView {
    Begin,
    Replied(ReplyView),
    Slept,
    BodyRead(Seq<char>),
    Streamed(Result<Seq<char>, Seq<char>>),
    Saved(Option<Seq<char>>),
}

pub enum TurnActionView {
    Send,
    Sleep(nat),
    ReadBody,
    Stream,
    Save(Seq<char>),
    Stop,
}

impl View for TurnState {
    type V = TurnStateView;

    open spec fn view(&self) -> TurnStateView {
        match self {
            TurnState::Start => TurnStateView::Start,
            TurnState::Awaiting(a) => TurnStateView::Awaiting(*a as nat),
            TurnState::Backoff(a) => TurnStateView::Backoff(*a as nat),
            TurnState::ReadingError(p) => TurnStateView::ReadingError(p@),
            TurnState::Streaming => TurnStateView::Streaming,
            TurnState::Saving => TurnStateView::Saving,
            TurnState::Over => TurnStateView::Over,
        }
    }
}

impl View for Reply {
    type V = ReplyView;

    open spec fn view(&self) -> ReplyView {
        match self {
            Reply::Unsent(e) => ReplyView::Unsent(e@),
            Reply::Status { code, line } => ReplyView::Status(*code as nat, line@),
        }
    }
}

impl View for TurnEvent {
    type V = TurnEventView;

    open spec fn view(&self) -> TurnEventView {
        match self {
            TurnEvent::Begin => TurnEventView::Begin,
            TurnEvent::Replied(r) => TurnEventView::Replied(r@),
            TurnEvent::Slept => TurnEventView::Slept,
            TurnEvent::BodyRead(b) => TurnEventView::BodyRead(b@),
            TurnEvent::Streamed(r) => TurnEventView::Streamed(
                match r {
                    Ok(t) => Ok(t@),
                    Err(e) => Err(e@),
                },
            ),
            TurnEvent::Saved(m) => TurnEventView::Saved(opt_view(*m)),
        }
    }
}

impl View for TurnAction {
    type V = TurnActionView;

    open spec fn view(&self) -> TurnActionView {
        match self {
            TurnAction::Send => TurnActionView::Send,
            TurnAction::Sleep(n) => TurnActionView::Sleep(*n as nat),
            TurnAction::ReadBody => TurnActionView::ReadBody,
            TurnAction::Stream => TurnActionView::Stream,
            TurnAction::Save(t) => TurnActionView::Save(t@),
            TurnAction::Stop => TurnActionView::Stop,
        }
    }
}

/// `2` to the power `n`.
pub open spec fn two_pow(n: nat) -> nat
    decreases n,
{
    if n == 0 {
        1
    } else {
        2 * two_pow((n - 1) as nat)
    }
}

/// The wait, in seconds, before the retry that follows the refused attempt `attempt`:
/// `2^attempt` (1 s, 2 s, 4 s, ...), at most `MAX_RETRY_WAIT_SECS`.
pub open spec fn backoff_secs(attempt: nat) -> nat {
    let w = two_pow(attempt);
    if w < MAX_RETRY_WAIT_SECS {
        w
    } else {
        MAX_RETRY_WAIT_SECS as nat
    }
}

/// Whether a status code is a success (2xx).
pub open spec fn is_success(code: nat) -> bool {
    200 <= code < 300
}

/// The error reported when the last attempt is still rate limited, before the body.
pub open spec fn rate_limit_prefix() -> Seq<char> {
    "API rate limited after "@ + decimal(MAX_RETRIES as nat) + " retries: "@
}

/// The error reported for any other refusal, before the body.
pub open spec fn api_error_prefix(line: Seq<char>) -> Seq<char> {
    "API error ("@ + line + "): "@
}

/// Whether `event` is one that can come in `state`.
pub open spec fn expects(state: TurnStateView, event: TurnEventView) -> bool {
    match (state, event) {
        (TurnStateView::Start, TurnEventView::Begin) => true,
        (TurnStateView::Awaiting(_), TurnEventView::Replied(_)) => true,
        (TurnStateView::Backoff(_), TurnEventView::Slept) => true,
        (TurnStateView::ReadingError(_), TurnEventView::BodyRead(_)) => true,
        (TurnStateView::Streaming, TurnEventView::Streamed(_)) => true,
        (TurnStateView::Saving, TurnEventView::Saved(_)) => true,
        _ => false,
    }
}

/// One step of a bot's turn: the next state, the kind of event to send, and the next action.
/// A reply of status 429 is tried again after `backoff_secs` as long as fewer than
/// `MAX_RETRIES` retries were made; after that, as any other refusal, its body is read and
/// reported. An event that cannot come in the state ends the turn silently.
pub open spec fn turn_next(state: TurnStateView, event: TurnEventView) -> (TurnStateView, Option<EventKind>, TurnActionView) {
    match (state, event) {
        (TurnStateView::Start, TurnEventView::Begin) => (
            TurnStateView::Awaiting(0),
            Some(EventKind::Thinking),
            TurnActionView::Send,
        ),
        (TurnStateView::Awaiting(a), TurnEventView::Replied(ReplyView::Unsent(e))) => (
            TurnStateView::Over,
            Some(EventKind::Failed(e)),
            TurnActionView::Stop,
        ),
        (TurnStateView::Awaiting(a), TurnEventView::Replied(ReplyView::Status(code, line))) => {
            if code == STATUS_TOO_MANY_REQUESTS {
                if a < MAX_RETRIES {
                    (
                        TurnStateView::Backoff(a + 1),
                        Some(EventKind::Retrying(a)),
                        TurnActionView::Sleep(backoff_secs(a)),
                    )
                } else {
                    (TurnStateView::ReadingError(rate_limit_prefix()), None, TurnActionView::ReadBody)
                }
            } else if !is_success(code) {
                (TurnStateView::ReadingError(api_error_prefix(line)), None, TurnActionView::ReadBody)
            } else {
                (TurnStateView::Streaming, None, TurnActionView::Stream)
            }
        },
        (TurnStateView::Backoff(a), TurnEventView::Slept) => (
            TurnStateView::Awaiting(a),
            None,
            TurnActionView::Send,
        ),
        (TurnStateView::ReadingError(p), TurnEventView::BodyRead(body)) => (
            TurnStateView::Over,
            Some(EventKind::Failed(p + body)),
            TurnActionView::Stop,
        ),
        (TurnStateView::Streaming, TurnEventView::Streamed(Ok(content))) => (
            TurnStateView::Saving,
            None,
            TurnActionView::Save(content),
        ),
        (TurnStateView::Streaming, TurnEventView::Streamed(Err(e))) => (
            TurnStateView::Over,
            Some(EventKind::Failed(e)),
            TurnActionView::Stop,
        ),
        (TurnStateView::Saving, TurnEventView::Saved(m)) => (
            TurnStateView::Over,
            Some(EventKind::Finished(m)),
            TurnActionView::Stop,
        ),
        _ => (TurnStateView::Over, None, TurnActionView::Stop),
    }
}

/// The states a turn can be in: attempt numbers never pass `MAX_RETRIES`.
pub open spec fn turn_state_ok(state: TurnStateView) -> bool {
    match state {
        TurnStateView::Awaiting(a) => a <= MAX_RETRIES,
        TurnStateView::Backoff(a) => 1 <= a <= MAX_RETRIES,
        _ => true,
    }
}

/// The event to send, for a kind of event.
pub open spec fn emitted(topic_id: Seq<char>, bot: BotView, kind: Option<EventKind>) -> Option<StreamEventView> {
    match kind {
        Some(k) => Some(event_of(topic_id, bot, k)),
        None => None,
    }
}

pub open spec fn emit_view(e: Option<StreamEvent>) -> Option<StreamEventView> {
    match e {
        Some(ev) => Some(ev@),
        None => None,
    }
}

/// The wait after a refused attempt, computed.
pub fn retry_wait_secs(attempt: u32) -> (w: u64)
    requires
        attempt < MAX_RETRIES,
    ensures
        w == backoff_secs(attempt as nat),
{
    let mut w: u64 = 1;
    let mut i: u32 = 0;
    while i < attempt
        invariant
            i <= attempt < MAX_RETRIES,
            w == two_pow(i as nat),
            w <= 4,
            i < 2 ==> w <= 2,
            i < 1 ==> w <= 1,
        decreases attempt - i,
    {
        w = w * 2;
        i += 1;
    }
    if w < MAX_RETRY_WAIT_SECS {
        w
    } else {
        MAX_RETRY_WAIT_SECS
    }
}

fn rate_limit_text() -> (s: String)
    ensures
        s@ == rate_limit_prefix(),
{
    let mut s = String::from_str("API rate limited after ");
    s.append(decimal_string(MAX_RETRIES as u64).as_str());
    s.append(" retries: ");
    s
}

fn api_error_text(line: &str) -> (s: String)
    ensures
        s@ == api_error_prefix(line@),
{
    let mut s = String::from_str("API error (");
    s.append(line);
    s.append("): ");
    s
}

fn step_to(state: TurnState, emit: Option<StreamEvent>, action: TurnAction) -> (t: TurnStep)
    ensures
        t.state == state,
        t.emit == emit,
        t.action == action,
{
    TurnStep { state, emit, action }
}

/// Takes one step of a bot's turn in `topic_id`.
pub fn turn_step(topic_id: &str, bot: &Bot, state: TurnState, event: TurnEvent) -> (t: TurnStep)
    requires
        turn_state_ok(state@),
    ensures
        ({
            let (s, k, a) = turn_next(state@, event@);
            &&& t.state@ == s
            &&& emit_view(t.emit) == emitted(topic_id@, bot@, k)
            &&& t.action@ == a
        }),
        turn_state_ok(t.state@),
{
    match (state, event) {
        (TurnState::Start, TurnEvent::Begin) => step_to(
            TurnState::Awaiting(0),
            Some(thinking_event(topic_id, bot)),
            TurnAction::Send,
        ),
        (TurnState::Awaiting(_), TurnEvent::Replied(Reply::Unsent(e))) => step_to(
            TurnState::Over,
            Some(failed_event(topic_id, bot, e)),
            TurnAction::Stop,
        ),
        (TurnState::Awaiting(a), TurnEvent::Replied(Reply::Status { code, line })) => {
            if code == STATUS_TOO_MANY_REQUESTS {
                if a < MAX_RETRIES {
                    step_to(
                        TurnState::Backoff(a + 1),
                        Some(retrying_event(topic_id, bot, a)),
                        TurnAction::Sleep(retry_wait_secs(a)),
                    )
                } else {
                    step_to(TurnState::ReadingError(rate_limit_text()), None, TurnAction::ReadBody)
                }
            } else if code < 200 || code >= 300 {
                step_to(
                    TurnState::ReadingError(api_error_text(line.as_str())),
                    None,
                    TurnAction::ReadBody,
                )
            } else {
                step_to(TurnState::Streaming, None, TurnAction::Stream)
            }
        },
        (TurnState::Backoff(a), TurnEvent::Slept) => step_to(TurnState::Awaiting(a), None, TurnAction::Send),
        (TurnState::ReadingError(p), TurnEvent::BodyRead(body)) => {
            let mut e = p;
            e.append(body.as_str());
            step_to(TurnState::Over, Some(failed_event(topic_id, bot, e)), TurnAction::Stop)
        },
        (TurnState::Streaming, TurnEvent::Streamed(Ok(content))) => step_to(
            TurnState::Saving,
            None,
            TurnAction::Save(content),
        ),
        (TurnState::Streaming, TurnEvent::Streamed(Err(e))) => step_to(
            TurnState::Over,
            Some(failed_event(topic_id, bot, e)),
            TurnAction::Stop,
        ),
        (TurnState::Saving, TurnEvent::Saved(m)) => step_to(
            TurnState::Over,
            Some(finished_event(topic_id, bot, m)),
            TurnAction::Stop,
        ),
        _ => step_to(TurnState::Over, None, TurnAction::Stop),
    }
}

// ---------------------------------------------------------------------------
// What every turn keeps
// ---------------------------------------------------------------------------

/// The kinds of events a turn sends from `state` as `events` come in, and the state it ends in.
pub open spec fn run_turn(state: TurnStateView, events: Seq<TurnEventView>) -> (TurnStateView, Seq<EventKind>)
    decreases events.len(),
{
    if events.len() == 0 {
        (state, Seq::empty())
    } else {
        let (next, kind, _) = turn_next(state, events[0]);
        let (last, rest) = run_turn(next, events.drop_first());
        let sent = match kind {
            Some(k) => seq![k],
            None => Seq::empty(),
        };
        (last, sent + rest)
    }
}

/// How many of `kinds` announce a retry.
pub open spec fn retry_count(kinds: Seq<EventKind>) -> nat
    decreases kinds.len(),
{
    if kinds.len() == 0 {
        0
    } else {
        (if kinds[0] is Retrying { 1nat } else { 0nat }) + retry_count(kinds.drop_first())
    }
}

/// How many of `kinds` end a turn (failed or finished).
pub open spec fn final_count(kinds: Seq<EventKind>) -> nat
    decreases kinds.len(),
{
    if kinds.len() == 0 {
        0
    } else {
        (if kinds[0] is Failed || kinds[0] is Finished { 1nat } else { 0nat }) + final_count(
            kinds.drop_first(),
        )
    }
}

/// The retries still possible from a state.
pub open spec fn retries_left(state: TurnStateView) -> int {
    match state {
        TurnStateView::Start => MAX_RETRIES as int,
        TurnStateView::Awaiting(a) => MAX_RETRIES - a,
        TurnStateView::Backoff(a) => MAX_RETRIES - a,
        _ => 0,
    }
}

proof fn lemma_count_concat(a: Seq<EventKind>, b: Seq<EventKind>)
    ensures
        retry_count(a + b) == retry_count(a) + retry_count(b),
        final_count(a + b) == final_count(a) + final_count(b),
    decreases a.len(),
{
    if a.len() > 0 {
        assert((a + b).drop_first() =~= a.drop_first() + b);
        lemma_count_concat(a.drop_first(), b);
    } else {
        assert(a + b =~= b);
    }
}

proof fn lemma_run_retries(state: TurnStateView, events: Seq<TurnEventView>)
    requires
        turn_state_ok(state),
    ensures
        retry_count(run_turn(state, events).1) <= retries_left(state),
        state is Over ==> final_count(run_turn(state, events).1) == 0,
        final_count(run_turn(state, events).1) <= 1,
    decreases events.len(),
{
    if events.len() > 0 {
        let (next, kind, _) = turn_next(state, events[0]);
        lemma_run_retries(next, events.drop_first());
        let rest = run_turn(next, events.drop_first()).1;
        let sent = match kind {
            Some(k) => seq![k],
            None => Seq::<EventKind>::empty(),
        };
        lemma_count_concat(sent, rest);
        assert(retry_count(Seq::<EventKind>::empty()) == 0);
        assert(final_count(Seq::<EventKind>::empty()) == 0);
        if let Some(k) = kind {
            assert(sent.drop_first() =~= Seq::<EventKind>::empty());
            assert(retry_count(sent) == if k is Retrying { 1nat } else { 0nat });
            assert(final_count(sent) == if k is Failed || k is Finished { 1nat } else { 0nat });
        }
        assert(run_turn(state, events).1 == sent + rest);
    }
}

/// A rate-limited request is tried again at most `MAX_RETRIES` times in a turn, whatever
/// comes back.
pub proof fn lemma_retries_bounded(events: Seq<TurnEventView>)
    ensures
        retry_count(run_turn(TurnStateView::Start, events).1) <= MAX_RETRIES,
{
    lemma_run_retries(TurnStateView::Start, events);
}

/// A turn sends at most one event that ends it (an error or the finished answer).
pub proof fn lemma_single_final_event(events: Seq<TurnEventView>)
    ensures
        final_count(run_turn(TurnStateView::Start, events).1) <= 1,
{
    lemma_run_retries(TurnStateView::Start, events);
}

/// A step ends the turn exactly when it sends an event marked `done`, for every event that
/// can come in the state; an event that cannot come ends the turn without sending anything.
pub proof fn lemma_done_ends_turn(topic_id: Seq<char>, bot: BotView, state: TurnStateView, event: TurnEventView)
    requires
        !(state is Over),
    ensures
        expects(state, event) ==> ((turn_next(state, event).0 is Over) <==> (emitted(
            topic_id,
            bot,
            turn_next(state, event).1,
        ) matches Some(ev) && ev.done)),
        !expects(state, event) ==> turn_next(state, event).0 is Over && turn_next(state, event).1
            is None,
{
}

/// The waits between attempts double from 1 second and never pass `MAX_RETRY_WAIT_SECS`.
pub proof fn lemma_backoff(attempt: nat)
    ensures
        backoff_secs(attempt) <= MAX_RETRY_WAIT_SECS,
        backoff_secs(0) == 1,
        backoff_secs(attempt + 1) == if 2 * backoff_secs(attempt) < MAX_RETRY_WAIT_SECS {
            2 * backoff_secs(attempt)
        } else {
            MAX_RETRY_WAIT_SECS as nat
        },
{
    reveal_with_fuel(two_pow, 2);
    assert(two_pow(attempt + 1) == 2 * two_pow(attempt));
}

/// A reply that is not a rate limit (429) is streamed as the answer exactly when its status is
/// 2xx. Any other status (a refused key, an unknown model, a server error) is an API error:
/// the body is read next and reported after "API error (<status line>): ", and nothing is
/// streamed or saved.
pub proof fn lemma_only_success_is_streamed(a: nat, code: nat, line: Seq<char>)
    requires
        code != 429,
    ensures
        ({
            let (st, ev, act) = turn_next(TurnStateView::Awaiting(a), TurnEventView::Replied(ReplyView::Status(code, line)));
            &&& ev is None
            &&& (200 <= code < 300) ==> st == TurnStateView::Streaming && act == TurnActionView::Stream
            &&& !(200 <= code < 300) ==> st == TurnStateView::ReadingError("API error ("@ + line + "): "@)
                && act == TurnActionView::ReadBody
        }),
{
}

/// A rate-limited reply (429) is tried again after 1, 2 and 4 seconds, for the first, second
/// and third retry, each announced as "Rate limited, retrying (k/3)..." with status
/// "retrying"; a fourth 429 reply gives up: the body is read next and reported after
/// "API rate limited after 3 retries: ".
pub proof fn lemma_rate_limited_reply(topic_id: Seq<char>, bot: BotView, a: nat, line: Seq<char>)
    requires
        a <= 3,
    ensures
        ({
            let (st, ev, act) = turn_next(TurnStateView::Awaiting(a), TurnEventView::Replied(ReplyView::Status(429, line)));
            &&& a < 3 ==> {
                &&& st == TurnStateView::Backoff(a + 1)
                &&& act == TurnActionView::Sleep(if a == 0 { 1 } else if a == 1 { 2 } else { 4 })
                &&& ev == Some(EventKind::Retrying(a))
                &&& event_of(topic_id, bot, EventKind::Retrying(a)).status == Some("retrying"@)
                &&& !event_of(topic_id, bot, EventKind::Retrying(a)).done
                &&& event_of(topic_id, bot, EventKind::Retrying(a)).delta == "Rate limited, retrying ("@ + seq![
                    if a == 0 { '1' } else if a == 1 { '2' } else { '3' },
                ] + "/"@ + seq!['3'] + ")..."@
            }
            &&& a == 3 ==> {
                &&& st == TurnStateView::ReadingError("API rate limited after "@ + seq!['3'] + " retries: "@)
                &&& act == TurnActionView::ReadBody
                &&& ev is None
            }
        }),
{
    reveal_with_fuel(two_pow, 3);
    assert(decimal(3) == seq!['3']);
    if a < 3 {
        assert(decimal(a + 1) == seq![if a == 0 { '1' } else if a == 1 { '2' } else { '3' }]);
    }
}

/// The other steps of a turn: it starts by announcing "thinking" and sending; after a wait it
/// sends again with the same attempt count; an error body ends it with the error text
/// followed by the body; a streamed answer is saved and its storing ends the turn with the
/// message's identifier; a failed stream ends it with that error.
pub proof fn lemma_turn_steps(topic_id: Seq<char>, bot: BotView, a: nat, p: Seq<char>, body: Seq<char>, content: Seq<char>, e: Seq<char>, m: Option<Seq<char>>)
    ensures
        turn_next(TurnStateView::Start, TurnEventView::Begin) == (TurnStateView::Awaiting(0), Some(EventKind::Thinking), TurnActionView::Send),
        event_of(topic_id, bot, EventKind::Thinking).status == Some("thinking"@),
        turn_next(TurnStateView::Backoff(a), TurnEventView::Slept) == (TurnStateView::Awaiting(a), None::<EventKind>, TurnActionView::Send),
        turn_next(TurnStateView::ReadingError(p), TurnEventView::BodyRead(body)) == (TurnStateView::Over, Some(EventKind::Failed(p + body)), TurnActionView::Stop),
        event_of(topic_id, bot, EventKind::Failed(p + body)).error == Some(p + body),
        event_of(topic_id, bot, EventKind::Failed(p + body)).done,
        turn_next(TurnStateView::Streaming, TurnEventView::Streamed(Ok(content))) == (TurnStateView::Saving, None::<EventKind>, TurnActionView::Save(content)),
        turn_next(TurnStateView::Streaming, TurnEventView::Streamed(Err(e))) == (TurnStateView::Over, Some(EventKind::Failed(e)), TurnActionView::Stop),
        turn_next(TurnStateView::Saving, TurnEventView::Saved(m)) == (TurnStateView::Over, Some(EventKind::Finished(m)), TurnActionView::Stop),
        event_of(topic_id, bot, EventKind::Finished(m)).message_id == m,
        event_of(topic_id, bot, EventKind::Finished(m)).done,
{
}

/// The bots that answer are the topic's bots, in the topic's order: all of them when the
/// request names none, else those whose identifiers it names (a named identifier of no bot of
/// the topic is ignored).
pub proof fn lemma_selected_bots(topic_bots: Seq<BotView>, ids: Option<Seq<Seq<char>>>)
    ensures
        ids is None ==> selected_bots(topic_bots, ids) == topic_bots,
        ids matches Some(l) ==> selected_bots(topic_bots, ids) == topic_bots.filter(|b: BotView| l.contains(b.id)),
    decreases topic_bots.len(),
{
    reveal(Seq::filter);
    if topic_bots.len() > 0 {
        lemma_selected_bots(topic_bots.drop_last(), ids);
        assert(topic_bots.drop_last().push(topic_bots.last()) =~= topic_bots);
    } else {
        assert(selected_bots(topic_bots, ids) =~= topic_bots);
    }
}

} // verus!
