//! The course of one streamed reply.
//!
//! The provider's stream and the client are driven from outside. What happens there comes in as
//! events, and each answer says what to send, whether to ask the provider for more, and when to
//! give a plain answer in place of a stream.

use crate::completion::ProviderUsage;
use crate::conversation::{Message, MessageView};
use crate::failure::{about_sign_in, failure_reply, looks_like_auth_failure, upstream_reply};
use crate::json::{json_text, json_views, Json, JsonView};
use crate::reply::{Reply, ReplyView};
use crate::stream::{
    closing_chunks, fresh_writer, opt_message, parts_of, write_item, ChunkWriter, WriterView,
};
use crate::text::texts;
use vstd::prelude::*;

verus! {

/// How far a streamed reply has come.
#[derive(Debug)]
pub enum Stage {
    /// The provider was asked for a stream.
    Opening,
    /// There is a stream; its first item decides between a status of its own and a stream.
    Waiting,
    /// Chunks go out.
    Streaming(ChunkWriter),
    /// Nothing more happens.
    Over,
}

/// A reply that is to be streamed.
#[derive(Debug)]
pub struct StreamSession {
    pub model: String,
    pub include_usage: bool,
    pub stage: Stage,
}

/// What happens outside.
#[derive(Debug)]
pub enum StreamEvent {
    /// The provider gave a stream.
    Opened,
    /// The stream yielded an item.
    Item(Option<Message>, Option<ProviderUsage>),
    /// The stream ended.
    Ended,
    /// The provider gave no stream, or the stream failed.
    Failed(String),
    /// The client is gone.
    ClientLeft,
}

/// What to do.
#[derive(Debug)]
pub struct StreamStep {
    /// The answer to give in place of a stream.
    pub reply: Option<Reply>,
    /// The data of the events to send.
    pub lines: Vec<String>,
    /// Ask the provider for the next item. Where this does not hold, its stream is dropped, which
    /// cancels the request upstream.
    pub poll: bool,
    /// Drop the provider that is kept ready: its sign-in failed.
    pub forget: bool,
}

pub enum StageView {
    Opening,
    Waiting,
    Streaming(WriterView),
    Over,
}

pub struct SessionView {
    pub model: Seq<char>,
    pub include_usage: bool,
    pub stage: StageView,
}

pub enum EventView {
    Opened,
    Item(Option<MessageView>, Option<ProviderUsage>),
    Ended,
    Failed(Seq<char>),
    ClientLeft,
}

pub struct StepView {
    pub reply: Option<ReplyView>,
    pub lines: Seq<Seq<char>>,
    pub poll: bool,
    pub forget: bool,
}

impl View for Stage {
    type V = StageView;

    open spec fn view(&self) -> StageView {
        match *self {
            Stage::Opening => StageView::Opening,
            Stage::Waiting => StageView::Waiting,
            Stage::Streaming(w) => StageView::Streaming(w@),
            Stage::Over => StageView::Over,
        }
    }
}

impl View for StreamSession {
    type V = SessionView;

    open spec fn view(&self) -> SessionView {
        SessionView {
            model: self.model@,
            include_usage: self.include_usage,
            stage: self.stage@,
        }
    }
}

impl View for StreamEvent {
    type V = EventView;

    open spec fn view(&self) -> EventView {
        match *self {
            StreamEvent::Opened => EventView::Opened,
            StreamEvent::Item(m, u) => EventView::Item(opt_message(m), u),
            StreamEvent::Ended => EventView::Ended,
            StreamEvent::Failed(message) => EventView::Failed(message@),
            StreamEvent::ClientLeft => EventView::ClientLeft,
        }
    }
}

impl View for StreamStep {
    type V = StepView;

    open spec fn view(&self) -> StepView {
        StepView {
            reply: match self.reply {
                Some(r) => Some(r@),
                None => None,
            },
            lines: texts(self.lines@),
            poll: self.poll,
            forget: self.forget,
        }
    }
}

/// Chunks as the data of events.
pub open spec fn lines_of(chunks: Seq<JsonView>) -> Seq<Seq<char>> {
    chunks.map_values(|c: JsonView| json_text(c))
}

/// Nothing to do.
pub open spec fn idle() -> StepView {
    StepView { reply: None, lines: Seq::empty(), poll: false, forget: false }
}

/// Send, and ask for more where `poll` holds.
pub open spec fn sending(lines: Seq<Seq<char>>, poll: bool) -> StepView {
    StepView { reply: None, lines, poll, forget: false }
}

/// The lines that end a complete stream; the last one says that it is complete.
pub open spec fn closing_lines(w: WriterView) -> Seq<Seq<char>> {
    lines_of(closing_chunks(w)).push("[DONE]"@)
}

/// What happens next.
pub open spec fn next(s: SessionView, event: EventView, created: i64) -> (SessionView, StepView) {
    let over = SessionView { stage: StageView::Over, ..s };
    let fresh = fresh_writer(created, s.model, s.include_usage);
    match (s.stage, event) {
        (StageView::Over, _) => (s, idle()),
        (_, EventView::ClientLeft) => (over, idle()),
        (StageView::Opening, EventView::Opened) => (
            SessionView { stage: StageView::Waiting, ..s },
            sending(Seq::empty(), true),
        ),
        (StageView::Streaming(w), EventView::Item(message, usage)) => {
            let (after, chunks) = write_item(w, message, usage);
            (
                SessionView { stage: StageView::Streaming(after), ..s },
                sending(lines_of(chunks), true),
            )
        },
        (StageView::Waiting, EventView::Item(message, usage)) => {
            let (after, chunks) = write_item(fresh, message, usage);
            (
                SessionView { stage: StageView::Streaming(after), ..s },
                sending(lines_of(chunks), true),
            )
        },
        (StageView::Streaming(w), EventView::Ended) => (over, sending(closing_lines(w), false)),
        (StageView::Waiting, EventView::Ended) => (over, sending(closing_lines(fresh), false)),
        // The status is gone by now, so the failure travels in the stream, which stays incomplete.
        (StageView::Streaming(w), EventView::Failed(message)) => (
            over,
            StepView {
                reply: None,
                lines: seq![upstream_reply(message).text],
                poll: false,
                forget: about_sign_in(message),
            },
        ),
        (_, EventView::Failed(message)) => (
            over,
            StepView {
                reply: Some(upstream_reply(message)),
                lines: Seq::empty(),
                poll: false,
                forget: about_sign_in(message),
            },
        ),
        // Nothing is owed to an event that comes out of turn.
        (_, _) => (s, idle()),
    }
}

/// There is room to count the tool calls of an event.
pub open spec fn room(s: StreamSession, event: StreamEvent) -> bool {
    match (s.stage, event) {
        (Stage::Streaming(w), StreamEvent::Item(m, _)) => w.tool_calls + parts_of(
            opt_message(m),
        ).len() <= usize::MAX,
        _ => true,
    }
}

/// The data of an event.
pub fn sse_json(value: Json) -> (r: String)
    ensures
        r@ == json_text(value@),
{
    value.into_text()
}

fn lines(chunks: Vec<Json>) -> (r: Vec<String>)
    ensures
        texts(r@) == lines_of(json_views(chunks@)),
{
    let ghost all = lines_of(json_views(chunks@));
    let mut out: Vec<String> = Vec::new();
    assert(texts(out@) =~= all.take(0));
    for chunk in it: chunks
        invariant
            it.seq() == chunks@,
            all == lines_of(json_views(chunks@)),
            texts(out@) == all.take(it.index()),
    {
        let ghost before = texts(out@);
        let ghost value = chunk@;
        out.push(sse_json(chunk));
        assert(texts(out@) =~= before.push(json_text(value)));
        assert(before.push(json_text(value)) =~= all.take(it.index() + 1));
    }
    assert(all.take(all.len() as int) =~= all);
    out
}

fn idle_step() -> (r: StreamStep)
    ensures
        r@ == idle(),
{
    let lines: Vec<String> = Vec::new();
    assert(texts(lines@) =~= Seq::empty());
    StreamStep { reply: None, lines, poll: false, forget: false }
}

fn item_step(writer: ChunkWriter, message: Option<Message>, usage: Option<ProviderUsage>) -> (r: (
    ChunkWriter,
    StreamStep,
))
    requires
        writer.tool_calls + parts_of(opt_message(message)).len() <= usize::MAX,
    ensures
        r.0@ == write_item(writer@, opt_message(message), usage).0,
        r.1@ == sending(lines_of(write_item(writer@, opt_message(message), usage).1), true),
{
    let mut writer = writer;
    let chunks = writer.item(message, usage);
    (writer, StreamStep { reply: None, lines: lines(chunks), poll: true, forget: false })
}

fn closing_step(writer: &ChunkWriter) -> (r: StreamStep)
    ensures
        r@ == sending(closing_lines(writer@), false),
{
    let mut out = lines(writer.finish());
    let ghost before = texts(out@);
    out.push("[DONE]".to_owned());
    assert(texts(out@) =~= before.push("[DONE]"@));
    StreamStep { reply: None, lines: out, poll: false, forget: false }
}

impl StreamSession {
    /// The provider is asked for a stream.
    pub fn new(model: String, include_usage: bool) -> (r: Self)
        ensures
            r@ == (SessionView { model: model@, include_usage, stage: StageView::Opening }),
    {
        StreamSession { model, include_usage, stage: Stage::Opening }
    }

    /// Whether there is room to count the tool calls of an event.
    pub fn has_room(&self, event: &StreamEvent) -> (r: bool)
        ensures
            r == room(*self, *event),
    {
        match (&self.stage, event) {
            (Stage::Streaming(w), StreamEvent::Item(Some(m), _)) => {
                let len: usize = m.content.len();
                assert(len == m@.content.len());
                len <= usize::MAX - w.tool_calls
            },
            _ => true,
        }
    }

    /// Takes an event. `created` is the time by the clock, for the case that chunks begin to go out.
    pub fn step(self, event: StreamEvent, created: i64) -> (r: (StreamSession, StreamStep))
        requires
            room(self, event),
        ensures
            r.0@ == next(self@, event@, created).0,
            r.1@ == next(self@, event@, created).1,
    {
        let StreamSession { model, include_usage, stage } = self;
        match (stage, event) {
            (Stage::Over, _) => {
                (StreamSession { model, include_usage, stage: Stage::Over }, idle_step())
            },
            (_, StreamEvent::ClientLeft) => {
                (StreamSession { model, include_usage, stage: Stage::Over }, idle_step())
            },
            (Stage::Opening, StreamEvent::Opened) => {
                let lines: Vec<String> = Vec::new();
                assert(texts(lines@) =~= Seq::empty());
                (
                    StreamSession { model, include_usage, stage: Stage::Waiting },
                    StreamStep { reply: None, lines, poll: true, forget: false },
                )
            },
            (Stage::Streaming(w), StreamEvent::Item(message, usage)) => {
                let (w, step) = item_step(w, message, usage);
                (StreamSession { model, include_usage, stage: Stage::Streaming(w) }, step)
            },
            (Stage::Waiting, StreamEvent::Item(message, usage)) => {
                let w = ChunkWriter::at(created, model.clone(), include_usage);
                if let Some(m) = &message {
                    let len: usize = m.content.len();
                    assert(len == m@.content.len());
                }
                let (w, step) = item_step(w, message, usage);
                (StreamSession { model, include_usage, stage: Stage::Streaming(w) }, step)
            },
            (Stage::Streaming(w), StreamEvent::Ended) => {
                (
                    StreamSession { model, include_usage, stage: Stage::Over },
                    closing_step(&w),
                )
            },
            (Stage::Waiting, StreamEvent::Ended) => {
                let w = ChunkWriter::at(created, model.clone(), include_usage);
                (
                    StreamSession { model, include_usage, stage: Stage::Over },
                    closing_step(&w),
                )
            },
            (Stage::Streaming(_), StreamEvent::Failed(message)) => {
                let reply = failure_reply(message.as_str());
                let mut lines: Vec<String> = Vec::new();
                let ghost text = reply@.text;
                lines.push(reply.into_text());
                assert(texts(lines@) =~= seq![text]);
                let forget = looks_like_auth_failure(message.as_str());
                (
                    StreamSession { model, include_usage, stage: Stage::Over },
                    StreamStep { reply: None, lines, poll: false, forget },
                )
            },
            (_, StreamEvent::Failed(message)) => {
                let lines: Vec<String> = Vec::new();
                assert(texts(lines@) =~= Seq::empty());
                let forget = looks_like_auth_failure(message.as_str());
                (
                    StreamSession { model, include_usage, stage: Stage::Over },
                    StreamStep {
                        reply: Some(failure_reply(message.as_str())),
                        lines,
                        poll: false,
                        forget,
                    },
                )
            },
            (stage, _) => { (StreamSession { model, include_usage, stage }, idle_step()) },
        }
    }
}

// ---------------------------------------------------------------------------
// What holds of every stream
// ---------------------------------------------------------------------------

/// A session after events, with all the lines that went out.
pub open spec fn run(s: SessionView, events: Seq<EventView>, created: i64) -> (
    SessionView,
    Seq<Seq<char>>,
)
    decreases events.len(),
{
    if events.len() == 0 {
        (s, Seq::empty())
    } else {
        let (before, sent) = run(s, events.drop_last(), created);
        let (after, step) = next(before, events.last(), created);
        (after, sent + step.lines)
    }
}

/// An item of a provider's stream.
pub struct ItemView {
    pub message: Option<MessageView>,
    pub usage: Option<ProviderUsage>,
}

/// Items as events.
pub open spec fn item_events(items: Seq<ItemView>) -> Seq<EventView> {
    items.map_values(|i: ItemView| EventView::Item(i.message, i.usage))
}

/// A writer after items, with the chunks that went out for them.
pub open spec fn write_items(w: WriterView, items: Seq<ItemView>) -> (WriterView, Seq<JsonView>)
    decreases items.len(),
{
    if items.len() == 0 {
        (w, Seq::empty())
    } else {
        let (before, chunks) = write_items(w, items.drop_last());
        let (after, more) = write_item(before, items.last().message, items.last().usage);
        (after, chunks + more)
    }
}

/// A failure that comes before the first item keeps its HTTP status: it is the whole answer, and
/// nothing is streamed.
pub proof fn early_failures_keep_their_status(s: SessionView, message: Seq<char>, created: i64)
    requires
        s.stage is Opening || s.stage is Waiting,
    ensures
        next(s, EventView::Failed(message), created).1.reply == Some(upstream_reply(message)),
        next(s, EventView::Failed(message), created).1.lines.len() == 0,
        next(s, EventView::Failed(message), created).0.stage is Over,
{
}

/// A failure that comes later travels in the stream, as one line with the error. The session is then
/// over, so no line says that the stream is complete.
pub proof fn late_failures_travel_in_the_stream(s: SessionView, message: Seq<char>, created: i64)
    requires
        s.stage is Streaming,
    ensures
        next(s, EventView::Failed(message), created).1.reply is None,
        next(s, EventView::Failed(message), created).1.lines == seq![
            upstream_reply(message).text,
        ],
        next(s, EventView::Failed(message), created).0.stage is Over,
{
}

/// Once over, a session sends nothing more and asks for nothing more, whatever happens.
pub proof fn over_is_over(s: SessionView, events: Seq<EventView>, created: i64)
    requires
        s.stage is Over,
    ensures
        run(s, events, created).0 == s,
        run(s, events, created).1.len() == 0,
        events.len() > 0 ==> next(s, events[0], created).1 == idle(),
    decreases events.len(),
{
    if events.len() > 0 {
        over_is_over(s, events.drop_last(), created);
    }
}

/// When the client is gone the session is over and the provider is asked for nothing more.
pub proof fn a_client_that_leaves_cancels(s: SessionView, created: i64)
    ensures
        next(s, EventView::ClientLeft, created).0.stage is Over,
        next(s, EventView::ClientLeft, created).1 == idle(),
{
}

/// The provider is asked for more exactly while a session goes on after an event in turn, and a
/// session that has ended asks for nothing.
pub proof fn ended_sessions_do_not_poll(s: SessionView, event: EventView, created: i64)
    ensures
        next(s, event, created).0.stage is Over ==> !next(s, event, created).1.poll,
{
}

/// A session sends its items' chunks while the stream lasts.
proof fn lemma_items_run(s: SessionView, items: Seq<ItemView>, created: i64)
    requires
        s.stage is Waiting,
    ensures
        run(s, item_events(items), created).1 == lines_of(
            write_items(fresh_writer(created, s.model, s.include_usage), items).1,
        ),
        run(s, item_events(items), created).0 == (SessionView {
            stage: if items.len() == 0 {
                StageView::Waiting
            } else {
                StageView::Streaming(
                    write_items(fresh_writer(created, s.model, s.include_usage), items).0,
                )
            },
            ..s
        }),
    decreases items.len(),
{
    let fresh = fresh_writer(created, s.model, s.include_usage);
    let events = item_events(items);
    if items.len() > 0 {
        lemma_items_run(s, items.drop_last(), created);
        assert(events.drop_last() =~= item_events(items.drop_last()));
        let (before, chunks) = write_items(fresh, items.drop_last());
        let more = write_item(before, items.last().message, items.last().usage).1;
        assert(lines_of(chunks + more) =~= lines_of(chunks) + lines_of(more));
    } else {
        assert(run(s, events, created).1 =~= lines_of(write_items(fresh, items).1));
    }
}

/// A stream that ends well carries the chunks of all its items in order, then the closing chunks,
/// and then, as its last line, the one that says it is complete.
pub proof fn complete_streams_end_with_done(s: SessionView, items: Seq<ItemView>, created: i64)
    requires
        s.stage is Waiting,
    ensures
        ({
            let w = fresh_writer(created, s.model, s.include_usage);
            let (after, chunks) = write_items(w, items);
            let (end, sent) = run(s, item_events(items).push(EventView::Ended), created);
            &&& end.stage is Over
            &&& sent == lines_of(chunks + closing_chunks(after)).push("[DONE]"@)
        }),
{
    let w = fresh_writer(created, s.model, s.include_usage);
    let (after, chunks) = write_items(w, items);
    let events = item_events(items).push(EventView::Ended);
    lemma_items_run(s, items, created);
    assert(events.drop_last() =~= item_events(items));
    assert(run(s, events, created).1 =~= lines_of(chunks + closing_chunks(after)).push("[DONE]"@));
}

/// A stream that fails on the way carries the chunks of the items before, then the error, and no
/// line that says it is complete.
pub proof fn incomplete_streams_end_with_the_error(
    s: SessionView,
    items: Seq<ItemView>,
    message: Seq<char>,
    created: i64,
)
    requires
        s.stage is Waiting,
        items.len() > 0,
    ensures
        ({
            let w = fresh_writer(created, s.model, s.include_usage);
            let chunks = write_items(w, items).1;
            let (end, sent) = run(
                s,
                item_events(items).push(EventView::Failed(message)),
                created,
            );
            &&& end.stage is Over
            &&& sent == lines_of(chunks).push(upstream_reply(message).text)
        }),
{
    let w = fresh_writer(created, s.model, s.include_usage);
    let chunks = write_items(w, items).1;
    let events = item_events(items).push(EventView::Failed(message));
    lemma_items_run(s, items, created);
    assert(events.drop_last() =~= item_events(items));
    assert(run(s, events, created).1 =~= lines_of(chunks).push(
        upstream_reply(message).text,
    ));
}

/// A step sends these chunks, each as its JSON text, and nothing else; it answers nothing in place of
/// the stream and drops no provider.
pub open spec fn sends(step: StepView, chunks: Seq<JsonView>) -> bool {
    &&& step.reply is None
    &&& !step.forget
    &&& step.lines.len() == chunks.len()
    &&& forall|i: int| 0 <= i < chunks.len() ==> #[trigger] step.lines[i] == json_text(chunks[i])
}

/// A session stays for the same model and with the same wish for token counts, whatever happens.
pub proof fn a_session_keeps_its_request(s: SessionView, event: EventView, created: i64)
    ensures
        next(s, event, created).0.model == s.model,
        next(s, event, created).0.include_usage == s.include_usage,
{
}

/// A stream that was opened is asked for its first item, and nothing is sent for that.
pub proof fn an_opened_stream_is_asked(s: SessionView, created: i64)
    requires
        s.stage is Opening,
    ensures
        ({
            let (after, step) = next(s, EventView::Opened, created);
            &&& after.stage is Waiting
            &&& sends(step, Seq::empty())
            &&& step.poll
        }),
{
}

/// The chunks of an item go out in order, written by the writer that wrote those before it, or by a
/// fresh one for the first item; then the next item is asked for.
pub proof fn an_item_is_sent(
    s: SessionView,
    message: Option<MessageView>,
    usage: Option<ProviderUsage>,
    created: i64,
)
    requires
        s.stage is Waiting || s.stage is Streaming,
    ensures
        ({
            let (after, step) = next(s, EventView::Item(message, usage), created);
            let writer = match s.stage {
                StageView::Streaming(w) => w,
                _ => fresh_writer(created, s.model, s.include_usage),
            };
            &&& after.stage == StageView::Streaming(write_item(writer, message, usage).0)
            &&& sends(step, write_item(writer, message, usage).1)
            &&& step.poll
        }),
{
}

/// A stream that ends well is closed: the closing chunks go out, then the line that says that it is
/// complete, and nothing more is asked for. That holds of one without items too.
pub proof fn an_ended_stream_is_closed(s: SessionView, created: i64)
    requires
        s.stage is Waiting || s.stage is Streaming,
    ensures
        ({
            let (after, step) = next(s, EventView::Ended, created);
            let writer = match s.stage {
                StageView::Streaming(w) => w,
                _ => fresh_writer(created, s.model, s.include_usage),
            };
            let chunks = closing_chunks(writer);
            &&& after.stage is Over
            &&& step.reply is None
            &&& !step.forget
            &&& !step.poll
            &&& step.lines.len() == chunks.len() + 1
            &&& forall|i: int|
                0 <= i < chunks.len() ==> #[trigger] step.lines[i] == json_text(chunks[i])
            &&& step.lines.last() == "[DONE]"@
        }),
{
}

/// A failure ends the session and drops the provider exactly where it is about the sign-in. It is the
/// whole answer before the first item, and a single line of the stream after it.
pub proof fn a_failure_ends_the_session(s: SessionView, message: Seq<char>, created: i64)
    requires
        !(s.stage is Over),
    ensures
        ({
            let (after, step) = next(s, EventView::Failed(message), created);
            &&& after.stage is Over
            &&& !step.poll
            &&& step.forget <==> about_sign_in(message)
            &&& s.stage is Streaming ==> {
                &&& step.reply is None
                &&& step.lines.len() == 1
                &&& step.lines[0] == upstream_reply(message).text
            }
            &&& !(s.stage is Streaming) ==> {
                &&& step.reply == Some(upstream_reply(message))
                &&& step.lines.len() == 0
            }
        }),
{
}

/// What comes out of turn changes nothing, and nothing is owed to it.
pub proof fn what_comes_out_of_turn_is_ignored(s: SessionView, event: EventView, created: i64)
    requires
        s.stage is Opening ==> event is Item || event is Ended,
        s.stage is Waiting || s.stage is Streaming ==> event is Opened,
    ensures
        ({
            let (after, step) = next(s, event, created);
            &&& after == s
            &&& sends(step, Seq::empty())
            &&& !step.poll
        }),
{
}

/// The view of a session leaves nothing out.
pub proof fn views_of_sessions_leave_nothing_out(s: StreamSession, w: ChunkWriter)
    ensures
        s@.model == s.model@,
        s@.include_usage == s.include_usage,
        s@.stage == s.stage@,
        Stage::Opening@ is Opening,
        Stage::Waiting@ is Waiting,
        Stage::Streaming(w)@ == StageView::Streaming(w@),
        Stage::Over@ is Over,
{
}

/// The view of an event or a step leaves nothing out.
pub proof fn views_of_steps_leave_nothing_out(
    m: Message,
    u: Option<ProviderUsage>,
    e: String,
    step: StreamStep,
    i: int,
)
    ensures
        StreamEvent::Opened@ is Opened,
        StreamEvent::Item(Some(m), u)@ == EventView::Item(Some(m@), u),
        StreamEvent::Item(None, u)@ == EventView::Item(None, u),
        StreamEvent::Ended@ is Ended,
        StreamEvent::Failed(e)@ == EventView::Failed(e@),
        StreamEvent::ClientLeft@ is ClientLeft,
        step@.reply is Some == step.reply is Some,
        step.reply matches Some(r) ==> step@.reply == Some(r@),
        step@.lines.len() == step.lines@.len(),
        0 <= i < step.lines@.len() ==> step@.lines[i] == step.lines@[i]@,
        step@.poll == step.poll,
        step@.forget == step.forget,
{
}

/// There is room for every event but an item whose parts cannot be counted any more.
pub proof fn there_is_room_while_calls_can_be_counted(s: StreamSession, event: StreamEvent)
    ensures
        room(s, event) <==> !(s.stage is Streaming && event is Item && event->Item_0 is Some
            && s.stage->Streaming_0.tool_calls + event->Item_0->0.content@.len() > usize::MAX),
{
}

} // verus!
