//! Replies as a stream of chunks.
//!
//! A provider yields text in small pieces but tool calls only once complete, so each tool call goes
//! out whole in a single chunk, with the index that clients key their assembly on.

use crate::clock::{reading, seconds, unix_now};
use crate::completion::{
    asked_arguments, asks_for_a_call, call_in, call_members, call_object, calls_in, comes_back,
    completion_id, completion_name, finish_reason, is_the_call_asked_for, lemma_calls_in_push,
    lemma_texts_in_push, no_usage, out_tool_call, out_usage, reported, text_in, texts_in, usage_json,
    usage_value, OutCallView, ProviderUsage, Usage,
};
use crate::conversation::{blocks, Block, BlockView, Message, MessageView};
use crate::json::{
    has_just, is_silent_on, json_text, json_views, member, says, says_text, Json, JsonObject, JsonView,
};
use crate::seqs::lemma_filter_push;
use crate::text::decimal;
use vstd::prelude::*;

verus! {

/// Turns the parts of a reply into chunks.
#[derive(Debug)]
pub struct ChunkWriter {
    pub id: String,
    pub created: i64,
    pub model: String,
    pub include_usage: bool,
    /// A chunk went out: the first one names the role.
    pub started: bool,
    /// How many tool calls went out.
    pub tool_calls: usize,
    pub usage: Usage,
}

pub struct WriterView {
    pub id: Seq<char>,
    pub created: int,
    pub model: Seq<char>,
    pub include_usage: bool,
    pub started: bool,
    pub tool_calls: nat,
    pub usage: Usage,
}

impl View for ChunkWriter {
    type V = WriterView;

    open spec fn view(&self) -> WriterView {
        WriterView {
            id: self.id@,
            created: self.created as int,
            model: self.model@,
            include_usage: self.include_usage,
            started: self.started,
            tool_calls: self.tool_calls as nat,
            usage: self.usage,
        }
    }
}

/// A writer that has written nothing.
pub open spec fn fresh_writer(created: i64, model: Seq<char>, include_usage: bool) -> WriterView {
    WriterView {
        id: completion_id(created),
        created: created as int,
        model,
        include_usage,
        started: false,
        tool_calls: 0,
        usage: no_usage(),
    }
}

/// A chunk.
pub open spec fn chunk_json(w: WriterView, choices: JsonView) -> JsonView {
    JsonView::Object(
        map![
            "id"@ => JsonView::Text(w.id),
            "object"@ => JsonView::Text("chat.completion.chunk"@),
            "created"@ => JsonView::Int(w.created),
            "model"@ => JsonView::Text(w.model),
            "choices"@ => choices,
        ],
    )
}

/// The one choice of a chunk.
pub open spec fn choice_json(delta: Map<Seq<char>, JsonView>, reason: JsonView) -> JsonView {
    JsonView::Array(
        seq![
            JsonView::Object(
                map![
                    "index"@ => JsonView::Int(0),
                    "delta"@ => JsonView::Object(delta),
                    "finish_reason"@ => reason,
                ],
            ),
        ],
    )
}

/// What goes out first also names the role.
pub open spec fn with_role(w: WriterView, delta: Map<Seq<char>, JsonView>) -> Map<
    Seq<char>,
    JsonView,
> {
    if w.started {
        delta
    } else {
        delta.insert("role"@, JsonView::Text("assistant"@))
    }
}

/// The chunk that carries a delta.
pub open spec fn delta_chunk(w: WriterView, delta: Map<Seq<char>, JsonView>) -> JsonView {
    chunk_json(w, choice_json(with_role(w, delta), JsonView::Null))
}

/// The delta for a text.
pub open spec fn text_delta(text: Seq<char>) -> Map<Seq<char>, JsonView> {
    map!["content"@ => JsonView::Text(text)]
}

/// A tool call with its index.
pub open spec fn indexed_call(call: OutCallView, index: nat) -> JsonView {
    JsonView::Object(call_members(call).insert("index"@, JsonView::Int(index as int)))
}

/// The delta for a tool call.
pub open spec fn call_delta(call: OutCallView, index: nat) -> Map<Seq<char>, JsonView> {
    map!["tool_calls"@ => JsonView::Array(seq![indexed_call(call, index)])]
}

/// The writer after a part, with the chunk that went out for it, if any.
pub open spec fn write_part(w: WriterView, part: BlockView) -> (WriterView, Seq<JsonView>) {
    if let Some(text) = text_in(part) {
        (WriterView { started: true, ..w }, seq![delta_chunk(w, text_delta(text))])
    } else if let Some(call) = call_in(part) {
        (
            WriterView { started: true, tool_calls: w.tool_calls + 1, ..w },
            seq![delta_chunk(w, call_delta(call, w.tool_calls))],
        )
    } else {
        (w, Seq::empty())
    }
}

/// The writer after the parts of a message, with the chunks that went out for them.
pub open spec fn write_parts(w: WriterView, content: Seq<BlockView>) -> (WriterView, Seq<JsonView>)
    decreases content.len(),
{
    if content.len() == 0 {
        (w, Seq::empty())
    } else {
        let (before, chunks) = write_parts(w, content.drop_last());
        let (after, more) = write_part(before, content.last());
        (after, chunks + more)
    }
}

/// The writer with the token counts that a provider reports, where it does.
pub open spec fn with_usage(w: WriterView, usage: Option<ProviderUsage>) -> WriterView {
    match usage {
        Some(u) => WriterView { usage: reported(u), ..w },
        None => w,
    }
}

/// The parts of a message that may be missing.
pub open spec fn parts_of(message: Option<MessageView>) -> Seq<BlockView> {
    match message {
        Some(m) => m.content,
        None => Seq::empty(),
    }
}

/// The writer after an item of a provider's stream, with the chunks that went out for it.
pub open spec fn write_item(
    w: WriterView,
    message: Option<MessageView>,
    usage: Option<ProviderUsage>,
) -> (WriterView, Seq<JsonView>) {
    write_parts(with_usage(w, usage), parts_of(message))
}

/// The chunk that ends a reply.
pub open spec fn last_chunk(w: WriterView) -> JsonView {
    chunk_json(w, choice_json(Map::empty(), JsonView::Text(finish_reason(w.tool_calls))))
}

/// The chunk that reports the token counts.
pub open spec fn usage_chunk(w: WriterView) -> JsonView {
    JsonView::Object(
        chunk_json(w, JsonView::Array(Seq::empty()))->Object_0.insert(
            "usage"@,
            usage_json(w.usage),
        ),
    )
}

/// The chunks that end a stream.
pub open spec fn closing_chunks(w: WriterView) -> Seq<JsonView> {
    if w.include_usage {
        seq![last_chunk(w), usage_chunk(w)]
    } else {
        seq![last_chunk(w)]
    }
}

/// A message that may be missing, taken by its view.
pub open spec fn opt_message(m: Option<Message>) -> Option<MessageView> {
    match m {
        Some(m) => Some(m@),
        None => None,
    }
}

/// A client that reads the arguments of a call back out of the text that goes out for them has what
/// the model asked for; `comes_back` says of which arguments this is claimed.
pub open spec fn is_readable(asked: BlockView) -> bool {
    comes_back(
        asked,
        OutCallView {
            id: asked->ToolRequest_0,
            name: asked->ToolRequest_1->0.name,
            arguments: json_text(asked_arguments(asked)),
        },
    )
}

impl ChunkWriter {
    /// A writer for a reply that begins at a time.
    pub fn at(created: i64, model: String, include_usage: bool) -> (r: Self)
        ensures
            r@ == fresh_writer(created, model@, include_usage),
    {
        ChunkWriter {
            id: completion_name(created),
            created,
            model,
            include_usage,
            started: false,
            tool_calls: 0,
            usage: Usage::default(),
        }
    }

    /// A writer for a reply that begins now.
    pub fn new(model: String, include_usage: bool) -> (r: Self)
        ensures
            r@ == fresh_writer(r.created, model@, include_usage),
            exists|now: std::time::SystemTime| r.created == seconds(#[trigger] reading(now)),
    {
        ChunkWriter::at(unix_now(), model, include_usage)
    }

    fn chunk_object(&self, choices: Json) -> (r: JsonObject)
        ensures
            JsonView::Object(r@) == chunk_json(self@, choices@),
    {
        JsonObject::new().with("id", Json::Text(self.id.clone())).with(
            "object",
            Json::text("chat.completion.chunk"),
        ).with("created", Json::signed(self.created)).with(
            "model",
            Json::Text(self.model.clone()),
        ).with("choices", choices)
    }

    /// A chunk with the given choices.
    pub fn chunk(&self, choices: Json) -> (r: Json)
        ensures
            r@ == chunk_json(self@, choices@),
    {
        Json::Object(self.chunk_object(choices))
    }

    /// The chunk that carries a delta. The first one also names the role.
    pub fn delta(&mut self, delta: JsonObject) -> (r: Json)
        ensures
            r@ == delta_chunk(old(self)@, delta@),
            final(self)@ == (WriterView { started: true, ..old(self)@ }),
    {
        let delta = if self.started {
            delta
        } else {
            delta.with("role", Json::text("assistant"))
        };
        let choice = JsonObject::new().with("index", Json::signed(0)).with(
            "delta",
            Json::Object(delta),
        ).with("finish_reason", Json::Null);
        let r = self.chunk(Json::array_of(Json::Object(choice)));
        self.started = true;
        r
    }

    /// The chunks for one item of a provider's stream.
    pub fn item(&mut self, message: Option<Message>, usage: Option<ProviderUsage>) -> (r: Vec<Json>)
        requires
            old(self).tool_calls + parts_of(opt_message(message)).len() <= usize::MAX,
        ensures
            json_views(r@) == write_item(old(self)@, opt_message(message), usage).1,
            final(self)@ == write_item(old(self)@, opt_message(message), usage).0,
            forall|i: int|
                0 <= i < parts_of(opt_message(message)).len() && asks_for_a_call(
                    #[trigger] parts_of(opt_message(message))[i],
                ) ==> is_readable(parts_of(opt_message(message))[i]),
    {
        if let Some(u) = usage {
            self.usage = out_usage(&u);
        }
        let ghost start = self@;
        let mut out: Vec<Json> = Vec::new();
        assert(json_views(out@) =~= Seq::empty());
        let message = match message {
            Some(m) => m,
            None => {
                return out;
            },
        };
        let ghost all = message@.content;
        let content = message.content;
        for block in it: content
            invariant
                it.seq() == content@,
                all == blocks(content@),
                self.tool_calls + (all.len() - it.index()) <= usize::MAX,
                self@ == write_parts(start, all.take(it.index())).0,
                json_views(out@) == write_parts(start, all.take(it.index())).1,
                forall|i: int|
                    0 <= i < it.index() && asks_for_a_call(#[trigger] all[i]) ==> is_readable(all[i]),
        {
            let ghost w = self@;
            let ghost before = json_views(out@);
            proof {
                assert(all[it.index()] == block@);
                assert(all.take(it.index() + 1).drop_last() =~= all.take(it.index()));
                assert(all.take(it.index() + 1).last() == block@);
            }
            match block {
                Block::Text(text) => {
                    if !text.as_str().is_empty() {
                        let chunk = self.delta(JsonObject::new().with("content", Json::Text(text)));
                        out.push(chunk);
                        assert(json_views(out@) =~= before + seq![chunk@]);
                    } else {
                        assert(before + Seq::<JsonView>::empty() =~= before);
                    }
                },
                Block::ToolRequest(req) => {
                    match out_tool_call(req) {
                        Some(call) => {
                            let indexed = call_object(call).with(
                                "index",
                                Json::unsigned(self.tool_calls as u64),
                            );
                            self.tool_calls += 1;
                            let chunk = self.delta(
                                JsonObject::new().with(
                                    "tool_calls",
                                    Json::array_of(Json::Object(indexed)),
                                ),
                            );
                            out.push(chunk);
                            assert(json_views(out@) =~= before + seq![chunk@]);
                        },
                        None => {
                            assert(before + Seq::<JsonView>::empty() =~= before);
                        },
                    }
                },
                _ => {
                    assert(before + Seq::<JsonView>::empty() =~= before);
                },
            }
        }
        assert(all.take(all.len() as int) =~= all);
        out
    }

    /// The chunk with the finish reason, and the one with the token counts where they were asked
    /// for.
    pub fn finish(&self) -> (r: Vec<Json>)
        ensures
            json_views(r@) == closing_chunks(self@),
    {
        let reason = if self.tool_calls > 0 {
            "tool_calls"
        } else {
            "stop"
        };
        let choice = JsonObject::new().with("index", Json::signed(0)).with(
            "delta",
            Json::Object(JsonObject::new()),
        ).with("finish_reason", Json::text(reason));
        let mut out: Vec<Json> = Vec::new();
        out.push(self.chunk(Json::array_of(Json::Object(choice))));
        if self.include_usage {
            let empty: Vec<Json> = Vec::new();
            assert(json_views(empty@) =~= Seq::empty());
            let object = self.chunk_object(Json::array(empty));
            out.push(Json::Object(object.with("usage", usage_value(&self.usage))));
        }
        assert(json_views(out@) =~= closing_chunks(self@));
        out
    }
}

// ---------------------------------------------------------------------------
// What a client reads out of chunks
// ---------------------------------------------------------------------------

/// The only choice of a chunk.
pub open spec fn choice_of(chunk: JsonView) -> JsonView {
    member(chunk, "choices"@)->0->Array_0[0]
}

/// The delta of a chunk.
pub open spec fn delta_of(chunk: JsonView) -> JsonView {
    member(choice_of(chunk), "delta"@)->0
}

/// The role that a chunk names, if any.
pub open spec fn role_in(chunk: JsonView) -> Option<JsonView> {
    member(delta_of(chunk), "role"@)
}

/// The text that a chunk carries, if any.
pub open spec fn streamed_text(chunk: JsonView) -> Option<JsonView> {
    member(delta_of(chunk), "content"@)
}

/// The tool calls that a chunk carries, if any.
pub open spec fn streamed_calls(chunk: JsonView) -> Option<JsonView> {
    member(delta_of(chunk), "tool_calls"@)
}

/// The texts that chunks carry, in order.
pub open spec fn texts_streamed(chunks: Seq<JsonView>) -> Seq<JsonView> {
    chunks.filter(|c: JsonView| streamed_text(c) is Some).map_values(
        |c: JsonView| streamed_text(c)->0,
    )
}

/// The lists of tool calls that chunks carry, in order.
pub open spec fn calls_streamed(chunks: Seq<JsonView>) -> Seq<JsonView> {
    chunks.filter(|c: JsonView| streamed_calls(c) is Some).map_values(
        |c: JsonView| streamed_calls(c)->0,
    )
}

proof fn lemma_keys_differ()
    ensures
        "delta"@ != "finish_reason"@,
        "role"@ != "content"@,
        "role"@ != "tool_calls"@,
        "content"@ != "tool_calls"@,
        "usage"@ != "choices"@,
{
    reveal_strlit("delta");
    reveal_strlit("finish_reason");
    reveal_strlit("role");
    reveal_strlit("content");
    reveal_strlit("tool_calls");
    reveal_strlit("usage");
    reveal_strlit("choices");
    assert("delta"@.len() == 5 && "finish_reason"@.len() == 13 && "role"@.len() == 4
        && "content"@.len() == 7 && "tool_calls"@.len() == 10 && "usage"@.len() == 5
        && "choices"@.len() == 7);
}

/// What a client reads out of the chunk that carries a delta.
proof fn lemma_delta_chunk(w: WriterView, delta: Map<Seq<char>, JsonView>)
    ensures
        delta_of(delta_chunk(w, delta)) == JsonView::Object(with_role(w, delta)),
{
    lemma_keys_differ();
    let choice = choice_json(with_role(w, delta), JsonView::Null);
    assert(member(delta_chunk(w, delta), "choices"@) == Some(choice));
}

proof fn lemma_texts_streamed_push(chunks: Seq<JsonView>, c: JsonView)
    ensures
        texts_streamed(chunks.push(c)) == match streamed_text(c) {
            Some(t) => texts_streamed(chunks).push(t),
            None => texts_streamed(chunks),
        },
        calls_streamed(chunks.push(c)) == match streamed_calls(c) {
            Some(t) => calls_streamed(chunks).push(t),
            None => calls_streamed(chunks),
        },
{
    lemma_filter_push(chunks, c, |x: JsonView| streamed_text(x) is Some);
    lemma_filter_push(chunks, c, |x: JsonView| streamed_calls(x) is Some);
    assert(texts_streamed(chunks.push(c)) =~= match streamed_text(c) {
        Some(t) => texts_streamed(chunks).push(t),
        None => texts_streamed(chunks),
    });
    assert(calls_streamed(chunks.push(c)) =~= match streamed_calls(c) {
        Some(t) => calls_streamed(chunks).push(t),
        None => calls_streamed(chunks),
    });
}

/// Exactly the first chunk of a stream names the role, and it names the assistant.
pub proof fn only_the_first_chunk_names_the_role(w: WriterView, content: Seq<BlockView>)
    ensures
        forall|i: int|
            0 <= i < write_parts(w, content).1.len() ==> (role_in(
                #[trigger] write_parts(w, content).1[i],
            ) == if i == 0 && !w.started {
                Some(JsonView::Text("assistant"@))
            } else {
                None
            }),
        write_parts(w, content).0.started == (w.started || write_parts(w, content).1.len() > 0),
    decreases content.len(),
{
    if content.len() > 0 {
        let rest = content.drop_last();
        let part = content.last();
        only_the_first_chunk_names_the_role(w, rest);
        let (before, chunks) = write_parts(w, rest);
        let after = write_parts(w, content).1;
        lemma_keys_differ();
        if let Some(text) = text_in(part) {
            lemma_delta_chunk(before, text_delta(text));
        } else if let Some(call) = call_in(part) {
            lemma_delta_chunk(before, call_delta(call, before.tool_calls));
        }
        assert forall|i: int| 0 <= i < after.len() implies (role_in(#[trigger] after[i]) == if i
            == 0 && !w.started {
            Some(JsonView::Text("assistant"@))
        } else {
            None
        }) by {
            if i < chunks.len() {
                assert(after[i] == chunks[i]);
            }
        }
    }
}

/// The texts of a reply go out piece by piece, unchanged and in order.
pub proof fn texts_are_streamed_in_order(w: WriterView, content: Seq<BlockView>)
    ensures
        texts_streamed(write_parts(w, content).1) == texts_in(content).map_values(
            |t: Seq<char>| JsonView::Text(t),
        ),
    decreases content.len(),
{
    let as_json = |t: Seq<char>| JsonView::Text(t);
    if content.len() > 0 {
        let rest = content.drop_last();
        let part = content.last();
        texts_are_streamed_in_order(w, rest);
        let (before, chunks) = write_parts(w, rest);
        let after = write_parts(w, content).1;
        lemma_keys_differ();
        assert(rest.push(part) =~= content);
        lemma_texts_in_push(rest, part);
        if let Some(text) = text_in(part) {
            let chunk = delta_chunk(before, text_delta(text));
            lemma_delta_chunk(before, text_delta(text));
            assert(after =~= chunks.push(chunk));
            lemma_texts_streamed_push(chunks, chunk);
            assert(texts_in(content).map_values(as_json) =~= texts_in(rest).map_values(as_json).push(
                JsonView::Text(text),
            ));
        } else if let Some(call) = call_in(part) {
            let chunk = delta_chunk(before, call_delta(call, before.tool_calls));
            lemma_delta_chunk(before, call_delta(call, before.tool_calls));
            assert(after =~= chunks.push(chunk));
            lemma_texts_streamed_push(chunks, chunk);
        } else {
            assert(after =~= chunks);
        }
    } else {
        reveal(Seq::filter);
        assert(texts_streamed(write_parts(w, content).1) =~= texts_in(content).map_values(as_json));
    }
}

/// Tool calls go out whole, one to a chunk, in order and with indices that count on from those
/// before.
pub proof fn tool_calls_are_whole_and_indexed(w: WriterView, content: Seq<BlockView>)
    ensures
        calls_streamed(write_parts(w, content).1) == Seq::new(
            calls_in(content).len(),
            |k: int|
                JsonView::Array(seq![indexed_call(calls_in(content)[k], (w.tool_calls + k) as nat)]),
        ),
        write_parts(w, content).0.tool_calls == w.tool_calls + calls_in(content).len(),
    decreases content.len(),
{
    let expected = |c: Seq<BlockView>|
        Seq::new(
            calls_in(c).len(),
            |k: int|
                JsonView::Array(seq![indexed_call(calls_in(c)[k], (w.tool_calls + k) as nat)]),
        );
    if content.len() > 0 {
        let rest = content.drop_last();
        let part = content.last();
        tool_calls_are_whole_and_indexed(w, rest);
        let (before, chunks) = write_parts(w, rest);
        let after = write_parts(w, content).1;
        lemma_keys_differ();
        assert(rest.push(part) =~= content);
        lemma_calls_in_push(rest, part);
        if let Some(text) = text_in(part) {
            let chunk = delta_chunk(before, text_delta(text));
            lemma_delta_chunk(before, text_delta(text));
            assert(after =~= chunks.push(chunk));
            lemma_texts_streamed_push(chunks, chunk);
        } else if let Some(call) = call_in(part) {
            let chunk = delta_chunk(before, call_delta(call, before.tool_calls));
            lemma_delta_chunk(before, call_delta(call, before.tool_calls));
            assert(after =~= chunks.push(chunk));
            lemma_texts_streamed_push(chunks, chunk);
            assert(expected(content) =~= expected(rest).push(
                JsonView::Array(seq![indexed_call(call, before.tool_calls)]),
            ));
        } else {
            assert(after =~= chunks);
        }
    } else {
        reveal(Seq::filter);
        assert(calls_streamed(write_parts(w, content).1) =~= expected(content));
    }
}

/// How a provider cuts its reply into items does not show: the chunks are those of the parts one
/// after the other.
pub proof fn cuts_do_not_show(w: WriterView, a: Seq<BlockView>, b: Seq<BlockView>)
    ensures
        write_parts(w, a + b).0 == write_parts(write_parts(w, a).0, b).0,
        write_parts(w, a + b).1 == write_parts(w, a).1 + write_parts(write_parts(w, a).0, b).1,
    decreases b.len(),
{
    if b.len() == 0 {
        assert(a + b =~= a);
        assert(write_parts(w, a).1 + Seq::<JsonView>::empty() =~= write_parts(w, a).1);
    } else {
        cuts_do_not_show(w, a, b.drop_last());
        assert((a + b).drop_last() =~= a + b.drop_last());
        assert((a + b).last() == b.last());
        assert(write_parts(w, a + b).1 =~= write_parts(w, a).1 + write_parts(
            write_parts(w, a).0,
            b,
        ).1);
    }
}

/// The chunk that ends a stream asks the client to run tools exactly where a tool call went out, and
/// the token counts follow exactly where they were asked for.
pub proof fn streams_end_with_a_reason(w: WriterView)
    ensures
        member(choice_of(closing_chunks(w)[0]), "finish_reason"@) == Some(
            JsonView::Text(
                if w.tool_calls > 0 {
                    "tool_calls"@
                } else {
                    "stop"@
                },
            ),
        ),
        closing_chunks(w).len() == if w.include_usage {
            2int
        } else {
            1
        },
        w.include_usage ==> member(closing_chunks(w)[1], "usage"@) == Some(usage_json(w.usage)),
        w.include_usage ==> member(closing_chunks(w)[1], "choices"@) == Some(
            JsonView::Array(Seq::empty()),
        ),
{
    lemma_keys_differ();
    let choice = choice_json(Map::empty(), JsonView::Text(finish_reason(w.tool_calls)));
    assert(member(last_chunk(w), "choices"@) == Some(choice));
}

proof fn lemma_chunk_keys_differ()
    ensures
        "id"@ != "object"@,
        "id"@ != "created"@,
        "id"@ != "model"@,
        "id"@ != "choices"@,
        "id"@ != "usage"@,
        "object"@ != "created"@,
        "object"@ != "model"@,
        "object"@ != "choices"@,
        "object"@ != "usage"@,
        "created"@ != "model"@,
        "created"@ != "choices"@,
        "created"@ != "usage"@,
        "model"@ != "choices"@,
        "model"@ != "usage"@,
        "choices"@ != "usage"@,
{
    reveal_strlit("id");
    reveal_strlit("object");
    reveal_strlit("created");
    reveal_strlit("model");
    reveal_strlit("choices");
    reveal_strlit("usage");
    assert("id"@.len() == 2);
    assert("object"@.len() == 6);
    assert("created"@.len() == 7);
    assert("model"@.len() == 5);
    assert("choices"@.len() == 7);
    assert("usage"@.len() == 5);
    assert("created"@[1] == 'r' && "choices"@[1] == 'h');
    assert("model"@[0] == 'm' && "usage"@[0] == 'u');
}

proof fn lemma_delta_keys_differ()
    ensures
        "index"@ != "delta"@,
        "index"@ != "finish_reason"@,
        "index"@ != "role"@,
        "index"@ != "content"@,
        "index"@ != "tool_calls"@,
        "delta"@ != "finish_reason"@,
        "delta"@ != "role"@,
        "delta"@ != "content"@,
        "delta"@ != "tool_calls"@,
        "finish_reason"@ != "role"@,
        "finish_reason"@ != "content"@,
        "finish_reason"@ != "tool_calls"@,
        "role"@ != "content"@,
        "role"@ != "tool_calls"@,
        "content"@ != "tool_calls"@,
{
    reveal_strlit("index");
    reveal_strlit("delta");
    reveal_strlit("finish_reason");
    reveal_strlit("role");
    reveal_strlit("content");
    reveal_strlit("tool_calls");
    assert("index"@.len() == 5);
    assert("delta"@.len() == 5);
    assert("finish_reason"@.len() == 13);
    assert("role"@.len() == 4);
    assert("content"@.len() == 7);
    assert("tool_calls"@.len() == 10);
    assert("index"@[0] == 'i' && "delta"@[0] == 'd');
}

proof fn lemma_call_keys_differ()
    ensures
        "id"@ != "type"@,
        "id"@ != "function"@,
        "id"@ != "index"@,
        "id"@ != "name"@,
        "id"@ != "arguments"@,
        "type"@ != "function"@,
        "type"@ != "index"@,
        "type"@ != "name"@,
        "type"@ != "arguments"@,
        "function"@ != "index"@,
        "function"@ != "name"@,
        "function"@ != "arguments"@,
        "index"@ != "name"@,
        "index"@ != "arguments"@,
        "name"@ != "arguments"@,
{
    reveal_strlit("id");
    reveal_strlit("type");
    reveal_strlit("function");
    reveal_strlit("index");
    reveal_strlit("name");
    reveal_strlit("arguments");
    assert("id"@.len() == 2);
    assert("type"@.len() == 4);
    assert("function"@.len() == 8);
    assert("index"@.len() == 5);
    assert("name"@.len() == 4);
    assert("arguments"@.len() == 9);
    assert("type"@[0] == 't' && "name"@[0] == 'n');
}

proof fn lemma_count_keys_differ()
    ensures
        "prompt_tokens"@ != "completion_tokens"@,
        "prompt_tokens"@ != "total_tokens"@,
        "completion_tokens"@ != "total_tokens"@,
{
    reveal_strlit("prompt_tokens");
    reveal_strlit("completion_tokens");
    reveal_strlit("total_tokens");
    assert("prompt_tokens"@.len() == 13);
    assert("completion_tokens"@.len() == 17);
    assert("total_tokens"@.len() == 12);
}

/// A chunk tells which reply it belongs to.
pub open spec fn belongs_to(chunk: JsonView, w: WriterView) -> bool {
    &&& says_text(chunk, "id"@, w.id)
    &&& says_text(chunk, "object"@, "chat.completion.chunk"@)
    &&& says(chunk, "created"@, JsonView::Int(w.created))
    &&& says_text(chunk, "model"@, w.model)
    &&& chunk->Object_0.dom().contains("choices"@)
    &&& chunk->Object_0["choices"@] is Array
}

/// A chunk has one choice, the first, with a delta and a reason to end.
pub open spec fn has_one_choice(chunk: JsonView, reason: JsonView) -> bool {
    let choices = chunk->Object_0["choices"@]->Array_0;
    &&& has_just(chunk, set!["id"@, "object"@, "created"@, "model"@, "choices"@])
    &&& choices.len() == 1
    &&& has_just(choices[0], set!["index"@, "delta"@, "finish_reason"@])
    &&& says(choices[0], "index"@, JsonView::Int(0))
    &&& says(choices[0], "finish_reason"@, reason)
    &&& choices[0]->Object_0.dom().contains("delta"@)
    &&& choices[0]->Object_0["delta"@] is Object
}

/// The delta of the only choice of a chunk.
pub open spec fn delta_in(chunk: JsonView) -> JsonView {
    chunk->Object_0["choices"@]->Array_0[0]->Object_0["delta"@]
}

/// A chunk that carries a delta names the role exactly where nothing went out before it.
pub open spec fn carries_on(chunk: JsonView, before: WriterView) -> bool {
    &&& belongs_to(chunk, before)
    &&& has_one_choice(chunk, JsonView::Null)
    &&& if before.started {
        is_silent_on(delta_in(chunk), "role"@)
    } else {
        says_text(delta_in(chunk), "role"@, "assistant"@)
    }
}

proof fn lemma_writer_keeps_its_name(w: WriterView, content: Seq<BlockView>)
    ensures
        ({
            let after = write_parts(w, content).0;
            &&& after.id == w.id
            &&& after.created == w.created
            &&& after.model == w.model
            &&& after.include_usage == w.include_usage
            &&& after.usage == w.usage
        }),
    decreases content.len(),
{
    if content.len() > 0 {
        lemma_writer_keeps_its_name(w, content.drop_last());
    }
}

/// A call that the model asks for goes out in one chunk of its own: with the id and the tool that the
/// model named, with the text of the arguments that it gave, and with the number of the calls before
/// as its index.
pub proof fn a_call_more_is_a_chunk_more(
    w: WriterView,
    message: MessageView,
    asked: BlockView,
    usage: Option<ProviderUsage>,
)
    requires
        asks_for_a_call(asked),
    ensures
        ({
            let more = MessageView { content: message.content.push(asked), ..message };
            let (before, chunks) = write_item(w, Some(message), usage);
            let (after, all) = write_item(w, Some(more), usage);
            let chunk = all.last();
            let calls = delta_in(chunk)->Object_0["tool_calls"@];
            &&& all.len() == chunks.len() + 1
            &&& all.drop_last() == chunks
            &&& carries_on(chunk, before)
            &&& is_silent_on(delta_in(chunk), "content"@)
            &&& delta_in(chunk)->Object_0.dom().contains("tool_calls"@)
            &&& calls is Array
            &&& calls->Array_0.len() == 1
            &&& has_just(
                delta_in(chunk),
                if before.started {
                    set!["tool_calls"@]
                } else {
                    set!["tool_calls"@, "role"@]
                },
            )
            &&& has_just(calls->Array_0[0], set!["id"@, "type"@, "function"@, "index"@])
            &&& is_the_call_asked_for(calls->Array_0[0], asked)
            &&& says(calls->Array_0[0], "index"@, JsonView::Int(before.tool_calls as int))
            &&& after == (WriterView { started: true, tool_calls: before.tool_calls + 1, ..before })
        }),
{
    lemma_chunk_keys_differ();
    lemma_delta_keys_differ();
    lemma_call_keys_differ();
    let start = with_usage(w, usage);
    assert(message.content.push(asked).drop_last() =~= message.content);
    let (before, chunks) = write_parts(start, message.content);
    let chunk = delta_chunk(before, call_delta(call_in(asked)->0, before.tool_calls));
    assert((chunks + seq![chunk]).drop_last() =~= chunks);
    let delta = with_role(before, call_delta(call_in(asked)->0, before.tool_calls));
    assert(delta_in(chunk) == JsonView::Object(delta));
    assert(delta["tool_calls"@] == JsonView::Array(
        seq![indexed_call(call_in(asked)->0, before.tool_calls)],
    ));
}

/// A text that is not empty goes out in one chunk of its own, as it is; an empty one goes unsaid.
pub proof fn a_text_more_is_a_chunk_more(
    w: WriterView,
    message: MessageView,
    text: Seq<char>,
    usage: Option<ProviderUsage>,
)
    ensures
        ({
            let more = MessageView {
                content: message.content.push(BlockView::Text(text)),
                ..message
            };
            let (before, chunks) = write_item(w, Some(message), usage);
            let (after, all) = write_item(w, Some(more), usage);
            let chunk = all.last();
            &&& text.len() == 0 ==> all == chunks && after == before
            &&& text.len() > 0 ==> {
                &&& all.len() == chunks.len() + 1
                &&& all.drop_last() == chunks
                &&& carries_on(chunk, before)
                &&& has_just(
                    delta_in(chunk),
                    if before.started {
                        set!["content"@]
                    } else {
                        set!["content"@, "role"@]
                    },
                )
                &&& says_text(delta_in(chunk), "content"@, text)
                &&& is_silent_on(delta_in(chunk), "tool_calls"@)
                &&& after == (WriterView { started: true, ..before })
            }
        }),
{
    lemma_chunk_keys_differ();
    lemma_delta_keys_differ();
    let start = with_usage(w, usage);
    assert(message.content.push(BlockView::Text(text)).drop_last() =~= message.content);
    let (before, chunks) = write_parts(start, message.content);
    if text.len() > 0 {
        let chunk = delta_chunk(before, text_delta(text));
        assert((chunks + seq![chunk]).drop_last() =~= chunks);
        assert(delta_in(chunk) == JsonView::Object(with_role(before, text_delta(text))));
    } else {
        assert(chunks + Seq::<JsonView>::empty() =~= chunks);
    }
}

/// Nothing but texts and the calls that make sense goes out.
pub proof fn other_parts_go_unsaid(
    w: WriterView,
    message: MessageView,
    b: BlockView,
    usage: Option<ProviderUsage>,
)
    requires
        b !is Text,
        !asks_for_a_call(b),
    ensures
        write_item(
            w,
            Some(MessageView { content: message.content.push(b), ..message }),
            usage,
        ) == write_item(w, Some(message), usage),
        write_item(w, None, usage).1 == Seq::<JsonView>::empty(),
        message.content.len() == 0 ==> write_item(w, Some(message), usage) == write_item(
            w,
            None,
            usage,
        ),
{
    let start = with_usage(w, usage);
    assert(message.content.push(b).drop_last() =~= message.content);
    let (before, chunks) = write_parts(start, message.content);
    assert(chunks + Seq::<JsonView>::empty() =~= chunks);
}

/// An item that reports token counts replaces those reported before, each count in its place, and one
/// that reports none leaves them; the reply that the writer writes stays the same one.
pub proof fn the_last_counts_stand(
    w: WriterView,
    message: Option<MessageView>,
    usage: Option<ProviderUsage>,
)
    ensures
        ({
            let after = write_item(w, message, usage).0;
            &&& after.id == w.id
            &&& after.created == w.created
            &&& after.model == w.model
            &&& after.include_usage == w.include_usage
            &&& usage is None ==> after.usage == w.usage
            &&& usage matches Some(u) ==> {
                &&& after.usage.prompt_tokens == match u.input_tokens {
                    Some(n) => n as int,
                    None => 0,
                }
                &&& after.usage.completion_tokens == match u.output_tokens {
                    Some(n) => n as int,
                    None => 0,
                }
                &&& after.usage.total_tokens == match u.total_tokens {
                    Some(n) => n as int,
                    None => 0,
                }
            }
        }),
{
    lemma_writer_keeps_its_name(with_usage(w, usage), parts_of(message));
}

/// A writer begins with nothing written and nothing counted, under the name of its time.
pub proof fn writers_begin_with_nothing(created: i64, model: Seq<char>, include_usage: bool)
    ensures
        ({
            let w = fresh_writer(created, model, include_usage);
            &&& w.id == "chatcmpl-"@ + decimal(created as int)
            &&& w.created == created
            &&& w.model == model
            &&& w.include_usage == include_usage
            &&& !w.started
            &&& w.tool_calls == 0
            &&& w.usage.prompt_tokens == 0
            &&& w.usage.completion_tokens == 0
            &&& w.usage.total_tokens == 0
        }),
{
}

/// A stream ends with a chunk that says nothing more and gives the reason: `tool_calls` exactly where
/// a call went out. The counts follow in a chunk without choices exactly where they were asked for.
pub proof fn a_stream_ends_with_its_reason_and_its_counts(w: WriterView)
    ensures
        ({
            let chunks = closing_chunks(w);
            let reason = JsonView::Text(
                if w.tool_calls > 0 {
                    "tool_calls"@
                } else {
                    "stop"@
                },
            );
            &&& chunks.len() == if w.include_usage {
                2int
            } else {
                1
            }
            &&& belongs_to(chunks[0], w)
            &&& has_one_choice(chunks[0], reason)
            &&& delta_in(chunks[0]) == JsonView::Object(Map::empty())
            &&& is_silent_on(chunks[0], "usage"@)
            &&& w.include_usage ==> {
                let counts = chunks[1]->Object_0["usage"@];
                &&& belongs_to(chunks[1], w)
                &&& has_just(
                    chunks[1],
                    set!["id"@, "object"@, "created"@, "model"@, "choices"@, "usage"@],
                )
                &&& has_just(
                    counts,
                    set!["prompt_tokens"@, "completion_tokens"@, "total_tokens"@],
                )
                &&& chunks[1]->Object_0["choices"@]->Array_0.len() == 0
                &&& chunks[1]->Object_0.dom().contains("usage"@)
                &&& says(counts, "prompt_tokens"@, JsonView::Int(w.usage.prompt_tokens as int))
                &&& says(
                    counts,
                    "completion_tokens"@,
                    JsonView::Int(w.usage.completion_tokens as int),
                )
                &&& says(counts, "total_tokens"@, JsonView::Int(w.usage.total_tokens as int))
            }
        }),
{
    lemma_chunk_keys_differ();
    lemma_delta_keys_differ();
    lemma_count_keys_differ();
}

/// The view of a writer leaves no field out, and that of a message that may be missing is there where
/// the message is.
pub proof fn views_of_writers_leave_nothing_out(w: ChunkWriter, m: Option<Message>)
    ensures
        w@.id == w.id@,
        w@.created == w.created,
        w@.model == w.model@,
        w@.include_usage == w.include_usage,
        w@.started == w.started,
        w@.tool_calls == w.tool_calls,
        w@.usage == w.usage,
        m is None ==> opt_message(m) is None,
        m matches Some(message) ==> opt_message(m) == Some(message@),
        parts_of(None) == Seq::<BlockView>::empty(),
        m matches Some(message) ==> parts_of(Some(message@)) == message@.content,
{
}

} // verus!
