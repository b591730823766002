//! Chat messages and the events streamed to the UI while a reply arrives.

use vstd::prelude::*;

use crate::router::{spec_tier_name, Route};
use crate::text::{
    append_chars, chars_of, copy_str, opt_chars, str_equal, string_of, trim_end_char,
    trim_end_char_chars,
};

verus! {

/// One chat message in OpenAI form.
#[derive(Clone, Debug, PartialEq, Eq)]
pub struct ChatMsg {
    pub role: String,
    pub content: String,
}

/// An event on the reply stream.
#[derive(Clone, Debug, PartialEq, Eq)]
pub enum StreamEvent {
    Started,
    /// Which tier/model is serving this response (for the UI badge).
    Routed { tier: String, model: String, degraded: bool },
    /// Reasoning ("thinking") tokens from reasoning models; shown but not persisted.
    Reasoning { text: String },
    Token { text: String },
    Done,
    Error { message: String },
}

/// An address on the model gateway: the endpoint without trailing slashes,
/// then the path.
pub fn gateway_url(endpoint: &str, path: &str) -> (r: String)
    ensures
        r@ == trim_end_char(endpoint@, '/') + path@,
{
    let mut out = trim_end_char_chars(chars_of(endpoint).as_slice(), '/');
    append_chars(&mut out, chars_of(path).as_slice());
    string_of(out.as_slice())
}

/// The event that tells the UI which tier and model serve a reply.
pub fn routed_event(route: &Route) -> (r: StreamEvent)
    ensures
        r matches StreamEvent::Routed { tier, model, degraded } && tier@ == spec_tier_name(
            route.tier,
        ) && model@ == route.model@ && degraded == route.degraded,
{
    StreamEvent::Routed {
        tier: copy_str(route.tier.as_str()),
        model: copy_str(route.model.as_str()),
        degraded: route.degraded,
    }
}

/// The reasoning and content texts that `serde_json` finds at
/// `choices[0].delta.reasoning_content` and `choices[0].delta.content` of a
/// server-sent event's data; `None` when the data is not JSON.
pub uninterp spec fn sse_delta_texts(data: Seq<char>) -> Option<
    (Option<Seq<char>>, Option<Seq<char>>),
>;

/// Parses an event's data with `serde_json::from_str` into a
/// `serde_json::Value` and reads the two delta fields with indexing and
/// `as_str`. The claim is that the answer is a function of the data alone,
/// named `sse_delta_texts`; no JSON grammar is stated.
#[verifier::external_body]
fn parse_delta(data: &str) -> (r: Option<(Option<String>, Option<String>)>)
    ensures
        match r {
            Some((a, b)) => sse_delta_texts(data@) == Some((opt_chars(a), opt_chars(b))),
            None => sse_delta_texts(data@) is None,
        },
{
    match serde_json::from_str::<serde_json::Value>(data) {
        Ok(json) => {
            let delta = &json["choices"][0]["delta"];
            let reasoning = delta["reasoning_content"].as_str().map(str::to_string);
            Some((reasoning, delta["content"].as_str().map(str::to_string)))
        },
        Err(_) => None,
    }
}

/// What `serde_json` finds at `choices[0].message.content` of a
/// non-streamed chat completion reply: the text when it is a string; `None`
/// when the body is not JSON.
pub uninterp spec fn completion_content(body: Seq<char>) -> Option<Option<Seq<char>>>;

/// Parses a completion reply with `serde_json::from_str` into a
/// `serde_json::Value` and reads `choices[0].message.content` with indexing
/// (which gives `Null` where the path is missing) and `as_str`. The claim is
/// that the answer is a function of the body alone, named
/// `completion_content`; no JSON grammar is stated.
#[verifier::external_body]
fn parse_completion(body: &str) -> (r: Option<Option<String>>)
    ensures
        match r {
            Some(c) => completion_content(body@) == Some(opt_chars(c)),
            None => completion_content(body@) is None,
        },
{
    match serde_json::from_str::<serde_json::Value>(body) {
        Ok(json) => Some(json["choices"][0]["message"]["content"].as_str().map(str::to_string)),
        Err(_) => None,
    }
}

/// The assistant text of a non-streamed chat completion reply: the content
/// of its first choice, or nothing when that is missing; `None` when the
/// reply is not JSON.
pub fn completion_text(body: &str) -> (r: Option<String>)
    ensures
        match completion_content(body@) {
            None => r is None,
            Some(c) => r matches Some(t) && t@ == (match c {
                Some(s) => s,
                None => Seq::<char>::empty(),
            }),
        },
{
    match parse_completion(body) {
        None => None,
        Some(Some(text)) => Some(text),
        Some(None) => Some(String::new()),
    }
}

/// Whether an optional text is present and not empty.
pub open spec fn has_text(o: Option<Seq<char>>) -> bool {
    o matches Some(t) && t.len() > 0
}

/// The events for one delta: a `Reasoning` event when the reasoning text is
/// non-empty, then a `Token` event when the content text is non-empty.
pub open spec fn delta_events(
    events: Seq<StreamEvent>,
    reasoning: Option<Seq<char>>,
    content: Option<Seq<char>>,
) -> bool {
    &&& events.len() == (if has_text(reasoning) {
        1int
    } else {
        0int
    }) + (if has_text(content) {
        1int
    } else {
        0int
    })
    &&& has_text(reasoning) ==> (events[0] matches StreamEvent::Reasoning { text } && text@
        == reasoning->0)
    &&& has_text(content) ==> (events.last() matches StreamEvent::Token { text } && text@
        == content->0)
}

/// The reply after one delta: the content text appended when non-empty.
pub open spec fn with_content(acc: Seq<char>, content: Option<Seq<char>>) -> Seq<char> {
    if has_text(content) {
        acc + content->0
    } else {
        acc
    }
}

/// What one event of the reply stream asks for.
pub enum StreamStep {
    /// The `[DONE]` marker: the reply is complete.
    Finished,
    /// Data that is not JSON; skipped.
    Skipped,
    /// Events to send to the UI.
    Emit(Vec<StreamEvent>),
}

/// The reply text accumulated from a streamed chat completion.
pub struct ReplyStream {
    pub accumulated: String,
}

impl ReplyStream {
    /// A stream with nothing received yet.
    pub fn new() -> (r: ReplyStream)
        ensures
            r.accumulated@ == Seq::<char>::empty(),
    {
        ReplyStream { accumulated: String::new() }
    }

    /// Takes one delta: a non-empty reasoning text becomes a `Reasoning`
    /// event; a non-empty content text becomes a `Token` event and is added
    /// to the reply.
    pub fn on_delta(&mut self, reasoning: Option<String>, content: Option<String>) -> (events: Vec<
        StreamEvent,
    >)
        ensures
            delta_events(events@, opt_chars(reasoning), opt_chars(content)),
            final(self).accumulated@ == with_content(old(self).accumulated@, opt_chars(content)),
    {
        let mut events: Vec<StreamEvent> = Vec::new();
        match reasoning {
            Some(text) => {
                if !text.as_str().is_empty() {
                    events.push(StreamEvent::Reasoning { text });
                }
            },
            None => {},
        }
        match content {
            Some(text) => {
                if !text.as_str().is_empty() {
                    let mut acc = chars_of(self.accumulated.as_str());
                    append_chars(&mut acc, chars_of(text.as_str()).as_slice());
                    self.accumulated = string_of(acc.as_slice());
                    events.push(StreamEvent::Token { text });
                }
            },
            None => {},
        }
        events
    }

    /// Takes the data of one server-sent event.
    pub fn on_data(&mut self, data: &str) -> (step: StreamStep)
        ensures
            data@ == "[DONE]"@ ==> step is Finished && final(self).accumulated@
                == old(self).accumulated@,
            data@ != "[DONE]"@ && sse_delta_texts(data@) is None ==> step is Skipped
                && final(self).accumulated@ == old(self).accumulated@,
            data@ != "[DONE]"@ ==> (sse_delta_texts(data@) matches Some((reasoning, content))
                ==> (step matches StreamStep::Emit(events) && delta_events(
                events@,
                reasoning,
                content,
            ) && final(self).accumulated@ == with_content(old(self).accumulated@, content))),
            final(self).accumulated@ == reply_step(old(self).accumulated@, data@),
    {
        if str_equal(data, "[DONE]") {
            return StreamStep::Finished;
        }
        match parse_delta(data) {
            None => StreamStep::Skipped,
            Some((reasoning, content)) => StreamStep::Emit(self.on_delta(reasoning, content)),
        }
    }
}

/// What `ReplyStream::on_data` does to the reply text for one event's data.
pub open spec fn reply_step(acc: Seq<char>, data: Seq<char>) -> Seq<char> {
    if data == "[DONE]"@ {
        acc
    } else {
        match sse_delta_texts(data) {
            Some((_, content)) => with_content(acc, content),
            None => acc,
        }
    }
}

/// Whether the done marker is among the items.
pub open spec fn has_done(items: Seq<Seq<char>>) -> bool {
    exists|i: int| 0 <= i < items.len() && #[trigger] items[i] == "[DONE]"@
}

/// The reply text after the items of a stream are fed to `on_data` in order
/// until it reports `Finished`.
pub open spec fn reply_after(items: Seq<Seq<char>>) -> Seq<char>
    decreases items.len(),
{
    if items.len() == 0 {
        Seq::empty()
    } else if has_done(items.drop_last()) {
        reply_after(items.drop_last())
    } else {
        reply_step(reply_after(items.drop_last()), items.last())
    }
}

/// The content text of one event's data: the delta's `content` when the
/// data is JSON and has one, else nothing.
pub open spec fn content_of(data: Seq<char>) -> Seq<char> {
    match sse_delta_texts(data) {
        Some((_, Some(c))) => c,
        _ => Seq::empty(),
    }
}

/// The content texts of the items, one after another.
pub open spec fn contents(items: Seq<Seq<char>>) -> Seq<char>
    decreases items.len(),
{
    if items.len() == 0 {
        Seq::empty()
    } else {
        contents(items.drop_last()) + content_of(items.last())
    }
}

/// The position of the first done marker, or the length when there is none.
pub open spec fn first_done(items: Seq<Seq<char>>) -> int
    decreases items.len(),
{
    if items.len() == 0 {
        0
    } else if has_done(items.drop_last()) {
        first_done(items.drop_last())
    } else if items.last() == "[DONE]"@ {
        items.len() - 1
    } else {
        items.len() as int
    }
}

proof fn lemma_first_done_bounds(items: Seq<Seq<char>>)
    ensures
        0 <= first_done(items) <= items.len(),
        has_done(items) ==> first_done(items) < items.len(),
    decreases items.len(),
{
    if items.len() > 0 {
        let dl = items.drop_last();
        lemma_first_done_bounds(dl);
        if has_done(items) && !has_done(dl) {
            let i = choose|i: int| 0 <= i < items.len() && #[trigger] items[i] == "[DONE]"@;
            if i < items.len() - 1 {
                assert(dl[i] == items[i]);
            }
        }
    }
}

/// The reply text of a whole stream is the content of the JSON events that
/// come before the first done marker, one after another: events that are
/// not JSON add nothing, and nothing after the marker counts.
pub proof fn law_reply_is_content_before_done(items: Seq<Seq<char>>)
    ensures
        reply_after(items) == contents(items.take(first_done(items))),
    decreases items.len(),
{
    if items.len() == 0 {
        assert(items.take(0) =~= Seq::<Seq<char>>::empty());
    } else {
        let dl = items.drop_last();
        let n = items.len() as int;
        law_reply_is_content_before_done(dl);
        lemma_first_done_bounds(dl);
        if has_done(dl) {
            assert(items.take(first_done(dl)) =~= dl.take(first_done(dl)));
        } else if items.last() == "[DONE]"@ {
            assert(first_done(dl) == dl.len()) by {
                if dl.len() > 0 {
                    lemma_not_done_is_len(dl);
                }
            }
            assert(items.take(n - 1) =~= dl);
            assert(dl.take(dl.len() as int) =~= dl);
        } else {
            lemma_not_done_is_len(dl);
            assert(items.take(n) =~= items);
            assert(dl.take(dl.len() as int) =~= dl);
            let last = items.last();
            match sse_delta_texts(last) {
                Some((_, Some(c))) => {
                    if c.len() == 0 {
                        assert(reply_after(dl) + c =~= reply_after(dl));
                    }
                },
                _ => {
                    assert(reply_after(dl) + Seq::<char>::empty() =~= reply_after(dl));
                },
            }
        }
    }
}

proof fn lemma_not_done_is_len(items: Seq<Seq<char>>)
    requires
        !has_done(items),
    ensures
        first_done(items) == items.len(),
    decreases items.len(),
{
    if items.len() > 0 {
        let dl = items.drop_last();
        if has_done(dl) {
            let i = choose|i: int| 0 <= i < dl.len() && #[trigger] dl[i] == "[DONE]"@;
            assert(items[i] == dl[i]);
        }
        lemma_not_done_is_len(dl);
        assert(items[items.len() - 1] == items.last());
    }
}

} // verus!
