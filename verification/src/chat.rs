//! API-mode chat: the message list sent to the model, the automatic title of a
//! new conversation, and the reading of the streamed answer (server-sent
//! events), which yields the token messages for the user interface and the
//! full answer.
use vstd::prelude::*;

use crate::records::{json_quote, Conversation, Message};
use crate::text::{
    chars_of, chars_eq, owned, push_str, slice_chars, split_lines, starts_with, str_eq,
    string_from_chars, strip_prefixes_chars, trim_chars,
};

verus! {

// ---------------------------------------------------------------------------
// Automatic titles
// ---------------------------------------------------------------------------
/// The first conversation in `convs` with the id `id`.
pub open spec fn find_conversation(convs: Seq<Conversation>, id: i64) -> Option<Conversation>
    decreases convs.len(),
{
    if convs.len() == 0 {
        None
    } else if convs[0].id == id {
        Some(convs[0])
    } else {
        find_conversation(convs.drop_first(), id)
    }
}

/// A conversation still called by the default title is renamed after the
/// first twenty characters of the message just sent.
pub open spec fn auto_title(convs: Seq<Conversation>, id: i64, content: Seq<char>) -> Option<Seq<char>> {
    match find_conversation(convs, id) {
        Some(c) => if c.title@ == crate::records::default_title() {
            Some(content.take(if content.len() < 20 {
                content.len() as int
            } else {
                20
            }))
        } else {
            None
        },
        None => None,
    }
}

proof fn lemma_find_skip(convs: Seq<Conversation>, id: i64, i: int)
    requires
        0 <= i <= convs.len(),
        forall|j: int| 0 <= j < i ==> (#[trigger] convs[j]).id != id,
    ensures
        find_conversation(convs, id) == find_conversation(convs.skip(i), id),
    decreases i,
{
    if i == 0 {
        assert(convs.skip(0) =~= convs);
    } else {
        let t = convs.drop_first();
        assert forall|j: int| 0 <= j < i - 1 implies (#[trigger] t[j]).id != id by {
            assert(t[j] == convs[j + 1]);
        }
        lemma_find_skip(t, id, i - 1);
        assert(t.skip(i - 1) =~= convs.skip(i));
    }
}

/// The new title of conversation `id` after the message `content` (see
/// `auto_title`); `None` when it keeps its title.
pub fn title_after_message(convs: &Vec<Conversation>, id: i64, content: &str) -> (res: Option<String>)
    ensures
        res matches Some(t) ==> auto_title(convs@, id, content@) == Some(t@),
        res is None ==> auto_title(convs@, id, content@) is None,
{
    let mut i: usize = 0;
    while i < convs.len()
        invariant
            i <= convs.len(),
            forall|j: int| 0 <= j < i ==> (#[trigger] convs@[j]).id != id,
        decreases convs.len() - i,
    {
        if convs[i].id == id {
            proof {
                lemma_find_skip(convs@, id, i as int);
                assert(convs@.skip(i as int)[0] == convs@[i as int]);
            }
            if str_eq(convs[i].title.as_str(), "新对话") {
                let cs = chars_of(content);
                let n = if cs.len() < 20 {
                    cs.len()
                } else {
                    20
                };
                let t = slice_chars(&cs, 0, n);
                return Some(string_from_chars(&t));
            }
            return None;
        }
        i = i + 1;
    }
    proof {
        lemma_find_skip(convs@, id, convs.len() as int);
    }
    None
}

// ---------------------------------------------------------------------------
// The message list
// ---------------------------------------------------------------------------
/// One entry of the message list sent to the model.
#[derive(Clone, Debug)]
pub struct ChatMessage {
    pub role: String,
    pub content: String,
}

pub open spec fn chat_view(m: ChatMessage) -> (Seq<char>, Seq<char>) {
    (m.role@, m.content@)
}

pub open spec fn history_view(m: Message) -> (Seq<char>, Seq<char>) {
    (m.role@, m.content@)
}

/// The history already ends with this very user message (it was stored before
/// the request), so it is not sent twice.
pub open spec fn repeats_last(history: Seq<Message>, user_content: Seq<char>) -> bool {
    history.len() > 0 && history.last().role@ == "user"@ && history.last().content@ == user_content
}

/// The messages sent to the model: the system prompt, the history in order,
/// and the user's message unless the history already ends with it.
pub open spec fn chat_messages(system: Seq<char>, history: Seq<Message>, user_content: Seq<char>) -> Seq<(Seq<char>, Seq<char>)> {
    seq![("system"@, system)] + history.map_values(|m: Message| history_view(m)) + if repeats_last(
        history,
        user_content,
    ) {
        Seq::empty()
    } else {
        seq![("user"@, user_content)]
    }
}

/// Builds the message list (see `chat_messages`).
pub fn build_chat_messages(system: &str, history: &Vec<Message>, user_content: &str) -> (res: Vec<ChatMessage>)
    ensures
        res@.map_values(|m: ChatMessage| chat_view(m)) == chat_messages(system@, history@, user_content@),
{
    let mut out: Vec<ChatMessage> = Vec::new();
    out.push(ChatMessage { role: owned("system"), content: owned(system) });
    let mut i: usize = 0;
    while i < history.len()
        invariant
            i <= history.len(),
            out.len() == i + 1,
            chat_view(out@[0]) == ("system"@, system@),
            forall|j: int| 0 <= j < i ==> #[trigger] chat_view(out@[j + 1]) == history_view(history@[j]),
        decreases history.len() - i,
    {
        let m = &history[i];
        out.push(ChatMessage { role: m.role.clone(), content: m.content.clone() });
        i = i + 1;
    }
    let dup = if history.len() > 0 {
        let last = &history[history.len() - 1];
        str_eq(last.role.as_str(), "user") && str_eq(last.content.as_str(), user_content)
    } else {
        false
    };
    assert(dup == repeats_last(history@, user_content@));
    if !dup {
        out.push(ChatMessage { role: owned("user"), content: owned(user_content) });
    }
    proof {
        let target = chat_messages(system@, history@, user_content@);
        let got = out@.map_values(|m: ChatMessage| chat_view(m));
        assert(got.len() == target.len());
        assert forall|j: int| 0 <= j < got.len() implies got[j] == target[j] by {
            if j == 0 {
            } else if j <= history.len() {
                assert(chat_view(out@[(j - 1) + 1]) == history_view(history@[j - 1]));
            }
        }
        assert(got =~= target);
    }
    out
}

// ---------------------------------------------------------------------------
// Request options
// ---------------------------------------------------------------------------
/// The options of a chat request besides the model and the messages. The
/// temperature, a float, is written by the caller when `set_temperature` is
/// on (its value is 1.0).
#[derive(Clone, Debug)]
pub struct RequestOptions {
    /// Ask for a streamed answer.
    pub stream: bool,
    /// The `thinking.type` member, when thinking is on.
    pub thinking_type: Option<String>,
    /// The `reasoning_effort` member, when thinking is on.
    pub reasoning_effort: Option<String>,
    /// Whether the request carries a temperature (only without thinking).
    pub set_temperature: bool,
}

/// The options of a chat request: always streamed; with thinking on, thinking
/// `enabled` at `high` reasoning effort and no temperature; with thinking off,
/// a temperature and no thinking members.
pub fn request_options(thinking: bool) -> (res: RequestOptions)
    ensures
        res.stream,
        thinking ==> (res.thinking_type matches Some(t) && t@ == "enabled"@),
        thinking ==> (res.reasoning_effort matches Some(e) && e@ == "high"@),
        thinking ==> !res.set_temperature,
        !thinking ==> res.thinking_type is None && res.reasoning_effort is None && res.set_temperature,
{
    if thinking {
        RequestOptions {
            stream: true,
            thinking_type: Some(owned("enabled")),
            reasoning_effort: Some(owned("high")),
            set_temperature: false,
        }
    } else {
        RequestOptions { stream: true, thinking_type: None, reasoning_effort: None, set_temperature: true }
    }
}

// ---------------------------------------------------------------------------
// Server-sent events
// ---------------------------------------------------------------------------
/// What one line of the event stream says.
#[derive(Clone, Debug)]
pub enum SseLine {
    /// Not a data line: ignored.
    Skip,
    /// The end marker `[DONE]`.
    Done,
    /// A data payload.
    Data(String),
}

/// The payload of a line: the trimmed line must start with `data:`; every
/// leading `data:` is then removed and the rest trimmed.
pub open spec fn line_payload(line: Seq<char>) -> Option<Seq<char>> {
    let t = crate::text::trim(line);
    if crate::text::has_prefix(t, "data:"@) {
        Some(crate::text::trim(crate::text::strip_prefixes(t, "data:"@)))
    } else {
        None
    }
}

pub open spec fn sse_line_view(l: SseLine) -> Option<Option<Seq<char>>> {
    match l {
        SseLine::Skip => None,
        SseLine::Done => Some(None),
        SseLine::Data(d) => Some(Some(d@)),
    }
}

/// What `line` says: `None` to skip it, `Some(None)` for the end marker, or
/// `Some(Some(d))` for the payload `d`.
pub open spec fn classify(line: Seq<char>) -> Option<Option<Seq<char>>> {
    match line_payload(line) {
        None => None,
        Some(d) => if d == "[DONE]"@ {
            Some(None)
        } else {
            Some(Some(d))
        },
    }
}

/// Classifies one line of the event stream (see `classify`).
pub fn classify_line(line: &Vec<char>) -> (res: SseLine)
    ensures
        sse_line_view(res) == classify(line@),
{
    let t = trim_chars(line);
    let prefix = chars_of("data:");
    proof {
        reveal_strlit("data:");
    }
    if !starts_with(&t, &prefix) {
        return SseLine::Skip;
    }
    let rest = strip_prefixes_chars(&t, &prefix);
    let d = trim_chars(&rest);
    let done = chars_of("[DONE]");
    if chars_eq(&d, &done) {
        SseLine::Done
    } else {
        SseLine::Data(string_from_chars(&d))
    }
}

/// The fields of a data payload that the stream reader uses.
#[derive(Clone, Debug)]
pub struct StreamChunk {
    /// The payload's `error` member, written as JSON text.
    pub error: Option<String>,
    /// `choices[0].delta.reasoning_content`, when it is a string.
    pub reasoning: Option<String>,
    /// `choices[0].delta.content`, when it is a string.
    pub content: Option<String>,
}

pub open spec fn chunk_view(c: StreamChunk) -> (Option<Seq<char>>, Option<Seq<char>>, Option<Seq<char>>) {
    (
        crate::records::opt_view(c.error),
        crate::records::opt_view(c.reasoning),
        crate::records::opt_view(c.content),
    )
}

/// What `serde_json` reads from a data payload, in the terms of `chunk_view`;
/// `None` when the payload is not JSON.
pub uninterp spec fn stream_chunk_of(data: Seq<char>) -> Option<
    (Option<Seq<char>>, Option<Seq<char>>, Option<Seq<char>>),
>;

/// Calls `serde_json::from_str::<serde_json::Value>` on a payload and reads the
/// `error` member (as JSON text) and the string fields
/// `choices[0].delta.reasoning_content` and `choices[0].delta.content`. The
/// outcome depends on the payload alone and is named `stream_chunk_of`.
#[verifier::external_body]
fn parse_stream_chunk(data: &str) -> (res: Option<StreamChunk>)
    ensures
        res is Some <==> stream_chunk_of(data@) is Some,
        res matches Some(c) ==> stream_chunk_of(data@) == Some(chunk_view(c)),
{
    let v: serde_json::Value = serde_json::from_str(data).ok()?;
    let d = &v["choices"][0]["delta"];
    Some(StreamChunk {
        error: v.get("error").map(|e| e.to_string()),
        reasoning: d["reasoning_content"].as_str().map(String::from),
        content: d["content"].as_str().map(String::from),
    })
}

/// The message sent to the user interface for one token: `{"t":kind,"c":token}`.
pub open spec fn token_message(kind: Seq<char>, token: Seq<char>) -> Seq<char> {
    "{\"t\":\""@ + kind + "\",\"c\":"@ + crate::records::json_string(token) + "}"@
}

fn token_json(kind: &str, token: &str) -> (res: String)
    ensures
        res@ == token_message(kind@, token@),
{
    let mut out: Vec<char> = Vec::new();
    push_str(&mut out, "{\"t\":\"");
    push_str(&mut out, kind);
    push_str(&mut out, "\",\"c\":");
    let q = json_quote(token);
    push_str(&mut out, q.as_str());
    push_str(&mut out, "}");
    assert(out@ =~= token_message(kind@, token@));
    string_from_chars(&out)
}

/// The state of reading one streamed answer: the answer text so far.
#[derive(Clone, Debug)]
pub struct StreamReader {
    pub answer: String,
}

/// How the stream stands after a piece of it.
#[derive(Clone, Debug)]
pub enum StreamStatus {
    /// Read on.
    Continue,
    /// The end marker came: this is the full answer.
    Done(String),
    /// The server reported an error: this is the message to fail with.
    Failed(String),
}

/// What one piece of the stream gave: the token messages to send, in order,
/// and how the stream stands.
#[derive(Clone, Debug)]
pub struct FeedOutcome {
    pub messages: Vec<String>,
    pub status: StreamStatus,
}

/// The effect of one line on the answer so far `answer`: the new answer, the
/// token messages, and whether reading stops (`Some(None)`: the answer is
/// complete; `Some(Some(e))`: failure with message `e`).
pub open spec fn line_effect(answer: Seq<char>, line: Seq<char>) -> (
    Seq<char>,
    Seq<Seq<char>>,
    Option<Option<Seq<char>>>,
) {
    match classify(line) {
        None => (answer, Seq::empty(), None),
        Some(None) => (answer, Seq::empty(), Some(None)),
        Some(Some(d)) => match stream_chunk_of(d) {
            None => (answer, Seq::empty(), None),
            Some((err, reasoning, content)) => match err {
                Some(e) => (answer, Seq::empty(), Some(Some("流式错误: "@ + e))),
                None => {
                    let r_msgs = match reasoning {
                        Some(t) => if t.len() > 0 {
                            seq![token_message("reasoning"@, t)]
                        } else {
                            Seq::empty()
                        },
                        None => Seq::empty(),
                    };
                    let (a2, c_msgs) = match content {
                        Some(t) => if t.len() > 0 {
                            (answer + t, seq![token_message("answer"@, t)])
                        } else {
                            (answer, Seq::empty())
                        },
                        None => (answer, Seq::empty()),
                    };
                    (a2, r_msgs + c_msgs, None)
                },
            },
        },
    }
}

/// The effect of a run of lines, read in order until one stops the reading.
pub open spec fn lines_effect(answer: Seq<char>, lines: Seq<Seq<char>>) -> (
    Seq<char>,
    Seq<Seq<char>>,
    Option<Option<Seq<char>>>,
)
    decreases lines.len(),
{
    if lines.len() == 0 {
        (answer, Seq::empty(), None)
    } else {
        let (a, m, stop) = lines_effect(answer, lines.drop_last());
        if stop is Some {
            (a, m, stop)
        } else {
            let (a2, m2, stop2) = line_effect(a, lines.last());
            (a2, m + m2, stop2)
        }
    }
}

pub open spec fn status_view(s: StreamStatus) -> Option<Option<Seq<char>>> {
    match s {
        StreamStatus::Continue => None,
        StreamStatus::Done(_) => Some(None),
        StreamStatus::Failed(e) => Some(Some(e@)),
    }
}

impl StreamReader {
    /// A reader with nothing read yet.
    pub fn new() -> (res: StreamReader)
        ensures
            res.answer@.len() == 0,
    {
        StreamReader { answer: String::new() }
    }

    fn feed_line(&mut self, line: &Vec<char>, messages: &mut Vec<String>) -> (stop: Option<Option<String>>)
        ensures
            ({
                let (a, m, st) = line_effect(old(self).answer@, line@);
                &&& final(self).answer@ == a
                &&& final(messages)@.map_values(|s: String| s@) == old(messages)@.map_values(
                    |s: String| s@,
                ) + m
                &&& match stop {
                    None => st is None,
                    Some(None) => st == Some(None::<Seq<char>>),
                    Some(Some(e)) => st == Some(Some(e@)),
                }
            }),
    {
        let ghost start = messages@.map_values(|s: String| s@);
        match classify_line(line) {
            SseLine::Skip => None,
            SseLine::Done => Some(None),
            SseLine::Data(d) => match parse_stream_chunk(d.as_str()) {
                None => None,
                Some(chunk) => match chunk.error {
                    Some(e) => {
                        let mut msg = chars_of("流式错误: ");
                        push_str(&mut msg, e.as_str());
                        Some(Some(string_from_chars(&msg)))
                    },
                    None => {
                        if let Some(tok) = &chunk.reasoning {
                            if !tok.as_str().is_empty() {
                                messages.push(token_json("reasoning", tok.as_str()));
                            }
                        }
                        if let Some(tok) = &chunk.content {
                            if !tok.as_str().is_empty() {
                                let mut a = chars_of(self.answer.as_str());
                                push_str(&mut a, tok.as_str());
                                self.answer = string_from_chars(&a);
                                messages.push(token_json("answer", tok.as_str()));
                            }
                        }
                        assert(messages@.map_values(|s: String| s@) =~= start + line_effect(
                            old(self).answer@,
                            line@,
                        ).1);
                        None
                    },
                },
            },
        }
    }

    /// Reads one piece of the stream, decoded as text, line by line (see
    /// `lines_effect`); the answer grows by the answer tokens read.
    pub fn feed(&mut self, text: &str) -> (res: FeedOutcome)
        ensures
            ({
                let (a, m, st) = lines_effect(old(self).answer@, crate::text::lines_of(text@));
                &&& final(self).answer@ == a
                &&& res.messages@.map_values(|s: String| s@) == m
                &&& status_view(res.status) == st
                &&& res.status matches StreamStatus::Done(full) ==> full@ == a
            }),
    {
        let lines = split_lines(text);
        let ghost ls = lines@.map_values(|l: Vec<char>| l@);
        let ghost a0 = self.answer@;
        let mut messages: Vec<String> = Vec::new();
        let mut i: usize = 0;
        assert(ls.take(0) =~= Seq::<Seq<char>>::empty());
        while i < lines.len()
            invariant
                ls == lines@.map_values(|l: Vec<char>| l@),
                ls == crate::text::lines_of(text@),
                a0 == old(self).answer@,
                i <= lines.len(),
                ({
                    let (a, m, st) = lines_effect(a0, ls.take(i as int));
                    &&& self.answer@ == a
                    &&& messages@.map_values(|s: String| s@) == m
                    &&& st is None
                }),
            decreases lines.len() - i,
        {
            assert(ls.take(i + 1).drop_last() =~= ls.take(i as int));
            assert(ls.take(i + 1).last() == lines@[i as int]@);
            let ghost pa = self.answer@;
            let ghost pm = messages@.map_values(|s: String| s@);
            let stop = self.feed_line(&lines[i], &mut messages);
            proof {
                let le = line_effect(pa, ls[i as int]);
                assert(lines_effect(a0, ls.take(i + 1)) == (le.0, pm + le.1, le.2));
            }
            match stop {
                None => {},
                Some(None) => {
                    proof {
                        let rest = ls.skip(i + 1);
                        lemma_stopped_stays(a0, ls.take(i + 1), rest);
                        assert(ls.take(i + 1) + rest =~= ls);
                    }
                    let full = self.answer.clone();
                    return FeedOutcome { messages, status: StreamStatus::Done(full) };
                },
                Some(Some(e)) => {
                    proof {
                        let rest = ls.skip(i + 1);
                        lemma_stopped_stays(a0, ls.take(i + 1), rest);
                        assert(ls.take(i + 1) + rest =~= ls);
                    }
                    return FeedOutcome { messages, status: StreamStatus::Failed(e) };
                },
            }
            i = i + 1;
        }
        assert(ls.take(lines.len() as int) =~= ls);
        FeedOutcome { messages, status: StreamStatus::Continue }
    }
}

/// Once a run of lines stops the reading (the end marker or an error), later
/// lines change nothing.
pub proof fn lemma_stopped_stays(a: Seq<char>, first: Seq<Seq<char>>, rest: Seq<Seq<char>>)
    requires
        lines_effect(a, first).2 is Some,
    ensures
        lines_effect(a, first + rest) == lines_effect(a, first),
    decreases rest.len(),
{
    if rest.len() > 0 {
        lemma_stopped_stays(a, first, rest.drop_last());
        assert((first + rest).drop_last() =~= first + rest.drop_last());
    } else {
        assert(first + rest =~= first);
    }
}

} // verus!

verus! {

/// Every history message is sent, in order, right after the system prompt:
/// the list holds the system prompt, then entry `j + 1` is history message
/// `j` for every `j`, then the user's message unless the history already ends
/// with it (as a user message); nothing else.
pub proof fn lemma_chat_messages_keep_history(system: Seq<char>, history: Seq<Message>, user_content: Seq<char>)
    ensures
        ({
            let ms = chat_messages(system, history, user_content);
            let dup = history.len() > 0 && history.last().role@ == "user"@ && history.last().content@
                == user_content;
            &&& ms.len() == 1 + history.len() + (if dup { 0int } else { 1int })
            &&& ms[0] == ("system"@, system)
            &&& forall|j: int|
                0 <= j < history.len() ==> #[trigger] ms[j + 1] == (history[j].role@, history[j].content@)
            &&& !dup ==> ms[ms.len() - 1] == ("user"@, user_content)
        }),
{
}

} // verus!
