//! The records kept in the local database (conversations, messages,
//! memories), the clock that stamps them, and their JSON forms: the
//! conversation export, the conversation import, and the memory snapshot handed
//! to the web page.
use vstd::prelude::*;

use crate::text::{chars_of, owned, push_chars, push_signed_decimal, push_str, string_from_chars};

verus! {

// ---------------------------------------------------------------------------
// Records
// ---------------------------------------------------------------------------
/// A conversation.
#[derive(Clone, Debug)]
pub struct Conversation {
    pub id: i64,
    pub title: String,
    pub created_at: i64,
    pub updated_at: i64,
}

/// A message of a conversation.
#[derive(Clone, Debug)]
pub struct Message {
    pub id: i64,
    pub conversation_id: i64,
    pub role: String,
    pub content: String,
    pub created_at: i64,
}

/// A long-term memory entry.
#[derive(Clone, Debug)]
pub struct MemoryRow {
    pub id: i64,
    pub content: String,
    /// Where the memory came from: `auto`, `manual` or `web`.
    pub origin: String,
    pub created_at: i64,
    pub updated_at: i64,
}

/// The title a new conversation gets when none is given.
pub open spec fn default_title() -> Seq<char> {
    "新对话"@
}

/// The title of an imported conversation whose file names none.
pub open spec fn imported_title() -> Seq<char> {
    "导入的对话"@
}

/// The title of a conversation about to be created: the given one, or the
/// default title.
pub fn conversation_title(title: Option<String>) -> (res: String)
    ensures
        title matches Some(t) ==> res == t,
        title is None ==> res@ == default_title(),
{
    match title {
        Some(t) => t,
        None => owned("新对话"),
    }
}

/// The record of a conversation just created with row id `id` at time `t`.
pub fn new_conversation(id: i64, title: String, t: i64) -> (res: Conversation)
    ensures
        res.id == id,
        res.title == title,
        res.created_at == t,
        res.updated_at == t,
{
    Conversation { id, title, created_at: t, updated_at: t }
}

/// The record of a message just stored with row id `id` at time `t`.
pub fn new_message(id: i64, conversation_id: i64, role: &str, content: &str, t: i64) -> (res: Message)
    ensures
        res.id == id,
        res.conversation_id == conversation_id,
        res.role@ == role@,
        res.content@ == content@,
        res.created_at == t,
{
    Message { id, conversation_id, role: owned(role), content: owned(content), created_at: t }
}

// ---------------------------------------------------------------------------
// The clock
// ---------------------------------------------------------------------------
#[verifier::external_type_specification]
#[verifier::external_body]
pub struct ExSystemTime(std::time::SystemTime);

/// Calls `SystemTime::now`; the result is the machine's clock, of which
/// nothing is stated.
#[verifier::external_body]
fn system_time_now() -> std::time::SystemTime {
    std::time::SystemTime::now()
}

/// Calls `SystemTime::duration_since(UNIX_EPOCH)`; `None` when the clock is
/// before the epoch. Nothing is stated of the duration.
#[verifier::external_body]
fn since_unix_epoch(t: &std::time::SystemTime) -> Option<std::time::Duration> {
    t.duration_since(std::time::UNIX_EPOCH).ok()
}

/// Calls `Duration::as_secs`. Nothing is stated: `Duration` is opaque here.
#[verifier::external_body]
fn duration_secs(d: &std::time::Duration) -> u64 {
    d.as_secs()
}

/// The timestamp stored for a clock reading: its whole seconds since the Unix
/// epoch as an `i64` (a plain cast), or 0 when the clock is before the epoch.
pub fn timestamp_from(secs: Option<u64>) -> (res: i64)
    ensures
        secs matches Some(s) ==> res == s as i64,
        secs is None ==> res == 0,
{
    match secs {
        Some(s) => s as i64,
        None => 0,
    }
}

/// The current time in seconds since the Unix epoch (0 if the clock is before
/// it). It is read from the machine's clock, so no value is promised.
pub fn now() -> i64 {
    let t = system_time_now();
    let secs = match since_unix_epoch(&t) {
        Some(d) => Some(duration_secs(&d)),
        None => None,
    };
    timestamp_from(secs)
}

// ---------------------------------------------------------------------------
// JSON text
// ---------------------------------------------------------------------------
/// The lower-case hexadecimal digit for `d` (`0 <= d < 16`).
pub open spec fn hex_digit(d: nat) -> char {
    if d < 10 {
        crate::text::digit_char(d)
    } else if d == 10 {
        'a'
    } else if d == 11 {
        'b'
    } else if d == 12 {
        'c'
    } else if d == 13 {
        'd'
    } else if d == 14 {
        'e'
    } else {
        'f'
    }
}

/// How `serde_json` writes one character inside a string literal: `"` and
/// `\` behind a backslash; backspace, tab, line feed, form feed and carriage
/// return as `\b`, `\t`, `\n`, `\f`, `\r`; the other characters below
/// U+0020 as `\u00` and two lower-case hex digits; every other character as
/// it is.
pub open spec fn json_escape(c: char) -> Seq<char> {
    let u = c as u32;
    if c == '"' {
        seq!['\\', '"']
    } else if c == '\\' {
        seq!['\\', '\\']
    } else if u == 8 {
        seq!['\\', 'b']
    } else if u == 9 {
        seq!['\\', 't']
    } else if u == 10 {
        seq!['\\', 'n']
    } else if u == 12 {
        seq!['\\', 'f']
    } else if u == 13 {
        seq!['\\', 'r']
    } else if u < 0x20 {
        seq!['\\', 'u', '0', '0', hex_digit((u / 16) as nat), hex_digit((u % 16) as nat)]
    } else {
        seq![c]
    }
}

/// The escaped characters of `s`.
pub open spec fn json_escaped(s: Seq<char>) -> Seq<char>
    decreases s.len(),
{
    if s.len() == 0 {
        Seq::empty()
    } else {
        json_escaped(s.drop_last()) + json_escape(s.last())
    }
}

/// The JSON string literal that `serde_json::to_string` writes for a string
/// with the characters `s`: quoted, each character escaped by `json_escape`.
pub open spec fn json_string(s: Seq<char>) -> Seq<char> {
    seq!['"'] + json_escaped(s) + seq!['"']
}

/// Calls `serde_json::to_string` on a string, which writes it as a quoted
/// literal escaping characters as its escape table does (see `json_escape`);
/// writing a string cannot fail.
#[verifier::external_body]
pub(crate) fn json_quote(s: &str) -> (res: String)
    ensures
        res@ == json_string(s@),
{
    serde_json::to_string(s).unwrap_or_default()
}

/// Joins the pieces with commas.
pub open spec fn comma_join(pieces: Seq<Seq<char>>) -> Seq<char>
    decreases pieces.len(),
{
    if pieces.len() == 0 {
        Seq::empty()
    } else if pieces.len() == 1 {
        pieces[0]
    } else {
        comma_join(pieces.drop_last()) + ","@ + pieces.last()
    }
}

/// The JSON object of one exported message (keys in the sorted order that
/// `serde_json` gives the fields of a converted record).
pub open spec fn message_json(m: Message) -> Seq<char> {
    "{\"content\":"@ + json_string(m.content@) + ",\"conversation_id\":"@
        + crate::text::signed_decimal(m.conversation_id as int) + ",\"created_at\":"@
        + crate::text::signed_decimal(m.created_at as int) + ",\"id\":"@
        + crate::text::signed_decimal(m.id as int) + ",\"role\":"@ + json_string(m.role@) + "}"@
}

/// The export file of a conversation: its title, the export time and its
/// messages.
pub open spec fn export_json_text(title: Seq<char>, exported_at: i64, messages: Seq<Message>) -> Seq<char> {
    "{\"exported_at\":"@ + crate::text::signed_decimal(exported_at as int) + ",\"messages\":["@
        + comma_join(messages.map_values(|m: Message| message_json(m))) + "],\"title\":"@
        + json_string(title) + "}"@
}

/// The object that the web page receives for one memory.
pub open spec fn memory_json(m: MemoryRow) -> Seq<char> {
    "{\"content\":"@ + json_string(m.content@) + ",\"origin\":"@ + json_string(m.origin@) + "}"@
}

/// The memory snapshot for the web page: an array of `{content, origin}`.
pub open spec fn memories_json_text(ms: Seq<MemoryRow>) -> Seq<char> {
    "["@ + comma_join(ms.map_values(|m: MemoryRow| memory_json(m))) + "]"@
}

fn push_quoted(out: &mut Vec<char>, s: &str)
    ensures
        final(out)@ == old(out)@ + json_string(s@),
{
    let q = json_quote(s);
    push_str(out, q.as_str());
}

fn push_message_json(out: &mut Vec<char>, m: &Message)
    ensures
        final(out)@ == old(out)@ + message_json(*m),
{
    let ghost start = out@;
    push_str(out, "{\"content\":");
    push_quoted(out, m.content.as_str());
    push_str(out, ",\"conversation_id\":");
    push_signed_decimal(out, m.conversation_id);
    push_str(out, ",\"created_at\":");
    push_signed_decimal(out, m.created_at);
    push_str(out, ",\"id\":");
    push_signed_decimal(out, m.id);
    push_str(out, ",\"role\":");
    push_quoted(out, m.role.as_str());
    push_str(out, "}");
    assert(out@ =~= start + message_json(*m));
}

fn push_memory_json(out: &mut Vec<char>, m: &MemoryRow)
    ensures
        final(out)@ == old(out)@ + memory_json(*m),
{
    let ghost start = out@;
    push_str(out, "{\"content\":");
    push_quoted(out, m.content.as_str());
    push_str(out, ",\"origin\":");
    push_quoted(out, m.origin.as_str());
    push_str(out, "}");
    assert(out@ =~= start + memory_json(*m));
}

proof fn lemma_comma_join_push(pieces: Seq<Seq<char>>, x: Seq<char>)
    ensures
        comma_join(pieces.push(x)) == if pieces.len() == 0 {
            x
        } else {
            comma_join(pieces) + ","@ + x
        },
{
    assert(pieces.push(x).drop_last() =~= pieces);
}

/// The export file of a conversation (see `export_json_text`).
pub fn export_json(title: &str, exported_at: i64, messages: &Vec<Message>) -> (res: String)
    ensures
        res@ == export_json_text(title@, exported_at, messages@),
{
    let ghost views = messages@.map_values(|m: Message| message_json(m));
    let mut out: Vec<char> = Vec::new();
    push_str(&mut out, "{\"exported_at\":");
    push_signed_decimal(&mut out, exported_at);
    push_str(&mut out, ",\"messages\":[");
    let ghost head = out@;
    let mut i: usize = 0;
    assert(views.take(0) =~= Seq::<Seq<char>>::empty());
    while i < messages.len()
        invariant
            views == messages@.map_values(|m: Message| message_json(m)),
            i <= messages.len(),
            out@ == head + comma_join(views.take(i as int)),
        decreases messages.len() - i,
    {
        proof {
            assert(views.take(i + 1) =~= views.take(i as int).push(views[i as int]));
            lemma_comma_join_push(views.take(i as int), views[i as int]);
        }
        if i > 0 {
            push_str(&mut out, ",");
        }
        push_message_json(&mut out, &messages[i]);
        i = i + 1;
        assert(out@ =~= head + comma_join(views.take(i as int)));
    }
    assert(views.take(messages.len() as int) =~= views);
    push_str(&mut out, "],\"title\":");
    push_quoted(&mut out, title);
    push_str(&mut out, "}");
    assert(out@ =~= export_json_text(title@, exported_at, messages@));
    string_from_chars(&out)
}

/// The memory snapshot handed to the web page (see `memories_json_text`).
pub fn memories_json(memories: &Vec<MemoryRow>) -> (res: String)
    ensures
        res@ == memories_json_text(memories@),
{
    let ghost views = memories@.map_values(|m: MemoryRow| memory_json(m));
    let mut out: Vec<char> = Vec::new();
    push_str(&mut out, "[");
    let ghost head = out@;
    let mut i: usize = 0;
    assert(views.take(0) =~= Seq::<Seq<char>>::empty());
    while i < memories.len()
        invariant
            views == memories@.map_values(|m: MemoryRow| memory_json(m)),
            i <= memories.len(),
            out@ == head + comma_join(views.take(i as int)),
        decreases memories.len() - i,
    {
        proof {
            assert(views.take(i + 1) =~= views.take(i as int).push(views[i as int]));
            lemma_comma_join_push(views.take(i as int), views[i as int]);
        }
        if i > 0 {
            push_str(&mut out, ",");
        }
        push_memory_json(&mut out, &memories[i]);
        i = i + 1;
        assert(out@ =~= head + comma_join(views.take(i as int)));
    }
    assert(views.take(memories.len() as int) =~= views);
    push_str(&mut out, "]");
    assert(out@ =~= memories_json_text(memories@));
    string_from_chars(&out)
}

// ---------------------------------------------------------------------------
// Importing a conversation
// ---------------------------------------------------------------------------
/// One message entry of an import file: its `role` and `content`, each when it
/// is a JSON string.
#[derive(Clone, Debug)]
pub struct ImportedMessage {
    pub role: Option<String>,
    pub content: Option<String>,
}

/// What an import file holds: its `title` when that is a string, and its
/// `messages` when that is an array.
#[derive(Clone, Debug)]
pub struct ImportDoc {
    pub title: Option<String>,
    pub messages: Option<Vec<ImportedMessage>>,
}

pub open spec fn opt_view(s: Option<String>) -> Option<Seq<char>> {
    match s {
        Some(t) => Some(t@),
        None => None,
    }
}

pub open spec fn imported_message_view(m: ImportedMessage) -> (Option<Seq<char>>, Option<Seq<char>>) {
    (opt_view(m.role), opt_view(m.content))
}

pub open spec fn import_doc_view(d: ImportDoc) -> (
    Option<Seq<char>>,
    Option<Seq<(Option<Seq<char>>, Option<Seq<char>>)>>,
) {
    (
        opt_view(d.title),
        match d.messages {
            Some(ms) => Some(ms@.map_values(|m: ImportedMessage| imported_message_view(m))),
            None => None,
        },
    )
}

/// What `serde_json` reads from the text of an import file, in the terms of
/// `import_doc_view`; `None` when the text is not JSON.
pub uninterp spec fn import_doc_of(json: Seq<char>) -> Option<
    (Option<Seq<char>>, Option<Seq<(Option<Seq<char>>, Option<Seq<char>>)>>),
>;

#[verifier::external_type_specification]
#[verifier::external_body]
pub struct ExJsonError(serde_json::Error);

/// What an export file reads as: its title, and each message's role and
/// content.
pub open spec fn exported_doc(title: Seq<char>, messages: Seq<Message>) -> (
    Option<Seq<char>>,
    Option<Seq<(Option<Seq<char>>, Option<Seq<char>>)>>,
) {
    (Some(title), Some(messages.map_values(|m: Message| (Some(m.role@), Some(m.content@)))))
}

/// Calls `serde_json::from_str::<serde_json::Value>` and reads, from the value,
/// the string `title`, the array `messages` and the string `role` and
/// `content` of each of its entries. The outcome depends on the text alone and
/// is named `import_doc_of`. An export file (`export_json_text`) is a JSON
/// object whose `title` and whose messages' `role` and `content` are string
/// literals as `json_string` writes them, so the parser reads them back as
/// they were written.
#[verifier::external_body]
fn parse_import_doc(json: &str) -> (res: Result<ImportDoc, serde_json::Error>)
    ensures
        res is Ok <==> import_doc_of(json@) is Some,
        res matches Ok(d) ==> import_doc_of(json@) == Some(import_doc_view(d)),
        res matches Ok(d) ==> forall|t: Seq<char>, n: i64, ms: Seq<Message>|
            #![trigger export_json_text(t, n, ms)]
            json@ == export_json_text(t, n, ms) ==> import_doc_view(d) == exported_doc(t, ms),
        res is Err ==> forall|t: Seq<char>, n: i64, ms: Seq<Message>|
            #![trigger export_json_text(t, n, ms)]
            json@ != export_json_text(t, n, ms),
{
    let v: serde_json::Value = serde_json::from_str(json)?;
    let s = |x: Option<&serde_json::Value>| x.and_then(|t| t.as_str()).map(String::from);
    let ms = v.get("messages").and_then(|m| m.as_array());
    Ok(ImportDoc {
        title: s(v.get("title")),
        messages: ms.map(|a| a.iter().map(|m| ImportedMessage { role: s(m.get("role")), content: s(m.get("content")) }).collect()),
    })
}

/// One message to store for an imported conversation.
#[derive(Clone, Debug)]
pub struct ImportedEntry {
    pub role: String,
    pub content: String,
}

/// What importing a file does: create a conversation titled `title`, store
/// `messages` in order, and, when the file had a message array (even an empty
/// one), touch the conversation afterwards.
#[derive(Clone, Debug)]
pub struct ImportPlan {
    pub title: String,
    pub messages: Vec<ImportedEntry>,
    pub touch: bool,
}

/// The entries kept from a message array: the role defaults to `user` and the
/// content to empty, and entries with empty content are dropped.
pub open spec fn kept_entries(ms: Seq<(Option<Seq<char>>, Option<Seq<char>>)>) -> Seq<(Seq<char>, Seq<char>)>
    decreases ms.len(),
{
    if ms.len() == 0 {
        Seq::empty()
    } else {
        let init = kept_entries(ms.drop_last());
        let (role, content) = ms.last();
        let c = match content {
            Some(c) => c,
            None => Seq::empty(),
        };
        let r = match role {
            Some(r) => r,
            None => "user"@,
        };
        if c.len() == 0 {
            init
        } else {
            init.push((r, c))
        }
    }
}

pub open spec fn entry_view(e: ImportedEntry) -> (Seq<char>, Seq<char>) {
    (e.role@, e.content@)
}

/// `plan` is what importing a file that reads as `doc` does.
pub open spec fn is_import_plan(
    doc: (Option<Seq<char>>, Option<Seq<(Option<Seq<char>>, Option<Seq<char>>)>>),
    plan: ImportPlan,
) -> bool {
    &&& plan.title@ == match doc.0 {
        Some(t) => t,
        None => imported_title(),
    }
    &&& plan.touch == doc.1 is Some
    &&& plan.messages@.map_values(|e: ImportedEntry| entry_view(e)) == match doc.1 {
        Some(ms) => kept_entries(ms),
        None => Seq::empty(),
    }
}

/// What importing a file that reads as `doc` does (see `is_import_plan`).
pub fn plan_import(doc: ImportDoc) -> (plan: ImportPlan)
    ensures
        is_import_plan(import_doc_view(doc), plan),
{
    let ghost dv = import_doc_view(doc);
    let title = match doc.title {
        Some(t) => t,
        None => owned("导入的对话"),
    };
    match doc.messages {
        None => {
            let plan = ImportPlan { title, messages: Vec::new(), touch: false };
            assert(plan.messages@.map_values(|e: ImportedEntry| entry_view(e)) =~= Seq::<
                (Seq<char>, Seq<char>),
            >::empty());
            plan
        },
        Some(ms) => {
            let ghost mv = ms@.map_values(|m: ImportedMessage| imported_message_view(m));
            let mut out: Vec<ImportedEntry> = Vec::new();
            let mut i: usize = 0;
            assert(mv.take(0) =~= Seq::<(Option<Seq<char>>, Option<Seq<char>>)>::empty());
            while i < ms.len()
                invariant
                    mv == ms@.map_values(|m: ImportedMessage| imported_message_view(m)),
                    i <= ms.len(),
                    out@.map_values(|e: ImportedEntry| entry_view(e)) == kept_entries(
                        mv.take(i as int),
                    ),
                decreases ms.len() - i,
            {
                let m = &ms[i];
                assert(mv.take(i + 1).drop_last() =~= mv.take(i as int));
                assert(mv.take(i + 1).last() == imported_message_view(*m));
                let content = match &m.content {
                    Some(c) => c.clone(),
                    None => String::new(),
                };
                let role = match &m.role {
                    Some(r) => r.clone(),
                    None => owned("user"),
                };
                if !content.as_str().is_empty() {
                    let ghost before = out@;
                    out.push(ImportedEntry { role, content });
                    assert(out@.map_values(|e: ImportedEntry| entry_view(e)) =~= before.map_values(
                        |e: ImportedEntry| entry_view(e),
                    ).push(entry_view(out@.last())));
                }
                i = i + 1;
            }
            assert(mv.take(ms.len() as int) =~= mv);
            ImportPlan { title, messages: out, touch: true }
        },
    }
}

/// Why an import file was refused.
#[derive(Debug)]
pub enum ImportError {
    /// The text is not JSON.
    InvalidJson(serde_json::Error),
}

/// Reads an import file and says what importing it does; an error exactly when
/// the text is not JSON.
pub fn import_plan(json: &str) -> (res: Result<ImportPlan, ImportError>)
    ensures
        res is Err <==> import_doc_of(json@) is None,
        res matches Ok(plan) ==> is_import_plan(import_doc_of(json@).unwrap(), plan),
        forall|t: Seq<char>, n: i64, ms: Seq<Message>|
            #![trigger export_json_text(t, n, ms)]
            json@ == export_json_text(t, n, ms) ==> (res matches Ok(plan) && plan.title@ == t
                && plan.touch && plan.messages@.map_values(|e: ImportedEntry| entry_view(e))
                == exported_entries(ms)),
{
    match parse_import_doc(json) {
        Ok(doc) => {
            let plan = plan_import(doc);
            proof {
                assert forall|t: Seq<char>, n: i64, ms: Seq<Message>|
                    #![trigger export_json_text(t, n, ms)]
                    json@ == export_json_text(t, n, ms) implies plan.title@ == t && plan.touch
                        && plan.messages@.map_values(|e: ImportedEntry| entry_view(e))
                        == exported_entries(ms) by {
                    lemma_exported_entries(ms);
                }
            }
            Ok(plan)
        },
        Err(e) => Err(ImportError::InvalidJson(e)),
    }
}

/// The messages of an export file that an import stores: those with
/// non-empty content, in order, as (role, content).
pub open spec fn exported_entries(ms: Seq<Message>) -> Seq<(Seq<char>, Seq<char>)>
    decreases ms.len(),
{
    if ms.len() == 0 {
        Seq::empty()
    } else {
        let init = exported_entries(ms.drop_last());
        if ms.last().content@.len() == 0 {
            init
        } else {
            init.push((ms.last().role@, ms.last().content@))
        }
    }
}

proof fn lemma_exported_entries(ms: Seq<Message>)
    ensures
        kept_entries(exported_doc(Seq::empty(), ms).1.unwrap()) == exported_entries(ms),
    decreases ms.len(),
{
    let v = exported_doc(Seq::empty(), ms).1.unwrap();
    if ms.len() > 0 {
        lemma_exported_entries(ms.drop_last());
        assert(v.drop_last() =~= exported_doc(Seq::empty(), ms.drop_last()).1.unwrap());
    } else {
        assert(v =~= Seq::<(Option<Seq<char>>, Option<Seq<char>>)>::empty());
    }
}

} // verus!
