//! Long-term memory: keyword retrieval by character bigrams (the path that
//! needs no API key), the choice between vector and keyword hits, the system
//! prompt that carries retrieved memories, and the intake of memories captured
//! in web mode.
use vstd::prelude::*;

use crate::records::MemoryRow;
use crate::text::{char_is_whitespace, chars_of, push_decimal, push_str, string_from_chars, to_lowercase, trim_chars};

verus! {

// ---------------------------------------------------------------------------
// Bigrams
// ---------------------------------------------------------------------------
/// Keeps the characters that are not white space.
pub open spec fn keep_char() -> spec_fn(char) -> bool {
    |c: char| !crate::text::is_white_space(c)
}

/// The characters that bigrams are cut from: `s` lower-cased, without white
/// space.
pub open spec fn gram_chars(s: Seq<char>) -> Seq<char> {
    crate::text::lowercase(s).filter(keep_char())
}

/// The character bigrams of `s`, ignoring white space and case: every pair of
/// neighbouring characters; a text of fewer than two characters gives its
/// characters one by one.
pub open spec fn bigram_seq(s: Seq<char>) -> Seq<Seq<char>> {
    let c = gram_chars(s);
    if c.len() < 2 {
        Seq::new(c.len(), |i: int| seq![c[i]])
    } else {
        Seq::new((c.len() - 1) as nat, |i: int| seq![c[i], c[i + 1]])
    }
}

pub open spec fn views(v: Seq<String>) -> Seq<Seq<char>> {
    v.map_values(|s: String| s@)
}

fn gram_chars_of(s: &str) -> (res: Vec<char>)
    ensures
        res@ == gram_chars(s@),
{
    let lower = to_lowercase(s);
    let cs = chars_of(lower.as_str());
    let ghost f = keep_char();
    let mut out: Vec<char> = Vec::new();
    let mut i: usize = 0;
    proof {
        reveal(Seq::filter);
        assert(cs@.take(0) =~= Seq::<char>::empty());
    }
    while i < cs.len()
        invariant
            f == keep_char(),
            i <= cs.len(),
            out@ == cs@.take(i as int).filter(f),
        decreases cs.len() - i,
    {
        proof {
            reveal(Seq::filter);
            assert(cs@.take(i + 1).drop_last() =~= cs@.take(i as int));
            assert(cs@.take(i + 1).last() == cs@[i as int]);
        }
        let ghost before = out@;
        if !char_is_whitespace(cs[i]) {
            out.push(cs[i]);
            assert(f(cs@[i as int]));
            assert(out@ == before.push(cs@[i as int]));
        } else {
            assert(!f(cs@[i as int]));
        }
        i = i + 1;
        assert(out@ == cs@.take(i as int).filter(f));
    }
    assert(cs@.take(cs.len() as int) =~= cs@);
    out
}

/// Cuts `s` into character bigrams, ignoring white space and case; works for
/// Chinese and English alike.
pub fn bigrams(s: &str) -> (res: Vec<String>)
    ensures
        views(res@) == bigram_seq(s@),
{
    let c = gram_chars_of(s);
    let ghost target = bigram_seq(s@);
    let mut out: Vec<String> = Vec::new();
    if c.len() < 2 {
        let mut i: usize = 0;
        while i < c.len()
            invariant
                c@ == gram_chars(s@),
                c.len() < 2,
                target == bigram_seq(s@),
                i <= c.len(),
                out.len() == i,
                forall|j: int| 0 <= j < i ==> #[trigger] out@[j]@ == target[j],
            decreases c.len() - i,
        {
            let mut one: Vec<char> = Vec::new();
            one.push(c[i]);
            assert(one@ =~= seq![c@[i as int]]);
            out.push(string_from_chars(&one));
            i = i + 1;
        }
    } else {
        let mut i: usize = 0;
        while i + 1 < c.len()
            invariant
                c@ == gram_chars(s@),
                c.len() >= 2,
                target == bigram_seq(s@),
                i + 1 <= c.len(),
                out.len() == i,
                forall|j: int| 0 <= j < i ==> #[trigger] out@[j]@ == target[j],
            decreases c.len() - i,
        {
            let mut two: Vec<char> = Vec::new();
            two.push(c[i]);
            two.push(c[i + 1]);
            assert(two@ =~= seq![c@[i as int], c@[i + 1]]);
            out.push(string_from_chars(&two));
            i = i + 1;
        }
    }
    assert(views(out@) =~= target);
    out
}

// ---------------------------------------------------------------------------
// Keyword scoring and ranking
// ---------------------------------------------------------------------------
/// How many of the query bigrams `q` (counted with repetition) occur among the
/// bigrams `c`.
pub open spec fn hits(q: Seq<Seq<char>>, c: Seq<Seq<char>>) -> nat
    decreases q.len(),
{
    if q.len() == 0 {
        0
    } else {
        hits(q.drop_last(), c) + if c.contains(q.last()) {
            1nat
        } else {
            0nat
        }
    }
}

/// A memory text counts as a keyword match when it has bigrams and more than
/// one in twenty of the query bigrams occur among them.
pub open spec fn is_match(q: Seq<Seq<char>>, text: Seq<char>) -> bool {
    bigram_seq(text).len() > 0 && 20 * hits(q, bigram_seq(text)) > q.len()
}

/// The matching texts with their hit counts, in the order given.
pub open spec fn scored(q: Seq<Seq<char>>, texts: Seq<Seq<char>>) -> Seq<(nat, Seq<char>)>
    decreases texts.len(),
{
    if texts.len() == 0 {
        Seq::empty()
    } else {
        let init = scored(q, texts.drop_last());
        if is_match(q, texts.last()) {
            init.push((hits(q, bigram_seq(texts.last())), texts.last()))
        } else {
            init
        }
    }
}

/// Inserts `x` after every leading entry whose count is at least `x`'s.
pub open spec fn insert_ranked(s: Seq<(nat, Seq<char>)>, x: (nat, Seq<char>)) -> Seq<(nat, Seq<char>)>
    decreases s.len(),
{
    if s.len() == 0 {
        seq![x]
    } else if s[0].0 >= x.0 {
        seq![s[0]] + insert_ranked(s.drop_first(), x)
    } else {
        seq![x] + s
    }
}

/// `s` sorted by descending count, stably (equal counts keep their order).
pub open spec fn ranked(s: Seq<(nat, Seq<char>)>) -> Seq<(nat, Seq<char>)>
    decreases s.len(),
{
    if s.len() == 0 {
        Seq::empty()
    } else {
        insert_ranked(ranked(s.drop_last()), s.last())
    }
}

/// The texts that keyword retrieval returns: the matches, best first (ties in
/// the order given), at most `top_k` of them.
pub open spec fn keyword_hits(q: Seq<Seq<char>>, texts: Seq<Seq<char>>, top_k: nat) -> Seq<Seq<char>> {
    let r = ranked(scored(q, texts));
    let n = if top_k < r.len() {
        top_k as int
    } else {
        r.len() as int
    };
    r.take(n).map_values(|e: (nat, Seq<char>)| e.1)
}

proof fn lemma_insert_ranked_at(s: Seq<(nat, Seq<char>)>, x: (nat, Seq<char>), p: int)
    requires
        0 <= p <= s.len(),
        forall|j: int| 0 <= j < p ==> (#[trigger] s[j]).0 >= x.0,
        p == s.len() || s[p].0 < x.0,
    ensures
        insert_ranked(s, x) == s.take(p).push(x) + s.skip(p),
    decreases p,
{
    if p == 0 {
        if s.len() == 0 {
            assert(s.take(0).push(x) + s.skip(0) =~= seq![x]);
        } else {
            assert(s.take(0).push(x) + s.skip(0) =~= seq![x] + s);
        }
    } else {
        let t = s.drop_first();
        assert forall|j: int| 0 <= j < p - 1 implies (#[trigger] t[j]).0 >= x.0 by {
            assert(t[j] == s[j + 1]);
        }
        if p - 1 < t.len() {
            assert(t[p - 1] == s[p]);
        }
        lemma_insert_ranked_at(t, x, p - 1);
        assert(seq![s[0]] + (t.take(p - 1).push(x) + t.skip(p - 1)) =~= s.take(p).push(x) + s.skip(p));
    }
}

pub open spec fn entry_of(e: (usize, String)) -> (nat, Seq<char>) {
    (e.0 as nat, e.1@)
}

pub open spec fn entries(v: Seq<(usize, String)>) -> Seq<(nat, Seq<char>)> {
    v.map_values(|e: (usize, String)| entry_of(e))
}

fn contains_string(v: &Vec<String>, s: &String) -> (res: bool)
    ensures
        res == views(v@).contains(s@),
{
    let mut i: usize = 0;
    while i < v.len()
        invariant
            i <= v.len(),
            forall|j: int| 0 <= j < i ==> v@[j]@ != s@,
        decreases v.len() - i,
    {
        if v[i] == *s {
            assert(views(v@)[i as int] == s@);
            return true;
        }
        i = i + 1;
    }
    assert forall|j: int| 0 <= j < views(v@).len() implies views(v@)[j] != s@ by {
        assert(views(v@)[j] == v@[j]@);
    }
    false
}

fn count_hits(q: &Vec<String>, c: &Vec<String>) -> (res: usize)
    ensures
        res == hits(views(q@), views(c@)),
        res <= q.len(),
{
    let ghost qv = views(q@);
    let mut n: usize = 0;
    let mut i: usize = 0;
    assert(qv.take(0) =~= Seq::<Seq<char>>::empty());
    while i < q.len()
        invariant
            qv == views(q@),
            i <= q.len(),
            n <= i,
            n == hits(qv.take(i as int), views(c@)),
        decreases q.len() - i,
    {
        assert(qv.take(i + 1).drop_last() =~= qv.take(i as int));
        assert(qv.take(i + 1).last() == q@[i as int]@);
        if contains_string(c, &q[i]) {
            n = n + 1;
        }
        i = i + 1;
    }
    assert(qv.take(q.len() as int) =~= qv);
    n
}

/// A prepared keyword query: the bigrams of the query text.
pub struct KeywordQuery {
    pub grams: Vec<String>,
}

impl KeywordQuery {
    /// Prepares the query text `query`.
    pub fn new(query: &str) -> (res: KeywordQuery)
        ensures
            views(res.grams@) == bigram_seq(query@),
    {
        KeywordQuery { grams: bigrams(query) }
    }

    /// A query without bigrams (an empty or blank text) cannot be scored; the
    /// most recently updated memories are returned in its place.
    pub fn is_blank(&self) -> (res: bool)
        ensures
            res == (self.grams.len() == 0),
    {
        self.grams.len() == 0
    }

    /// Scores `texts` by bigram overlap with the query and returns the best
    /// `top_k` (see `keyword_hits`).
    pub fn rank(&self, texts: &Vec<String>, top_k: usize) -> (res: Vec<String>)
        ensures
            views(res@) == keyword_hits(views(self.grams@), views(texts@), top_k as nat),
    {
        let ghost q = views(self.grams@);
        let ghost tv = views(texts@);
        let mut list: Vec<(usize, String)> = Vec::new();
        let mut i: usize = 0;
        assert(tv.take(0) =~= Seq::<Seq<char>>::empty());
        while i < texts.len()
            invariant
                q == views(self.grams@),
                tv == views(texts@),
                i <= texts.len(),
                entries(list@) == ranked(scored(q, tv.take(i as int))),
            decreases texts.len() - i,
        {
            let text = &texts[i];
            assert(tv.take(i + 1).drop_last() =~= tv.take(i as int));
            assert(tv.take(i + 1).last() == text@);
            let c = bigrams(text.as_str());
            let ghost cur = tv.take(i + 1);
            let ghost prev = ranked(scored(q, tv.take(i as int)));
            assert(cur.drop_last() =~= tv.take(i as int));
            assert(views(c@).len() == c.len());
            if c.len() == 0 {
                assert(!is_match(q, text@));
                assert(scored(q, cur) == scored(q, tv.take(i as int)));
            }
            if c.len() > 0 {
                let hit = count_hits(&self.grams, &c);
                assert(views(self.grams@).len() == self.grams.len());
                if !((hit as u128) * 20 > (self.grams.len() as u128)) {
                    assert(!is_match(q, text@));
                    assert(scored(q, cur) == scored(q, tv.take(i as int)));
                }
                if (hit as u128) * 20 > (self.grams.len() as u128) {
                    assert(is_match(q, text@));
                    assert(scored(q, cur) == scored(q, tv.take(i as int)).push((hit as nat, text@)));
                    assert(scored(q, cur).drop_last() =~= scored(q, tv.take(i as int)));
                    let ghost before = entries(list@);
                    let mut p: usize = 0;
                    while p < list.len() && list[p].0 >= hit
                        invariant
                            p <= list.len(),
                            before == entries(list@),
                            forall|j: int| 0 <= j < p ==> (#[trigger] before[j]).0 >= hit,
                        decreases list.len() - p,
                    {
                        p = p + 1;
                    }
                    proof {
                        lemma_insert_ranked_at(before, (hit as nat, text@), p as int);
                    }
                    list.insert(p, (hit, text.clone()));
                    assert(entries(list@) =~= before.take(p as int).push((hit as nat, text@))
                        + before.skip(p as int));
                }
            }
            i = i + 1;
        }
        assert(tv.take(texts.len() as int) =~= tv);
        let ghost r = entries(list@);
        let n = if top_k < list.len() {
            top_k
        } else {
            list.len()
        };
        let mut out: Vec<String> = Vec::new();
        let mut k: usize = 0;
        while k < n
            invariant
                r == entries(list@),
                n <= list.len(),
                k <= n,
                out.len() == k,
                forall|j: int| 0 <= j < k ==> #[trigger] out@[j]@ == r[j].1,
            decreases n - k,
        {
            out.push(list[k].1.clone());
            k = k + 1;
        }
        assert(views(out@) =~= r.take(n as int).map_values(|e: (nat, Seq<char>)| e.1));
        out
    }
}

// ---------------------------------------------------------------------------
// Laws of the ranking
// ---------------------------------------------------------------------------
pub open spec fn sorted_desc(s: Seq<(nat, Seq<char>)>) -> bool {
    forall|i: int, j: int| 0 <= i < j < s.len() ==> (#[trigger] s[i]).0 >= (#[trigger] s[j]).0
}

proof fn lemma_insert_ranked_sorted(s: Seq<(nat, Seq<char>)>, x: (nat, Seq<char>))
    requires
        sorted_desc(s),
    ensures
        sorted_desc(insert_ranked(s, x)),
        insert_ranked(s, x).len() == s.len() + 1,
        insert_ranked(s, x).to_multiset() == s.to_multiset().insert(x),
    decreases s.len(),
{
    broadcast use vstd::seq_lib::group_to_multiset_ensures;
    if s.len() == 0 {
        assert(insert_ranked(s, x) =~= seq![x]);
        assert(seq![x] =~= Seq::<(nat, Seq<char>)>::empty().push(x));
    } else if s[0].0 >= x.0 {
        let t = s.drop_first();
        lemma_insert_ranked_sorted(t, x);
        let r = insert_ranked(t, x);
        let whole = seq![s[0]] + r;
        assert forall|j: int| 0 <= j < r.len() implies s[0].0 >= (#[trigger] r[j]).0 by {
            // Each entry of r is x or an entry of t, all bounded by s[0].
            assert(r.to_multiset().count(r[j]) > 0);
            if r[j] != x {
                assert(t.to_multiset().count(r[j]) > 0);
                let k = choose|k: int| 0 <= k < t.len() && t[k] == r[j];
                assert(t[k] == s[k + 1]);
            }
        }
        assert(whole =~= insert_ranked(s, x));
        assert(whole =~= r.insert(0, s[0]));
        assert(s =~= t.insert(0, s[0]));
    } else {
        assert(insert_ranked(s, x) =~= s.insert(0, x));
    }
}

/// Keyword retrieval puts better matches first: the ranking is ordered by
/// descending hit count, and it holds exactly the matches.
pub proof fn lemma_ranked_sorted(s: Seq<(nat, Seq<char>)>)
    ensures
        sorted_desc(ranked(s)),
        ranked(s).len() == s.len(),
        ranked(s).to_multiset() == s.to_multiset(),
    decreases s.len(),
{
    broadcast use vstd::seq_lib::group_to_multiset_ensures;
    if s.len() > 0 {
        lemma_ranked_sorted(s.drop_last());
        lemma_insert_ranked_sorted(ranked(s.drop_last()), s.last());
        assert(s =~= s.drop_last().push(s.last()));
    }
}

/// Every text that keyword retrieval returns is a match for the query, and at
/// most `top_k` texts are returned.
pub proof fn lemma_keyword_hits_match(q: Seq<Seq<char>>, texts: Seq<Seq<char>>, top_k: nat)
    ensures
        keyword_hits(q, texts, top_k).len() <= top_k,
        forall|i: int|
            0 <= i < keyword_hits(q, texts, top_k).len() ==> is_match(
                q,
                #[trigger] keyword_hits(q, texts, top_k)[i],
            ),
{
    let sc = scored(q, texts);
    lemma_ranked_sorted(sc);
    lemma_scored_match(q, texts);
    let r = ranked(sc);
    assert forall|i: int| 0 <= i < r.len() implies is_match(q, (#[trigger] r[i]).1) by {
        broadcast use vstd::seq_lib::group_to_multiset_ensures;
        assert(r.to_multiset().count(r[i]) > 0);
        assert(sc.to_multiset().count(r[i]) > 0);
        let k = choose|k: int| 0 <= k < sc.len() && sc[k] == r[i];
    }
}

proof fn lemma_scored_match(q: Seq<Seq<char>>, texts: Seq<Seq<char>>)
    ensures
        forall|i: int| 0 <= i < scored(q, texts).len() ==> is_match(q, (#[trigger] scored(q, texts)[i]).1),
    decreases texts.len(),
{
    if texts.len() > 0 {
        lemma_scored_match(q, texts.drop_last());
        let init = scored(q, texts.drop_last());
        assert forall|i: int| 0 <= i < scored(q, texts).len() implies is_match(
            q,
            (#[trigger] scored(q, texts)[i]).1,
        ) by {
            if i < init.len() {
                assert(scored(q, texts)[i] == init[i]);
            }
        }
    }
}

// ---------------------------------------------------------------------------
// Choosing between vector and keyword hits
// ---------------------------------------------------------------------------
/// Where the memories for a prompt come from.
#[derive(Clone, Debug)]
pub enum MemorySource {
    /// The hits of the embedding similarity search.
    Vector(Vec<String>),
    /// No usable vector hits: search by keyword instead.
    Keyword,
}

/// Vector search is preferred; without an embedding, or when it found
/// nothing, keyword search takes over. Both paths are always available.
pub fn choose_memory_source(vector_hits: Option<Vec<String>>) -> (res: MemorySource)
    ensures
        vector_hits matches Some(h) ==> (h.len() > 0 ==> (res matches MemorySource::Vector(v) && v == h)),
        !(vector_hits matches Some(h) && h.len() > 0) ==> res is Keyword,
{
    match vector_hits {
        Some(h) => {
            if h.len() > 0 {
                MemorySource::Vector(h)
            } else {
                MemorySource::Keyword
            }
        },
        None => MemorySource::Keyword,
    }
}

// ---------------------------------------------------------------------------
// The system prompt
// ---------------------------------------------------------------------------
pub open spec fn prompt_head() -> Seq<char> {
    "你是 DeepSeek，由深度求索公司创造的 AI 助手。"@
}

pub open spec fn prompt_memory_intro() -> Seq<char> {
    "\n\n以下是与用户的长期记忆片段，请在回答时自然参考（不要刻意提及这些记忆的来源）：\n"@
}

/// The numbered lines `1. m\n`, `2. m\n`, ... of the memories `ms`.
pub open spec fn numbered_lines(ms: Seq<Seq<char>>) -> Seq<char>
    decreases ms.len(),
{
    if ms.len() == 0 {
        Seq::empty()
    } else {
        numbered_lines(ms.drop_last()) + crate::text::decimal(ms.len()) + ". "@ + ms.last() + "\n"@
    }
}

/// The system prompt: the assistant's introduction, followed, when there are
/// memories, by an instruction to draw on them and the memories, numbered.
pub open spec fn system_prompt(ms: Seq<Seq<char>>) -> Seq<char> {
    if ms.len() == 0 {
        prompt_head()
    } else {
        prompt_head() + prompt_memory_intro() + numbered_lines(ms)
    }
}

/// Builds the system prompt for the memories `memories` (see `system_prompt`).
pub fn build_system_prompt(memories: &Vec<String>) -> (res: String)
    ensures
        res@ == system_prompt(views(memories@)),
{
    if memories.len() == 0 {
        return owned_head();
    }
    let ghost mv = views(memories@);
    let mut out: Vec<char> = Vec::new();
    push_str(&mut out, "你是 DeepSeek，由深度求索公司创造的 AI 助手。");
    push_str(&mut out, "\n\n以下是与用户的长期记忆片段，请在回答时自然参考（不要刻意提及这些记忆的来源）：\n");
    let ghost head = out@;
    let mut i: usize = 0;
    assert(mv.take(0) =~= Seq::<Seq<char>>::empty());
    while i < memories.len()
        invariant
            mv == views(memories@),
            i <= memories.len(),
            out@ == head + numbered_lines(mv.take(i as int)),
        decreases memories.len() - i,
    {
        assert(mv.take(i + 1).drop_last() =~= mv.take(i as int));
        assert(mv.take(i + 1).last() == memories@[i as int]@);
        push_decimal(&mut out, (i + 1) as u64);
        push_str(&mut out, ". ");
        push_str(&mut out, memories[i].as_str());
        push_str(&mut out, "\n");
        i = i + 1;
        assert(out@ =~= head + numbered_lines(mv.take(i as int)));
    }
    assert(mv.take(memories.len() as int) =~= mv);
    assert(out@ =~= system_prompt(mv));
    string_from_chars(&out)
}

fn owned_head() -> (res: String)
    ensures
        res@ == prompt_head(),
{
    crate::text::owned("你是 DeepSeek，由深度求索公司创造的 AI 助手。")
}

// ---------------------------------------------------------------------------
// Memories captured in web mode
// ---------------------------------------------------------------------------
/// What a message captured in web mode adds to the memory store: its trimmed
/// text, unless that is shorter than four bytes of UTF-8 or already stored.
pub open spec fn web_memory_text(content: Seq<char>, existing: Seq<MemoryRow>) -> Option<Seq<char>> {
    let t = crate::text::trim(content);
    if vstd::utf8::encode_utf8(t).len() < 4 {
        None
    } else if exists|i: int| 0 <= i < existing.len() && (#[trigger] existing[i]).content@ == t {
        None
    } else {
        Some(t)
    }
}

/// Decides whether a message captured in web mode is stored, and as what (see
/// `web_memory_text`). `existing` is the current store; when it cannot be read
/// the caller passes an empty list and the message is stored.
pub fn web_memory_to_add(content: &str, existing: &Vec<MemoryRow>) -> (res: Option<String>)
    ensures
        res matches Some(t) ==> web_memory_text(content@, existing@) == Some(t@),
        res is None ==> web_memory_text(content@, existing@) is None,
{
    let cs = chars_of(content);
    let t = trim_chars(&cs);
    let text = string_from_chars(&t);
    if text.as_str().as_bytes().len() < 4 {
        return None;
    }
    let mut i: usize = 0;
    while i < existing.len()
        invariant
            i <= existing.len(),
            text@ == crate::text::trim(content@),
            forall|j: int| 0 <= j < i ==> (#[trigger] existing@[j]).content@ != text@,
        decreases existing.len() - i,
    {
        if existing[i].content == text {
            return None;
        }
        i = i + 1;
    }
    Some(text)
}

} // verus!

verus! {

/// Capturing the same message twice stores it once: once a text captured in
/// web mode is in the store, any message that trims to the same text adds
/// nothing.
pub proof fn lemma_web_memory_once(x: Seq<char>, y: Seq<char>, existing: Seq<MemoryRow>, later: Seq<MemoryRow>, i: int)
    requires
        web_memory_text(x, existing) is Some,
        0 <= i < later.len(),
        later[i].content@ == web_memory_text(x, existing).unwrap(),
        crate::text::trim(y) == crate::text::trim(x),
    ensures
        web_memory_text(y, later) is None,
{
    assert(later[i].content@ == crate::text::trim(y));
}

/// No bigram holds white space, whatever the text: white space is dropped
/// before the text is cut.
pub proof fn lemma_bigrams_no_white_space(s: Seq<char>)
    ensures
        forall|i: int, j: int|
            0 <= i < bigram_seq(s).len() && 0 <= j < bigram_seq(s)[i].len() ==> !crate::text::is_white_space(
                #[trigger] bigram_seq(s)[i][j],
            ),
{
    let c = gram_chars(s);
    broadcast use vstd::seq_lib::group_filter_ensures;
    assert forall|k: int| 0 <= k < c.len() implies !crate::text::is_white_space(#[trigger] c[k]) by {
        assert(keep_char()(c[k]));
    }
}

} // verus!

verus! {

// ---------------------------------------------------------------------------
// What a keyword score is
// ---------------------------------------------------------------------------
/// A score counts query bigrams: it is at most the number of query bigrams,
/// and it reaches that number exactly when every query bigram occurs in the
/// text.
pub proof fn lemma_hits_bounded(q: Seq<Seq<char>>, c: Seq<Seq<char>>)
    ensures
        hits(q, c) <= q.len(),
        hits(q, c) == q.len() <==> forall|j: int| 0 <= j < q.len() ==> c.contains(#[trigger] q[j]),
    decreases q.len(),
{
    if q.len() > 0 {
        let init = q.drop_last();
        lemma_hits_bounded(init, c);
        if hits(q, c) == q.len() {
            assert forall|j: int| 0 <= j < q.len() implies c.contains(#[trigger] q[j]) by {
                if j < q.len() - 1 {
                    assert(init[j] == q[j]);
                }
            }
        }
        if forall|j: int| 0 <= j < q.len() ==> c.contains(#[trigger] q[j]) {
            assert forall|j: int| 0 <= j < init.len() implies c.contains(#[trigger] init[j]) by {
                assert(init[j] == q[j]);
            }
            assert(c.contains(q[q.len() - 1]));
        }
    }
}

proof fn lemma_scored_scores(q: Seq<Seq<char>>, texts: Seq<Seq<char>>)
    ensures
        forall|i: int|
            0 <= i < scored(q, texts).len() ==> (#[trigger] scored(q, texts)[i]).0 == hits(
                q,
                bigram_seq(scored(q, texts)[i].1),
            ),
    decreases texts.len(),
{
    if texts.len() > 0 {
        lemma_scored_scores(q, texts.drop_last());
        let init = scored(q, texts.drop_last());
        assert forall|i: int| 0 <= i < scored(q, texts).len() implies (#[trigger] scored(q, texts)[i]).0
            == hits(q, bigram_seq(scored(q, texts)[i].1)) by {
            if i < init.len() {
                assert(scored(q, texts)[i] == init[i]);
            }
        }
    }
}

proof fn lemma_scored_has(q: Seq<Seq<char>>, texts: Seq<Seq<char>>, i: int)
    requires
        0 <= i < texts.len(),
        is_match(q, texts[i]),
    ensures
        scored(q, texts).contains((hits(q, bigram_seq(texts[i])), texts[i])),
    decreases texts.len(),
{
    let init = scored(q, texts.drop_last());
    if i == texts.len() - 1 {
        let e = (hits(q, bigram_seq(texts[i])), texts[i]);
        assert(scored(q, texts) == init.push(e));
        assert(scored(q, texts)[init.len() as int] == e);
    } else {
        assert(texts.drop_last()[i] == texts[i]);
        lemma_scored_has(q, texts.drop_last(), i);
        let k = choose|k: int| 0 <= k < init.len() && init[k] == (hits(q, bigram_seq(texts[i])), texts[i]);
        if is_match(q, texts.last()) {
            assert(scored(q, texts)[k] == init[k]);
        }
    }
}

/// A text holding every query bigram is retrieved first: when some stored text
/// contains all the bigrams of a non-empty query, the best result (for any
/// `top_k` of at least one) also contains all of them. A text's score can
/// thus never exceed that of an exact match.
pub proof fn lemma_full_match_first(q: Seq<Seq<char>>, texts: Seq<Seq<char>>, top_k: nat, i: int)
    requires
        q.len() > 0,
        top_k > 0,
        0 <= i < texts.len(),
        bigram_seq(texts[i]).len() > 0,
        forall|j: int| 0 <= j < q.len() ==> bigram_seq(texts[i]).contains(#[trigger] q[j]),
    ensures
        keyword_hits(q, texts, top_k).len() > 0,
        forall|j: int|
            0 <= j < q.len() ==> bigram_seq(keyword_hits(q, texts, top_k)[0]).contains(#[trigger] q[j]),
{
    broadcast use vstd::seq_lib::group_to_multiset_ensures;
    let t = texts[i];
    lemma_hits_bounded(q, bigram_seq(t));
    assert(is_match(q, t));
    let sc = scored(q, texts);
    lemma_scored_has(q, texts, i);
    lemma_scored_scores(q, texts);
    lemma_ranked_sorted(sc);
    let r = ranked(sc);
    let e = (hits(q, bigram_seq(t)), t);
    assert(sc.to_multiset().count(e) > 0);
    assert(r.to_multiset().count(e) > 0);
    let p = choose|p: int| 0 <= p < r.len() && r[p] == e;
    assert(r.len() > 0);
    if p > 0 {
        assert(r[0].0 >= r[p].0);
    }
    assert(r.to_multiset().count(r[0]) > 0);
    assert(sc.to_multiset().count(r[0]) > 0);
    let k = choose|k: int| 0 <= k < sc.len() && sc[k] == r[0];
    lemma_hits_bounded(q, bigram_seq(r[0].1));
    assert(r[0].0 == q.len());
    assert(keyword_hits(q, texts, top_k)[0] == r[0].1);
}

} // verus!

verus! {

/// A captured message is refused only for being short or for being exactly
/// equal to a stored memory: a trimmed text of at least four UTF-8 bytes that
/// no stored memory equals is stored as it is, even when stored memories
/// contain it or it contains them.
pub proof fn lemma_web_memory_stored_unless_equal(content: Seq<char>, existing: Seq<MemoryRow>)
    requires
        vstd::utf8::encode_utf8(crate::text::trim(content)).len() >= 4,
        forall|i: int| 0 <= i < existing.len() ==> (#[trigger] existing[i]).content@ != crate::text::trim(content),
    ensures
        web_memory_text(content, existing) == Some(crate::text::trim(content)),
{
}

/// A captured message that is stored is its trimmed text, which is neither
/// short nor equal to a stored memory.
pub proof fn lemma_web_memory_result(content: Seq<char>, existing: Seq<MemoryRow>)
    ensures
        web_memory_text(content, existing) matches Some(t) ==> t == crate::text::trim(content)
            && vstd::utf8::encode_utf8(t).len() >= 4 && forall|i: int|
            0 <= i < existing.len() ==> (#[trigger] existing[i]).content@ != t,
{
}

} // verus!
