//! Checks and small decisions of the chat panel.

use vstd::prelude::*;

use crate::gguf::reader::{lemma_filter_none, lemma_filter_single};
use crate::quant::tensor_set::{lemma_lex_connected, lemma_lex_reflexive, lemma_lex_transitive, lex_le};
use crate::runtime::{finish_label, ChatFinishReason};
use crate::text::{
    chars_of, in_trim_set, is_blank, join, join_strings, string_from_chars, trim, trim_both,
    trim_chars, words, words_of, TrimSet,
};

verus! {

/// `c` may appear in a conversation or message id.
pub open spec fn id_char(c: char) -> bool {
    ('a' <= c <= 'z') || ('A' <= c <= 'Z') || ('0' <= c <= '9') || c == '-' || c == '_'
}

/// An id of 1 to 128 ASCII letters, digits, `-` and `_`.
pub open spec fn is_valid_id(id: Seq<char>) -> bool {
    0 < id.len() <= 128 && forall|i: int| 0 <= i < id.len() ==> id_char(#[trigger] id[i])
}

/// Whether `id` is a valid conversation or message id.
pub fn valid_id(id: &str) -> (r: bool)
    ensures
        r == is_valid_id(id@),
{
    let v = chars_of(id);
    if v.len() == 0 || v.len() > 128 {
        return false;
    }
    let mut i: usize = 0;
    while i < v.len()
        invariant
            v@ == id@,
            i <= v.len(),
            forall|k: int| 0 <= k < i ==> id_char(#[trigger] v@[k]),
        decreases v.len() - i,
    {
        let c = v[i];
        let ok = ('a' <= c && c <= 'z') || ('A' <= c && c <= 'Z') || ('0' <= c && c <= '9') || c == '-'
            || c == '_';
        if !ok {
            assert(!id_char(v@[i as int]));
            return false;
        }
        i = i + 1;
    }
    true
}

/// One message of a chat request.
#[derive(Clone, Debug)]
pub struct ChatGenerationMessage {
    pub role: String,
    pub content: String,
    pub reasoning: Option<String>,
}

/// A request to continue a conversation.
#[derive(Clone, Debug)]
pub struct ChatGenerationRequest {
    pub conversation_id: String,
    pub messages: Vec<ChatGenerationMessage>,
}

/// A role chat messages may have.
pub open spec fn is_chat_role(role: Seq<char>) -> bool {
    role == "system"@ || role == "user"@ || role == "assistant"@
}

/// Why a chat request is refused, if it is.
pub open spec fn request_problem(request: ChatGenerationRequest) -> Option<Seq<char>> {
    let m = request.messages@;
    if !is_valid_id(request.conversation_id@) {
        Some("Chat conversation id is invalid."@)
    } else if m.len() == 0 || trim(m.last().content@).len() == 0 {
        Some("Chat message cannot be empty."@)
    } else if exists|i: int| 0 <= i < m.len() && !is_chat_role(#[trigger] m[i].role@) {
        Some("Chat messages use an unsupported role."@)
    } else {
        None
    }
}

/// Whether `role` is a role chat messages may have.
fn chat_role(role: &str) -> (r: bool)
    ensures
        r == is_chat_role(role@),
{
    crate::text::str_eq(role, "system") || crate::text::str_eq(role, "user") || crate::text::str_eq(
        role,
        "assistant",
    )
}

/// Accepts a request with a valid conversation id, a non-blank last
/// message and only system, user and assistant roles.
pub fn validate_generation_request(request: &ChatGenerationRequest) -> (r: Result<(), String>)
    ensures
        match request_problem(*request) {
            Some(p) => r matches Err(m) && m@ == p,
            None => r is Ok,
        },
{
    if !valid_id(request.conversation_id.as_str()) {
        return Err(String::from_str("Chat conversation id is invalid."));
    }
    let n = request.messages.len();
    if n == 0 || is_blank(request.messages[n - 1].content.as_str()) {
        return Err(String::from_str("Chat message cannot be empty."));
    }
    let mut i: usize = 0;
    while i < n
        invariant
            n == request.messages@.len(),
            n > 0,
            is_valid_id(request.conversation_id@),
            trim(request.messages@.last().content@).len() > 0,
            i <= n,
            forall|k: int| 0 <= k < i ==> is_chat_role(#[trigger] request.messages@[k].role@),
        decreases n - i,
    {
        if !chat_role(request.messages[i].role.as_str()) {
            assert(!is_chat_role(request.messages@[i as int].role@));
            return Err(String::from_str("Chat messages use an unsupported role."));
        }
        i = i + 1;
    }
    Ok(())
}

/// The kind tag stored conversations carry.
pub open spec fn chat_kind() -> Seq<char> {
    "model-quant-chat"@
}

/// Accepts a stored conversation of this app's kind and version 1, with a
/// valid id, a non-blank title and at least one message.
pub fn validate_conversation(kind: &str, version: u32, id: &str, title: &str, message_count: usize) -> (r:
    Result<(), String>)
    ensures
        !(kind@ == chat_kind() && version == 1 && is_valid_id(id@)) ==> (r matches Err(m) && m@
            == "Chat conversation is invalid."@),
        (kind@ == chat_kind() && version == 1 && is_valid_id(id@)) && (trim(title@).len() == 0
            || message_count == 0) ==> (r matches Err(m) && m@ == "Chat conversation is incomplete."@),
        r is Ok <==> (kind@ == chat_kind() && version == 1 && is_valid_id(id@) && trim(title@).len()
            > 0 && message_count > 0),
{
    if !crate::text::str_eq(kind, "model-quant-chat") || version != 1 || !valid_id(id) {
        return Err(String::from_str("Chat conversation is invalid."));
    }
    if is_blank(title) || message_count == 0 {
        return Err(String::from_str("Chat conversation is incomplete."));
    }
    Ok(())
}

/// The file name a conversation is stored under.
pub fn conversation_file_name(id: &str) -> (r: Result<String, String>)
    ensures
        is_valid_id(id@) ==> (r matches Ok(n) && n@ == "model-quant-"@ + id@ + ".conversation.json"@),
        !is_valid_id(id@) ==> (r matches Err(m) && m@ == "Chat conversation id is invalid."@),
{
    if !valid_id(id) {
        return Err(String::from_str("Chat conversation id is invalid."));
    }
    let mut n = String::from_str("model-quant-");
    n.append(id);
    n.append(".conversation.json");
    Ok(n)
}

/// The label of a finish reason in chat responses.
pub fn finish_reason(reason: ChatFinishReason) -> (r: &'static str)
    ensures
        r@ == finish_label(reason),
{
    match reason {
        ChatFinishReason::Length => "length",
        ChatFinishReason::Stop | ChatFinishReason::Eos => "stop",
    }
}

/// The model name shown for a model file, given the file name std's
/// `Path::file_name` found in its path (if any, and if it is UTF-8).
pub fn model_name(file_name: Option<String>) -> (r: String)
    ensures
        match file_name {
            Some(n) => if n@.len() > 0 {
                r@ == n@
            } else {
                r@ == "local model"@
            },
            None => r@ == "local model"@,
        },
{
    match file_name {
        Some(n) => {
            if !n.as_str().is_empty() {
                n
            } else {
                String::from_str("local model")
            }
        },
        None => String::from_str("local model"),
    }
}

/// A generated title tidied up: white-space runs collapsed to single
/// spaces, quotes, backticks, dots and colons stripped from both ends, and
/// at most 80 characters kept.
pub open spec fn tidy_title(title: Seq<char>) -> Seq<char> {
    let t = trim_both(TrimSet::TitlePunctuation, join(words(title), " "@));
    if t.len() <= 80 {
        t
    } else {
        t.take(80)
    }
}

/// Tidies a generated conversation title.
pub fn normalise_title(title: &str) -> (r: String)
    ensures
        r@ == tidy_title(title@),
{
    let w = words_of(title);
    let collapsed = join_strings(&w, " ");
    let v = chars_of(collapsed.as_str());
    let t = trim_chars(TrimSet::TitlePunctuation, &v);
    if t.len() <= 80 {
        string_from_chars(&t)
    } else {
        crate::text::string_from_range(&t, 0, 80)
    }
}

/// What loading a model for chat reports.
#[derive(Clone, Debug)]
pub struct ChatModelLoadStatus {
    pub model: String,
}

/// One line of the conversation list.
#[derive(Clone, Debug)]
pub struct ChatConversationSummary {
    pub id: String,
    pub title: String,
    pub updated_at: String,
}

/// Summaries newest first: later `updated_at` strings (as std orders
/// strings) before earlier ones.
pub open spec fn newest_first(s: Seq<ChatConversationSummary>) -> bool {
    forall|i: int, j: int| 0 <= i < j < s.len() ==> lex_le(s[j].updated_at@, s[i].updated_at@)
}

/// Selects the summaries updated at `k`.
pub open spec fn updated_at_is(k: Seq<char>) -> spec_fn(ChatConversationSummary) -> bool {
    |c: ChatConversationSummary| c.updated_at@ == k
}

/// `out` is `input` stably sorted newest first: summaries with the same
/// `updated_at` keep their order.
pub open spec fn is_newest_first_listing(input: Seq<ChatConversationSummary>, out: Seq<ChatConversationSummary>) -> bool {
    &&& out.len() == input.len()
    &&& newest_first(out)
    &&& forall|k: Seq<char>| #[trigger] out.filter(updated_at_is(k)) == input.filter(updated_at_is(k))
}

/// Sorts conversation summaries newest first, keeping the order of
/// summaries updated at the same time.
pub fn sort_newest_first(summaries: Vec<ChatConversationSummary>) -> (r: Vec<ChatConversationSummary>)
    ensures
        is_newest_first_listing(summaries@, r@),
{
    let ghost input = summaries@;
    assert(input.len() == summaries.len());
    let mut rest = summaries;
    let mut out: Vec<ChatConversationSummary> = Vec::new();
    let mut done: usize = 0;
    proof {
        reveal(Seq::filter);
    }
    assert(input.take(0) =~= Seq::<ChatConversationSummary>::empty());
    assert forall|k: Seq<char>| #[trigger] out@.filter(updated_at_is(k)) == input.take(0).filter(
        updated_at_is(k),
    ) by {
        assert(out@ =~= Seq::<ChatConversationSummary>::empty());
    }
    while rest.len() > 0
        invariant
            input.len() <= usize::MAX,
            done + rest@.len() == input.len(),
            rest@ == input.skip(done as int),
            out@.len() == done,
            newest_first(out@),
            forall|k: Seq<char>| #[trigger] out@.filter(updated_at_is(k)) == input.take(done as int).filter(
                updated_at_is(k),
            ),
        decreases rest.len(),
    {
        let x = rest.remove(0);
        assert(x == input[done as int]);
        assert(rest@ =~= input.skip(done + 1));
        let mut p: usize = 0;
        while p < out.len() && crate::quant::tensor_set::lex_le_str(x.updated_at.as_str(), out[p].updated_at.as_str())
            invariant
                p <= out.len(),
                forall|m: int| 0 <= m < p ==> lex_le(x.updated_at@, #[trigger] out@[m].updated_at@),
            decreases out.len() - p,
        {
            p = p + 1;
        }
        let ghost g = out@;
        let ghost key = x.updated_at@;
        proof {
            if p < g.len() {
                lemma_lex_connected(key, g[p as int].updated_at@);
                if g[p as int].updated_at@ == key {
                    lemma_lex_reflexive(key);
                }
                assert forall|m: int| p <= m < g.len() implies lex_le(#[trigger] g[m].updated_at@, key)
                    && g[m].updated_at@ != key by {
                    if m > p {
                        lemma_lex_transitive(g[m].updated_at@, g[p as int].updated_at@, key);
                        if g[m].updated_at@ == key {
                            assert(lex_le(key, g[p as int].updated_at@));
                        }
                    }
                }
            }
        }
        out.insert(p, x);
        proof {
            let g2 = out@;
            assert(g2 =~= g.take(p as int) + seq![x] + g.skip(p as int));
            assert(g =~= g.take(p as int) + g.skip(p as int));
            assert(input.take(done + 1) =~= input.take(done as int).push(x));
            assert forall|a: int, b: int| 0 <= a < b < g2.len() implies lex_le(
                g2[b].updated_at@,
                g2[a].updated_at@,
            ) by {
                if b < p {
                    assert(g2[a] == g[a] && g2[b] == g[b]);
                } else if b == p {
                    assert(g2[a] == g[a]);
                } else if a < p {
                    assert(g2[a] == g[a] && g2[b] == g[b - 1]);
                } else if a == p {
                    assert(g2[b] == g[b - 1]);
                } else {
                    assert(g2[a] == g[a - 1] && g2[b] == g[b - 1]);
                }
            }
            assert forall|k: Seq<char>| #[trigger] g2.filter(updated_at_is(k)) == input.take(done + 1).filter(
                updated_at_is(k),
            ) by {
                let pred = updated_at_is(k);
                Seq::filter_distributes_over_add(g.take(p as int) + seq![x], g.skip(p as int), pred);
                Seq::filter_distributes_over_add(g.take(p as int), seq![x], pred);
                Seq::filter_distributes_over_add(g.take(p as int), g.skip(p as int), pred);
                lemma_filter_single(x, pred);
                input.take(done as int).lemma_filter_push(x, pred);
                assert(g.filter(pred) == input.take(done as int).filter(pred));
                if k == key {
                    assert forall|m: int| 0 <= m < g.skip(p as int).len() implies !pred(
                        #[trigger] g.skip(p as int)[m],
                    ) by {
                        assert(g.skip(p as int)[m] == g[p + m]);
                    }
                    lemma_filter_none(g.skip(p as int), pred);
                    assert(g.skip(p as int).filter(pred) =~= Seq::<ChatConversationSummary>::empty());
                    assert(g.take(p as int).filter(pred) + g.skip(p as int).filter(pred) =~= g.take(
                        p as int,
                    ).filter(pred));
                } else {
                    assert(seq![x].filter(pred) =~= Seq::<ChatConversationSummary>::empty());
                    assert(g.take(p as int).filter(pred) + Seq::<ChatConversationSummary>::empty()
                        =~= g.take(p as int).filter(pred));
                }
            }
        }
        done = done + 1;
    }
    assert(input.take(input.len() as int) == input);
    out
}

/// Whether a stored conversation is one of this app's and the one asked for.
pub fn check_loaded_conversation(kind: &str, id: &str, requested_id: &str) -> (r: Result<(), String>)
    ensures
        r is Ok <==> (kind@ == chat_kind() && id@ == requested_id@),
        r matches Err(m) ==> m@ == "Chat conversation file is not valid."@,
{
    if !crate::text::str_eq(kind, "model-quant-chat") || !crate::text::str_eq(id, requested_id) {
        return Err(String::from_str("Chat conversation file is not valid."));
    }
    Ok(())
}

/// The title prompt appended to a conversation when asking for its title.
pub open spec fn title_prompt() -> Seq<char> {
    "Give this conversation a concise title of at most six words. Return only the title."@
}

/// The request that asks for a conversation's title: the conversation with
/// a final user message asking for a short title.
pub fn title_request(request: ChatGenerationRequest) -> (r: ChatGenerationRequest)
    ensures
        r.conversation_id == request.conversation_id,
        r.messages@.len() == request.messages@.len() + 1,
        r.messages@.take(request.messages@.len() as int) == request.messages@,
        r.messages@.last().role@ == "user"@,
        r.messages@.last().content@ == title_prompt(),
        r.messages@.last().reasoning is None,
{
    let mut messages = request.messages;
    let ghost before = messages@;
    messages.push(ChatGenerationMessage {
        role: String::from_str("user"),
        content: String::from_str(
            "Give this conversation a concise title of at most six words. Return only the title.",
        ),
        reasoning: None,
    });
    assert(messages@.take(before.len() as int) =~= before);
    ChatGenerationRequest { conversation_id: request.conversation_id, messages }
}

/// The summaries of the stored conversations that are this app's, in the
/// order found; each entry is a conversation's kind and summary.
pub open spec fn chat_summaries(found: Seq<(String, ChatConversationSummary)>) -> Seq<ChatConversationSummary>
    decreases found.len(),
{
    if found.len() == 0 {
        seq![]
    } else if found.last().0@ == chat_kind() {
        chat_summaries(found.drop_last()).push(found.last().1)
    } else {
        chat_summaries(found.drop_last())
    }
}

/// The conversation list: the conversations of this app's kind, newest
/// first.
pub fn conversation_listing(found: Vec<(String, ChatConversationSummary)>) -> (r: Vec<ChatConversationSummary>)
    ensures
        is_newest_first_listing(chat_summaries(found@), r@),
{
    let ghost all = found@;
    assert(all.len() == found.len());
    let mut kept: Vec<ChatConversationSummary> = Vec::new();
    let mut rest = found;
    let mut done: usize = 0;
    assert(all.take(0) =~= Seq::<(String, ChatConversationSummary)>::empty());
    while rest.len() > 0
        invariant
            all.len() <= usize::MAX,
            done + rest@.len() == all.len(),
            rest@ == all.skip(done as int),
            kept@ == chat_summaries(all.take(done as int)),
        decreases rest.len(),
    {
        let (kind, summary) = rest.remove(0);
        assert((kind, summary) == all[done as int]);
        assert(rest@ =~= all.skip(done + 1));
        assert(all.take(done + 1).drop_last() == all.take(done as int));
        assert(all.take(done + 1).last() == all[done as int]);
        if crate::text::str_eq(kind.as_str(), "model-quant-chat") {
            kept.push(summary);
        }
        done = done + 1;
    }
    assert(all.take(all.len() as int) == all);
    sort_newest_first(kept)
}

} // verus!
