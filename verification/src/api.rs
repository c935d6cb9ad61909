//! The Model Inspector API: an OpenAI-compatible HTTP endpoint served from
//! the loaded model. This module holds its request parsing, routing,
//! message handling, diagnostics and server life cycle.

use vstd::prelude::*;

use crate::runtime::{finish_label, ChatFinishReason};
use crate::text::{
    decimal, push_decimal, string_from_chars, append_chars, str_eq, str_starts_with, starts_with_seq,
    ascii_lower, chars_of, eq_ignore_ascii_case, find_chars, first_pos, lines, lines_of, lossy_text,
    occurs_at, parse_usize_range, parsed_integer, string_from_range, trim, trim_chars, utf8_lossy,
    words, words_of, TrimSet, contains_seq, string_views,
};

verus! {

// ---------------------------------------------------------------------------
// Reading requests
// ---------------------------------------------------------------------------

/// The blank line `\r\n\r\n` that ends HTTP headers starts at `i`.
pub open spec fn blank_line_at(b: Seq<u8>, i: int) -> bool {
    0 <= i && i + 4 <= b.len() && b[i] == 13 && b[i + 1] == 10 && b[i + 2] == 13 && b[i + 3] == 10
}

/// Where the first blank line of `b` starts, if it has one.
pub open spec fn header_terminator(b: Seq<u8>) -> Option<int> {
    if exists|i: int| blank_line_at(b, i) {
        Some(choose|i: int| blank_line_at(b, i) && forall|j: int| 0 <= j < i ==> !blank_line_at(b, j))
    } else {
        None
    }
}

/// Where the headers of a buffered request end.
pub fn find_header_end(buffer: &[u8]) -> (r: Option<usize>)
    ensures
        match r {
            Some(i) => blank_line_at(buffer@, i as int) && forall|j: int|
                0 <= j < i ==> !blank_line_at(buffer@, j),
            None => forall|j: int| !blank_line_at(buffer@, j),
        },
{
    if buffer.len() < 4 {
        return None;
    }
    let last = buffer.len() - 4;
    let mut i: usize = 0;
    loop
        invariant
            last + 4 == buffer@.len(),
            i <= last,
            forall|j: int| 0 <= j < i ==> !blank_line_at(buffer@, j),
        decreases last - i,
    {
        if buffer[i] == 13 && buffer[i + 1] == 10 && buffer[i + 2] == 13 && buffer[i + 3] == 10 {
            return Some(i);
        }
        if i == last {
            return None;
        }
        i = i + 1;
    }
}

/// A header line split at its first colon into name and value.
pub open spec fn split_header(line: Seq<char>) -> Option<(Seq<char>, Seq<char>)> {
    let c = first_pos(line, ':');
    if 0 <= c < line.len() {
        Some((line.take(c), line.skip(c + 1)))
    } else {
        None
    }
}

/// The body length a header line declares, if it is a readable
/// `Content-Length` header.
pub open spec fn declared_length(line: Seq<char>) -> Option<nat> {
    match split_header(line) {
        Some((name, value)) => if ascii_lower(name) == ascii_lower("content-length"@) {
            match parsed_integer(trim(value), false) {
                Some(x) => if 0 <= x <= usize::MAX {
                    Some(x as nat)
                } else {
                    None
                },
                None => None,
            }
        } else {
            None
        },
        None => None,
    }
}

/// The body length the first readable `Content-Length` line declares;
/// zero where none does.
pub open spec fn content_length(ls: Seq<Seq<char>>) -> nat
    decreases ls.len(),
{
    if ls.len() == 0 {
        0
    } else {
        match declared_length(ls[0]) {
            Some(n) => n,
            None => content_length(ls.drop_first()),
        }
    }
}

/// Whether the buffered bytes hold a whole request: the headers and as
/// many body bytes as they declare.
pub open spec fn request_is_complete(b: Seq<u8>) -> bool {
    match header_terminator(b) {
        Some(h) => b.len() >= h + 4 + content_length(lines(utf8_lossy(b.take(h)))),
        None => false,
    }
}

/// Splits a header line at its first colon.
fn split_header_line(line: &str) -> (r: Option<(String, String)>)
    ensures
        match split_header(line@) {
            Some((n, v)) => r matches Some(p) && p.0@ == n && p.1@ == v,
            None => r is None,
        },
{
    let v = chars_of(line);
    let mut c: usize = 0;
    while c < v.len() && v[c] != ':'
        invariant
            v@ == line@,
            c <= v.len(),
            forall|m: int| 0 <= m < c ==> v@[m] != ':',
        decreases v.len() - c,
    {
        c = c + 1;
    }
    proof {
        crate::text::lemma_first_pos_exact(v@, ':', c as int);
    }
    if c == v.len() {
        return None;
    }
    let name = string_from_range(&v, 0, c);
    let value = string_from_range(&v, c + 1, v.len());
    assert(v@.take(c as int) == v@.subrange(0, c as int));
    assert(v@.skip(c + 1) == v@.subrange(c + 1, v@.len() as int));
    Some((name, value))
}

/// The body length a header line declares, as `declared_length` says.
fn line_content_length(line: &str) -> (r: Option<usize>)
    ensures
        match declared_length(line@) {
            Some(n) => r == Some(n as usize),
            None => r is None,
        },
{
    match split_header_line(line) {
        None => None,
        Some((name, value)) => {
            if !eq_ignore_ascii_case(name.as_str(), "content-length") {
                return None;
            }
            let vv = chars_of(value.as_str());
            let t = trim_chars(TrimSet::Whitespace, &vv);
            let r = parse_usize_range(&t, 0, t.len());
            assert(t@.subrange(0, t@.len() as int) == t@);
            r
        },
    }
}

/// The body length that request headers declare: that of the first
/// readable `Content-Length` line, or zero where none is.
pub fn header_content_length(headers: &str) -> (r: usize)
    ensures
        r as nat == content_length(lines(headers@)),
{
    let ls = lines_of(headers);
    let ghost views = ls@.map_values(|l: String| l@);
    let mut length: usize = 0;
    let mut i: usize = 0;
    let mut found = false;
    assert(views.skip(0) == views);
    while i < ls.len() && !found
        invariant
            i <= ls.len(),
            views == ls@.map_values(|l: String| l@),
            !found ==> content_length(views.skip(i as int)) == content_length(views),
            !found ==> length == 0,
            found ==> length == content_length(views),
        decreases ls.len() - i,
    {
        let ghost rest = views.skip(i as int);
        assert(rest[0] == ls@[i as int]@);
        assert(rest.drop_first() == views.skip(i + 1));
        match line_content_length(ls[i].as_str()) {
            Some(n) => {
                length = n;
                found = true;
            },
            None => {},
        }
        i = i + 1;
    }
    if !found {
        assert(views.skip(i as int).len() == 0);
        assert(content_length(views.skip(i as int)) == 0);
    }
    length
}

/// Whether the buffered bytes hold a whole request.
pub fn request_complete(buffer: &[u8]) -> (r: bool)
    ensures
        r == request_is_complete(buffer@),
{
    let h = match find_header_end(buffer) {
        Some(h) => h,
        None => {
            proof {
                assert(header_terminator(buffer@) is None);
            }
            return false;
        },
    };
    proof {
        let w = choose|i: int| blank_line_at(buffer@, i) && forall|j: int| 0 <= j < i ==> !blank_line_at(buffer@, j);
        assert(blank_line_at(buffer@, h as int));
        if w < h {
        } else if w > h {
            assert(!blank_line_at(buffer@, h as int));
        }
        assert(header_terminator(buffer@) == Some(h as int));
    }
    let headers = lossy_text(buffer, 0, h);
    assert(buffer@.subrange(0, h as int) == buffer@.take(h as int));
    let length = header_content_length(headers.as_str());
    let total = buffer.len() as u128;
    total >= h as u128 + 4 + length as u128
}

/// The first position of `needle` in `hay`, if it occurs.
#[verifier::opaque]
pub open spec fn first_occurrence(hay: Seq<char>, needle: Seq<char>) -> Option<int> {
    if contains_seq(hay, needle) {
        Some(choose|i: int| occurs_at(hay, needle, i) && forall|j: int| 0 <= j < i ==> !occurs_at(hay, needle, j))
    } else {
        None
    }
}

/// The first position of `needle` in `hay`, as `first_occurrence` gives it.
fn first_index_of(hay: &Vec<char>, needle: &Vec<char>) -> (r: Option<usize>)
    ensures
        r matches Some(i) ==> first_occurrence(hay@, needle@) == Some(i as int) && i <= hay@.len()
            && occurs_at(hay@, needle@, i as int),
        r is None ==> first_occurrence(hay@, needle@) is None,
{
    proof {
        reveal(first_occurrence);
    }
    match find_chars(hay, needle) {
        Some(p) => {
            proof {
                assert(contains_seq(hay@, needle@));
                let w = choose|k: int|
                    occurs_at(hay@, needle@, k) && forall|j: int| 0 <= j < k ==> !occurs_at(hay@, needle@, j);
                if w < p {
                } else if w > p {
                }
                assert(first_occurrence(hay@, needle@) == Some(p as int));
            }
            Some(p)
        },
        None => None,
    }
}

/// The value of the last `Authorization` header among `ls`, trimmed.
pub open spec fn authorization_in(ls: Seq<Seq<char>>) -> Option<Seq<char>>
    decreases ls.len(),
{
    if ls.len() == 0 {
        None
    } else {
        match split_header(ls.last()) {
            Some((name, value)) => if ascii_lower(name) == ascii_lower("authorization"@) {
                Some(trim(value))
            } else {
                authorization_in(ls.drop_last())
            },
            None => authorization_in(ls.drop_last()),
        }
    }
}

/// A request as the API reads it.
#[derive(Clone, Debug)]
pub struct HttpRequest {
    pub method: String,
    pub path: String,
    pub authorization: Option<String>,
    pub body: String,
}

/// What parsing the text of a request yields: method, path, authorization
/// and body, or the reason it is malformed.
pub open spec fn parsed_request(raw: Seq<char>) -> Result<
    (Seq<char>, Seq<char>, Option<Seq<char>>, Seq<char>),
    Seq<char>,
> {
    match first_occurrence(raw, "\r\n\r\n"@) {
        None => Err("Malformed HTTP request: missing header terminator"@),
        Some(t) => {
            let ls = lines(raw.take(t));
            if ls.len() == 0 {
                Err("Malformed HTTP request: missing request line"@)
            } else {
                let ws = words(ls[0]);
                if ws.len() == 0 {
                    Err("Malformed HTTP request: missing method"@)
                } else if ws.len() == 1 {
                    Err("Malformed HTTP request: missing path"@)
                } else {
                    Ok((ws[0], ws[1], authorization_in(ls.drop_first()), raw.skip(t + 4)))
                }
            }
        },
    }
}

/// The value of an `Authorization` header line, if it is one.
fn authorization_value(line: &str) -> (r: Option<String>)
    ensures
        match split_header(line@) {
            Some((name, value)) => if ascii_lower(name) == ascii_lower("authorization"@) {
                r matches Some(v) && v@ == trim(value)
            } else {
                r is None
            },
            None => r is None,
        },
{
    match split_header_line(line) {
        None => None,
        Some((name, value)) => {
            if eq_ignore_ascii_case(name.as_str(), "authorization") {
                Some(crate::text::trim_str(value.as_str()))
            } else {
                None
            }
        },
    }
}

/// Reads the method, path, `Authorization` header and body of a request.
pub fn parse_request(raw: &str) -> (r: Result<HttpRequest, String>)
    ensures
        match parsed_request(raw@) {
            Ok((method, path, auth, body)) => r matches Ok(req) && req.method@ == method && req.path@
                == path && req.body@ == body && match auth {
                Some(a) => req.authorization matches Some(x) && x@ == a,
                None => req.authorization is None,
            },
            Err(e) => r matches Err(m) && m@ == e,
        },
{
    let v = chars_of(raw);
    let term = chars_of("\r\n\r\n");
    proof {
        reveal_strlit("\r\n\r\n");
    }
    assert(term@.len() == 4);
    let t = match first_index_of(&v, &term) {
        Some(t) => t,
        None => {
            return Err(String::from_str("Malformed HTTP request: missing header terminator"));
        },
    };
    let head = string_from_range(&v, 0, t);
    let body = string_from_range(&v, t + 4, v.len());
    assert(v@.subrange(0, t as int) == raw@.take(t as int));
    assert(v@.subrange(t + 4, v@.len() as int) == raw@.skip(t + 4));
    let ls = lines_of(head.as_str());
    let ghost views = ls@.map_values(|l: String| l@);
    if ls.len() == 0 {
        return Err(String::from_str("Malformed HTTP request: missing request line"));
    }
    let ws = words_of(ls[0].as_str());
    assert(views[0] == ls@[0]@);
    if ws.len() == 0 {
        return Err(String::from_str("Malformed HTTP request: missing method"));
    }
    if ws.len() == 1 {
        return Err(String::from_str("Malformed HTTP request: missing path"));
    }
    let ghost wv = ws@.map_values(|w: String| w@);
    assert(wv[0] == ws@[0]@ && wv[1] == ws@[1]@);
    let method = ws[0].clone();
    let path = ws[1].clone();
    let mut authorization: Option<String> = None;
    let mut i: usize = 1;
    assert(views.subrange(1, 1) =~= Seq::<Seq<char>>::empty());
    while i < ls.len()
        invariant
            1 <= i <= ls.len(),
            views == ls@.map_values(|l: String| l@),
            match authorization_in(views.subrange(1, i as int)) {
                Some(a) => authorization matches Some(x) && x@ == a,
                None => authorization is None,
            },
        decreases ls.len() - i,
    {
        let ghost prefix = views.subrange(1, i + 1);
        assert(prefix.drop_last() == views.subrange(1, i as int));
        assert(prefix.last() == ls@[i as int]@);
        match authorization_value(ls[i].as_str()) {
            Some(a) => {
                authorization = Some(a);
            },
            None => {},
        }
        i = i + 1;
    }
    assert(views.subrange(1, ls@.len() as int) == views.drop_first());
    Ok(HttpRequest { method, path, authorization, body })
}

/// Whether the request is for the one route served without a token.
pub open spec fn public_route(method: Seq<char>, path: Seq<char>) -> bool {
    method == "GET"@ && path == "/v1/models"@
}

/// Whether the request may be served without a token.
pub fn is_public_route(request: &HttpRequest) -> (r: bool)
    ensures
        r == public_route(request.method@, request.path@),
{
    crate::text::str_eq(request.method.as_str(), "GET") && crate::text::str_eq(request.path.as_str(), "/v1/models")
}

/// Whether the request carries `Bearer <token>`.
pub open spec fn carries_token(request: HttpRequest, token: Seq<char>) -> bool {
    request.authorization matches Some(a) && a@ == "Bearer "@ + token
}

/// Whether the request carries the API token.
pub fn authorized(request: &HttpRequest, token: &str) -> (r: bool)
    ensures
        r == carries_token(*request, token@),
{
    match &request.authorization {
        None => false,
        Some(a) => {
            let mut expected = String::from_str("Bearer ");
            expected.append(token);
            crate::text::str_eq(a.as_str(), expected.as_str())
        },
    }
}

/// How the API answers a request.
#[derive(PartialEq, Eq, Structural, Clone, Copy, Debug)]
pub enum ApiRoute {
    /// A CORS preflight: `204 No Content`.
    Preflight,
    /// No valid token on a protected route: `401`.
    Unauthorized,
    /// The model list.
    Models,
    /// A chat completion answered at once.
    ChatCompletions,
    /// A chat completion streamed as server-sent events.
    ChatCompletionsStream,
    /// Any other route: `404`.
    NotFound,
}

/// How the API answers a request; `wants_stream` is whether its body asks
/// for a streamed completion.
pub open spec fn route_of(request: HttpRequest, token: Seq<char>, wants_stream: bool) -> ApiRoute {
    let m = request.method@;
    let p = request.path@;
    if m == "OPTIONS"@ {
        ApiRoute::Preflight
    } else if !public_route(m, p) && !carries_token(request, token) {
        ApiRoute::Unauthorized
    } else if m == "POST"@ && p == "/v1/chat/completions"@ && wants_stream {
        ApiRoute::ChatCompletionsStream
    } else if public_route(m, p) {
        ApiRoute::Models
    } else if m == "POST"@ && p == "/v1/chat/completions"@ {
        ApiRoute::ChatCompletions
    } else {
        ApiRoute::NotFound
    }
}

/// Decides how the API answers a request.
pub fn route_request(request: &HttpRequest, token: &str, wants_stream: bool) -> (r: ApiRoute)
    ensures
        r == route_of(*request, token@, wants_stream),
{
    let is_options = crate::text::str_eq(request.method.as_str(), "OPTIONS");
    if is_options {
        return ApiRoute::Preflight;
    }
    let public = is_public_route(request);
    if !public && !authorized(request, token) {
        return ApiRoute::Unauthorized;
    }
    let chat = crate::text::str_eq(request.method.as_str(), "POST") && crate::text::str_eq(
        request.path.as_str(),
        "/v1/chat/completions",
    );
    if chat && wants_stream {
        ApiRoute::ChatCompletionsStream
    } else if public {
        ApiRoute::Models
    } else if chat {
        ApiRoute::ChatCompletions
    } else {
        ApiRoute::NotFound
    }
}

// ---------------------------------------------------------------------------
// Completion diagnostics
// ---------------------------------------------------------------------------

/// ` count/total`, or ` count` when the total is unknown.
pub open spec fn progress_suffix(count: u64, total: Option<u64>) -> Seq<char> {
    match total {
        Some(t) => " "@ + decimal(count as nat) + "/"@ + decimal(t as nat),
        None => " "@ + decimal(count as nat),
    }
}

/// The progress suffix of a request count.
fn progress_text(count: u64, total: Option<u64>) -> (r: String)
    ensures
        r@ == progress_suffix(count, total),
{
    let mut r = String::from_str(" ");
    push_decimal(&mut r, count);
    match total {
        Some(t) => {
            r.append("/");
            push_decimal(&mut r, t);
        },
        None => {},
    }
    r
}

/// The output lines for one streamed delta: reasoning first, then visible
/// text, each only when non-empty.
pub open spec fn delta_outputs(
    label: Seq<char>,
    count: u64,
    total: Option<u64>,
    visible: Seq<char>,
    reasoning: Seq<char>,
) -> Seq<Seq<char>> {
    let head = label + ": chat completion request"@ + progress_suffix(count, total);
    let r = if reasoning.len() > 0 {
        seq![head + " reasoning delta\n"@ + reasoning]
    } else {
        seq![]
    };
    if visible.len() > 0 {
        r.push(head + " visible delta\n"@ + visible)
    } else {
        r
    }
}

/// The output lines for one streamed delta.
pub fn streaming_completion_delta_outputs(
    label: &str,
    count: u64,
    total: Option<u64>,
    visible_delta: &str,
    reasoning_delta: &str,
) -> (r: Vec<String>)
    ensures
        r@.map_values(|s: String| s@) == delta_outputs(label@, count, total, visible_delta@, reasoning_delta@),
{
    let progress = progress_text(count, total);
    let mut out: Vec<String> = Vec::new();
    if !reasoning_delta.is_empty() {
        let mut m = String::from_str(label);
        m.append(": chat completion request");
        m.append(progress.as_str());
        m.append(" reasoning delta\n");
        m.append(reasoning_delta);
        out.push(m);
    }
    if !visible_delta.is_empty() {
        let mut m = String::from_str(label);
        m.append(": chat completion request");
        m.append(progress.as_str());
        m.append(" visible delta\n");
        m.append(visible_delta);
        let ghost before = out@;
        out.push(m);
        assert(out@ == before.push(m));
    }
    assert(out@.map_values(|s: String| s@) =~= delta_outputs(label@, count, total, visible_delta@, reasoning_delta@));
    out
}

/// The characters shown of a long output: all of them up to 4096, else the
/// first and last 2048 around a truncation mark.
pub open spec fn excerpt(text: Seq<char>) -> Seq<char> {
    if text.len() <= 4096 {
        text
    } else {
        text.take(2048) + "\n[... truncated ...]\n"@ + text.skip(text.len() - 2048)
    }
}

/// The characters shown of a long output.
pub fn diagnostic_excerpt(text: &str) -> (r: String)
    ensures
        r@ == excerpt(text@),
{
    let v = chars_of(text);
    if v.len() <= 4096 {
        return String::from_str(text);
    }
    let mut r = string_from_range(&v, 0, 2048);
    r.append("\n[... truncated ...]\n");
    let tail = string_from_range(&v, v.len() - 2048, v.len());
    r.append(tail.as_str());
    assert(v@.subrange(0, 2048) == text@.take(2048));
    assert(v@.subrange(v@.len() - 2048, v@.len() as int) == text@.skip(text@.len() - 2048));
    r
}

/// What is reported of a finished completion.
#[derive(Clone, Debug)]
pub struct ChatCompletionDiagnostics {
    pub model: String,
    pub finish_reason: String,
    pub prompt_tokens: u32,
    pub completion_tokens: u32,
    pub total_tokens: u32,
    pub visible_content: String,
    pub reasoning_content: Option<String>,
}

/// The report of a finished completion: a summary line, then the reasoning
/// and the visible output with their lengths, reasoning first.
pub open spec fn completion_report(label: Seq<char>, count: u64, total: Option<u64>, d: ChatCompletionDiagnostics) -> Seq<char> {
    let reasoning = match d.reasoning_content {
        Some(r) => r@,
        None => seq![],
    };
    label + ": chat completion request"@ + progress_suffix(count, total) + " completed model="@
        + d.model@ + " finish="@ + d.finish_reason@ + " prompt_tokens="@ + decimal(
        d.prompt_tokens as nat,
    ) + " completion_tokens="@ + decimal(d.completion_tokens as nat) + " total_tokens="@ + decimal(
        d.total_tokens as nat,
    ) + "\n"@ + label + ": reasoning output ("@ + decimal(reasoning.len()) + " chars)\n"@ + excerpt(
        reasoning,
    ) + "\n"@ + label + ": visible output ("@ + decimal(d.visible_content@.len()) + " chars)\n"@
        + excerpt(d.visible_content@)
}

/// The report of a finished completion for the API output panel.
pub fn benchmark_completion_output(
    label: &str,
    count: u64,
    total: Option<u64>,
    diagnostics: &ChatCompletionDiagnostics,
) -> (r: String)
    ensures
        r@ == completion_report(label@, count, total, *diagnostics),
{
    let reasoning = match &diagnostics.reasoning_content {
        Some(x) => x.as_str(),
        None => "",
    };
    proof {
        reveal_strlit("");
    }
    let mut m = String::from_str(label);
    m.append(": chat completion request");
    let progress = progress_text(count, total);
    m.append(progress.as_str());
    m.append(" completed model=");
    m.append(diagnostics.model.as_str());
    m.append(" finish=");
    m.append(diagnostics.finish_reason.as_str());
    m.append(" prompt_tokens=");
    push_decimal(&mut m, diagnostics.prompt_tokens as u64);
    m.append(" completion_tokens=");
    push_decimal(&mut m, diagnostics.completion_tokens as u64);
    m.append(" total_tokens=");
    push_decimal(&mut m, diagnostics.total_tokens as u64);
    m.append("\n");
    m.append(label);
    m.append(": reasoning output (");
    let rc = crate::text::chars_of(reasoning).len();
    push_decimal(&mut m, rc as u64);
    m.append(" chars)\n");
    let re = diagnostic_excerpt(reasoning);
    m.append(re.as_str());
    m.append("\n");
    m.append(label);
    m.append(": visible output (");
    let vc = crate::text::chars_of(diagnostics.visible_content.as_str()).len();
    push_decimal(&mut m, vc as u64);
    m.append(" chars)\n");
    let ve = diagnostic_excerpt(diagnostics.visible_content.as_str());
    m.append(ve.as_str());
    m
}

/// The OpenAI finish-reason label of a runtime finish reason.
pub fn chat_finish_reason_label(reason: ChatFinishReason) -> (r: &'static str)
    ensures
        r@ == finish_label(reason),
{
    match reason {
        ChatFinishReason::Stop => "stop",
        ChatFinishReason::Length => "length",
        ChatFinishReason::Eos => "stop",
    }
}

/// The model id the API serves a model file under, given the file name
/// std's `Path::file_name` found in its path (if any, and if it is UTF-8).
pub fn model_id_from_path(file_name: Option<String>) -> (r: String)
    ensures
        match file_name {
            Some(n) => if n@.len() > 0 {
                r@ == n@
            } else {
                r@ == "modelinspector-local"@
            },
            None => r@ == "modelinspector-local"@,
        },
{
    match file_name {
        Some(n) => {
            if !n.as_str().is_empty() {
                n
            } else {
                String::from_str("modelinspector-local")
            }
        },
        None => String::from_str("modelinspector-local"),
    }
}

// ---------------------------------------------------------------------------
// Stop strings
// ---------------------------------------------------------------------------

/// The `stop` field of a completion request: one string or several.
#[derive(Clone, Debug)]
pub enum StopField {
    One(String),
    Many(Vec<String>),
}

/// The stop strings a request asks for.
pub fn stop_strings(stop: Option<StopField>) -> (r: Vec<String>)
    ensures
        match stop {
            Some(StopField::One(v)) => r@.len() == 1 && r@[0]@ == v@,
            Some(StopField::Many(vs)) => r@ == vs@,
            None => r@.len() == 0,
        },
{
    match stop {
        Some(StopField::One(v)) => {
            let mut out: Vec<String> = Vec::new();
            out.push(v);
            out
        },
        Some(StopField::Many(vs)) => vs,
        None => Vec::new(),
    }
}

/// The non-empty stop strings, in order.
pub open spec fn nonempty_stops(stops: Seq<Seq<char>>) -> Seq<Seq<char>> {
    stops.filter(|s: Seq<char>| s.len() > 0)
}

/// The stop strings handed to the runtime: the non-empty ones, in order.
pub fn native_stop_strings(stops: &Vec<String>) -> (r: Vec<String>)
    ensures
        r@.map_values(|s: String| s@) == nonempty_stops(stops@.map_values(|s: String| s@)),
{
    let ghost views = stops@.map_values(|s: String| s@);
    let ghost pred = |s: Seq<char>| s.len() > 0;
    let mut out: Vec<String> = Vec::new();
    let mut i: usize = 0;
    proof {
        reveal(Seq::filter);
    }
    assert(views.take(0).filter(pred) =~= Seq::<Seq<char>>::empty());
    while i < stops.len()
        invariant
            i <= stops.len(),
            views == stops@.map_values(|s: String| s@),
            pred == (|s: Seq<char>| s.len() > 0),
            out@.map_values(|s: String| s@) == views.take(i as int).filter(pred),
        decreases stops.len() - i,
    {
        proof {
            reveal(Seq::filter);
        }
        let ghost t = views.take(i + 1);
        assert(t.drop_last() == views.take(i as int));
        assert(t.last() == stops@[i as int]@);
        if !stops[i].as_str().is_empty() {
            let ghost before = out@.map_values(|s: String| s@);
            let s = stops[i].clone();
            out.push(s);
            assert(out@.map_values(|s: String| s@) =~= before.push(stops@[i as int]@));
        }
        i = i + 1;
    }
    assert(views.take(stops.len() as int) == views);
    out
}

/// The earliest position at which one of the non-empty `stops` occurs in
/// `content`, if any does.
pub open spec fn earliest_stop(content: Seq<char>, stops: Seq<Seq<char>>) -> Option<int>
    decreases stops.len(),
{
    if stops.len() == 0 {
        None
    } else {
        let rest = earliest_stop(content, stops.drop_last());
        let s = stops.last();
        let here = if s.len() > 0 {
            first_occurrence(content, s)
        } else {
            None
        };
        match (rest, here) {
            (Some(a), Some(b)) => Some(if b < a { b } else { a }),
            (Some(a), None) => Some(a),
            (None, Some(b)) => Some(b),
            (None, None) => None,
        }
    }
}

proof fn lemma_least_occurrence(hay: Seq<char>, needle: Seq<char>, w: int)
    requires
        occurs_at(hay, needle, w),
    ensures
        exists|m: int| occurs_at(hay, needle, m) && forall|j: int| 0 <= j < m ==> !occurs_at(hay, needle, j),
    decreases w,
{
    if exists|j: int| 0 <= j < w && occurs_at(hay, needle, j) {
        let j = choose|j: int| 0 <= j < w && occurs_at(hay, needle, j);
        lemma_least_occurrence(hay, needle, j);
    } else {
        assert(forall|j: int| 0 <= j < w ==> !occurs_at(hay, needle, j));
    }
}

proof fn lemma_first_occurrence_facts(hay: Seq<char>, needle: Seq<char>)
    ensures
        match first_occurrence(hay, needle) {
            Some(i) => occurs_at(hay, needle, i) && forall|j: int| 0 <= j < i ==> !occurs_at(hay, needle, j),
            None => forall|j: int| !occurs_at(hay, needle, j),
        },
{
    reveal(first_occurrence);
    if contains_seq(hay, needle) {
        let w = choose|w: int| occurs_at(hay, needle, w);
        lemma_least_occurrence(hay, needle, w);
    }
}

/// `stops` holds a non-empty stop string that occurs in `content` at `i`.
pub open spec fn stop_starts_at(content: Seq<char>, stops: Seq<Seq<char>>, i: int) -> bool {
    exists|k: int| 0 <= k < stops.len() && stops[k].len() > 0 && occurs_at(content, stops[k], i)
}

proof fn lemma_earliest_stop_facts(content: Seq<char>, stops: Seq<Seq<char>>)
    ensures
        match earliest_stop(content, stops) {
            Some(i) => stop_starts_at(content, stops, i) && forall|j: int| 0 <= j < i ==> !stop_starts_at(
                content,
                stops,
                j,
            ),
            None => forall|j: int| !stop_starts_at(content, stops, j),
        },
    decreases stops.len(),
{
    if stops.len() > 0 {
        let prev = stops.drop_last();
        lemma_earliest_stop_facts(content, prev);
        let s = stops.last();
        lemma_first_occurrence_facts(content, s);
        let n = stops.len() - 1;
        assert forall|j: int| stop_starts_at(content, stops, j) <==> (stop_starts_at(content, prev, j) || (s.len()
            > 0 && occurs_at(content, s, j))) by {
            if stop_starts_at(content, stops, j) {
                let k = choose|k: int| 0 <= k < stops.len() && stops[k].len() > 0 && occurs_at(content, stops[k], j);
                if k < n {
                    assert(prev[k] == stops[k]);
                }
            }
            if stop_starts_at(content, prev, j) {
                let k = choose|k: int| 0 <= k < prev.len() && prev[k].len() > 0 && occurs_at(content, prev[k], j);
                assert(stops[k] == prev[k]);
            }
            if s.len() > 0 && occurs_at(content, s, j) {
                assert(stops[n] == s);
            }
        }
    }
}

/// The content cut where the earliest non-empty stop string begins.
pub open spec fn stop_cut(content: Seq<char>, stops: Seq<Seq<char>>) -> Seq<char> {
    match earliest_stop(content, stops) {
        Some(i) => content.take(i),
        None => content,
    }
}

/// Cutting at the stop strings keeps the longest prefix of the content that
/// holds none of the non-empty stop strings: the cut content is a prefix of
/// the content, no non-empty stop string occurs in it, and where one occurs
/// in the content, the cut ends exactly where one begins; otherwise nothing
/// is cut.
pub proof fn lemma_stop_cut(content: Seq<char>, stops: Seq<Seq<char>>)
    ensures
        stop_cut(content, stops).len() <= content.len(),
        stop_cut(content, stops) == content.take(stop_cut(content, stops).len() as int),
        forall|k: int, j: int|
            0 <= k < stops.len() && stops[k].len() > 0 ==> !#[trigger] occurs_at(stop_cut(content, stops), stops[k], j),
        (exists|j: int| #[trigger] stop_starts_at(content, stops, j)) ==> stop_starts_at(
            content,
            stops,
            stop_cut(content, stops).len() as int,
        ),
        !(exists|j: int| #[trigger] stop_starts_at(content, stops, j)) ==> stop_cut(content, stops) == content,
{
    lemma_earliest_stop_facts(content, stops);
    match earliest_stop(content, stops) {
        Some(i) => {
            let kk = choose|k: int| 0 <= k < stops.len() && stops[k].len() > 0 && occurs_at(content, stops[k], i);
            assert(0 <= i <= content.len());
            let cut = content.take(i);
            assert(cut == content.take(cut.len() as int));
            assert forall|k: int, j: int| 0 <= k < stops.len() && stops[k].len() > 0 implies !occurs_at(
                cut,
                stops[k],
                j,
            ) by {
                if occurs_at(cut, stops[k], j) {
                    assert(content.subrange(j, j + stops[k].len()) =~= cut.subrange(j, j + stops[k].len()));
                    assert(occurs_at(content, stops[k], j));
                    assert(stop_starts_at(content, stops, j));
                }
            }
            assert(stop_starts_at(content, stops, cut.len() as int));
        },
        None => {
            assert forall|k: int, j: int| 0 <= k < stops.len() && stops[k].len() > 0 implies !occurs_at(
                content,
                stops[k],
                j,
            ) by {
                if occurs_at(content, stops[k], j) {
                    assert(stop_starts_at(content, stops, j));
                }
            }
        },
    }
}

/// Cuts `content` at the earliest non-empty stop string; the finish label
/// is always `stop`.
pub fn apply_stop_strings(content: &mut String, stops: &[String]) -> (r: &'static str)
    ensures
        r@ == "stop"@,
        match earliest_stop(old(content)@, stops@.map_values(|s: String| s@)) {
            Some(i) => final(content)@ == old(content)@.take(i),
            None => final(content)@ == old(content)@,
        },
        final(content)@ == old(content)@.take(final(content)@.len() as int),
        forall|k: int, j: int|
            0 <= k < stops@.len() && stops@[k]@.len() > 0 ==> !occurs_at(final(content)@, stops@[k]@, j),
        (exists|j: int| #[trigger] stop_starts_at(old(content)@, string_views(stops@), j)) ==> stop_starts_at(
            old(content)@,
            string_views(stops@),
            final(content)@.len() as int,
        ),
{
    let v = chars_of(content.as_str());
    let ghost views = stops@.map_values(|s: String| s@);
    let mut best: Option<usize> = None;
    let mut i: usize = 0;
    while i < stops.len()
        invariant
            i <= stops@.len(),
            v@ == old(content)@,
            views == stops@.map_values(|s: String| s@),
            match earliest_stop(v@, views.take(i as int)) {
                Some(e) => best matches Some(b) && b == e && b <= v@.len(),
                None => best is None,
            },
        decreases stops.len() - i,
    {
        let ghost t = views.take(i + 1);
        assert(t.drop_last() == views.take(i as int));
        assert(t.last() == stops@[i as int]@);
        let sv = chars_of(stops[i].as_str());
        let ghost here = if sv@.len() > 0 {
            first_occurrence(v@, sv@)
        } else {
            None
        };
        assert(earliest_stop(v@, t) == (match (earliest_stop(v@, views.take(i as int)), here) {
            (Some(a), Some(b)) => Some(if b < a { b } else { a }),
            (Some(a), None) => Some(a),
            (None, Some(b)) => Some(b),
            (None, None) => None,
        }));
        if sv.len() > 0 {
            match first_index_of(&v, &sv) {
                Some(p) => {
                    assert(here == Some(p as int));
                    match best {
                        Some(b) => {
                            if p < b {
                                best = Some(p);
                            }
                        },
                        None => {
                            best = Some(p);
                        },
                    }
                },
                None => {
                    assert(here is None);
                },
            }
        }
        assert(match earliest_stop(v@, t) {
            Some(e) => best matches Some(b) && b == e && b <= v@.len(),
            None => best is None,
        });
        i = i + 1;
    }
    assert(views.take(stops@.len() as int) == views);
    match best {
        Some(b) => {
            let cut = string_from_range(&v, 0, b);
            assert(v@.subrange(0, b as int) == v@.take(b as int));
            *content = cut;
        },
        None => {},
    }
    proof {
        lemma_stop_cut(old(content)@, string_views(stops@));
        assert(string_views(stops@) == stops@.map_values(|s: String| s@));
        assert forall|k: int, j: int| 0 <= k < stops@.len() && stops@[k]@.len() > 0 implies !occurs_at(
            content@,
            stops@[k]@,
            j,
        ) by {
            let sv = string_views(stops@);
            assert(sv[k] == stops@[k]@);
            assert(content@ == stop_cut(old(content)@, sv));
            assert(!occurs_at(stop_cut(old(content)@, sv), sv[k], j));
        }
    }
    "stop"
}

// ---------------------------------------------------------------------------
// Chat messages
// ---------------------------------------------------------------------------

/// The text standing for an image in a multimodal prompt.
pub open spec fn image_marker() -> Seq<char> {
    "<__media__>"@
}

/// The refusal of content that is neither text nor content parts.
pub open spec fn unsupported_content() -> Seq<char> {
    "messages must use string content, text content parts, or image_url data:image parts"@
}

/// One part of an OpenAI message content array: its `type`, its `text`
/// and its image url (the `image_url` string or its `url` field), each
/// where present as a string.
#[derive(Clone, Debug)]
pub struct ContentPart {
    pub kind: Option<String>,
    pub text: Option<String>,
    pub image_url: Option<String>,
}

/// The content of a request message.
#[derive(Clone, Debug)]
pub enum MessageContent {
    Text(String),
    Parts(Vec<ContentPart>),
    Unsupported,
}

/// Converting one content part after `text`, with `urls` collected so far.
pub open spec fn part_step(part: ContentPart, text: Seq<char>, urls: Seq<Seq<char>>) -> (
    Result<Seq<char>, Seq<char>>,
    Seq<Seq<char>>,
) {
    match part.kind {
        Some(k) => if k@ == "text"@ {
            let t = match part.text {
                Some(x) => x@,
                None => seq![],
            };
            (Ok(text + t), urls)
        } else if k@ == "image_url"@ {
            match part.image_url {
                None => (Err("image_url content part requires a string url"@), urls),
                Some(u) => if starts_with_seq(u@, "data:image/"@) {
                    (Ok(text + image_marker()), urls.push(u@))
                } else {
                    (Err("image_url must be a base64 data:image URL; remote URLs are not supported"@), urls)
                },
            }
        } else {
            (Err(unsupported_content()), urls)
        },
        None => (Err(unsupported_content()), urls),
    }
}

/// Converting content parts in order: the prompt text or the first
/// refusal, and the image urls collected until then.
pub open spec fn parts_outcome(parts: Seq<ContentPart>) -> (Result<Seq<char>, Seq<char>>, Seq<Seq<char>>)
    decreases parts.len(),
{
    if parts.len() == 0 {
        (Ok(seq![]), seq![])
    } else {
        let (prev, urls) = parts_outcome(parts.drop_last());
        match prev {
            Err(e) => (Err(e), urls),
            Ok(text) => part_step(parts.last(), text, urls),
        }
    }
}

/// Converting a message content: the prompt text or a refusal, and the
/// image urls it adds.
pub open spec fn content_outcome(content: MessageContent) -> (Result<Seq<char>, Seq<char>>, Seq<Seq<char>>) {
    match content {
        MessageContent::Text(t) => (Ok(t@), seq![]),
        MessageContent::Parts(ps) => parts_outcome(ps@),
        MessageContent::Unsupported => (Err(unsupported_content()), seq![]),
    }
}

/// The views of a list of strings.
pub open spec fn views_of(v: Seq<String>) -> Seq<Seq<char>> {
    v.map_values(|s: String| s@)
}

/// Converts one content part, as `part_step` describes it.
fn convert_part(part: &ContentPart, text: &mut String, urls: &mut Vec<String>) -> (r: Result<(), String>)
    ensures
        match part_step(*part, old(text)@, views_of(old(urls)@)) {
            (Ok(t), us) => r is Ok && final(text)@ == t && views_of(final(urls)@) == us,
            (Err(e), us) => r matches Err(m) && m@ == e && views_of(final(urls)@) == us,
        },
{
    match &part.kind {
        None => Err(String::from_str(
            "messages must use string content, text content parts, or image_url data:image parts",
        )),
        Some(k) => {
            if str_eq(k.as_str(), "text") {
                match &part.text {
                    Some(x) => text.append(x.as_str()),
                    None => {
                        proof {
                            reveal_strlit("");
                        }
                        assert(old(text)@ + Seq::<char>::empty() == old(text)@);
                    },
                }
                Ok(())
            } else if str_eq(k.as_str(), "image_url") {
                match &part.image_url {
                    None => Err(String::from_str("image_url content part requires a string url")),
                    Some(u) => {
                        if !str_starts_with(u.as_str(), "data:image/") {
                            return Err(String::from_str(
                                "image_url must be a base64 data:image URL; remote URLs are not supported",
                            ));
                        }
                        text.append("<__media__>");
                        let ghost before = views_of(urls@);
                        urls.push(u.clone());
                        assert(views_of(urls@) =~= before.push(u@));
                        Ok(())
                    },
                }
            } else {
                Err(String::from_str(
                    "messages must use string content, text content parts, or image_url data:image parts",
                ))
            }
        },
    }
}

/// Converts a message content into prompt text, collecting its data-URL
/// images into `image_data_urls`.
pub fn chat_message_content_for_generation(content: &MessageContent, image_data_urls: &mut Vec<String>) -> (r:
    Result<String, String>)
    ensures
        match content_outcome(*content) {
            (Ok(t), us) => r matches Ok(x) && x@ == t && views_of(final(image_data_urls)@) == views_of(
                old(image_data_urls)@,
            ) + us,
            (Err(e), us) => r matches Err(m) && m@ == e && views_of(final(image_data_urls)@) == views_of(
                old(image_data_urls)@,
            ) + us,
        },
{
    match content {
        MessageContent::Text(t) => {
            assert(views_of(image_data_urls@) + Seq::<Seq<char>>::empty() == views_of(image_data_urls@));
            Ok(t.clone())
        },
        MessageContent::Unsupported => {
            assert(views_of(image_data_urls@) + Seq::<Seq<char>>::empty() == views_of(image_data_urls@));
            Err(String::from_str(
                "messages must use string content, text content parts, or image_url data:image parts",
            ))
        },
        MessageContent::Parts(parts) => {
            let ghost base = views_of(image_data_urls@);
            let mut text = String::new();
            let mut i: usize = 0;
            assert(parts@.take(0) =~= Seq::<ContentPart>::empty());
            assert(base + Seq::<Seq<char>>::empty() == base);
            while i < parts.len()
                invariant
                    i <= parts@.len(),
                    content_outcome(*content) == parts_outcome(parts@),
                    base == views_of(old(image_data_urls)@),
                    parts_outcome(parts@.take(i as int)).0 == Ok::<Seq<char>, Seq<char>>(text@),
                    views_of(image_data_urls@) == base + parts_outcome(parts@.take(i as int)).1,
                decreases parts.len() - i,
            {
                let ghost t = parts@.take(i + 1);
                assert(t.drop_last() == parts@.take(i as int));
                assert(t.last() == parts@[i as int]);
                let ghost local_urls = parts_outcome(parts@.take(i as int)).1;
                proof {
                    lemma_part_step_prefix(parts@[i as int], text@, base, local_urls);
                }
                let ghost text_before = text@;
                assert(parts_outcome(t) == part_step(parts@[i as int], text_before, local_urls));
                let res = convert_part(&parts[i], &mut text, image_data_urls);
                match res {
                    Err(m) => {
                        assert(parts_outcome(t).0 == Err::<Seq<char>, Seq<char>>(m@));
                        proof {
                            lemma_parts_outcome_halts(parts@, (i + 1) as int);
                        }
                        assert(parts_outcome(parts@) == parts_outcome(t));
                        assert(views_of(image_data_urls@) =~= base + parts_outcome(parts@).1);
                        return Err(m);
                    },
                    Ok(()) => {},
                }
                i = i + 1;
            }
            assert(parts@.take(parts@.len() as int) == parts@);
            Ok(text)
        },
    }
}

proof fn lemma_part_step_prefix(part: ContentPart, text: Seq<char>, base: Seq<Seq<char>>, urls: Seq<Seq<char>>)
    ensures
        part_step(part, text, base + urls).0 == part_step(part, text, urls).0,
        part_step(part, text, base + urls).1 == base + part_step(part, text, urls).1,
{
    if let Some(k) = part.kind {
        if k@ != "text"@ && k@ == "image_url"@ {
            if let Some(u) = part.image_url {
                assert((base + urls).push(u@) =~= base + urls.push(u@));
            }
        }
    }
}

proof fn lemma_parts_outcome_halts(parts: Seq<ContentPart>, i: int)
    requires
        0 <= i <= parts.len(),
        parts_outcome(parts.take(i)).0 is Err,
    ensures
        parts_outcome(parts) == parts_outcome(parts.take(i)),
    decreases parts.len() - i,
{
    if i < parts.len() {
        let t = parts.take(i + 1);
        assert(t.drop_last() == parts.take(i));
        lemma_parts_outcome_halts(parts, i + 1);
    } else {
        assert(parts.take(i) == parts);
    }
}

/// A message of a completion request: its role and content.
#[derive(Clone, Debug)]
pub struct ChatMessage {
    pub role: String,
    pub content: MessageContent,
}

/// The messages and images handed to the runtime.
#[derive(Clone, Debug)]
pub struct ChatGenerationMessages {
    pub messages: Vec<(String, String)>,
    pub image_data_urls: Vec<String>,
}

/// Converting request messages in order: the `(role, text)` pairs and the
/// image urls, or the first refusal.
pub open spec fn messages_outcome(ms: Seq<ChatMessage>) -> Result<
    (Seq<(Seq<char>, Seq<char>)>, Seq<Seq<char>>),
    Seq<char>,
>
    decreases ms.len(),
{
    if ms.len() == 0 {
        Ok((seq![], seq![]))
    } else {
        match messages_outcome(ms.drop_last()) {
            Err(e) => Err(e),
            Ok((msgs, urls)) => match content_outcome(ms.last().content) {
                (Ok(t), us) => Ok((msgs.push((ms.last().role@, t)), urls + us)),
                (Err(e), _) => Err(e),
            },
        }
    }
}

/// The views of `(role, text)` pairs.
pub open spec fn pair_views(v: Seq<(String, String)>) -> Seq<(Seq<char>, Seq<char>)> {
    v.map_values(|p: (String, String)| (p.0@, p.1@))
}

/// Converts request messages into `(role, text)` pairs and image urls.
pub fn chat_messages_for_generation(messages: &Vec<ChatMessage>) -> (r: Result<ChatGenerationMessages, String>)
    ensures
        match messages_outcome(messages@) {
            Ok((msgs, urls)) => r matches Ok(g) && pair_views(g.messages@) == msgs && views_of(
                g.image_data_urls@,
            ) == urls,
            Err(e) => r matches Err(m) && m@ == e,
        },
{
    let mut native: Vec<(String, String)> = Vec::new();
    let mut images: Vec<String> = Vec::new();
    let mut i: usize = 0;
    assert(messages@.take(0) =~= Seq::<ChatMessage>::empty());
    assert(pair_views(native@) =~= Seq::<(Seq<char>, Seq<char>)>::empty());
    assert(views_of(images@) =~= Seq::<Seq<char>>::empty());
    while i < messages.len()
        invariant
            i <= messages@.len(),
            messages_outcome(messages@.take(i as int)) == Ok::<
                (Seq<(Seq<char>, Seq<char>)>, Seq<Seq<char>>),
                Seq<char>,
            >((pair_views(native@), views_of(images@))),
        decreases messages.len() - i,
    {
        let ghost t = messages@.take(i + 1);
        assert(t.drop_last() == messages@.take(i as int));
        assert(t.last() == messages@[i as int]);
        let ghost urls_before = views_of(images@);
        match chat_message_content_for_generation(&messages[i].content, &mut images) {
            Ok(text) => {
                let ghost before = pair_views(native@);
                let role = messages[i].role.clone();
                native.push((role, text));
                assert(pair_views(native@) =~= before.push((messages@[i as int].role@, text@)));
            },
            Err(m) => {
                proof {
                    lemma_messages_outcome_halts(messages@, (i + 1) as int);
                }
                return Err(m);
            },
        }
        i = i + 1;
    }
    assert(messages@.take(messages@.len() as int) == messages@);
    Ok(ChatGenerationMessages { messages: native, image_data_urls: images })
}

proof fn lemma_messages_outcome_halts(ms: Seq<ChatMessage>, i: int)
    requires
        0 <= i <= ms.len(),
        messages_outcome(ms.take(i)) is Err,
    ensures
        messages_outcome(ms) == messages_outcome(ms.take(i)),
    decreases ms.len() - i,
{
    if i < ms.len() {
        let t = ms.take(i + 1);
        assert(t.drop_last() == ms.take(i));
        lemma_messages_outcome_halts(ms, i + 1);
    } else {
        assert(ms.take(i) == ms);
    }
}

/// Why converted messages cannot be answered, if they cannot.
pub open spec fn completion_problem(msgs: Seq<(Seq<char>, Seq<char>)>, image_count: nat, vision_enabled: bool) -> Option<
    Seq<char>,
> {
    if msgs.len() == 0 || forall|i: int| 0 <= i < msgs.len() ==> trim(#[trigger] msgs[i].1).len() == 0 {
        Some("Chat completion request must include at least one message"@)
    } else if image_count > 0 && !vision_enabled {
        Some("Image input requires an MMPROJ GGUF loaded in the MMPROJ section."@)
    } else {
        None
    }
}

/// Refuses requests without a non-blank message, and images when no
/// projector is loaded.
pub fn check_completion_messages(messages: &ChatGenerationMessages, vision_enabled: bool) -> (r: Result<(), String>)
    ensures
        match completion_problem(pair_views(messages.messages@), messages.image_data_urls@.len(), vision_enabled) {
            Some(p) => r matches Err(m) && m@ == p,
            None => r is Ok,
        },
{
    let ghost pv = pair_views(messages.messages@);
    let mut any = false;
    let mut i: usize = 0;
    while i < messages.messages.len()
        invariant
            i <= messages.messages@.len(),
            pv == pair_views(messages.messages@),
            any <==> exists|k: int| 0 <= k < i && trim(#[trigger] pv[k].1).len() > 0,
        decreases messages.messages.len() - i,
    {
        assert(pv[i as int].1 == messages.messages@[i as int].1@);
        if !crate::text::is_blank(messages.messages[i].1.as_str()) {
            any = true;
        }
        i = i + 1;
    }
    if !any {
        return Err(String::from_str("Chat completion request must include at least one message"));
    }
    if messages.image_data_urls.len() > 0 && !vision_enabled {
        return Err(String::from_str("Image input requires an MMPROJ GGUF loaded in the MMPROJ section."));
    }
    Ok(())
}

/// The number of characters of the messages' texts.
pub open spec fn prompt_chars(msgs: Seq<(Seq<char>, Seq<char>)>) -> nat
    decreases msgs.len(),
{
    if msgs.len() == 0 {
        0
    } else {
        prompt_chars(msgs.drop_last()) + msgs.last().1.len()
    }
}

/// The reply served when no model session is attached.
pub open spec fn smoke_reply(model: Seq<char>, msgs: Seq<(Seq<char>, Seq<char>)>) -> Seq<char> {
    let n = prompt_chars(msgs);
    "Model Inspector API smoke response for "@ + model + ". Received "@ + decimal(
        if n <= u64::MAX { n } else { u64::MAX as nat },
    ) + " prompt character(s)."@
}

/// The reply served when no model session is attached.
pub fn smoke_response(model: &str, messages: &Vec<(String, String)>) -> (r: String)
    ensures
        r@ == smoke_reply(model@, pair_views(messages@)),
{
    let ghost pv = pair_views(messages@);
    let mut total: u64 = 0;
    let mut i: usize = 0;
    assert(pv.take(0) =~= Seq::<(Seq<char>, Seq<char>)>::empty());
    while i < messages.len()
        invariant
            i <= messages@.len(),
            pv == pair_views(messages@),
            total == (if prompt_chars(pv.take(i as int)) <= u64::MAX {
                prompt_chars(pv.take(i as int))
            } else {
                u64::MAX as nat
            }),
        decreases messages.len() - i,
    {
        assert(pv.take(i + 1).drop_last() == pv.take(i as int));
        assert(pv.take(i + 1).last().1 == messages@[i as int].1@);
        let n = crate::text::chars_of(messages[i].1.as_str()).len() as u64;
        total = match total.checked_add(n) {
            Some(x) => x,
            None => u64::MAX,
        };
        i = i + 1;
    }
    assert(pv.take(messages@.len() as int) == pv);
    let mut r = String::from_str("Model Inspector API smoke response for ");
    r.append(model);
    r.append(". Received ");
    push_decimal(&mut r, total);
    r.append(" prompt character(s).");
    r
}

// ---------------------------------------------------------------------------
// Template thinking default
// ---------------------------------------------------------------------------

/// The `chat_template_kwargs` of a request, as far as the thinking default
/// reads it.
#[derive(Clone, Copy, Debug)]
pub enum RequestKwargs {
    /// The request has none.
    Absent,
    /// An object; `enable_thinking` is `None` when the key is missing,
    /// `Some(None)` when its value is not a boolean.
    Object { enable_thinking: Option<Option<bool>> },
    /// Some other JSON value.
    Other,
}

/// What to do to the request's template arguments.
#[derive(PartialEq, Eq, Structural, Clone, Copy, Debug)]
pub enum KwargsAction {
    /// Pass them on as they are.
    Keep,
    /// Add `enable_thinking` with this value to the object.
    Insert(bool),
    /// Send an object holding only `enable_thinking` with this value.
    Create(bool),
}

/// A request that sets template thinking against the configured default.
#[derive(PartialEq, Eq, Structural, Clone, Copy, Debug)]
pub struct ChatTemplateThinkingOverride {
    pub configured: bool,
    pub requested: bool,
}

/// The text of a boolean.
pub open spec fn bool_text(b: bool) -> Seq<char> {
    if b {
        "true"@
    } else {
        "false"@
    }
}

/// The progress line that reports a request overriding the configured
/// thinking default, for the benchmark named `label`.
pub fn thinking_override_line(label: &str, o: &ChatTemplateThinkingOverride) -> (r: String)
    ensures
        r@ == label@ + ": request chat_template_kwargs.enable_thinking="@ + bool_text(o.requested)
            + " overrides configured default="@ + bool_text(o.configured),
{
    let mut r = String::from_str(label);
    r.append(": request chat_template_kwargs.enable_thinking=");
    r.append(if o.requested { "true" } else { "false" });
    r.append(" overrides configured default=");
    r.append(if o.configured { "true" } else { "false" });
    r
}

/// Applies the configured thinking default (off when unset) to a
/// request's template arguments: a request that sets `enable_thinking`
/// keeps its value, and an override is recorded when that value differs
/// from the default.
pub fn chat_template_kwargs_with_thinking_default(
    request_kwargs: &RequestKwargs,
    default_enable_thinking: Option<bool>,
) -> (r: (KwargsAction, Option<ChatTemplateThinkingOverride>))
    ensures
        ({
            let configured = match default_enable_thinking {
                Some(b) => b,
                None => false,
            };
            match *request_kwargs {
                RequestKwargs::Absent => r == (KwargsAction::Create(configured), None::<ChatTemplateThinkingOverride>),
                RequestKwargs::Other => r == (KwargsAction::Keep, None::<ChatTemplateThinkingOverride>),
                RequestKwargs::Object { enable_thinking } => match enable_thinking {
                    None => r == (KwargsAction::Insert(configured), None::<ChatTemplateThinkingOverride>),
                    Some(Some(requested)) => r.0 == KwargsAction::Keep && r.1 == (if requested != configured {
                        Some(ChatTemplateThinkingOverride { configured, requested })
                    } else {
                        None
                    }),
                    Some(None) => r == (KwargsAction::Keep, None::<ChatTemplateThinkingOverride>),
                },
            }
        }),
{
    let configured = match default_enable_thinking {
        Some(b) => b,
        None => false,
    };
    match request_kwargs {
        RequestKwargs::Absent => (KwargsAction::Create(configured), None),
        RequestKwargs::Other => (KwargsAction::Keep, None),
        RequestKwargs::Object { enable_thinking } => match enable_thinking {
            None => (KwargsAction::Insert(configured), None),
            Some(Some(requested)) => {
                if *requested != configured {
                    (KwargsAction::Keep, Some(ChatTemplateThinkingOverride { configured, requested: *requested }))
                } else {
                    (KwargsAction::Keep, None)
                }
            },
            Some(None) => (KwargsAction::Keep, None),
        },
    }
}

// ---------------------------------------------------------------------------
// Server life cycle
// ---------------------------------------------------------------------------

/// What the window shows of the API server.
#[derive(Clone, Debug)]
pub struct ModelInspectorApiStatus {
    pub running: bool,
    pub base_url: Option<String>,
    pub api_key: Option<String>,
    pub model_id: Option<String>,
}

impl ModelInspectorApiStatus {
    /// The status of the server slot: running with the server's base URL,
    /// key and model id where a server runs, stopped with nothing known
    /// otherwise.
    pub fn of_server(server: Option<(String, String, String)>) -> (r: Self)
        ensures
            r.running == (server is Some),
            match server {
                Some((url, key, model)) => r.base_url == Some(url) && r.api_key == Some(key)
                    && r.model_id == Some(model),
                None => r.base_url is None && r.api_key is None && r.model_id is None,
            },
    {
        match server {
            Some((url, key, model)) => ModelInspectorApiStatus {
                running: true,
                base_url: Some(url),
                api_key: Some(key),
                model_id: Some(model),
            },
            None => ModelInspectorApiStatus { running: false, base_url: None, api_key: None, model_id: None },
        }
    }
}

/// What serving a recipe did to the model's tensors.
#[derive(Clone, Copy, Debug, Default)]
pub struct ModelInspectorApiTensorSummary {
    pub copied_tensor_count: u64,
    pub converted_tensor_count: u64,
    pub converted_bytes_before: u64,
    pub converted_bytes_after: u64,
    pub requested_target_count: u64,
    pub verified_target_count: u64,
}

/// One attempt to start the API server.
#[derive(PartialEq, Eq, Structural, Clone, Copy, Debug)]
pub struct ModelInspectorApiStartup {
    pub id: u64,
}

impl ModelInspectorApiStartup {
    /// The startup with number `id`.
    pub fn new(id: u64) -> (s: Self)
        ensures
            s.id == id,
    {
        ModelInspectorApiStartup { id }
    }

    /// Whether two handles denote the same startup.
    pub fn same_startup(&self, other: &Self) -> (r: bool)
        ensures
            r == (self.id == other.id),
    {
        self.id == other.id
    }
}

/// The API server slot: the running server, if any, and the startup in
/// progress, if any, with whether it was cancelled.
pub struct ModelInspectorApiLifecycle<S> {
    pub server: Option<S>,
    pub startup: Option<ModelInspectorApiStartup>,
    pub cancelled: bool,
    pub next_id: u64,
}

impl<S> ModelInspectorApiLifecycle<S> {
    /// An empty slot: no server, no startup.
    pub fn new() -> (l: Self)
        ensures
            l.server is None,
            l.startup is None,
            !l.cancelled,
    {
        ModelInspectorApiLifecycle { server: None, startup: None, cancelled: false, next_id: 0 }
    }

    /// Starts a startup, handing back the running server to be stopped;
    /// refused while another startup is in progress.
    pub fn begin_start(&mut self) -> (r: Result<(ModelInspectorApiStartup, Option<S>), String>)
        ensures
            old(self).startup is Some ==> (r matches Err(m) && m@ == "ModelInspector API is already starting"@
                && *final(self) == *old(self)),
            old(self).startup is None ==> (r matches Ok((t, s)) && s == old(self).server
                && final(self).startup == Some(t) && !final(self).cancelled && final(self).server is None),
    {
        if self.startup.is_some() {
            return Err(String::from_str("ModelInspector API is already starting"));
        }
        let startup = ModelInspectorApiStartup::new(self.next_id);
        self.next_id = self.next_id.wrapping_add(1);
        self.startup = Some(startup);
        self.cancelled = false;
        let old_server = self.server.take();
        Ok((startup, old_server))
    }

    /// Cancels the startup in progress, if any, and hands back the running
    /// server to be stopped.
    pub fn cancel(&mut self) -> (r: Option<S>)
        ensures
            r == old(self).server,
            cancelled_from(*old(self), *final(self)),
    {
        if self.startup.is_some() {
            self.cancelled = true;
        }
        self.server.take()
    }

    /// Whether `startup` is the startup in progress and was cancelled.
    pub fn cancel_requested(&self, startup: &ModelInspectorApiStartup) -> (r: bool)
        ensures
            r == (self.startup == Some(*startup) && self.cancelled),
    {
        match &self.startup {
            Some(current) => current.same_startup(startup) && self.cancelled,
            None => false,
        }
    }

    /// Ends `startup`: installs `server` unless that startup was cancelled.
    /// Says whether the server was installed; a stale handle changes
    /// nothing.
    pub fn finish_start(&mut self, startup: &ModelInspectorApiStartup, server: Option<S>) -> (r: bool)
        ensures
            finished_from(*old(self), *startup, server, *final(self), r),
    {
        let current = match &self.startup {
            None => return false,
            Some(c) => *c,
        };
        if !current.same_startup(startup) {
            return false;
        }
        let cancelled = self.cancelled;
        self.startup = None;
        if cancelled {
            return false;
        }
        self.server = server;
        true
    }
}

/// `after` is the slot `before` after a cancel.
pub open spec fn cancelled_from<S>(before: ModelInspectorApiLifecycle<S>, after: ModelInspectorApiLifecycle<S>) -> bool {
    &&& after.server is None
    &&& after.startup == before.startup
    &&& after.cancelled == (before.cancelled || before.startup is Some)
}

/// `after` is the slot `before` after finishing `t` with `server`, and
/// `installed` says whether the server was installed.
pub open spec fn finished_from<S>(
    before: ModelInspectorApiLifecycle<S>,
    t: ModelInspectorApiStartup,
    server: Option<S>,
    after: ModelInspectorApiLifecycle<S>,
    installed: bool,
) -> bool {
    &&& before.startup != Some(t) ==> !installed && after == before
    &&& before.startup == Some(t) && before.cancelled ==> !installed && after.startup is None
        && after.server == before.server
    &&& before.startup == Some(t) && !before.cancelled ==> installed && after.startup is None
        && after.server == server
}

/// A startup cancelled while in progress installs no server when it
/// finishes, and leaves the slot free for the next startup.
pub proof fn lemma_cancelled_start_never_installs<S>(
    l0: ModelInspectorApiLifecycle<S>,
    l1: ModelInspectorApiLifecycle<S>,
    l2: ModelInspectorApiLifecycle<S>,
    t: ModelInspectorApiStartup,
    server: Option<S>,
    installed: bool,
)
    requires
        l0.startup == Some(t),
        cancelled_from(l0, l1),
        finished_from(l1, t, server, l2, installed),
    ensures
        !installed,
        l2.server is None,
        l2.startup is None,
{
}

} // verus!
