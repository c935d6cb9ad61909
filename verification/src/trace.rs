//! The file format of chat trace artifacts.
//!
//! A trace file is the magic `MITRACE1`, the length of a JSON header as a
//! little-endian `u32`, the header, and then the payload.

use vstd::prelude::*;

use crate::chat::{is_valid_id, valid_id};
use crate::text::{is_blank, str_eq, trim};

verus! {

/// A trace recorded for one assistant message.
#[derive(Clone, Debug, PartialEq)]
pub struct ChatTraceArtifact {
    pub conversation_id: String,
    pub assistant_message_id: String,
    pub model_fingerprint: String,
    pub payload: Vec<u8>,
}

/// The header version of single-payload traces.
pub const TRACE_VERSION: u32 = 2;

/// The header version of traces stored one token page at a time.
pub const PAGED_TRACE_VERSION: u32 = 3;

/// The magic bytes `MITRACE1` that open every trace file.
pub open spec fn trace_magic() -> Seq<u8> {
    seq![0x4Du8, 0x49u8, 0x54u8, 0x52u8, 0x41u8, 0x43u8, 0x45u8, 0x31u8]
}

/// The little-endian bytes of `n`.
pub open spec fn le_bytes_u32(n: u32) -> Seq<u8> {
    seq![
        (n % 0x100) as u8,
        ((n / 0x100) % 0x100) as u8,
        ((n / 0x1_0000) % 0x100) as u8,
        (n / 0x100_0000) as u8,
    ]
}

/// A trace file holding `header` and `payload`.
pub open spec fn trace_frame(header: Seq<u8>, payload: Seq<u8>) -> Seq<u8> {
    trace_magic() + le_bytes_u32(header.len() as u32) + header + payload
}

/// The header length a trace file declares.
pub open spec fn declared_header_len(bytes: Seq<u8>) -> nat {
    (bytes[8] + bytes[9] * 0x100 + bytes[10] * 0x1_0000 + bytes[11] * 0x100_0000) as nat
}

/// Where the header of a trace file ends, if the file is well framed.
pub open spec fn header_end(bytes: Seq<u8>) -> Option<int> {
    if bytes.len() >= 12 && bytes.take(8) == trace_magic() && 12 + declared_header_len(bytes)
        <= bytes.len() {
        Some(12 + declared_header_len(bytes) as int)
    } else {
        None
    }
}

/// Why a trace artifact may not be saved, if it may not.
pub open spec fn artifact_ok(a: ChatTraceArtifact) -> bool {
    is_valid_id(a.conversation_id@) && is_valid_id(a.assistant_message_id@) && trim(
        a.model_fingerprint@,
    ).len() > 0
}

/// Accepts an artifact with valid ids and a non-blank model fingerprint.
pub fn validate_artifact(artifact: &ChatTraceArtifact) -> (r: Result<(), String>)
    ensures
        artifact_ok(*artifact) ==> r is Ok,
        !artifact_ok(*artifact) ==> (r matches Err(m) && m@ == "Trace artifact is invalid."@),
{
    if !valid_id(artifact.conversation_id.as_str()) || !valid_id(artifact.assistant_message_id.as_str())
        || is_blank(artifact.model_fingerprint.as_str()) {
        return Err(String::from_str("Trace artifact is invalid."));
    }
    Ok(())
}

/// Frames a serialized header and a payload as a trace file.
pub fn frame_trace(header: &[u8], payload: &[u8]) -> (r: Result<Vec<u8>, String>)
    ensures
        header@.len() <= u32::MAX ==> (r matches Ok(b) && b@ == trace_frame(header@, payload@)),
        header@.len() > u32::MAX ==> (r matches Err(m) && m@ == "Trace header is too large."@),
{
    if header.len() > 0xFFFF_FFFF {
        return Err(String::from_str("Trace header is too large."));
    }
    let n = header.len() as u32;
    let mut out: Vec<u8> = Vec::new();
    out.push(0x4D);
    out.push(0x49);
    out.push(0x54);
    out.push(0x52);
    out.push(0x41);
    out.push(0x43);
    out.push(0x45);
    out.push(0x31);
    out.push((n % 0x100) as u8);
    out.push(((n / 0x100) % 0x100) as u8);
    out.push(((n / 0x1_0000) % 0x100) as u8);
    out.push((n / 0x100_0000) as u8);
    let ghost prefix = out@;
    assert(prefix =~= trace_magic() + le_bytes_u32(n));
    let mut i: usize = 0;
    while i < header.len()
        invariant
            i <= header@.len(),
            out@ == prefix + header@.take(i as int),
        decreases header.len() - i,
    {
        out.push(header[i]);
        i = i + 1;
        assert(out@ =~= prefix + header@.take(i as int));
    }
    let mut j: usize = 0;
    while j < payload.len()
        invariant
            j <= payload@.len(),
            out@ == prefix + header@ + payload@.take(j as int),
        decreases payload.len() - j,
    {
        out.push(payload[j]);
        j = j + 1;
        assert(out@ =~= prefix + header@ + payload@.take(j as int));
    }
    assert(header@.take(header@.len() as int) == header@);
    assert(payload@.take(payload@.len() as int) == payload@);
    Ok(out)
}

/// Checks the artifact and frames it with its serialized header, ready to
/// be written.
pub fn save_trace_artifact(artifact: &ChatTraceArtifact, header: &[u8]) -> (r: Result<Vec<u8>, String>)
    ensures
        !artifact_ok(*artifact) ==> (r matches Err(m) && m@ == "Trace artifact is invalid."@),
        artifact_ok(*artifact) && header@.len() <= u32::MAX ==> (r matches Ok(b) && b@ == trace_frame(
            header@,
            artifact.payload@,
        )),
        artifact_ok(*artifact) && header@.len() > u32::MAX ==> (r matches Err(m) && m@
            == "Trace header is too large."@),
{
    validate_artifact(artifact)?;
    frame_trace(header, artifact.payload.as_slice())
}

/// Where the header of a trace file starts and ends.
pub fn trace_header_span(bytes: &[u8]) -> (r: Result<(usize, usize), String>)
    ensures
        match header_end(bytes@) {
            Some(e) => r == Ok::<(usize, usize), String>((12, e as usize)),
            None => r matches Err(m) && m@ == "Trace artifact is not valid."@,
        },
{
    if bytes.len() < 12 {
        return Err(String::from_str("Trace artifact is not valid."));
    }
    let mut k: usize = 0;
    let magic: [u8; 8] = [0x4D, 0x49, 0x54, 0x52, 0x41, 0x43, 0x45, 0x31];
    while k < 8
        invariant
            k <= 8,
            bytes@.len() >= 12,
            magic@ == trace_magic(),
            forall|m: int| 0 <= m < k ==> bytes@[m] == trace_magic()[m],
        decreases 8 - k,
    {
        if bytes[k] != magic[k] {
            assert(bytes@.take(8)[k as int] != trace_magic()[k as int]);
            return Err(String::from_str("Trace artifact is not valid."));
        }
        k = k + 1;
    }
    assert(bytes@.take(8) =~= trace_magic());
    let n = (bytes[8] as u64) + (bytes[9] as u64) * 0x100 + (bytes[10] as u64) * 0x1_0000 + (bytes[11]
        as u64) * 0x100_0000;
    let total = bytes.len() as u64;
    if n > total || 12 > total - n {
        return Err(String::from_str("Trace artifact is not valid."));
    }
    Ok((12, (12 + n) as usize))
}

/// Reading back a framed trace gives the header and the payload that were
/// framed.
pub proof fn lemma_trace_frame_round_trip(header: Seq<u8>, payload: Seq<u8>)
    requires
        header.len() <= u32::MAX,
    ensures
        header_end(trace_frame(header, payload)) == Some(12 + header.len() as int),
        trace_frame(header, payload).subrange(12, 12 + header.len() as int) == header,
        trace_frame(header, payload).skip(12 + header.len() as int) == payload,
{
    let b = trace_frame(header, payload);
    let n = header.len() as u32;
    assert(b.take(8) =~= trace_magic());
    assert(b[8] == (n % 0x100) as u8);
    assert(b[9] == ((n / 0x100) % 0x100) as u8);
    assert(b[10] == ((n / 0x1_0000) % 0x100) as u8);
    assert(b[11] == (n / 0x100_0000) as u8);
    assert(declared_header_len(b) == n) by (nonlinear_arith)
        requires
            b[8] == (n % 0x100) as u8,
            b[9] == ((n / 0x100) % 0x100) as u8,
            b[10] == ((n / 0x1_0000) % 0x100) as u8,
            b[11] == (n / 0x100_0000) as u8,
            declared_header_len(b) == (b[8] + b[9] * 0x100 + b[10] * 0x1_0000 + b[11] * 0x100_0000) as nat,
    ;
    assert(b.subrange(12, 12 + header.len() as int) =~= header);
    assert(b.skip(12 + header.len() as int) =~= payload);
}

/// The header fields of a trace file that its readers check.
#[derive(Clone, Debug)]
pub struct TraceHeaderFields {
    pub version: u32,
    pub conversation_id: String,
    pub assistant_message_id: String,
    pub model_fingerprint: String,
    pub token_count: usize,
    pub page_count: usize,
}

/// Whether a header belongs to the requested trace and has a version this
/// reader knows (and, paged, one page per token).
pub open spec fn header_ok(h: TraceHeaderFields, conversation_id: Seq<char>, assistant_message_id: Seq<char>) -> bool {
    &&& (h.version == TRACE_VERSION || h.version == PAGED_TRACE_VERSION)
    &&& h.conversation_id@ == conversation_id
    &&& h.assistant_message_id@ == assistant_message_id
    &&& (h.version == PAGED_TRACE_VERSION ==> h.token_count == h.page_count)
}

/// Accepts a header that belongs to the requested trace.
pub fn check_trace_header(header: &TraceHeaderFields, conversation_id: &str, assistant_message_id: &str) -> (r:
    Result<(), String>)
    ensures
        header_ok(*header, conversation_id@, assistant_message_id@) ==> r is Ok,
        !header_ok(*header, conversation_id@, assistant_message_id@) ==> (r matches Err(m) && m@
            == "Trace artifact is not valid."@),
{
    if !(header.version == TRACE_VERSION || header.version == PAGED_TRACE_VERSION) || !str_eq(
        header.conversation_id.as_str(),
        conversation_id,
    ) || !str_eq(header.assistant_message_id.as_str(), assistant_message_id) {
        return Err(String::from_str("Trace artifact is not valid."));
    }
    if header.version == PAGED_TRACE_VERSION && header.token_count != header.page_count {
        return Err(String::from_str("Trace artifact is not valid."));
    }
    Ok(())
}

/// Rebuilds the artifact of a single-payload trace file whose header ends
/// at `header_end` and reads as `header`.
pub fn load_trace_artifact(
    bytes: &[u8],
    header_end: usize,
    header: TraceHeaderFields,
    conversation_id: &str,
    assistant_message_id: &str,
) -> (r: Result<ChatTraceArtifact, String>)
    requires
        header_end <= bytes@.len(),
    ensures
        (header.version == TRACE_VERSION && header.conversation_id@ == conversation_id@
            && header.assistant_message_id@ == assistant_message_id@) ==> (r matches Ok(a)
            && a.conversation_id@ == conversation_id@ && a.assistant_message_id@
            == assistant_message_id@ && a.model_fingerprint@ == header.model_fingerprint@
            && a.payload@ == bytes@.skip(header_end as int)),
        !(header.version == TRACE_VERSION && header.conversation_id@ == conversation_id@
            && header.assistant_message_id@ == assistant_message_id@) ==> (r matches Err(m) && m@
            == "Trace artifact is not valid."@),
{
    if header.version != TRACE_VERSION || !str_eq(header.conversation_id.as_str(), conversation_id)
        || !str_eq(header.assistant_message_id.as_str(), assistant_message_id) {
        return Err(String::from_str("Trace artifact is not valid."));
    }
    let mut payload: Vec<u8> = Vec::new();
    let mut i = header_end;
    while i < bytes.len()
        invariant
            header_end <= i <= bytes@.len(),
            payload@ == bytes@.subrange(header_end as int, i as int),
        decreases bytes.len() - i,
    {
        payload.push(bytes[i]);
        i = i + 1;
        assert(payload@ =~= bytes@.subrange(header_end as int, i as int));
    }
    Ok(ChatTraceArtifact {
        conversation_id: header.conversation_id,
        assistant_message_id: header.assistant_message_id,
        model_fingerprint: header.model_fingerprint,
        payload,
    })
}

/// The sum of the first `n` page lengths.
pub open spec fn pages_before(lengths: Seq<u64>, n: int) -> int
    decreases n,
{
    if n <= 0 {
        0
    } else {
        pages_before(lengths, n - 1) + lengths[n - 1]
    }
}

/// Where token page `index` of a paged trace starts and how long it is,
/// given where the pages start.
pub fn trace_page_span(payload_start: u64, page_lengths: &Vec<u64>, index: usize) -> (r: Result<(u64, u64), String>)
    ensures
        index >= page_lengths@.len() ==> (r matches Err(m) && m@ == "Trace token index is invalid."@),
        index < page_lengths@.len() && payload_start + pages_before(page_lengths@, index as int)
            <= u64::MAX ==> r == Ok::<(u64, u64), String>(
            ((payload_start + pages_before(page_lengths@, index as int)) as u64, page_lengths@[index as int]),
        ),
        index < page_lengths@.len() && payload_start + pages_before(page_lengths@, index as int)
            > u64::MAX ==> (r matches Err(m) && m@ == "Trace artifact is not valid."@),
{
    if index >= page_lengths.len() {
        return Err(String::from_str("Trace token index is invalid."));
    }
    let mut offset = payload_start;
    let mut k: usize = 0;
    while k < index
        invariant
            k <= index < page_lengths@.len(),
            offset == payload_start + pages_before(page_lengths@, k as int),
        decreases index - k,
    {
        match offset.checked_add(page_lengths[k]) {
            Some(x) => {
                offset = x;
            },
            None => {
                proof {
                    lemma_pages_before_monotone(page_lengths@, k + 1, index as int);
                }
                return Err(String::from_str("Trace artifact is not valid."));
            },
        }
        k = k + 1;
    }
    Ok((offset, page_lengths[index]))
}

proof fn lemma_pages_before_monotone(lengths: Seq<u64>, a: int, b: int)
    requires
        0 <= a <= b <= lengths.len(),
    ensures
        pages_before(lengths, a) <= pages_before(lengths, b),
    decreases b - a,
{
    if a < b {
        lemma_pages_before_monotone(lengths, a, b - 1);
    }
}

/// The token pages of a paged trace, one after another.
pub open spec fn concat_pages(pages: Seq<Seq<u8>>) -> Seq<u8>
    decreases pages.len(),
{
    if pages.len() == 0 {
        seq![]
    } else {
        concat_pages(pages.drop_last()) + pages.last()
    }
}

/// The lengths of token pages.
pub open spec fn lengths_of(pages: Seq<Seq<u8>>) -> Seq<u64> {
    pages.map_values(|p: Seq<u8>| p.len() as u64)
}

/// The bytes of a list of pages.
pub open spec fn page_views(pages: Seq<Vec<u8>>) -> Seq<Seq<u8>> {
    pages.map_values(|p: Vec<u8>| p@)
}

/// Accepts the ids and model fingerprint of a paged trace: valid ids and a
/// fingerprint that is not blank.
pub fn validate_paged_trace(
    conversation_id: &str,
    assistant_message_id: &str,
    model_fingerprint: &str,
) -> (r: Result<(), String>)
    ensures
        (is_valid_id(conversation_id@) && is_valid_id(assistant_message_id@) && trim(model_fingerprint@).len()
            > 0) ==> r is Ok,
        !(is_valid_id(conversation_id@) && is_valid_id(assistant_message_id@) && trim(
            model_fingerprint@,
        ).len() > 0) ==> (r matches Err(m) && m@ == "Trace artifact is invalid."@),
{
    if !valid_id(conversation_id) || !valid_id(assistant_message_id) || is_blank(model_fingerprint) {
        return Err(String::from_str("Trace artifact is invalid."));
    }
    Ok(())
}

/// The length of each token page, in order, as the header records them.
pub fn token_page_lengths(pages: &Vec<Vec<u8>>) -> (r: Vec<u64>)
    ensures
        r@ == lengths_of(page_views(pages@)),
{
    let mut r: Vec<u64> = Vec::new();
    let mut i: usize = 0;
    while i < pages.len()
        invariant
            i <= pages.len(),
            r@ == lengths_of(page_views(pages@)).take(i as int),
        decreases pages.len() - i,
    {
        r.push(pages[i].len() as u64);
        i = i + 1;
        assert(r@ =~= lengths_of(page_views(pages@)).take(i as int));
    }
    assert(lengths_of(page_views(pages@)).take(pages.len() as int) =~= lengths_of(page_views(pages@)));
    r
}

/// Frames a serialized header and the token pages after it as a paged
/// trace file.
pub fn frame_paged_trace(header: &[u8], pages: &Vec<Vec<u8>>) -> (r: Result<Vec<u8>, String>)
    ensures
        header@.len() <= u32::MAX ==> (r matches Ok(b) && b@ == trace_frame(
            header@,
            concat_pages(page_views(pages@)),
        )),
        header@.len() > u32::MAX ==> (r matches Err(m) && m@ == "Trace header is too large."@),
{
    let mut body: Vec<u8> = Vec::new();
    let mut i: usize = 0;
    while i < pages.len()
        invariant
            i <= pages.len(),
            body@ == concat_pages(page_views(pages@).take(i as int)),
        decreases pages.len() - i,
    {
        let ghost before = body@;
        let mut j: usize = 0;
        while j < pages[i].len()
            invariant
                i < pages.len(),
                j <= pages[i as int]@.len(),
                body@ == before + pages[i as int]@.take(j as int),
            decreases pages[i as int]@.len() - j,
        {
            body.push(pages[i][j]);
            j = j + 1;
            assert(body@ =~= before + pages[i as int]@.take(j as int));
        }
        assert(pages[i as int]@.take(j as int) =~= pages[i as int]@);
        let ghost t = page_views(pages@).take(i + 1);
        assert(t.drop_last() =~= page_views(pages@).take(i as int));
        assert(t.last() == pages[i as int]@);
        i = i + 1;
    }
    assert(page_views(pages@).take(pages.len() as int) =~= page_views(pages@));
    frame_trace(header, body.as_slice())
}

proof fn lemma_concat_prefix(pages: Seq<Seq<u8>>, k: int)
    requires
        0 <= k <= pages.len(),
    ensures
        concat_pages(pages.take(k)).len() <= concat_pages(pages).len(),
        concat_pages(pages).take(concat_pages(pages.take(k)).len() as int) == concat_pages(pages.take(k)),
    decreases pages.len() - k,
{
    if k == pages.len() {
        assert(pages.take(k) =~= pages);
    } else {
        let n = pages.len() as int;
        assert(pages.take(n) =~= pages);
        lemma_concat_prefix_step(pages, k, n);
    }
}

proof fn lemma_concat_prefix_step(pages: Seq<Seq<u8>>, k: int, n: int)
    requires
        0 <= k <= n <= pages.len(),
    ensures
        concat_pages(pages.take(k)).len() <= concat_pages(pages.take(n)).len(),
        concat_pages(pages.take(n)).take(concat_pages(pages.take(k)).len() as int) == concat_pages(
            pages.take(k),
        ),
    decreases n - k,
{
    if k == n {
        assert(concat_pages(pages.take(n)).take(concat_pages(pages.take(n)).len() as int) =~= concat_pages(
            pages.take(n),
        ));
    } else {
        lemma_concat_prefix_step(pages, k, n - 1);
        let a = concat_pages(pages.take(n - 1));
        assert(pages.take(n).drop_last() =~= pages.take(n - 1));
        assert(concat_pages(pages.take(n)) == a + pages.take(n).last());
        let c = concat_pages(pages.take(k));
        assert((a + pages.take(n).last()).take(c.len() as int) =~= a.take(c.len() as int));
    }
}

proof fn lemma_concat_len(pages: Seq<Seq<u8>>, k: int)
    requires
        0 <= k <= pages.len(),
        forall|i: int| 0 <= i < pages.len() ==> pages[i].len() <= u64::MAX,
    ensures
        concat_pages(pages.take(k)).len() == pages_before(lengths_of(pages), k),
    decreases k,
{
    if k > 0 {
        lemma_concat_len(pages, k - 1);
        assert(pages.take(k).drop_last() =~= pages.take(k - 1));
        assert(pages.take(k).last() == pages[k - 1]);
    } else {
        assert(pages.take(0) =~= Seq::<Seq<u8>>::empty());
    }
}

/// Reading token page `i` of a paged trace from where the page lengths put
/// it gives that page back: it starts after the header and the pages
/// before it, and is as long as the header records.
pub proof fn lemma_paged_trace_page_round_trip(header: Seq<u8>, pages: Seq<Seq<u8>>, i: int)
    requires
        header.len() <= u32::MAX,
        0 <= i < pages.len(),
        forall|k: int| 0 <= k < pages.len() ==> pages[k].len() <= u64::MAX,
    ensures
        ({
            let b = trace_frame(header, concat_pages(pages));
            let start = header_end(b)->Some_0 + pages_before(lengths_of(pages), i);
            &&& header_end(b) == Some(12 + header.len() as int)
            &&& b.subrange(start, start + lengths_of(pages)[i]) == pages[i]
        }),
{
    let body = concat_pages(pages);
    lemma_trace_frame_round_trip(header, body);
    let b = trace_frame(header, body);
    lemma_concat_len(pages, i);
    lemma_concat_prefix(pages, i + 1);
    let before = concat_pages(pages.take(i));
    let upto = concat_pages(pages.take(i + 1));
    assert(pages.take(i + 1).drop_last() =~= pages.take(i));
    assert(pages.take(i + 1).last() == pages[i]);
    assert(upto == before + pages[i]);
    let off = pages_before(lengths_of(pages), i);
    assert(lengths_of(pages)[i] == pages[i].len());
    assert(body.subrange(off, off + pages[i].len()) =~= pages[i]) by {
        assert(body.take(upto.len() as int) == upto);
        assert forall|x: int| 0 <= x < pages[i].len() implies body[off + x] == pages[i][x] by {
            assert(body.take(upto.len() as int)[off + x] == upto[off + x]);
        }
    }
    assert(b =~= trace_magic() + le_bytes_u32(header.len() as u32) + header + body);
    let start = 12 + header.len() + off;
    assert(b.subrange(start, start + pages[i].len()) =~= body.subrange(off, off + pages[i].len()));
}

/// The directory and file name a trace is stored under, inside the traces
/// directory.
pub fn trace_artifact_location(conversation_id: &str, assistant_message_id: &str) -> (r: Result<(String, String), String>)
    ensures
        is_valid_id(conversation_id@) && is_valid_id(assistant_message_id@) ==> (r matches Ok(p)
            && p.0@ == conversation_id@ && p.1@ == assistant_message_id@ + ".trace"@),
        !(is_valid_id(conversation_id@) && is_valid_id(assistant_message_id@)) ==> (r matches Err(m)
            && m@ == "Trace artifact id is invalid."@),
{
    if !valid_id(conversation_id) || !valid_id(assistant_message_id) {
        return Err(String::from_str("Trace artifact id is invalid."));
    }
    let dir = String::from_str(conversation_id);
    let mut file = String::from_str(assistant_message_id);
    file.append(".trace");
    Ok((dir, file))
}

} // verus!
