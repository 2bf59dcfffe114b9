//! The events that streaming connections report (server-sent events,
//! WebSocket frames, workspace file changes) and the team chat's stream.
use vstd::prelude::*;
use vstd::utf8::*;
use crate::text::{concat, push_str, decimal, decimal_string, utf8_lossy, utf8_lossy_string, strip_prefix, chars_of, find_chars_from, lemma_find_skip, lemma_find_from, slice_range, string_of, starts_with};
use crate::sse::{sse_split, text_lines, blank_line, text_lines_of, strip_literal};
use crate::text::{chars_seqs, find_from, find};
use crate::form::percent_bytes;

verus! {

/// The current time in milliseconds since the Unix epoch (zero before it),
/// truncated to 64 bits. Nothing is stated of the clock's reading.
#[verifier::external_body]
pub(crate) fn now_ms() -> u64 {
    std::time::SystemTime::now().duration_since(std::time::UNIX_EPOCH).unwrap_or_default()
        .as_millis() as u64
}

/// An event of a server-sent-events connection: `connected`, `message`, `error`
/// or `closed`, with its data when it has some.
pub struct SseEvent {
    pub connection_id: String,
    pub event_type: String,
    pub data: Option<String>,
    pub timestamp_ms: u64,
}

/// An event of a connection, stamped with the current time.
pub fn sse_event(connection_id: &str, event_type: &str, data: Option<String>) -> (res: SseEvent)
    ensures
        res.connection_id@ == connection_id@,
        res.event_type@ == event_type@,
        res.data == data,
{
    SseEvent {
        connection_id: connection_id.to_owned(),
        event_type: event_type.to_owned(),
        data,
        timestamp_ms: now_ms(),
    }
}

/// A frame of a WebSocket connection: `text`, `binary`, `close`, `error` or
/// `connected`, with its data when it has some.
pub struct WsFrame {
    pub connection_id: String,
    pub frame_type: String,
    pub data: Option<String>,
    pub timestamp_ms: u64,
}

/// A WebSocket connection to open: its URL and extra handshake headers.
pub struct WsConnectRequest {
    pub url: String,
    pub headers: Vec<(String, String)>,
}

/// A frame of a connection, stamped with the current time.
pub fn ws_frame(connection_id: &str, frame_type: &str, data: Option<String>) -> (res: WsFrame)
    ensures
        res.connection_id@ == connection_id@,
        res.frame_type@ == frame_type@,
        res.data == data,
{
    WsFrame {
        connection_id: connection_id.to_owned(),
        frame_type: frame_type.to_owned(),
        data,
        timestamp_ms: now_ms(),
    }
}

/// The handshake headers of a connection: the client's `User-Agent`, then the
/// request's own headers.
pub fn ws_handshake_headers(req: &WsConnectRequest) -> (res: Vec<(String, String)>)
    ensures
        res.deep_view() == seq![("User-Agent"@, "Parallax/0.1.0"@)] + req.headers.deep_view(),
{
    let mut h: Vec<(String, String)> = Vec::new();
    h.push(("User-Agent".to_owned(), "Parallax/0.1.0".to_owned()));
    let ghost first = h.deep_view();
    for i in 0..req.headers.len()
        invariant
            h.deep_view() =~= first + req.headers.deep_view().take(i as int),
    {
        let ghost before = h.deep_view();
        let k = req.headers[i].0.clone();
        let v = req.headers[i].1.clone();
        h.push((k, v));
        assert(h.deep_view() =~= before.push((k@, v@)));
        assert(req.headers.deep_view()[i as int] == (k@, v@));
        assert(req.headers.deep_view().take(i + 1) =~= req.headers.deep_view().take(i as int).push(
            req.headers.deep_view()[i as int],
        ));
    }
    assert(req.headers.deep_view().take(req.headers.len() as int) =~= req.headers.deep_view());
    h
}

/// What a binary frame shows: `<n bytes>`.
pub fn binary_frame_text(n: usize) -> (res: String)
    ensures
        res@ == "<"@ + decimal(n as nat) + " bytes>"@,
{
    let mut s = concat("<", decimal_string(n as u64).as_str());
    push_str(&mut s, " bytes>");
    s
}

/// The error for sending on a connection that does not exist.
pub fn no_connection_message(connection_id: &str) -> (res: String)
    ensures
        res@ == "No WebSocket connection: "@ + connection_id@,
{
    concat("No WebSocket connection: ", connection_id)
}

/// A change to a file of the watched workspace.
pub struct FileChangeEvent {
    pub path: String,
    pub operation: String,
    pub is_collection: bool,
    pub is_environment: bool,
}

// ---------------------------------------------------------------------------
// Team chat
// ---------------------------------------------------------------------------

/// A chat message.
pub struct ChatMessage {
    pub id: String,
    pub workspace_id: String,
    pub sender: String,
    pub sender_name: String,
    pub body: String,
    pub ts: i64,
}

/// Who is present in a workspace's chat.
pub struct ChatPresence {
    pub login: String,
    pub name: String,
    pub ts: i64,
}

/// The chat service's endpoint `path`.
pub fn chat_url(path: &str) -> (res: String)
    ensures
        res@ == "http://127.0.0.1:50152"@ + path@,
{
    concat("http://127.0.0.1:50152", path)
}

/// What `percent_encoding::utf8_percent_encode(s, NON_ALPHANUMERIC)` gives:
/// the UTF-8 bytes of `s`, each written as `percent_byte` writes it.
pub open spec fn percent_encoded(s: Seq<char>) -> Seq<char> {
    percent_bytes(encode_utf8(s))
}

/// Whether every character is an ASCII letter or digit.
pub open spec fn all_alphanumeric(s: Seq<char>) -> bool {
    forall|i: int|
        0 <= i < s.len() ==> ('a' <= #[trigger] s[i] <= 'z' || 'A' <= s[i] <= 'Z' || '0' <= s[i]
            <= '9')
}

/// `percent_encoding::utf8_percent_encode(s, NON_ALPHANUMERIC)`: every byte of
/// the UTF-8 text except ASCII letters and digits as `%XX`; text of letters and
/// digits only comes back unchanged.
#[verifier::external_body]
fn percent_encode(s: &str) -> (res: String)
    ensures
        res@ == percent_encoded(s@),
        all_alphanumeric(s@) ==> res@ == s@,
{
    percent_encoding::utf8_percent_encode(s, percent_encoding::NON_ALPHANUMERIC).to_string()
}

/// The chat stream of a workspace.
pub fn chat_stream_url(workspace: &str) -> (res: String)
    ensures
        res@ == "http://127.0.0.1:50152/chat/stream?workspace="@ + percent_encoded(workspace@),
{
    let w = percent_encode(workspace);
    concat("http://127.0.0.1:50152/chat/stream?workspace=", w.as_str())
}

/// The values of the lines of the blocks that start with `data: `, block by
/// block and line by line.
pub open spec fn chat_data(blocks: Seq<Seq<char>>) -> Seq<Seq<char>>
    decreases blocks.len(),
{
    if blocks.len() == 0 {
        seq![]
    } else {
        chat_data(blocks.drop_last()) + chat_block_data(text_lines(blocks.last()))
    }
}

/// The values of the lines that start with `data: `.
pub open spec fn chat_block_data(lines: Seq<Seq<char>>) -> Seq<Seq<char>>
    decreases lines.len(),
{
    if lines.len() == 0 {
        seq![]
    } else {
        chat_block_data(lines.drop_last()) + match strip_prefix(lines.last(), "data: "@) {
            Some(d) => seq![d],
            None => seq![],
        }
    }
}


fn block_data(block: &[char]) -> (res: Vec<String>)
    ensures
        res.deep_view() == chat_block_data(text_lines(block@)),
{
    let lines_v = text_lines_of(block);
    let ghost lines = text_lines(block@);
    let mut out: Vec<String> = Vec::new();
    let mut i: usize = 0;
    while i < lines_v.len()
        invariant
            i <= lines_v.len(),
            chars_seqs(lines_v@) == lines,
            lines.len() == lines_v.len(),
            out.deep_view() == chat_block_data(lines.take(i as int)),
        decreases lines_v.len() - i,
    {
        let line = &lines_v[i];
        assert(line@ == lines[i as int]);
        assert(lines.take(i + 1).drop_last() =~= lines.take(i as int));
        assert(lines.take(i + 1).last() == lines[i as int]);
        let ghost before = out.deep_view();
        match strip_literal(line.as_slice(), "data: ") {
            Some(d) => {
                let t = string_of(d.as_slice());
                out.push(t);
                assert(out.deep_view() =~= before + seq![d@]);
            },
            None => {
                assert(out.deep_view() =~= before + seq![]);
            },
        }
        i = i + 1;
    }
    assert(lines.take(lines_v.len() as int) =~= lines);
    out
}

proof fn lemma_chat_data_push(blocks: Seq<Seq<char>>, b: Seq<char>)
    ensures
        chat_data(blocks.push(b)) == chat_data(blocks) + chat_block_data(text_lines(b)),
{
    assert(blocks.push(b).drop_last() =~= blocks);
}

proof fn lemma_chat_data_append(a: Seq<Seq<char>>, b: Seq<Seq<char>>)
    ensures
        chat_data(a + b) == chat_data(a) + chat_data(b),
    decreases b.len(),
{
    if b.len() == 0 {
        assert(a + b =~= a);
        assert(chat_data(a) + chat_data(b) =~= chat_data(a));
    } else {
        assert((a + b).drop_last() =~= a + b.drop_last());
        assert((a + b).last() == b.last());
        lemma_chat_data_append(a, b.drop_last());
        assert(chat_data(a + b) =~= chat_data(a) + chat_data(b));
    }
}

/// Feeding the chat stream's text in two chunks yields the same payloads, in
/// the same order, as feeding both at once, and leaves the same buffer.
pub proof fn law_chat_chunking(buffer: Seq<char>, t1: Seq<char>, t2: Seq<char>)
    ensures
        ({
            let first = sse_split(buffer + t1);
            let second = sse_split(first.1 + t2);
            let once = sse_split(buffer + t1 + t2);
            &&& chat_data(first.0) + chat_data(second.0) == chat_data(once.0)
            &&& second.1 == once.1
        }),
{
    crate::sse::law_sse_chunking(buffer + t1, t2);
    let first = sse_split(buffer + t1);
    let second = sse_split(first.1 + t2);
    lemma_chat_data_append(first.0, second.0);
}

/// Feeds one chunk of the chat stream to the connection's buffer: the chunk's
/// text (lossy UTF-8) is appended, the complete blocks are taken off the front,
/// and the values of their `data: ` lines are returned in order (each the JSON
/// of a message or of a presence).
pub fn chat_feed(buffer: &mut String, chunk: &[u8]) -> (res: Vec<String>)
    ensures
        ({
            let sp = sse_split(old(buffer)@ + utf8_lossy(chunk@));
            &&& final(buffer)@ == sp.1
            &&& res.deep_view() == chat_data(sp.0)
        }),
{
    let text = utf8_lossy_string(chunk);
    let mut all = chars_of(buffer.as_str());
    let more = chars_of(text.as_str());
    let ghost whole = buffer@ + text@;
    let mut k: usize = 0;
    while k < more.len()
        invariant
            k <= more.len(),
            all@ == buffer@ + more@.take(k as int),
        decreases more.len() - k,
    {
        all.push(more[k]);
        assert(more@.take(k + 1) =~= more@.take(k as int).push(more@[k as int]));
        k = k + 1;
    }
    assert(more@.take(more.len() as int) =~= more@);
    assert(all@ == whole);
    let mut sep: Vec<char> = Vec::new();
    sep.push('\n');
    sep.push('\n');
    assert(sep@ =~= blank_line());
    let mut data: Vec<String> = Vec::new();
    let mut start: usize = 0;
    let ghost mut done: Seq<Seq<char>> = seq![];
    assert(whole.skip(0) =~= whole);
    loop
        invariant_except_break
            start <= all.len(),
            done + sse_split(whole.skip(start as int)).0 == sse_split(whole).0,
            sse_split(whole.skip(start as int)).1 == sse_split(whole).1,
            data.deep_view() == chat_data(done),
        invariant
            all@ == whole,
            sep@ == blank_line(),
        ensures
            start <= all.len(),
            sse_split(whole).0 == done,
            sse_split(whole).1 == whole.skip(start as int),
            data.deep_view() == chat_data(done),
        decreases all.len() - start,
    {
        let ghost rest = whole.skip(start as int);
        proof {
            lemma_find_skip(whole, blank_line(), start as int);
        }
        match find_chars_from(all.as_slice(), sep.as_slice(), start) {
            None => {
                assert(sse_split(rest) == (Seq::<Seq<char>>::empty(), rest));
                assert(done + seq![] =~= done);
                break;
            },
            Some(i) => {
                proof {
                    lemma_find_from(whole, blank_line(), start as int);
                }
                let block = slice_range(all.as_slice(), start, i);
                assert(block@ =~= rest.take(i - start));
                assert(rest.skip(i - start + 2) =~= whole.skip(i + 2));
                assert(done.push(block@) + sse_split(whole.skip(i + 2)).0 =~= done + sse_split(
                    rest,
                ).0);
                let more_data = block_data(block.as_slice());
                let ghost before = data.deep_view();
                let mut j: usize = 0;
                while j < more_data.len()
                    invariant
                        j <= more_data.len(),
                        data.deep_view() =~= before + more_data.deep_view().take(j as int),
                    decreases more_data.len() - j,
                {
                    let ghost b2 = data.deep_view();
                    let d = more_data[j].clone();
                    data.push(d);
                    assert(data.deep_view() =~= b2.push(d@));
                    assert(more_data.deep_view().take(j + 1) =~= more_data.deep_view().take(
                        j as int,
                    ).push(more_data.deep_view()[j as int]));
                    j = j + 1;
                }
                assert(more_data.deep_view().take(more_data.len() as int) =~= more_data.deep_view());
                proof {
                    lemma_chat_data_push(done, block@);
                    done = done.push(block@);
                }
                start = i + 2;
            },
        }
    }
    let rest = slice_range(all.as_slice(), start, all.len());
    assert(rest@ =~= whole.skip(start as int));
    *buffer = string_of(rest.as_slice());
    data
}

} // verus!
