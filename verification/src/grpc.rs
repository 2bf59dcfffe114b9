//! gRPC over HTTP/2 without generated code: the five-byte length-prefixed message
//! framing, splitting a response stream into messages, reading the status out of
//! the response headers, and gathering the methods that server reflection reports.
use vstd::prelude::*;
use vstd::utf8::*;
use crate::protobuf::{file_descriptor_methods, parse_file_descriptor_methods};
use crate::text::{
    append_strings, chars_of, concat, has_prefix, parse_i32, parse_i32_spec, starts_with,
    str_eq, string_of, trim, trim_chars, trim_end_char, trim_end_char_chars, trim_start_char,
    trim_start_char_chars, utf8_lossy, utf8_lossy_string,
};

verus! {

/// The four bytes of `n`, most significant first (`u32::to_be_bytes`).
pub open spec fn be32(n: u32) -> Seq<u8> {
    seq![(n >> 24u32) as u8, (n >> 16u32) as u8, (n >> 8u32) as u8, n as u8]
}

/// The number that four big-endian bytes spell (`u32::from_be_bytes`).
pub open spec fn from_be32(a: u8, b: u8, c: u8, d: u8) -> int {
    a * 0x100_0000 + b * 0x1_0000 + c * 0x100 + d
}

/// A gRPC message frame: a zero "compressed" flag, the length of the message in
/// four big-endian bytes (the length taken modulo `2^32`), then the message.
pub open spec fn grpc_frame(msg: Seq<u8>) -> Seq<u8> {
    seq![0u8] + be32(msg.len() as u32) + msg
}

/// The message length that the header of a frame at the start of `buf` announces.
pub open spec fn frame_len(buf: Seq<u8>) -> int
    recommends
        buf.len() >= 5,
{
    from_be32(buf[1], buf[2], buf[3], buf[4])
}

proof fn lemma_be32(n: u32)
    ensures
        from_be32((n >> 24u32) as u8, (n >> 16u32) as u8, (n >> 8u32) as u8, n as u8) == n,
{
    let a = (n >> 24u32) as u8;
    let b = (n >> 16u32) as u8;
    let c = (n >> 8u32) as u8;
    let d = n as u8;
    assert(n == ((n >> 24u32) as u8) as u32 * 0x100_0000u32 + ((n >> 16u32) as u8) as u32
        * 0x1_0000u32 + ((n >> 8u32) as u8) as u32 * 0x100u32 + (n as u8) as u32) by (bit_vector);
}

/// Frames `msg` as one gRPC message.
pub fn frame_message(msg: &[u8]) -> (res: Vec<u8>)
    ensures
        res@ == grpc_frame(msg@),
{
    let n = #[verifier::truncate] (msg.len() as u32);
    let mut out: Vec<u8> = Vec::new();
    out.push(0u8);
    out.push(#[verifier::truncate] ((n >> 24) as u8));
    out.push(#[verifier::truncate] ((n >> 16) as u8));
    out.push(#[verifier::truncate] ((n >> 8) as u8));
    out.push(#[verifier::truncate] (n as u8));
    let ghost head = out@;
    assert(head =~= seq![0u8] + be32(n));
    for i in 0..msg.len()
        invariant
            out@ == head + msg@.take(i as int),
    {
        out.push(msg[i]);
        assert(msg@.take(i + 1) =~= msg@.take(i as int) + seq![msg@[i as int]]);
    }
    assert(msg@.take(msg.len() as int) =~= msg@);
    out
}

/// The complete frames at the start of a stream buffer, and what is left after
/// them (an incomplete frame, or nothing).
pub open spec fn split_frames(buf: Seq<u8>) -> (Seq<Seq<u8>>, Seq<u8>)
    decreases buf.len(),
{
    if buf.len() < 5 || buf.len() < 5 + frame_len(buf) {
        (seq![], buf)
    } else {
        let n = frame_len(buf);
        let rest = split_frames(buf.skip(5 + n));
        (seq![buf.subrange(5, 5 + n)] + rest.0, rest.1)
    }
}

/// The payload of the first frame of `buf`, or all of `buf` when it does not
/// start with a complete frame.
pub open spec fn first_frame_body(buf: Seq<u8>) -> Seq<u8> {
    if buf.len() >= 5 && buf.len() >= 5 + frame_len(buf) {
        buf.subrange(5, 5 + frame_len(buf))
    } else {
        buf
    }
}

/// The message length announced by the frame header at `pos`.
fn read_frame_len(buf: &[u8], pos: usize) -> (res: u64)
    requires
        pos + 5 <= buf.len(),
    ensures
        res == frame_len(buf@.skip(pos as int)),
{
    (buf[pos + 1] as u64) * 0x100_0000 + (buf[pos + 2] as u64) * 0x1_0000 + (buf[pos + 3] as u64)
        * 0x100 + (buf[pos + 4] as u64)
}

/// The bytes `buf[from..to]`.
pub fn byte_range(buf: &[u8], from: usize, to: usize) -> (res: Vec<u8>)
    requires
        from <= to <= buf.len(),
    ensures
        res@ == buf@.subrange(from as int, to as int),
{
    let mut res: Vec<u8> = Vec::new();
    let mut k = from;
    while k < to
        invariant
            from <= k <= to <= buf.len(),
            res@ == buf@.subrange(from as int, k as int),
        decreases to - k,
    {
        res.push(buf[k]);
        k = k + 1;
    }
    res
}

/// The payload of the first gRPC frame of a reflection reply, or the whole reply
/// when it does not hold a complete frame.
pub fn first_frame(buf: &[u8]) -> (res: Vec<u8>)
    ensures
        res@ == first_frame_body(buf@),
{
    assert(buf@.skip(0) =~= buf@);
    if buf.len() >= 5 {
        let n = read_frame_len(buf, 0);
        if n <= (buf.len() - 5) as u64 {
            return byte_range(buf, 5, 5 + n as usize);
        }
    }
    byte_range(buf, 0, buf.len())
}

/// Takes every complete frame off the front of a stream buffer, returning their
/// payloads in order; the buffer keeps what follows them.
pub fn drain_frames(buf: &mut Vec<u8>) -> (res: Vec<Vec<u8>>)
    ensures
        bytes_seqs(res@) == split_frames(old(buf)@).0,
        final(buf)@ == split_frames(old(buf)@).1,
{
    let ghost b0 = buf@;
    let mut out: Vec<Vec<u8>> = Vec::new();
    let mut pos: usize = 0;
    assert(b0.skip(0) =~= b0);
    loop
        invariant_except_break
            pos <= buf.len(),
            buf@ == b0,
            bytes_seqs(out@) + split_frames(b0.skip(pos as int)).0 == split_frames(b0).0,
            split_frames(b0.skip(pos as int)).1 == split_frames(b0).1,
        ensures
            pos <= buf.len(),
            buf@ == b0,
            bytes_seqs(out@) == split_frames(b0).0,
            b0.skip(pos as int) == split_frames(b0).1,
        decreases buf.len() - pos,
    {
        let ghost s = b0.skip(pos as int);
        if buf.len() - pos < 5 {
            assert(bytes_seqs(out@) + split_frames(s).0 =~= bytes_seqs(out@));
            break ;
        }
        let n = read_frame_len(buf.as_slice(), pos);
        if n > (buf.len() - pos - 5) as u64 {
            assert(bytes_seqs(out@) + split_frames(s).0 =~= bytes_seqs(out@));
            break ;
        }
        let end = pos + 5 + n as usize;
        let msg = byte_range(buf.as_slice(), pos + 5, end);
        assert(msg@ =~= s.subrange(5, 5 + n));
        assert(s.skip(5 + n) =~= b0.skip(end as int));
        let ghost before = bytes_seqs(out@);
        out.push(msg);
        assert(bytes_seqs(out@) =~= before + seq![msg@]);
        pos = end;
    }
    let rest = byte_range(buf.as_slice(), pos, buf.len());
    assert(rest@ =~= b0.skip(pos as int));
    *buf = rest;
    out
}

/// The byte sequences held by a list of byte vectors.
pub open spec fn bytes_seqs(v: Seq<Vec<u8>>) -> Seq<Seq<u8>> {
    Seq::new(v.len(), |i: int| v[i]@)
}

/// A framed message is read back as itself, and the reading goes on after it.
pub proof fn law_frame_roundtrip(msg: Seq<u8>, rest: Seq<u8>)
    requires
        msg.len() < 0x1_0000_0000,
    ensures
        split_frames(grpc_frame(msg) + rest) == (
            seq![msg] + split_frames(rest).0,
            split_frames(rest).1,
        ),
        first_frame_body(grpc_frame(msg) + rest) == msg,
{
    let n = msg.len() as u32;
    let buf = grpc_frame(msg) + rest;
    lemma_be32(n);
    assert(buf[1] == (n >> 24u32) as u8);
    assert(buf[2] == (n >> 16u32) as u8);
    assert(buf[3] == (n >> 8u32) as u8);
    assert(buf[4] == n as u8);
    assert(frame_len(buf) == msg.len());
    assert(buf.subrange(5, 5 + msg.len() as int) =~= msg);
    assert(buf.skip(5 + msg.len() as int) =~= rest);
}


/// The frames of a stream do not depend on how it is cut into chunks: the frames
/// of `s + t` are those of `s`, then those of what `s` left over followed by `t`;
/// and both ways leave the same rest.
pub proof fn law_frames_chunking(s: Seq<u8>, t: Seq<u8>)
    ensures
        split_frames(s + t).0 == split_frames(s).0 + split_frames(split_frames(s).1 + t).0,
        split_frames(s + t).1 == split_frames(split_frames(s).1 + t).1,
    decreases s.len(),
{
    if s.len() < 5 || s.len() < 5 + frame_len(s) {
        assert(split_frames(s).0 + split_frames(split_frames(s).1 + t).0 =~= split_frames(s + t).0);
    } else {
        let n = frame_len(s);
        assert((s + t)[1] == s[1] && (s + t)[2] == s[2] && (s + t)[3] == s[3] && (s + t)[4] == s[4]);
        assert(frame_len(s + t) == n);
        assert((s + t).subrange(5, 5 + n) =~= s.subrange(5, 5 + n));
        assert((s + t).skip(5 + n) =~= s.skip(5 + n) + t);
        law_frames_chunking(s.skip(5 + n), t);
        assert(split_frames(s + t).0 =~= seq![s.subrange(5, 5 + n)] + split_frames(s.skip(5 + n) + t).0);
        assert(split_frames(s).0 =~= seq![s.subrange(5, 5 + n)] + split_frames(s.skip(5 + n)).0);
    }
}

/// Chunks received one after another, joined.
pub open spec fn joined_bytes(chunks: Seq<Seq<u8>>) -> Seq<u8>
    decreases chunks.len(),
{
    if chunks.len() == 0 {
        seq![]
    } else {
        joined_bytes(chunks.drop_last()) + chunks.last()
    }
}

/// Feeding chunks one by one into a buffer, draining the complete frames after
/// each: the frames drained, in order, and what is left in the buffer.
pub open spec fn feed_frames(chunks: Seq<Seq<u8>>) -> (Seq<Seq<u8>>, Seq<u8>)
    decreases chunks.len(),
{
    if chunks.len() == 0 {
        (seq![], seq![])
    } else {
        let prev = feed_frames(chunks.drop_last());
        let step = split_frames(prev.1 + chunks.last());
        (prev.0 + step.0, step.1)
    }
}

/// However a stream is cut into chunks, feeding them one by one drains the
/// same frames, in the same order, and leaves the same rest, as reading the
/// whole stream at once.
pub proof fn law_frames_any_chunking(chunks: Seq<Seq<u8>>)
    ensures
        feed_frames(chunks) == split_frames(joined_bytes(chunks)),
    decreases chunks.len(),
{
    if chunks.len() == 0 {
        assert(split_frames(Seq::<u8>::empty()) == (Seq::<Seq<u8>>::empty(), Seq::<u8>::empty()));
    } else {
        let init = chunks.drop_last();
        law_frames_any_chunking(init);
        law_frames_chunking(joined_bytes(init), chunks.last());
        let prev = feed_frames(init);
        let step = split_frames(prev.1 + chunks.last());
        assert(feed_frames(chunks).0 =~= split_frames(joined_bytes(chunks)).0);
        assert(feed_frames(chunks).1 =~= split_frames(joined_bytes(chunks)).1);
    }
}

/// The value of the first header named `key`.
pub open spec fn header_value(h: Seq<(Seq<char>, Seq<char>)>, key: Seq<char>) -> Option<Seq<char>>
    decreases h.len(),
{
    if h.len() == 0 {
        None
    } else {
        match header_value(h.drop_last(), key) {
            Some(v) => Some(v),
            None => if h.last().0 == key {
                Some(h.last().1)
            } else {
                None
            },
        }
    }
}

/// The headers whose name starts with `p`, in order.
pub open spec fn headers_with_prefix(h: Seq<(Seq<char>, Seq<char>)>, p: Seq<char>) -> Seq<
    (Seq<char>, Seq<char>),
>
    decreases h.len(),
{
    if h.len() == 0 {
        seq![]
    } else {
        headers_with_prefix(h.drop_last(), p) + if has_prefix(h.last().0, p) {
            seq![h.last()]
        } else {
            seq![]
        }
    }
}

/// The value of the first header named `key`.
pub fn find_header(headers: &Vec<(String, String)>, key: &str) -> (res: Option<String>)
    ensures
        res.deep_view() == header_value(headers.deep_view(), key@),
{
    let ghost h = headers.deep_view();
    let mut i: usize = 0;
    while i < headers.len()
        invariant
            i <= headers.len(),
            h == headers.deep_view(),
            header_value(h.take(i as int), key@) is None,
        decreases headers.len() - i,
    {
        assert(h.take(i + 1).drop_last() =~= h.take(i as int));
        assert(h.take(i + 1).last() == h[i as int]);
        if str_eq(headers[i].0.as_str(), key) {
            proof {
                lemma_header_value_prefix(h, i as int + 1, key@);
            }
            return Some(headers[i].1.clone());
        }
        i = i + 1;
    }
    assert(h.take(headers.len() as int) =~= h);
    None
}

proof fn lemma_header_value_prefix(h: Seq<(Seq<char>, Seq<char>)>, i: int, key: Seq<char>)
    requires
        0 <= i <= h.len(),
    ensures
        header_value(h.take(i), key) is Some ==> header_value(h, key) == header_value(
            h.take(i),
            key,
        ),
    decreases h.len() - i,
{
    if i < h.len() {
        lemma_header_value_prefix(h, i + 1, key);
        assert(h.take(i + 1).drop_last() =~= h.take(i));
    } else {
        assert(h.take(i) =~= h);
    }
}

/// The URL of a gRPC method: the server address without its trailing slashes, a
/// slash, and the method path without its leading slashes.
pub open spec fn grpc_url(server_addr: Seq<char>, method_path: Seq<char>) -> Seq<char> {
    trim_end_char(server_addr, '/') + seq!['/'] + trim_start_char(method_path, '/')
}

/// The URL that a gRPC call on `method_path` at `server_addr` posts to.
pub fn grpc_call_url(server_addr: &str, method_path: &str) -> (res: String)
    ensures
        res@ == grpc_url(server_addr@, method_path@),
{
    let base = trim_end_char_chars(chars_of(server_addr).as_slice(), '/');
    let path = trim_start_char_chars(chars_of(method_path).as_slice(), '/');
    let mut url = string_of(base.as_slice());
    url.push('/');
    let p = string_of(path.as_slice());
    let res = concat(url.as_str(), p.as_str());
    res
}

/// The outcome of a unary gRPC call.
pub struct GrpcResponse {
    pub grpc_status: i32,
    pub grpc_message: String,
    pub http_status: u16,
    pub message_json: String,
    pub headers: Vec<(String, String)>,
    pub trailers: Vec<(String, String)>,
    pub duration_ms: u64,
}

/// The `grpc-status` that the headers report: the value of the header when it
/// parses as an `i32`, and 0 otherwise.
pub open spec fn grpc_status_of(h: Seq<(Seq<char>, Seq<char>)>) -> i32 {
    match header_value(h, "grpc-status"@) {
        Some(v) => match parse_i32_spec(v) {
            Some(n) => n,
            None => 0,
        },
        None => 0,
    }
}

/// The message of a unary reply: the bytes after the five-byte frame header, read
/// as (lossy) UTF-8 and trimmed; empty when the body is shorter than a header.
pub open spec fn unary_message(body: Seq<u8>) -> Seq<char> {
    if body.len() >= 5 {
        trim(utf8_lossy(body.skip(5)))
    } else {
        seq![]
    }
}

/// Builds the result of a unary gRPC call from its HTTP status, response headers,
/// body and duration. Trailers are the headers whose name starts with `grpc-`.
pub fn decode_unary_response(
    http_status: u16,
    headers: Vec<(String, String)>,
    body: &[u8],
    duration_ms: u64,
) -> (res: GrpcResponse)
    ensures
        res.http_status == http_status,
        res.duration_ms == duration_ms,
        res.headers.deep_view() == headers.deep_view(),
        res.grpc_status == grpc_status_of(headers.deep_view()),
        res.grpc_message@ == match header_value(headers.deep_view(), "grpc-message"@) {
            Some(v) => v,
            None => Seq::<char>::empty(),
        },
        res.message_json@ == unary_message(body@),
        res.trailers.deep_view() == headers_with_prefix(headers.deep_view(), "grpc-"@),
{
    let ghost h = headers.deep_view();
    let grpc_status = match find_header(&headers, "grpc-status") {
        Some(v) => match parse_i32(chars_of(v.as_str()).as_slice()) {
            Some(n) => n,
            None => 0,
        },
        None => 0,
    };
    let grpc_message = match find_header(&headers, "grpc-message") {
        Some(v) => v,
        None => String::new(),
    };
    let message_json = if body.len() >= 5 {
        let rest = byte_range(body, 5, body.len());
        assert(rest@ =~= body@.skip(5));
        let text = utf8_lossy_string(rest.as_slice());
        string_of(trim_chars(chars_of(text.as_str()).as_slice()).as_slice())
    } else {
        String::new()
    };
    let prefix = chars_of("grpc-");
    let mut trailers: Vec<(String, String)> = Vec::new();
    for i in 0..headers.len()
        invariant
            h == headers.deep_view(),
            prefix@ == "grpc-"@,
            trailers.deep_view() == headers_with_prefix(h.take(i as int), "grpc-"@),
    {
        assert(h.take(i + 1).drop_last() =~= h.take(i as int));
        assert(h.take(i + 1).last() == h[i as int]);
        let name = chars_of(headers[i].0.as_str());
        if starts_with(name.as_slice(), prefix.as_slice()) {
            let ghost before = trailers.deep_view();
            trailers.push((headers[i].0.clone(), headers[i].1.clone()));
            assert(trailers.deep_view() =~= before + seq![h[i as int]]);
        }
    }
    assert(h.take(headers.len() as int) =~= h);
    GrpcResponse {
        grpc_status,
        grpc_message,
        http_status,
        message_json,
        headers,
        trailers,
        duration_ms,
    }
}

/// The method list that server reflection yields: for each service in turn, the
/// methods found in its reply (none when the call failed), and, whenever the list
/// gathered so far is still empty after a service, `service/` for it.
pub open spec fn reflected_method_list(
    services: Seq<Seq<char>>,
    replies: Seq<Option<Seq<u8>>>,
) -> Seq<Seq<char>>
    decreases services.len(),
{
    if services.len() == 0 || replies.len() != services.len() {
        seq![]
    } else {
        let prev = reflected_method_list(services.drop_last(), replies.drop_last());
        let svc = services.last();
        let got = prev + match replies.last() {
            Some(b) => file_descriptor_methods(b, svc),
            None => seq![],
        };
        if got.len() == 0 {
            seq![svc + seq!['/']]
        } else {
            got
        }
    }
}

/// Gathers the methods that server reflection reported for `services`, where
/// `replies[i]` is the reply payload for `services[i]`, or `None` when that call
/// failed.
pub fn collect_reflected_methods(services: &Vec<String>, replies: &Vec<Option<Vec<u8>>>) -> (res:
    Vec<String>)
    requires
        services.len() == replies.len(),
    ensures
        res.deep_view() == reflected_method_list(services.deep_view(), replies.deep_view()),
{
    let ghost sv = services.deep_view();
    let ghost rv = replies.deep_view();
    let mut methods: Vec<String> = Vec::new();
    proof {
        reveal_strlit("/");
        assert("/"@ =~= seq!['/']);
    }
    for i in 0..services.len()
        invariant
            services.len() == replies.len(),
            sv == services.deep_view(),
            rv == replies.deep_view(),
            "/"@ == seq!['/'],
            methods.deep_view() == reflected_method_list(sv.take(i as int), rv.take(i as int)),
    {
        assert(sv.take(i + 1).drop_last() =~= sv.take(i as int));
        assert(rv.take(i + 1).drop_last() =~= rv.take(i as int));
        assert(sv.take(i + 1).last() == sv[i as int]);
        assert(rv.take(i + 1).last() == rv[i as int]);
        match &replies[i] {
            Some(bytes) => {
                assert(bytes.deep_view() =~= bytes@);
                let found = parse_file_descriptor_methods(bytes.as_slice(), services[i].as_str());
                append_strings(&mut methods, &found);
            },
            None => {},
        }
        if methods.len() == 0 {
            let only = concat(services[i].as_str(), "/");
            methods.push(only);
            assert(methods.deep_view() =~= seq![sv[i as int] + seq!['/']]);
        }
    }
    assert(sv.take(services.len() as int) =~= sv);
    assert(rv.take(replies.len() as int) =~= rv);
    methods
}


/// The headers of a gRPC call: the JSON gRPC content type, `te: trailers`, the
/// client's user agent, then the call's metadata.
pub fn grpc_request_headers(metadata: &Vec<(String, String)>) -> (res: Vec<(String, String)>)
    ensures
        res.deep_view() == seq![
            ("content-type"@, "application/grpc+json"@),
            ("te"@, "trailers"@),
            ("user-agent"@, "Parallax-gRPC/0.1.0"@),
        ] + metadata.deep_view(),
{
    let mut h: Vec<(String, String)> = Vec::new();
    h.push(("content-type".to_owned(), "application/grpc+json".to_owned()));
    h.push(("te".to_owned(), "trailers".to_owned()));
    h.push(("user-agent".to_owned(), "Parallax-gRPC/0.1.0".to_owned()));
    let ghost first = h.deep_view();
    for i in 0..metadata.len()
        invariant
            h.deep_view() =~= first + metadata.deep_view().take(i as int),
    {
        let ghost before = h.deep_view();
        let k = metadata[i].0.clone();
        let v = metadata[i].1.clone();
        h.push((k, v));
        assert(h.deep_view() =~= before.push((k@, v@)));
        assert(metadata.deep_view().take(i + 1) =~= metadata.deep_view().take(i as int).push(
            metadata.deep_view()[i as int],
        ));
    }
    assert(metadata.deep_view().take(metadata.len() as int) =~= metadata.deep_view());
    h
}

/// The text of a streamed message: its bytes as lossy UTF-8, trimmed.
pub fn stream_message_text(msg: &[u8]) -> (res: String)
    ensures
        res@ == crate::text::trim(crate::text::utf8_lossy(msg@)),
{
    let t = chars_of(crate::text::utf8_lossy_string(msg).as_str());
    let r = crate::text::trim_chars(t.as_slice());
    string_of(r.as_slice())
}

/// The event that carries a stream's messages.
pub fn stream_message_event(stream_id: &str) -> (res: String)
    ensures
        res@ == "grpc_stream_message_"@ + stream_id@,
{
    concat("grpc_stream_message_", stream_id)
}

/// The event that ends a stream.
pub fn stream_end_event(stream_id: &str) -> (res: String)
    ensures
        res@ == "grpc_stream_end_"@ + stream_id@,
{
    concat("grpc_stream_end_", stream_id)
}

} // verus!
