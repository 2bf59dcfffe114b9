use parallax::events::{
    binary_frame_text, chat_feed, chat_stream_url, chat_url, no_connection_message, sse_event,
    ws_frame, ws_handshake_headers, WsConnectRequest,
};
use parallax::grpc::{
    collect_reflected_methods, decode_unary_response, drain_frames, find_header, first_frame,
    frame_message, grpc_call_url, grpc_request_headers, stream_end_event, stream_message_event,
    stream_message_text,
};
use parallax::protobuf::{
    decode_varint, encode_string_field, encode_varint, parse_file_descriptor_methods,
    parse_list_services, walk_proto,
};
use parallax::sse::{sse_event_data, sse_feed};

fn pairs(v: &[(&str, &str)]) -> Vec<(String, String)> {
    v.iter().map(|(a, b)| (a.to_string(), b.to_string())).collect()
}

fn nest(field: u32, inner: &[u8]) -> Vec<u8> {
    encode_string_field(field, std::str::from_utf8(inner).unwrap())
}

#[test]
fn varint_encoding_and_roundtrip() {
    let mut buf = vec![];
    encode_varint(&mut buf, 300);
    assert_eq!(buf, vec![0xac, 0x02]);
    assert_eq!(decode_varint(&buf), Some((300, 2)));
    let mut one = vec![9];
    encode_varint(&mut one, 1);
    assert_eq!(one, vec![9, 1]);
    for v in [0u64, 127, 128, 16384, u64::MAX] {
        let mut b = vec![];
        encode_varint(&mut b, v);
        assert_eq!(decode_varint(&b), Some((v, b.len())));
    }
    assert_eq!(decode_varint(&[0x80]), None);
    assert_eq!(decode_varint(&[]), None);
}

#[test]
fn string_field_encoding() {
    assert_eq!(encode_string_field(4, "ab"), vec![0x22, 2, b'a', b'b']);
    let f = walk_proto(&encode_string_field(7, "xyz"));
    assert_eq!(f.len(), 1);
    assert_eq!(f[0].number, 7);
    assert_eq!(f[0].data, b"xyz".to_vec());
}

#[test]
fn walk_proto_skips_other_wire_types() {
    // field 1 varint 150, field 2 string "hi", field 3 fixed32, field 4 string "yo"
    let buf = vec![0x08, 0x96, 0x01, 0x12, 2, b'h', b'i', 0x1d, 1, 2, 3, 4, 0x22, 2, b'y', b'o'];
    let f = walk_proto(&buf);
    assert_eq!(f.len(), 2);
    assert_eq!((f[0].number, f[0].data.clone()), (2, b"hi".to_vec()));
    assert_eq!((f[1].number, f[1].data.clone()), (4, b"yo".to_vec()));
    // a truncated length-delimited field stops the walk
    assert!(walk_proto(&[0x12, 5, b'a']).is_empty());
}

#[test]
fn reflection_replies() {
    let svc = nest(1, &encode_string_field(1, "pkg.Greeter"));
    let list = nest(6, &svc);
    assert!(parse_list_services(&nest(4, &svc)).is_empty());
    assert_eq!(parse_list_services(&list), vec!["pkg.Greeter".to_string()]);

    let m1 = nest(2, &encode_string_field(1, "SayHello"));
    let m2 = nest(2, &encode_string_field(1, "SayBye"));
    let mut service = encode_string_field(1, "Greeter");
    service.extend(m1);
    service.extend(m2);
    let mut file = encode_string_field(2, "pkg");
    file.extend(nest(6, &service));
    let reply = nest(4, &nest(1, &file));
    assert_eq!(parse_file_descriptor_methods(&nest(5, &nest(1, &file)), ""), Vec::<String>::new());
    assert_eq!(
        parse_file_descriptor_methods(&reply, "pkg.Greeter"),
        vec!["pkg.Greeter/SayHello".to_string(), "pkg.Greeter/SayBye".to_string()]
    );

    let services = vec!["pkg.Greeter".to_string(), "pkg.Other".to_string()];
    let got = collect_reflected_methods(&services, &vec![Some(reply.clone()), None]);
    assert_eq!(got, vec!["pkg.Greeter/SayHello".to_string(), "pkg.Greeter/SayBye".to_string()]);
    let none = collect_reflected_methods(&services, &vec![None, None]);
    assert_eq!(none, vec!["pkg.Greeter/".to_string()]);
}

#[test]
fn grpc_framing() {
    let f = frame_message(b"{}");
    assert_eq!(f, vec![0, 0, 0, 0, 2, b'{', b'}']);
    assert_eq!(first_frame(&f), b"{}".to_vec());
    assert_eq!(first_frame(&[1, 2]), vec![1, 2]);
    let mut buf = frame_message(b"a");
    buf.extend(frame_message(b"bc"));
    buf.extend(vec![0, 0, 0, 0, 9, b'x']);
    let msgs = drain_frames(&mut buf);
    assert_eq!(msgs, vec![b"a".to_vec(), b"bc".to_vec()]);
    assert_eq!(buf, vec![0, 0, 0, 0, 9, b'x']);
}

#[test]
fn grpc_frames_do_not_depend_on_chunking() {
    let mut stream = frame_message(b"first");
    stream.extend(frame_message(b""));
    stream.extend(frame_message(b"third message"));
    stream.extend(vec![0, 0, 0]);
    let mut whole = stream.clone();
    let all = drain_frames(&mut whole);
    assert_eq!(all, vec![b"first".to_vec(), vec![], b"third message".to_vec()]);
    for cut in 0..stream.len() {
        let mut buf = stream[..cut].to_vec();
        let mut got = drain_frames(&mut buf);
        buf.extend_from_slice(&stream[cut..]);
        got.extend(drain_frames(&mut buf));
        assert_eq!(got, all);
        assert_eq!(buf, whole);
    }
}

#[test]
fn grpc_urls_and_headers() {
    assert_eq!(grpc_call_url("http://h:50051//", "//pkg.S/M"), "http://h:50051/pkg.S/M");
    let h = grpc_request_headers(&pairs(&[("authorization", "Bearer t")]));
    assert_eq!(
        h,
        pairs(&[
            ("content-type", "application/grpc+json"),
            ("te", "trailers"),
            ("user-agent", "Parallax-gRPC/0.1.0"),
            ("authorization", "Bearer t"),
        ])
    );
    assert_eq!(find_header(&h, "te").as_deref(), Some("trailers"));
    assert_eq!(find_header(&h, "TE"), None);
    assert_eq!(stream_message_event("s1"), "grpc_stream_message_s1");
    assert_eq!(stream_end_event("s1"), "grpc_stream_end_s1");
    assert_eq!(stream_message_text(b"  {\"a\":1}\n"), "{\"a\":1}");
}

#[test]
fn unary_response_decoding() {
    let headers = pairs(&[("grpc-status", "5"), ("grpc-message", "not found"), ("server", "x")]);
    let mut body = frame_message(b" {\"x\":1} ");
    body.push(0);
    let r = decode_unary_response(200, headers.clone(), &body, 7);
    assert_eq!(r.grpc_status, 5);
    assert_eq!(r.grpc_message, "not found");
    assert_eq!(r.http_status, 200);
    assert_eq!(r.duration_ms, 7);
    assert_eq!(r.message_json, "{\"x\":1} \u{0}".trim());
    assert_eq!(r.trailers, pairs(&[("grpc-status", "5"), ("grpc-message", "not found")]));
    let bad = decode_unary_response(200, pairs(&[("grpc-status", "x")]), &[1, 2], 0);
    assert_eq!(bad.grpc_status, 0);
    assert_eq!(bad.message_json, "");
}

#[test]
fn sse_messages() {
    let d: Vec<char> = "event: x\r\ndata: a\r\ndata:b\nid: 1".chars().collect();
    assert_eq!(sse_event_data(&d).as_deref(), Some("a\nb"));
    let none: Vec<char> = "event: ping".chars().collect();
    assert_eq!(sse_event_data(&none), None);
    let mut buf = String::new();
    let ev = sse_feed(&mut buf, b"data: one\n\ndata: tw");
    assert_eq!(ev, vec!["one".to_string()]);
    assert_eq!(buf, "data: tw");
    let ev = sse_feed(&mut buf, b"o\n\n: comment\n\n");
    assert_eq!(ev, vec!["two".to_string()]);
    assert_eq!(buf, "");
    let ev = sse_feed(&mut buf, &[0xff, b'\n', b'\n']);
    assert!(ev.is_empty());
    assert_eq!(buf, "");
}

#[test]
fn sse_chunking_gives_the_same_events() {
    let stream = b"data: a\n\ndata: b\ndata: c\n\nretry: 1\n\ndata: d\n\n";
    let mut whole = String::new();
    let all = sse_feed(&mut whole, stream);
    for cut in 0..stream.len() {
        let mut buf = String::new();
        let mut got = sse_feed(&mut buf, &stream[..cut]);
        got.extend(sse_feed(&mut buf, &stream[cut..]));
        assert_eq!(got, all);
        assert_eq!(buf, whole);
    }
    assert_eq!(all, vec!["a".to_string(), "b\nc".to_string(), "d".to_string()]);
}

#[test]
fn chat_stream() {
    assert_eq!(chat_url("/chat/message"), "http://127.0.0.1:50152/chat/message");
    assert_eq!(chat_stream_url("team1"), "http://127.0.0.1:50152/chat/stream?workspace=team1");
    assert_eq!(chat_stream_url("a b/c"), "http://127.0.0.1:50152/chat/stream?workspace=a%20b%2Fc");
    let mut buf = String::new();
    let got = chat_feed(&mut buf, b"data: {\"id\":\"1\"}\ndata:{\"x\":2}\ndata: {\"y\":3}\n\ndata: {\"z");
    assert_eq!(got, vec!["{\"id\":\"1\"}".to_string(), "{\"y\":3}".to_string()]);
    assert_eq!(buf, "data: {\"z");
    let more = chat_feed(&mut buf, &[b'"', b':', 0xff, b'}', b'\n', b'\n']);
    assert_eq!(more, vec!["{\"z\":\u{fffd}}".to_string()]);
}

#[test]
fn websocket_helpers() {
    let req = WsConnectRequest { url: "ws://x".to_string(), headers: pairs(&[("X-A", "1")]) };
    assert_eq!(ws_handshake_headers(&req), pairs(&[("User-Agent", "Parallax/0.1.0"), ("X-A", "1")]));
    assert_eq!(binary_frame_text(12), "<12 bytes>");
    assert_eq!(no_connection_message("c1"), "No WebSocket connection: c1");
    let f = ws_frame("c1", "text", Some("hi".to_string()));
    assert_eq!((f.connection_id.as_str(), f.frame_type.as_str(), f.data.as_deref()), ("c1", "text", Some("hi")));
    let e = sse_event("c2", "closed", None);
    assert_eq!((e.connection_id.as_str(), e.event_type.as_str(), e.data.is_none()), ("c2", "closed", true));
}
