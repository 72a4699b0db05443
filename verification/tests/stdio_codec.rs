use a2a_bindings::params::ServiceParams;
use a2a_bindings::stdio::codec::{
    find_separator, parse_headers, StdioCodec, StdioCodecError, DEFAULT_MAX_FRAME_SIZE,
    DEFAULT_MAX_HEADER_SIZE,
};
use a2a_bindings::stdio::frame::{Frame, FrameHeaders};
use bytes::BytesMut;

fn codec() -> StdioCodec {
    StdioCodec::new(DEFAULT_MAX_FRAME_SIZE, DEFAULT_MAX_HEADER_SIZE)
}

fn bare(body: &[u8]) -> Frame {
    Frame { headers: FrameHeaders::default(), body: body.to_vec() }
}

fn params(pairs: &[(&str, &[&str])]) -> ServiceParams {
    let mut out = ServiceParams::new();
    for (k, vs) in pairs {
        out.insert(k.to_string(), vs.iter().map(|v| v.to_string()).collect());
    }
    out
}

fn full() -> Frame {
    Frame {
        headers: FrameHeaders {
            content_type: Some("application/json".into()),
            a2a_kind: Some("request".into()),
            a2a_id: Some("req-1".into()),
            a2a_method: Some("SendMessage".into()),
            service_params: params(&[("a2a-version", &["1.0"]), ("x", &["a", "b"])]),
        },
        body: b"{}".to_vec(),
    }
}

#[test]
fn a_bare_frame_has_one_header() {
    let mut out = BytesMut::new();
    codec().encode(&bare(b"hello"), &mut out).unwrap();
    assert_eq!(&out[..], b"Content-Length: 5\r\n\r\nhello");
}

#[test]
fn headers_come_in_a_fixed_order() {
    let mut out = BytesMut::new();
    codec().encode(&full(), &mut out).unwrap();
    assert_eq!(
        std::str::from_utf8(&out).unwrap(),
        "Content-Length: 2\r\nContent-Type: application/json\r\nA2A-Kind: request\r\nA2A-Id: req-1\r\nA2A-Method: SendMessage\r\nA2A-SP-a2a-version: 1.0\r\nA2A-SP-x: a\r\nA2A-SP-x: b\r\n\r\n{}"
    );
}

#[test]
fn frames_read_back() {
    let mut wire = BytesMut::new();
    let mut c = codec();
    c.encode(&full(), &mut wire).unwrap();
    c.encode(&bare(b""), &mut wire).unwrap();
    c.encode(&bare(b"\r\n\r\n"), &mut wire).unwrap();
    assert_eq!(c.decode(&mut wire).unwrap().unwrap(), full());
    assert_eq!(c.decode(&mut wire).unwrap().unwrap(), bare(b""));
    assert_eq!(c.decode(&mut wire).unwrap().unwrap(), bare(b"\r\n\r\n"));
    assert!(c.decode(&mut wire).unwrap().is_none());
    assert!(wire.is_empty());
}

#[test]
fn how_bytes_arrive_makes_no_difference() {
    let mut wire = BytesMut::new();
    codec().encode(&full(), &mut wire).unwrap();
    let mut c = codec();
    let mut buffer = BytesMut::new();
    let mut frames = Vec::new();
    for byte in wire.iter() {
        buffer.extend_from_slice(&[*byte]);
        if let Some(frame) = c.decode(&mut buffer).unwrap() {
            frames.push(frame);
        }
    }
    assert_eq!(frames, vec![full()]);
}

#[test]
fn header_names_ignore_case_and_values_are_trimmed() {
    let (n, h) = parse_headers(
        b"content-LENGTH:  12 \r\nA2A-SP-X-Tenant:\tacme \r\nX-Unknown: y\r\na2a-ID: 7",
    )
    .unwrap();
    assert_eq!(n, 12);
    assert_eq!(h.a2a_id.unwrap(), "7");
    assert_eq!(h.service_params.get("x-tenant").unwrap(), &vec!["acme"]);
    assert_eq!(h.service_params.len(), 1);
    assert!(h.content_type.is_none());
}

#[test]
fn each_header_fault_is_told() {
    assert_eq!(parse_headers(b"A2A-Id: 1").unwrap_err(), StdioCodecError::MissingContentLength);
    assert_eq!(
        parse_headers(b"Content-Length: ten").unwrap_err(),
        StdioCodecError::InvalidContentLength("ten".into())
    );
    assert_eq!(
        parse_headers(b"Content-Length: 99999999999999999999").unwrap_err(),
        StdioCodecError::InvalidContentLength("99999999999999999999".into())
    );
    assert_eq!(
        parse_headers(b"Content-Length: 1\r\nnonsense").unwrap_err(),
        StdioCodecError::MalformedHeader("nonsense".into())
    );
    assert_eq!(
        parse_headers(b"Content-Length : 1").unwrap_err(),
        StdioCodecError::MalformedHeader("Content-Length : 1".into())
    );
    let reason = std::str::from_utf8(b"\xff").unwrap_err();
    assert_eq!(
        parse_headers(b"\xff").unwrap_err(),
        StdioCodecError::MalformedHeader(format!("not valid UTF-8: {reason}"))
    );
}

#[test]
fn a_plus_sign_is_part_of_a_length() {
    assert_eq!(parse_headers(b"Content-Length: +5").unwrap().0, 5);
    assert_eq!("+5".parse::<usize>().unwrap(), 5);
}

#[test]
fn large_frames_are_refused_both_ways() {
    let mut small = StdioCodec::new(4, DEFAULT_MAX_HEADER_SIZE);
    let mut wire = BytesMut::from(&b"Content-Length: 5\r\n\r\nhello"[..]);
    assert_eq!(
        small.decode(&mut wire).unwrap_err(),
        StdioCodecError::FrameTooLarge { len: 5, max: 4 }
    );
    let mut out = BytesMut::from(&b"kept"[..]);
    assert_eq!(
        small.encode(&bare(b"hello"), &mut out).unwrap_err(),
        StdioCodecError::FrameTooLarge { len: 5, max: 4 }
    );
    assert_eq!(&out[..], b"kept");
}

#[test]
fn large_headers_are_refused_both_ways() {
    let mut small = StdioCodec::new(DEFAULT_MAX_FRAME_SIZE, 20);
    let mut wire = BytesMut::from(&b"Content-Length: 5, and no end"[..]);
    assert_eq!(
        small.decode(&mut wire).unwrap_err(),
        StdioCodecError::HeaderBlockTooLarge { max: 20 }
    );
    let mut out = BytesMut::from(&b"kept"[..]);
    assert_eq!(
        small.encode(&bare(b"hello"), &mut out).unwrap_err(),
        StdioCodecError::HeaderBlockTooLarge { max: 20 }
    );
    assert_eq!(&out[..], b"kept");
}

#[test]
fn line_breaks_in_headers_are_refused() {
    let mut frame = bare(b"x");
    frame.headers.a2a_method = Some("Get\r\nA2A-Id: forged".into());
    let mut out = BytesMut::new();
    assert_eq!(
        codec().encode(&frame, &mut out).unwrap_err(),
        StdioCodecError::MalformedHeader("Get\r\nA2A-Id: forged".into())
    );
    assert!(out.is_empty());

    let mut frame = bare(b"x");
    frame.headers.service_params = params(&[("k", &["ok", "bad\n"])]);
    assert_eq!(
        codec().encode(&frame, &mut out).unwrap_err(),
        StdioCodecError::MalformedHeader("bad\n".into())
    );
}

#[test]
fn the_separator_is_found_across_reads() {
    assert_eq!(find_separator(b"ab\r\n\r\ncd", 0), Some(2));
    assert_eq!(find_separator(b"ab\r\n\r\n", 2), Some(2));
    assert_eq!(find_separator(b"ab\r\n\r", 0), None);
    assert_eq!(find_separator(b"", 0), None);
}

#[test]
fn codec_errors_have_words() {
    assert_eq!(StdioCodecError::Io("gone".into()).message(), "io error: gone");
    assert_eq!(StdioCodecError::MissingContentLength.message(), "missing content length");
    assert_eq!(
        StdioCodecError::InvalidContentLength("x".into()).message(),
        "invalid content length: x"
    );
    assert_eq!(
        StdioCodecError::FrameTooLarge { len: 5, max: 4 }.message(),
        "frame too large: 5 > 4"
    );
    assert_eq!(
        StdioCodecError::HeaderBlockTooLarge { max: 8192 }.message(),
        "header block too large: 8192"
    );
    assert_eq!(StdioCodecError::MalformedHeader("h".into()).message(), "malformed header: h");
    assert_eq!(StdioCodecError::UnexpectedEndOfInput.message(), "unexpected end of input");
}

#[test]
fn any_pieces_give_the_same_frames() {
    let mut wire = BytesMut::new();
    let mut c = codec();
    c.encode(&full(), &mut wire).unwrap();
    c.encode(&bare(b"one"), &mut wire).unwrap();
    c.encode(&bare(b""), &mut wire).unwrap();
    let expected = vec![full(), bare(b"one"), bare(b"")];
    for size in [1, 2, 3, 7, 10, 20, 31, 64, wire.len() - 1, wire.len()] {
        let mut c = codec();
        let mut buffer = BytesMut::new();
        let mut frames = Vec::new();
        for piece in wire.chunks(size) {
            buffer.extend_from_slice(piece);
            while let Some(frame) = c.decode(&mut buffer).unwrap() {
                frames.push(frame);
            }
        }
        assert_eq!(frames, expected, "pieces of {size}");
        assert!(buffer.is_empty());
    }
}
