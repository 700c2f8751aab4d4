use freeswitch_esl::codec::{encode_command, FrameDecoder};
use freeswitch_esl::error::EslError;
use freeswitch_esl::message::Message;

fn decode_all(chunks: &[&[u8]]) -> Vec<Message> {
    let mut d = FrameDecoder::new();
    let mut out = Vec::new();
    for c in chunks {
        d.feed(c);
        loop {
            match d.try_next() {
                Ok(Some(m)) => out.push(m),
                Ok(None) => break,
                Err(e) => panic!("unexpected decode error: {:?}", e),
            }
        }
    }
    out
}

#[test]
fn decodes_a_headers_only_frame() {
    let ms = decode_all(&[b"Content-Type: auth/request\nReply-Text: hi\n\n"]);
    assert_eq!(ms.len(), 1);
    assert_eq!(
        ms[0].headers,
        vec![
            ("Content-Type".to_string(), "auth/request".to_string()),
            ("Reply-Text".to_string(), "hi".to_string()),
        ]
    );
    assert_eq!(ms[0].body, None);
}

#[test]
fn decodes_a_frame_with_body() {
    let ms = decode_all(&[b"Content-Type: api/response\nContent-Length: 5\n\nhello"]);
    assert_eq!(ms.len(), 1);
    assert_eq!(ms[0].body, Some("hello".to_string()));
}

#[test]
fn one_byte_chunks_yield_the_identical_message() {
    let wire: &[u8] = b"Content-Type: text/event-json\nContent-Length: 12\n\n{\"a\": \"b\"}\nX";
    let whole = decode_all(&[wire]);
    let chunks: Vec<&[u8]> = wire.chunks(1).collect();
    let split = decode_all(&chunks);
    assert_eq!(whole.len(), 1);
    assert_eq!(split.len(), 1);
    assert_eq!(whole[0].headers, split[0].headers);
    assert_eq!(whole[0].body, split[0].body);
}

#[test]
fn a_partial_frame_waits_for_more_bytes() {
    let mut d = FrameDecoder::new();
    d.feed(b"Content-Length: 4\n");
    assert!(matches!(d.try_next(), Ok(None)));
    d.feed(b"\nab");
    assert!(matches!(d.try_next(), Ok(None)));
    d.feed(b"cd");
    let m = d.try_next().unwrap().unwrap();
    assert_eq!(m.body, Some("abcd".to_string()));
}

#[test]
fn two_frames_in_one_read_come_out_in_order() {
    let ms = decode_all(&[b"A: 1\n\nB: 2\n\n"]);
    assert_eq!(ms.len(), 2);
    assert_eq!(ms[0].headers, vec![("A".to_string(), "1".to_string())]);
    assert_eq!(ms[1].headers, vec![("B".to_string(), "2".to_string())]);
}

#[test]
fn a_header_line_without_a_colon_is_a_decode_error() {
    let mut d = FrameDecoder::new();
    d.feed(b"NoColonHere\n\n");
    assert!(matches!(d.try_next(), Err(EslError::Decode(_))));
}

#[test]
fn a_non_numeric_length_indicator_is_a_decode_error() {
    let mut d = FrameDecoder::new();
    d.feed(b"Content-Length: abc\n\n");
    assert!(matches!(d.try_next(), Err(EslError::Decode(_))));
}

#[test]
fn one_leading_value_space_is_dropped_and_only_one() {
    let ms = decode_all(&[b"K:bare\nL:  padded\n\n"]);
    assert_eq!(
        ms[0].headers,
        vec![
            ("K".to_string(), "bare".to_string()),
            ("L".to_string(), " padded".to_string()),
        ]
    );
}

#[test]
fn encode_appends_the_frame_terminator() {
    assert_eq!(encode_command("api status"), b"api status\n\n".to_vec());
}
