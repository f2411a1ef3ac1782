use bytes::BytesMut;
use iceccd::msg::{Msg, MsgType};
use iceccd::parse::{
    frame_body_len, msg_type_code, parse_msg, read_string, read_u32, ParseError, ServerMsg,
};

fn buf_of(bytes: &[u8]) -> BytesMut {
    BytesMut::from(bytes)
}

#[test]
fn read_u32_takes_four_bytes() {
    let mut b = buf_of(&[0, 0, 1, 0, 7]);
    assert_eq!(read_u32(&mut b), Ok(256));
    assert_eq!(&b[..], &[7][..]);
}

#[test]
fn read_u32_short_buffer_is_truncated() {
    let mut b = buf_of(&[1, 2, 3]);
    assert_eq!(read_u32(&mut b), Err(ParseError::Truncated));
    assert_eq!(&b[..], &[1, 2, 3][..]);
}

#[test]
fn read_string_strips_the_nul_and_keeps_the_rest() {
    let mut b = buf_of(&[0, 0, 0, 4, b'a', b'b', b'c', 0, 9, 9]);
    assert_eq!(read_string(&mut b), Ok(String::from("abc")));
    assert_eq!(&b[..], &[9, 9][..]);
}

#[test]
fn read_string_of_only_nul_is_empty_text() {
    let mut b = buf_of(&[0, 0, 0, 1, 0]);
    assert_eq!(read_string(&mut b), Ok(String::new()));
    assert!(b.is_empty());
}

#[test]
fn failed_string_reads_leave_the_rest() {
    let mut b = buf_of(&[0, 0, 0, 0, 7]);
    assert_eq!(read_string(&mut b), Err(ParseError::EmptyString));
    assert_eq!(&b[..], &[7][..]);
    let mut b = buf_of(&[0, 0, 0, 2, 0xff, 0, 7]);
    assert_eq!(read_string(&mut b), Err(ParseError::InvalidUtf8));
    assert_eq!(&b[..], &[7][..]);
    let mut b = buf_of(&[0, 0, 0, 9, 1]);
    assert_eq!(read_string(&mut b), Err(ParseError::Truncated));
    assert_eq!(&b[..], &[1][..]);
}

#[test]
fn read_string_errors() {
    assert_eq!(read_string(&mut buf_of(&[0, 0, 0, 0])), Err(ParseError::EmptyString));
    assert_eq!(read_string(&mut buf_of(&[0, 0, 0])), Err(ParseError::Truncated));
    assert_eq!(read_string(&mut buf_of(&[0, 0, 0, 5, b'a', 0])), Err(ParseError::Truncated));
    assert_eq!(read_string(&mut buf_of(&[0, 0, 0, 3, 0xff, 0xfe, 0])), Err(ParseError::InvalidUtf8));
}

#[test]
fn string_written_by_append_str_reads_back() {
    let mut m = Msg::new(MsgType::Login);
    m.append_str("héllo");
    m.append_u32(3);
    let mut b = buf_of(m.data());
    assert_eq!(read_string(&mut b), Ok(String::from("héllo")));
    assert_eq!(read_u32(&mut b), Ok(3));
    assert!(b.is_empty());
}

fn body(code: u32) -> Msg {
    let mut m = Msg::new(MsgType::End);
    m.append_u32(code);
    m
}

#[test]
fn use_cs_assignment_decodes() {
    let mut m = body(72);
    m.append_u32(17);
    m.append_u32(10245);
    m.append_str("10.0.0.2");
    m.append_str("x86_64");
    m.append_u32(1);
    m.append_u32(53);
    m.append_u32(0);
    m.append_u32(0xdead);
    let mut b = buf_of(m.data());
    let parsed = parse_msg(&mut b);
    assert_eq!(&b[..], &[0, 0, 0xde, 0xad][..]);
    match parsed {
        Ok(ServerMsg::UseCs { job_id, port, host, host_platform, got_env, client_id, matched_job_id }) => {
            assert_eq!(job_id, 17);
            assert_eq!(port, 10245);
            assert_eq!(host, "10.0.0.2");
            assert_eq!(host_platform, "x86_64");
            assert_eq!(got_env, 1);
            assert_eq!(client_id, 53);
            assert_eq!(matched_job_id, 0);
        }
        _ => panic!("expected a compile-server assignment"),
    }
}

#[test]
fn cs_conf_decodes() {
    let mut m = body(92);
    m.append_u32(1200);
    m.append_u32(600);
    m.append_str("int main() {}");
    match parse_msg(&mut buf_of(m.data())) {
        Ok(ServerMsg::CsConf { max_scheduler_pong, max_scheduler_ping, bench_source }) => {
            assert_eq!(max_scheduler_pong, 1200);
            assert_eq!(max_scheduler_ping, 600);
            assert_eq!(bench_source, "int main() {}");
        }
        _ => panic!("expected a configuration"),
    }
}

#[test]
fn compile_result_decodes() {
    let mut m = body(75);
    m.append_str("warning");
    m.append_str("");
    m.append_u32(0);
    m.append_u32(1);
    match parse_msg(&mut buf_of(m.data())) {
        Ok(ServerMsg::CompileResult { stderr, stdout, status, oom }) => {
            assert_eq!(stderr, "warning");
            assert_eq!(stdout, "");
            assert_eq!(status, 0);
            assert_eq!(oom, 1);
        }
        _ => panic!("expected a compile result"),
    }
}

#[test]
fn short_messages_decode() {
    let mut v = body(94);
    v.append_u32(1);
    assert!(matches!(parse_msg(&mut buf_of(v.data())), Ok(ServerMsg::VerifyEnvResult { ok: 1 })));

    let mut s = body(90);
    s.append_str("busy");
    match parse_msg(&mut buf_of(s.data())) {
        Ok(ServerMsg::StatusText { text }) => assert_eq!(text, "busy"),
        _ => panic!("expected a status line"),
    }

    let mut end = buf_of(&[0, 0, 0, 67, 1, 2]);
    assert!(matches!(parse_msg(&mut end), Ok(ServerMsg::End)));
    assert_eq!(&end[..], &[1, 2][..]);
    assert!(matches!(parse_msg(&mut buf_of(&[0, 0, 0, 99])), Ok(ServerMsg::Unknown { code: 99 })));
}

#[test]
fn truncated_messages_are_rejected() {
    assert_eq!(parse_msg(&mut buf_of(&[0, 0])).err(), Some(ParseError::Truncated));
    assert_eq!(parse_msg(&mut buf_of(&[0, 0, 0, 94, 0, 0])).err(), Some(ParseError::Truncated));
    let mut m = body(72);
    m.append_u32(1);
    m.append_u32(2);
    m.append_str("host");
    assert_eq!(parse_msg(&mut buf_of(m.data())).err(), Some(ParseError::Truncated));
    assert_eq!(
        parse_msg(&mut buf_of(&[0, 0, 0, 90, 0, 0, 0, 0])).err(),
        Some(ParseError::EmptyString)
    );
}

#[test]
fn frame_header_needs_room_for_the_type() {
    assert_eq!(frame_body_len([0, 0, 0, 4]), Some(4));
    assert_eq!(frame_body_len([0, 1, 0, 0]), Some(65536));
    assert_eq!(frame_body_len([0, 0, 0, 3]), None);
    assert_eq!(frame_body_len([0, 0, 0, 0]), None);
}

#[test]
fn message_type_is_the_leading_number() {
    assert_eq!(msg_type_code(&[0, 0, 0, 94]), Some(94));
    assert_eq!(msg_type_code(&[0, 0, 0, 72, 1, 2, 3]), Some(72));
    assert_eq!(msg_type_code(&[0, 0, 72]), None);
}
