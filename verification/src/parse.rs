//! Decoding what the scheduler and compile servers send: numbers and
//! strings taken off the front of a receive buffer, and whole messages.

use crate::buffer::{
    buf_bytes, buf_contents, buf_len, buf_split_to, buf_truncate, utf8_to_string,
};
use crate::msg::{str_field, u32_field};
use crate::wire::{be_value, decode_u32_be, lemma_be_roundtrip, network_read_u32};
use bytes::BytesMut;
use vstd::prelude::*;
use vstd::utf8::{decode_utf8, encode_utf8, encode_utf8_decode_utf8, encode_utf8_valid_utf8, valid_utf8};

verus! {

/// Why a message could not be decoded.
#[derive(Clone, Copy, Debug, PartialEq, Eq, Structural)]
pub enum ParseError {
    /// The buffer ends inside a field.
    Truncated,
    /// A string field announces no bytes at all, not even its NUL.
    EmptyString,
    /// The bytes of a string are not UTF-8.
    InvalidUtf8,
}

/// A number field at the front of `s`, and what follows it.
pub open spec fn spec_take_u32(s: Seq<u8>) -> Result<(u32, Seq<u8>), ParseError> {
    if s.len() < 4 {
        Err(ParseError::Truncated)
    } else {
        Ok((be_value(s), s.skip(4)))
    }
}

/// A string field at the front of `s` (its text, without the NUL that ends
/// it), and what follows it.
#[verifier::opaque]
pub open spec fn spec_take_str(s: Seq<u8>) -> Result<(Seq<char>, Seq<u8>), ParseError> {
    if s.len() < 4 {
        Err(ParseError::Truncated)
    } else {
        let n = be_value(s) as int;
        let rest = s.skip(4);
        if n == 0 {
            Err(ParseError::EmptyString)
        } else if rest.len() < n {
            Err(ParseError::Truncated)
        } else if !valid_utf8(rest.take(n - 1)) {
            Err(ParseError::InvalidUtf8)
        } else {
            Ok((decode_utf8(rest.take(n - 1)), rest.skip(n)))
        }
    }
}

/// Takes a number field off the front of the buffer. A buffer of fewer than
/// four bytes gives `Truncated` and is left as it was.
pub fn read_u32(buf: &mut BytesMut) -> (r: Result<u32, ParseError>)
    ensures
        match spec_take_u32(buf_contents(*old(buf))) {
            Ok((n, rest)) => r == Ok::<u32, ParseError>(n) && buf_contents(*final(buf)) == rest,
            Err(e) => r == Err::<u32, ParseError>(e) && buf_contents(*final(buf)) == buf_contents(
                *old(buf),
            ),
        },
{
    if buf_len(buf) < 4 {
        return Err(ParseError::Truncated);
    }
    let front = buf_split_to(buf, 4);
    let n = network_read_u32(buf_bytes(&front));
    Ok(n)
}

/// What a string read leaves in the buffer, whether or not it succeeds: all
/// of `s` when there is no length, what follows the length when the length
/// is 0 or longer than the bytes after it, and what follows the string
/// otherwise.
pub open spec fn spec_str_leftover(s: Seq<u8>) -> Seq<u8> {
    if s.len() < 4 {
        s
    } else {
        let n = be_value(s) as int;
        let rest = s.skip(4);
        if n == 0 || rest.len() < n {
            rest
        } else {
            rest.skip(n)
        }
    }
}

/// Takes a string field off the front of the buffer; the NUL that ends it is
/// not part of the text.
pub fn read_string(buf: &mut BytesMut) -> (r: Result<String, ParseError>)
    ensures
        match spec_take_str(buf_contents(*old(buf))) {
            Ok((text, rest)) => r matches Ok(s) && s@ == text && buf_contents(*final(buf)) == rest,
            Err(e) => r == Err::<String, ParseError>(e),
        },
        buf_contents(*final(buf)) == spec_str_leftover(buf_contents(*old(buf))),
{
    reveal(spec_take_str);
    let ghost whole = buf_contents(*buf);
    let len: u32 = match read_u32(buf) {
        Ok(n) => n,
        Err(e) => return Err(e),
    };
    let len: usize = len as usize;
    if len == 0 {
        return Err(ParseError::EmptyString);
    }
    if buf_len(buf) < len {
        return Err(ParseError::Truncated);
    }
    let mut str_data = buf_split_to(buf, len);
    // get rid of '\0'
    buf_truncate(&mut str_data, len - 1);
    assert(buf_contents(str_data) =~= whole.skip(4).take(len - 1));
    match utf8_to_string(buf_bytes(&str_data)) {
        Some(s) => Ok(s),
        None => Err(ParseError::InvalidUtf8),
    }
}

/// The length announced by the four bytes that precede a received message,
/// most significant first, when it is long enough to hold the message's
/// type; `None` when it announces fewer than four bytes.
pub fn frame_body_len(header: [u8; 4]) -> (n: Option<u32>)
    ensures
        n == (if be_value(header@) >= 4 {
            Some(be_value(header@))
        } else {
            None::<u32>
        }),
{
    let msglen = decode_u32_be(header);
    if msglen >= 4 {
        Some(msglen)
    } else {
        None
    }
}

/// The type of a received message: the number at the front of its bytes,
/// `None` when there are fewer than four.
pub fn msg_type_code(body: &[u8]) -> (code: Option<u32>)
    ensures
        code == (match spec_take_u32(body@) {
            Ok((n, _)) => Some(n),
            Err(_) => None::<u32>,
        }),
{
    if body.len() < 4 {
        None
    } else {
        Some(network_read_u32(body))
    }
}

/// A message from the scheduler or a compile server, decoded.
pub enum ServerMsg {
    /// Type 92: the scheduler's timing configuration.
    CsConf { max_scheduler_pong: u32, max_scheduler_ping: u32, bench_source: String },
    /// Type 72: a compile server assigned to a job.
    UseCs {
        job_id: u32,
        port: u32,
        host: String,
        host_platform: String,
        got_env: u32,
        client_id: u32,
        matched_job_id: u32,
    },
    /// Type 94: whether a transferred environment could be used.
    VerifyEnvResult { ok: u32 },
    /// Type 75: the outcome of a compile job.
    CompileResult { stderr: String, stdout: String, status: u32, oom: u32 },
    /// Type 90: a status line.
    StatusText { text: String },
    /// Type 67: end of a sequence.
    End,
    /// Any other type; its body is not decoded.
    Unknown { code: u32 },
}

/// A decoded message with its strings as character sequences.
pub enum ServerMsgView {
    CsConf { max_scheduler_pong: u32, max_scheduler_ping: u32, bench_source: Seq<char> },
    UseCs {
        job_id: u32,
        port: u32,
        host: Seq<char>,
        host_platform: Seq<char>,
        got_env: u32,
        client_id: u32,
        matched_job_id: u32,
    },
    VerifyEnvResult { ok: u32 },
    CompileResult { stderr: Seq<char>, stdout: Seq<char>, status: u32, oom: u32 },
    StatusText { text: Seq<char> },
    End,
    Unknown { code: u32 },
}

impl View for ServerMsg {
    type V = ServerMsgView;

    open spec fn view(&self) -> ServerMsgView {
        match self {
            ServerMsg::CsConf { max_scheduler_pong, max_scheduler_ping, bench_source } =>
                ServerMsgView::CsConf {
                max_scheduler_pong: *max_scheduler_pong,
                max_scheduler_ping: *max_scheduler_ping,
                bench_source: bench_source@,
            },
            ServerMsg::UseCs {
                job_id,
                port,
                host,
                host_platform,
                got_env,
                client_id,
                matched_job_id,
            } => ServerMsgView::UseCs {
                job_id: *job_id,
                port: *port,
                host: host@,
                host_platform: host_platform@,
                got_env: *got_env,
                client_id: *client_id,
                matched_job_id: *matched_job_id,
            },
            ServerMsg::VerifyEnvResult { ok } => ServerMsgView::VerifyEnvResult { ok: *ok },
            ServerMsg::CompileResult { stderr, stdout, status, oom } =>
                ServerMsgView::CompileResult {
                stderr: stderr@,
                stdout: stdout@,
                status: *status,
                oom: *oom,
            },
            ServerMsg::StatusText { text } => ServerMsgView::StatusText { text: text@ },
            ServerMsg::End => ServerMsgView::End,
            ServerMsg::Unknown { code } => ServerMsgView::Unknown { code: *code },
        }
    }
}

/// The body of a type-92 message: two numbers and a string.
pub open spec fn spec_cs_conf(s: Seq<u8>) -> Result<(ServerMsgView, Seq<u8>), ParseError> {
    match spec_take_u32(s) {
        Err(e) => Err(e),
        Ok((pong, s1)) => match spec_take_u32(s1) {
            Err(e) => Err(e),
            Ok((ping, s2)) => match spec_take_str(s2) {
                Err(e) => Err(e),
                Ok((bench, s3)) => Ok(
                    (
                        ServerMsgView::CsConf {
                            max_scheduler_pong: pong,
                            max_scheduler_ping: ping,
                            bench_source: bench,
                        },
                        s3,
                    ),
                ),
            },
        },
    }
}

/// The body of a type-72 message after its two strings: three numbers.
pub open spec fn spec_use_cs_tail(
    job_id: u32,
    port: u32,
    host: Seq<char>,
    host_platform: Seq<char>,
    s: Seq<u8>,
) -> Result<(ServerMsgView, Seq<u8>), ParseError> {
    match spec_take_u32(s) {
        Err(e) => Err(e),
        Ok((got_env, s1)) => match spec_take_u32(s1) {
            Err(e) => Err(e),
            Ok((client_id, s2)) => match spec_take_u32(s2) {
                Err(e) => Err(e),
                Ok((matched_job_id, s3)) => Ok(
                    (
                        ServerMsgView::UseCs {
                            job_id,
                            port,
                            host,
                            host_platform,
                            got_env,
                            client_id,
                            matched_job_id,
                        },
                        s3,
                    ),
                ),
            },
        },
    }
}

/// The body of a type-72 message: two numbers, two strings, three numbers.
pub open spec fn spec_use_cs(s: Seq<u8>) -> Result<(ServerMsgView, Seq<u8>), ParseError> {
    match spec_take_u32(s) {
        Err(e) => Err(e),
        Ok((job_id, s1)) => match spec_take_u32(s1) {
            Err(e) => Err(e),
            Ok((port, s2)) => match spec_take_str(s2) {
                Err(e) => Err(e),
                Ok((host, s3)) => match spec_take_str(s3) {
                    Err(e) => Err(e),
                    Ok((host_platform, s4)) => spec_use_cs_tail(
                        job_id,
                        port,
                        host,
                        host_platform,
                        s4,
                    ),
                },
            },
        },
    }
}

/// The body of a type-75 message: two strings and two numbers.
pub open spec fn spec_compile_result(s: Seq<u8>) -> Result<(ServerMsgView, Seq<u8>), ParseError> {
    match spec_take_str(s) {
        Err(e) => Err(e),
        Ok((stderr, s1)) => match spec_take_str(s1) {
            Err(e) => Err(e),
            Ok((stdout, s2)) => match spec_take_u32(s2) {
                Err(e) => Err(e),
                Ok((status, s3)) => match spec_take_u32(s3) {
                    Err(e) => Err(e),
                    Ok((oom, s4)) => Ok(
                        (ServerMsgView::CompileResult { stderr, stdout, status, oom }, s4),
                    ),
                },
            },
        },
    }
}

/// A whole message (type, then body) decoded, and the bytes past the last
/// field its type uses, which the decoder leaves alone.
pub open spec fn spec_parse_msg(s: Seq<u8>) -> Result<(ServerMsgView, Seq<u8>), ParseError> {
    match spec_take_u32(s) {
        Err(e) => Err(e),
        Ok((code, body)) => if code == 92 {
            spec_cs_conf(body)
        } else if code == 72 {
            spec_use_cs(body)
        } else if code == 94 {
            match spec_take_u32(body) {
                Err(e) => Err(e),
                Ok((ok, rest)) => Ok((ServerMsgView::VerifyEnvResult { ok }, rest)),
            }
        } else if code == 75 {
            spec_compile_result(body)
        } else if code == 90 {
            match spec_take_str(body) {
                Err(e) => Err(e),
                Ok((text, rest)) => Ok((ServerMsgView::StatusText { text }, rest)),
            }
        } else if code == 67 {
            Ok((ServerMsgView::End, body))
        } else {
            Ok((ServerMsgView::Unknown { code }, body))
        },
    }
}

/// Decodes a received message: its type, then the fields of that type.
pub fn parse_msg(buf: &mut BytesMut) -> (r: Result<ServerMsg, ParseError>)
    ensures
        match r {
            Ok(m) => spec_parse_msg(buf_contents(*old(buf))) == Ok::<
                (ServerMsgView, Seq<u8>),
                ParseError,
            >((m@, buf_contents(*final(buf)))),
            Err(e) => spec_parse_msg(buf_contents(*old(buf))) == Err::<
                (ServerMsgView, Seq<u8>),
                ParseError,
            >(e),
        },
{
    let msgtype = read_u32(buf)?;
    if msgtype == 92 {
        let max_scheduler_pong = read_u32(buf)?;
        let max_scheduler_ping = read_u32(buf)?;
        let bench_source = read_string(buf)?;
        Ok(ServerMsg::CsConf { max_scheduler_pong, max_scheduler_ping, bench_source })
    } else if msgtype == 72 {
        let job_id = read_u32(buf)?;
        let port = read_u32(buf)?;
        let host = read_string(buf)?;
        let host_platform = read_string(buf)?;
        let got_env = read_u32(buf)?;
        let client_id = read_u32(buf)?;
        let matched_job_id = read_u32(buf)?;
        Ok(
            ServerMsg::UseCs {
                job_id,
                port,
                host,
                host_platform,
                got_env,
                client_id,
                matched_job_id,
            },
        )
    } else if msgtype == 94 {
        let ok = read_u32(buf)?;
        Ok(ServerMsg::VerifyEnvResult { ok })
    } else if msgtype == 75 {
        let stderr = read_string(buf)?;
        let stdout = read_string(buf)?;
        let status = read_u32(buf)?;
        let oom = read_u32(buf)?;
        Ok(ServerMsg::CompileResult { stderr, stdout, status, oom })
    } else if msgtype == 90 {
        let text = read_string(buf)?;
        Ok(ServerMsg::StatusText { text })
    } else if msgtype == 67 {
        Ok(ServerMsg::End)
    } else {
        Ok(ServerMsg::Unknown { code: msgtype })
    }
}

/// A string written by `Msg::append_str` reads back as the same text,
/// leaving what followed it; the text's UTF-8 must leave room for the NUL in
/// a 32-bit length.
pub proof fn lemma_str_roundtrip(s: Seq<char>, rest: Seq<u8>)
    requires
        encode_utf8(s).len() + 1 <= u32::MAX,
    ensures
        spec_take_str(str_field(s) + rest) == Ok::<(Seq<char>, Seq<u8>), ParseError>((s, rest)),
{
    reveal(spec_take_str);
    let b = encode_utf8(s);
    let n = (b.len() + 1) as u32;
    let all = str_field(s) + rest;
    lemma_be_roundtrip(n);
    assert(all.take(4) =~= u32_field(n));
    assert(be_value(all) == be_value(all.take(4)));
    assert(all.skip(4).take(n - 1) =~= b);
    assert(all.skip(4).skip(n as int) =~= rest);
    encode_utf8_valid_utf8(s);
    encode_utf8_decode_utf8(s);
}

/// A number written by `Msg::append_u32` reads back as the same number,
/// leaving what followed it.
pub proof fn lemma_u32_roundtrip(n: u32, rest: Seq<u8>)
    ensures
        spec_take_u32(u32_field(n) + rest) == Ok::<(u32, Seq<u8>), ParseError>((n, rest)),
{
    let all = u32_field(n) + rest;
    lemma_be_roundtrip(n);
    assert(be_value(all) == be_value(all.take(4)));
    assert(all.take(4) =~= u32_field(n));
    assert(all.skip(4) =~= rest);
}

/// A compile-server assignment made of the fields the decoder expects (type
/// 72, two numbers, two strings, three numbers) decodes to those fields.
pub proof fn lemma_use_cs_roundtrip(
    job_id: u32,
    port: u32,
    host: Seq<char>,
    host_platform: Seq<char>,
    got_env: u32,
    client_id: u32,
    matched_job_id: u32,
    rest: Seq<u8>,
)
    requires
        encode_utf8(host).len() + 1 <= u32::MAX,
        encode_utf8(host_platform).len() + 1 <= u32::MAX,
    ensures
        spec_parse_msg(
            u32_field(72) + u32_field(job_id) + u32_field(port) + str_field(host) + str_field(
                host_platform,
            ) + u32_field(got_env) + u32_field(client_id) + u32_field(matched_job_id) + rest,
        ) == Ok::<(ServerMsgView, Seq<u8>), ParseError>(
            (
                ServerMsgView::UseCs {
                    job_id,
                    port,
                    host,
                    host_platform,
                    got_env,
                    client_id,
                    matched_job_id,
                },
                rest,
            ),
        ),
{
    let t7 = u32_field(matched_job_id) + rest;
    let t6 = u32_field(client_id) + t7;
    let t5 = u32_field(got_env) + t6;
    let t4 = str_field(host_platform) + t5;
    let t3 = str_field(host) + t4;
    let t2 = u32_field(port) + t3;
    let t1 = u32_field(job_id) + t2;
    let t0 = u32_field(72) + t1;
    assert(t0 =~= u32_field(72) + u32_field(job_id) + u32_field(port) + str_field(host) + str_field(
        host_platform,
    ) + u32_field(got_env) + u32_field(client_id) + u32_field(matched_job_id) + rest);
    lemma_u32_roundtrip(72, t1);
    lemma_u32_roundtrip(job_id, t2);
    lemma_u32_roundtrip(port, t3);
    lemma_str_roundtrip(host, t4);
    lemma_str_roundtrip(host_platform, t5);
    lemma_u32_roundtrip(got_env, t6);
    lemma_u32_roundtrip(client_id, t7);
    lemma_u32_roundtrip(matched_job_id, rest);
}

/// A compile result made of the fields the decoder expects (type 75, two
/// strings, two numbers) decodes to those fields.
pub proof fn lemma_compile_result_roundtrip(
    stderr: Seq<char>,
    stdout: Seq<char>,
    status: u32,
    oom: u32,
    rest: Seq<u8>,
)
    requires
        encode_utf8(stderr).len() + 1 <= u32::MAX,
        encode_utf8(stdout).len() + 1 <= u32::MAX,
    ensures
        spec_parse_msg(
            u32_field(75) + str_field(stderr) + str_field(stdout) + u32_field(status) + u32_field(oom)
                + rest,
        ) == Ok::<(ServerMsgView, Seq<u8>), ParseError>(
            (ServerMsgView::CompileResult { stderr, stdout, status, oom }, rest),
        ),
{
    let t4 = u32_field(oom) + rest;
    let t3 = u32_field(status) + t4;
    let t2 = str_field(stdout) + t3;
    let t1 = str_field(stderr) + t2;
    let t0 = u32_field(75) + t1;
    assert(t0 =~= u32_field(75) + str_field(stderr) + str_field(stdout) + u32_field(status)
        + u32_field(oom) + rest);
    lemma_u32_roundtrip(75, t1);
    lemma_str_roundtrip(stderr, t2);
    lemma_str_roundtrip(stdout, t3);
    lemma_u32_roundtrip(status, t4);
    lemma_u32_roundtrip(oom, rest);
}

/// A scheduler configuration made of the fields the decoder expects (type
/// 92, two numbers, a string) decodes to those fields.
pub proof fn lemma_cs_conf_roundtrip(pong: u32, ping: u32, bench: Seq<char>, rest: Seq<u8>)
    requires
        encode_utf8(bench).len() + 1 <= u32::MAX,
    ensures
        spec_parse_msg(u32_field(92) + u32_field(pong) + u32_field(ping) + str_field(bench) + rest)
            == Ok::<(ServerMsgView, Seq<u8>), ParseError>(
            (
                ServerMsgView::CsConf {
                    max_scheduler_pong: pong,
                    max_scheduler_ping: ping,
                    bench_source: bench,
                },
                rest,
            ),
        ),
{
    let t3 = str_field(bench) + rest;
    let t2 = u32_field(ping) + t3;
    let t1 = u32_field(pong) + t2;
    let t0 = u32_field(92) + t1;
    assert(t0 =~= u32_field(92) + u32_field(pong) + u32_field(ping) + str_field(bench) + rest);
    lemma_u32_roundtrip(92, t1);
    lemma_u32_roundtrip(pong, t2);
    lemma_u32_roundtrip(ping, t3);
    lemma_str_roundtrip(bench, rest);
}

/// A status line (type 90, one string) decodes to its text, and an
/// environment verdict (type 94, one number) to its number.
pub proof fn lemma_short_msgs_roundtrip(text: Seq<char>, ok: u32, rest: Seq<u8>)
    requires
        encode_utf8(text).len() + 1 <= u32::MAX,
    ensures
        spec_parse_msg(u32_field(90) + str_field(text) + rest) == Ok::<
            (ServerMsgView, Seq<u8>),
            ParseError,
        >((ServerMsgView::StatusText { text }, rest)),
        spec_parse_msg(u32_field(94) + u32_field(ok) + rest) == Ok::<
            (ServerMsgView, Seq<u8>),
            ParseError,
        >((ServerMsgView::VerifyEnvResult { ok }, rest)),
        spec_parse_msg(u32_field(67) + rest) == Ok::<(ServerMsgView, Seq<u8>), ParseError>(
            (ServerMsgView::End, rest),
        ),
{
    let t = str_field(text) + rest;
    assert(spec_parse_msg(u32_field(90) + t) == Ok::<(ServerMsgView, Seq<u8>), ParseError>(
        (ServerMsgView::StatusText { text }, rest),
    )) by {
        lemma_u32_roundtrip(90, t);
        lemma_str_roundtrip(text, rest);
    }
    assert(u32_field(90) + str_field(text) + rest =~= u32_field(90) + t);
    let v = u32_field(ok) + rest;
    assert(spec_parse_msg(u32_field(94) + v) == Ok::<(ServerMsgView, Seq<u8>), ParseError>(
        (ServerMsgView::VerifyEnvResult { ok }, rest),
    )) by {
        lemma_u32_roundtrip(94, v);
        lemma_u32_roundtrip(ok, rest);
    }
    assert(u32_field(94) + u32_field(ok) + rest =~= u32_field(94) + v);
    lemma_u32_roundtrip(67, rest);
}

} // verus!
