use iceccd::msg::{encode_frame, file_chunk_msg, Msg, MsgType, SourceLanguage};
use iceccd::requests::{
    chunk_ranges, compile_file_msg, file_chunk_msgs, legacy_get_cs_msg, env_transfer_msg, get_cs_msg, login_msg, protocol_confirm,
    protocol_offer, stats_msg, verify_env_msg, FILE_CHUNK_SIZE, MAX_PROTOCOL_VERSION,
};
use iceccd::wire::{decode_u32_be, decode_u32_le};

fn u32_bytes(n: u32) -> Vec<u8> {
    n.to_be_bytes().to_vec()
}

fn str_bytes(s: &str) -> Vec<u8> {
    let mut v = u32_bytes(s.len() as u32 + 1);
    v.extend_from_slice(s.as_bytes());
    v.push(0);
    v
}

#[test]
fn type_codes_match_the_protocol() {
    assert_eq!(MsgType::End.code(), 67);
    assert_eq!(MsgType::GetCS.code(), 71);
    assert_eq!(MsgType::CompileFile.code(), 73);
    assert_eq!(MsgType::FileChunk.code(), 74);
    assert_eq!(MsgType::Login.code(), 80);
    assert_eq!(MsgType::Stats.code(), 81);
    assert_eq!(MsgType::EnvTransfer.code(), 88);
    assert_eq!(MsgType::VerifyEnv.code(), 93);
    assert_eq!(SourceLanguage::C.code(), 0);
    assert_eq!(SourceLanguage::CPlusPlus.code(), 1);
    assert_eq!(SourceLanguage::OBJC.code(), 2);
    assert_eq!(SourceLanguage::Custom.code(), 3);
}

#[test]
fn new_message_is_empty() {
    let m = Msg::new(MsgType::Stats);
    assert_eq!(m.msg_type(), MsgType::Stats);
    assert!(m.data().is_empty());
    assert_eq!(m.len(), 4);
}

#[test]
fn append_u32_is_big_endian() {
    let mut m = Msg::new(MsgType::Login);
    m.append_u32(0x0102_0304);
    m.append_u32(7);
    assert_eq!(m.data(), &[1, 2, 3, 4, 0, 0, 0, 7][..]);
    assert_eq!(m.len(), 12);
}

#[test]
fn append_str_counts_the_nul() {
    let mut m = Msg::new(MsgType::Login);
    m.append_str("gcc");
    assert_eq!(m.data(), &[0, 0, 0, 4, b'g', b'c', b'c', 0][..]);
    let mut e = Msg::new(MsgType::Login);
    e.append_str("");
    assert_eq!(e.data(), &[0, 0, 0, 1, 0][..]);
}

#[test]
fn append_str_uses_utf8_length() {
    let mut m = Msg::new(MsgType::Login);
    m.append_str("é");
    assert_eq!(m.data(), &[0, 0, 0, 3, 0xc3, 0xa9, 0][..]);
}

#[test]
fn append_envs_writes_count_then_pairs() {
    let mut m = Msg::new(MsgType::GetCS);
    m.append_envs(vec![("x86_64", "foo.tar.gz"), ("arm", "b")]);
    let mut want = u32_bytes(2);
    want.extend(str_bytes("x86_64"));
    want.extend(str_bytes("foo.tar.gz"));
    want.extend(str_bytes("arm"));
    want.extend(str_bytes("b"));
    assert_eq!(m.data(), &want[..]);
    let mut none = Msg::new(MsgType::GetCS);
    none.append_envs(vec![]);
    assert_eq!(none.data(), &[0, 0, 0, 0][..]);
}

#[test]
fn frame_holds_length_type_and_body() {
    let mut m = Msg::new(MsgType::VerifyEnv);
    m.append_u32(5);
    let f = encode_frame(&m);
    assert_eq!(f, vec![0, 0, 0, 8, 0, 0, 0, 93, 0, 0, 0, 5]);
    let empty = encode_frame(&Msg::new(MsgType::End));
    assert_eq!(empty, vec![0, 0, 0, 4, 0, 0, 0, 67]);
}

#[test]
fn frame_length_spans_three_bytes() {
    let mut m = Msg::new(MsgType::FileChunk);
    for _ in 0..70000 {
        m.append_u32(0);
    }
    let f = encode_frame(&m);
    assert_eq!(&f[..4], &[0, 4, 0x45, 0xc4][..]);
    assert_eq!(decode_u32_be([f[0], f[1], f[2], f[3]]) as usize, m.len());
    assert_eq!(f.len(), m.len() + 4);
}

#[test]
fn decoders_read_both_byte_orders() {
    assert_eq!(decode_u32_be([0, 0, 1, 2]), 258);
    assert_eq!(decode_u32_be([0x12, 0x34, 0x56, 0x78]), 0x1234_5678);
    assert_eq!(decode_u32_le([0x12, 0x34, 0x56, 0x78]), 0x7856_3412);
    assert_eq!(decode_u32_le([35, 0, 0, 0]), 35);
}

#[test]
fn handshake_bytes() {
    assert_eq!(protocol_offer(), [35, 0, 0, 0]);
    assert_eq!(decode_u32_le(protocol_offer()), MAX_PROTOCOL_VERSION as u32);
    assert_eq!(protocol_confirm(34), [34, 0, 0, 0]);
    assert_eq!(protocol_confirm(0x1_02), [2, 0, 0, 0]);
}

#[test]
fn file_chunk_message_layout() {
    let m = file_chunk_msg(100000, vec![9, 8, 7]);
    assert_eq!(m.msg_type(), MsgType::FileChunk);
    assert_eq!(m.data(), &[0, 1, 0x86, 0xa0, 0, 0, 0, 3, 9, 8, 7][..]);
}

#[test]
fn chunks_cover_the_file() {
    assert!(chunk_ranges(0).is_empty());
    assert_eq!(chunk_ranges(1), vec![(0, 1)]);
    assert_eq!(chunk_ranges(FILE_CHUNK_SIZE), vec![(0, 100000)]);
    assert_eq!(chunk_ranges(100001), vec![(0, 100000), (100000, 100001)]);
    assert_eq!(
        chunk_ranges(250000),
        vec![(0, 100000), (100000, 200000), (200000, 250000)]
    );
}

#[test]
fn login_message_layout() {
    let m = login_msg();
    assert_eq!(m.msg_type(), MsgType::Login);
    let mut want = Vec::new();
    want.extend(u32_bytes(0));
    want.extend(u32_bytes(8));
    want.extend(u32_bytes(0));
    want.extend(str_bytes("cat"));
    want.extend(str_bytes("x86_64"));
    want.extend(u32_bytes(0));
    want.extend(u32_bytes(1));
    assert_eq!(m.data(), &want[..]);
}

#[test]
fn stats_message_layout() {
    let m = stats_msg();
    assert_eq!(m.msg_type(), MsgType::Stats);
    assert_eq!(m.data(), &[0u8; 16][..]);
}

fn get_cs_prefix(file: &str, lang: u32) -> Vec<u8> {
    let mut want = u32_bytes(1);
    want.extend(str_bytes("x86_64"));
    want.extend(str_bytes("foo.tar.gz"));
    want.extend(str_bytes(file));
    want.extend(u32_bytes(lang));
    want.extend(u32_bytes(1));
    want.extend(str_bytes("x86_64"));
    want.extend(u32_bytes(0));
    want.extend(u32_bytes(53));
    want.extend(str_bytes(""));
    want
}

#[test]
fn get_cs_layout_follows_protocol() {
    let old = get_cs_msg(30, "a.c", SourceLanguage::CPlusPlus);
    assert_eq!(old.msg_type(), MsgType::GetCS);
    assert_eq!(old.data(), &get_cs_prefix("a.c", 1)[..]);

    let mid = get_cs_msg(33, "/tmp/test-icecc.c", SourceLanguage::C);
    let mut want = get_cs_prefix("/tmp/test-icecc.c", 0);
    want.extend(u32_bytes(0));
    assert_eq!(mid.data(), &want[..]);

    let new = get_cs_msg(35, "x.m", SourceLanguage::OBJC);
    let mut want = get_cs_prefix("x.m", 2);
    want.extend(u32_bytes(0));
    want.extend(u32_bytes(0));
    assert_eq!(new.data(), &want[..]);
}

fn compile_prefix(job_id: u32) -> Vec<u8> {
    let mut want = u32_bytes(0);
    want.extend(u32_bytes(job_id));
    want.extend(u32_bytes(0));
    want.extend(u32_bytes(0));
    want.extend(str_bytes("foo.tar.gz"));
    want.extend(str_bytes("x86_64"));
    want.extend(str_bytes("gcc"));
    want
}

#[test]
fn compile_file_layout_follows_protocol() {
    let m33 = compile_file_msg(33, 12);
    assert_eq!(m33.msg_type(), MsgType::CompileFile);
    assert_eq!(m33.data(), &compile_prefix(12)[..]);

    let m34 = compile_file_msg(34, 12);
    let mut want = compile_prefix(12);
    want.extend(str_bytes("bar.c"));
    want.extend(str_bytes("/tmp/"));
    assert_eq!(m34.data(), &want[..]);

    let m35 = compile_file_msg(35, 12);
    want.extend(str_bytes("bar.o"));
    want.extend(u32_bytes(0));
    assert_eq!(m35.data(), &want[..]);
}

#[test]
fn environment_messages() {
    let t = env_transfer_msg("foo.tar.gz", "i686");
    assert_eq!(t.msg_type(), MsgType::EnvTransfer);
    let mut want = str_bytes("foo.tar.gz");
    want.extend(str_bytes("i686"));
    assert_eq!(t.data(), &want[..]);

    let v = verify_env_msg("foo.tar.gz", "x86_64");
    assert_eq!(v.msg_type(), MsgType::VerifyEnv);
    let mut want = str_bytes("foo.tar.gz");
    want.extend(str_bytes("x86_64"));
    assert_eq!(v.data(), &want[..]);
}

#[test]
fn file_is_sent_as_compressed_pieces() {
    let data: Vec<u8> = (0..250000u32).map(|i| (i % 251) as u8).collect();
    let (msgs, complete) = file_chunk_msgs(&data, |piece: &[u8]| Some(piece[..3].to_vec()));
    assert!(complete);
    assert_eq!(msgs.len(), 3);
    for (m, (start, end)) in msgs.iter().zip(chunk_ranges(data.len())) {
        assert_eq!(m.msg_type(), MsgType::FileChunk);
        let mut want = ((end - start) as u32).to_be_bytes().to_vec();
        want.extend_from_slice(&[0, 0, 0, 3]);
        want.extend_from_slice(&data[start..start + 3]);
        assert_eq!(m.data(), &want[..]);
    }
    assert_eq!(&msgs[2].data()[..4], &[0, 0, 0xc3, 0x50][..]);
}

#[test]
fn empty_file_sends_no_pieces() {
    let (msgs, complete) = file_chunk_msgs(&[], |_piece: &[u8]| None);
    assert!(complete);
    assert!(msgs.is_empty());
}

#[test]
fn refused_piece_stops_the_pieces() {
    let data = vec![7u8; 250000];
    let (msgs, complete) =
        file_chunk_msgs(&data, |piece: &[u8]| if piece.len() < 100000 { None } else { Some(vec![1]) });
    assert!(!complete);
    assert_eq!(msgs.len(), 2);
    assert_eq!(msgs[1].data(), &[0, 1, 0x86, 0xa0, 0, 0, 0, 1, 1][..]);
}

#[test]
fn stand_alone_get_cs_layout() {
    let m = legacy_get_cs_msg();
    assert_eq!(m.msg_type(), MsgType::GetCS);
    let mut want = u32_bytes(1);
    want.extend(str_bytes("x86_64"));
    want.extend(str_bytes("/tmp/foo.tar.gz"));
    want.extend(str_bytes("/tmp/test-icecc.c"));
    want.extend(u32_bytes(0));
    want.extend(u32_bytes(1));
    want.extend(str_bytes("x86_64"));
    want.extend(u32_bytes(0));
    want.extend(u32_bytes(53));
    want.extend(str_bytes(""));
    want.extend(u32_bytes(0));
    assert_eq!(m.data(), &want[..]);
}

#[test]
fn pieces_join_back_to_the_file() {
    let data: Vec<u8> = (0..230001u32).map(|i| (i * 7 % 256) as u8).collect();
    let (msgs, complete) = file_chunk_msgs(&data, |piece: &[u8]| Some(piece.to_vec()));
    assert!(complete);
    let mut joined = Vec::new();
    for m in &msgs {
        let d = m.data();
        let raw = u32::from_be_bytes([d[0], d[1], d[2], d[3]]) as usize;
        let k = u32::from_be_bytes([d[4], d[5], d[6], d[7]]) as usize;
        assert_eq!(k, d.len() - 8);
        assert!(0 < raw && raw <= FILE_CHUNK_SIZE);
        joined.extend_from_slice(&d[8..]);
    }
    assert_eq!(joined, data);
}
