//! Messages a daemon sends: a type tag and a body of big-endian numbers and
//! length-prefixed, NUL-terminated strings, framed on the wire by the length
//! of tag and body.

use crate::wire::{be_bytes, be_value, lemma_be_roundtrip, network_u32_bytes};
use vstd::prelude::*;
use vstd::utf8::encode_utf8;

verus! {

/// The message types this client sends.
#[derive(Clone, Copy, Debug, PartialEq, Eq, Structural)]
pub enum MsgType {
    End,
    GetCS,
    CompileFile,
    FileChunk,
    Login,
    Stats,
    EnvTransfer,
    VerifyEnv,
}

impl MsgType {
    /// The number that stands for the type on the wire.
    pub open spec fn wire_code(self) -> u32 {
        match self {
            MsgType::End => 67,
            MsgType::GetCS => 71,
            MsgType::CompileFile => 73,
            MsgType::FileChunk => 74,
            MsgType::Login => 80,
            MsgType::Stats => 81,
            MsgType::EnvTransfer => 88,
            MsgType::VerifyEnv => 93,
        }
    }

    pub fn code(&self) -> (c: u32)
        ensures
            c == self.wire_code(),
    {
        match self {
            MsgType::End => 67,
            MsgType::GetCS => 71,
            MsgType::CompileFile => 73,
            MsgType::FileChunk => 74,
            MsgType::Login => 80,
            MsgType::Stats => 81,
            MsgType::EnvTransfer => 88,
            MsgType::VerifyEnv => 93,
        }
    }
}

/// The language of a source file that a compile server is asked about.
#[derive(Clone, Copy, Debug, PartialEq, Eq, Structural)]
pub enum SourceLanguage {
    C,
    CPlusPlus,
    OBJC,
    Custom,
}

impl SourceLanguage {
    pub open spec fn wire_code(self) -> u32 {
        match self {
            SourceLanguage::C => 0,
            SourceLanguage::CPlusPlus => 1,
            SourceLanguage::OBJC => 2,
            SourceLanguage::Custom => 3,
        }
    }

    pub fn code(&self) -> (c: u32)
        ensures
            c == self.wire_code(),
    {
        match self {
            SourceLanguage::C => 0,
            SourceLanguage::CPlusPlus => 1,
            SourceLanguage::OBJC => 2,
            SourceLanguage::Custom => 3,
        }
    }
}

/// A number field of a message body.
pub open spec fn u32_field(n: u32) -> Seq<u8> {
    be_bytes(n)
}

/// A string field: its length counting the terminating NUL (cut to 32
/// bits), its UTF-8 bytes, then the NUL.
pub open spec fn str_field(s: Seq<char>) -> Seq<u8> {
    u32_field(((encode_utf8(s).len() + 1) as u32)) + encode_utf8(s) + seq![0u8]
}

/// The string fields of a list of (platform, toolchain) pairs, pair by pair.
pub open spec fn env_pairs_bytes(envs: Seq<(&str, &str)>) -> Seq<u8>
    decreases envs.len(),
{
    if envs.len() == 0 {
        Seq::empty()
    } else {
        env_pairs_bytes(envs.drop_last()) + str_field(envs.last().0@) + str_field(envs.last().1@)
    }
}

/// A list of environments: their number (cut to 32 bits), then the pairs.
pub open spec fn envs_field(envs: Seq<(&str, &str)>) -> Seq<u8> {
    u32_field(envs.len() as u32) + env_pairs_bytes(envs)
}

/// A message: its type and the bytes of its body.
pub struct Msg {
    msgtype: MsgType,
    data: Vec<u8>,
}

impl View for Msg {
    type V = Seq<u8>;

    /// The body of the message.
    closed spec fn view(&self) -> Seq<u8> {
        self.data@
    }
}

fn push_bytes(data: &mut Vec<u8>, bytes: &[u8])
    ensures
        final(data)@ == old(data)@ + bytes@,
{
    let mut i: usize = 0;
    while i < bytes.len()
        invariant
            i <= bytes@.len(),
            data@ == old(data)@ + bytes@.take(i as int),
        decreases bytes@.len() - i,
    {
        data.push(bytes[i]);
        i = i + 1;
        assert(bytes@.take(i as int) =~= bytes@.take(i - 1) + seq![bytes@[i - 1]]);
    }
    assert(bytes@.take(i as int) =~= bytes@);
}

impl Msg {
    /// The type of the message.
    pub closed spec fn kind(&self) -> MsgType {
        self.msgtype
    }

    /// An empty message of the given type.
    pub fn new(msgtype: MsgType) -> (msg: Msg)
        ensures
            msg.kind() == msgtype,
            msg@ == Seq::<u8>::empty(),
    {
        Msg { msgtype: msgtype, data: Vec::new() }
    }

    pub fn msg_type(&self) -> (t: MsgType)
        ensures
            t == self.kind(),
    {
        self.msgtype
    }

    /// The body of the message.
    pub fn data(&self) -> (d: &[u8])
        ensures
            d@ == self@,
    {
        self.data.as_slice()
    }

    /// Appends a number, most significant byte first.
    pub fn append_u32(&mut self, val: u32)
        ensures
            final(self).kind() == old(self).kind(),
            final(self)@ == old(self)@ + u32_field(val),
    {
        let buf = network_u32_bytes(val);
        push_bytes(&mut self.data, buf.as_slice());
    }

    /// Appends a string: its length with the NUL, its bytes, and the NUL.
    pub fn append_str(&mut self, s: &str)
        ensures
            final(self).kind() == old(self).kind(),
            final(self)@ == old(self)@ + str_field(s@),
    {
        let bytes = s.as_bytes();
        let n: usize = bytes.len();
        #[verifier::truncate]
        let low: u32 = n as u32;
        let field_len: u32 = low.wrapping_add(1);
        assert(field_len == ((n + 1) as u32)) by (bit_vector)
            requires
                low == n as u32,
                low == 0xffff_ffffu32 ==> field_len == 0,
                low < 0xffff_ffffu32 ==> field_len == low + 1,
        ;
        self.append_u32(field_len);
        push_bytes(&mut self.data, bytes);
        self.data.push(0u8);
        assert(self@ =~= old(self)@ + str_field(s@));
    }

    /// Appends a list of (platform, toolchain) pairs: their number, then
    /// each pair's two strings.
    pub fn append_envs(&mut self, envs: Vec<(&str, &str)>)
        ensures
            final(self).kind() == old(self).kind(),
            final(self)@ == old(self)@ + envs_field(envs@),
    {
        let count: usize = envs.len();
        self.append_u32(count as u32);
        let ghost start = self@;
        let mut i: usize = 0;
        while i < envs.len()
            invariant
                i <= envs@.len(),
                self.kind() == old(self).kind(),
                start == old(self)@ + u32_field(envs@.len() as u32),
                self@ == start + env_pairs_bytes(envs@.take(i as int)),
            decreases envs@.len() - i,
        {
            let env = envs[i];
            self.append_str(env.0);
            self.append_str(env.1);
            i = i + 1;
            assert(envs@.take(i as int).drop_last() =~= envs@.take(i - 1));
            assert(self@ =~= start + env_pairs_bytes(envs@.take(i as int)));
        }
        assert(envs@.take(i as int) =~= envs@);
        assert(self@ =~= old(self)@ + envs_field(envs@));
    }

    /// The length announced for the message on the wire: body plus the
    /// four bytes of the type.
    pub fn len(&self) -> (n: usize)
        requires
            self@.len() + 4 <= usize::MAX,
        ensures
            n == self@.len() + 4,
    {
        self.data.len() + 4
    }
}

/// The message that carries one piece of a file: the size of the piece,
/// the size of its compressed form, then the compressed bytes.
pub fn file_chunk_msg(chunk_len: usize, compressed: Vec<u8>) -> (msg: Msg)
    ensures
        msg.kind() == MsgType::FileChunk,
        msg@ == u32_field(chunk_len as u32) + u32_field(compressed@.len() as u32) + compressed@,
{
    let mut compressed = compressed;
    let mut fcmsg = Msg::new(MsgType::FileChunk);
    fcmsg.append_u32(chunk_len as u32);
    fcmsg.append_u32(compressed.len() as u32);
    fcmsg.data.append(&mut compressed);
    fcmsg
}

/// Messages longer than this are never sent: the length goes out in three
/// bytes.
pub const MAX_FRAME_LEN: usize = 1000000;

/// What goes on the wire for a message: the announced length (body plus
/// type), the type, then the body.
pub open spec fn frame_bytes(kind: MsgType, body: Seq<u8>) -> Seq<u8> {
    be_bytes((body.len() + 4) as u32) + be_bytes(kind.wire_code()) + body
}

/// The bytes that send a message: the length, in the last three of four
/// bytes, the type, in the last two of four, and the body.
pub fn encode_frame(msg: &Msg) -> (out: Vec<u8>)
    requires
        msg@.len() + 4 < MAX_FRAME_LEN,
    ensures
        out@ == frame_bytes(msg.kind(), msg@),
{
    let l: usize = msg.len();
    let mut out: Vec<u8> = Vec::new();
    out.push(0u8);
    out.push((l >> 16usize) as u8);
    out.push((l >> 8usize) as u8);
    out.push(l as u8);
    let code: u32 = msg.msgtype.code();
    let code16: u16 = code as u16;
    out.push(0u8);
    out.push(0u8);
    out.push((code16 >> 8u16) as u8);
    out.push(code as u8);
    proof {
        let l32 = l as u32;
        assert(l32 == l);
        assert(0u8 == (l32 >> 24u32) as u8 && (l >> 16usize) as u8 == (l32 >> 16u32) as u8
            && (l >> 8usize) as u8 == (l32 >> 8u32) as u8 && l as u8 == l32 as u8) by (bit_vector)
            requires
                l < 1000000,
                l32 == l,
        ;
        assert(0u8 == (code >> 24u32) as u8 && 0u8 == (code >> 16u32) as u8
            && (code16 >> 8u16) as u8 == (code >> 8u32) as u8) by (bit_vector)
            requires
                code < 256,
                code16 == code as u16,
        ;
        assert(out@ =~= be_bytes(l32) + be_bytes(code));
    }
    push_bytes(&mut out, msg.data.as_slice());
    assert(out@ =~= frame_bytes(msg.kind(), msg@));
    out
}

/// Reading a frame back: its first four bytes give the length announced by
/// `len`, the next four the type, and the rest is the body.
pub proof fn lemma_frame_roundtrip(kind: MsgType, body: Seq<u8>)
    requires
        body.len() + 4 < MAX_FRAME_LEN,
    ensures
        be_value(frame_bytes(kind, body)) == body.len() + 4,
        be_value(frame_bytes(kind, body).skip(4)) == kind.wire_code(),
        frame_bytes(kind, body).skip(8) == body,
        frame_bytes(kind, body).len() == body.len() + 8,
{
    let f = frame_bytes(kind, body);
    lemma_be_roundtrip((body.len() + 4) as u32);
    lemma_be_roundtrip(kind.wire_code());
    assert(f.take(4) =~= be_bytes((body.len() + 4) as u32));
    assert(f.skip(4).take(4) =~= be_bytes(kind.wire_code()));
    assert(f.skip(8) =~= body);
    assert(be_value(f) == be_value(f.take(4)));
    assert(be_value(f.skip(4)) == be_value(f.skip(4).take(4)));
}

} // verus!
