//! The requests this client makes, field by field, and the pieces a file is
//! sent in.

use crate::msg::{file_chunk_msg, str_field, u32_field, Msg, MsgType, SourceLanguage};
use crate::parse::{lemma_u32_roundtrip, spec_take_u32, ParseError};
use crate::wire::{be_bytes, le_value, lemma_be_roundtrip};
use vstd::prelude::*;
use vstd::slice::slice_subrange;

verus! {

/// The highest protocol version this client speaks.
pub const MAX_PROTOCOL_VERSION: u8 = 35;

/// Files are sent in pieces of at most this many bytes.
pub const FILE_CHUNK_SIZE: usize = 100000;

/// The four bytes that open a connection: the highest protocol version this
/// client speaks, as a little-endian number.
pub fn protocol_offer() -> (b: [u8; 4])
    ensures
        b@ == seq![MAX_PROTOCOL_VERSION, 0u8, 0u8, 0u8],
        le_value(b@) == MAX_PROTOCOL_VERSION,
{
    let b: [u8; 4] = [MAX_PROTOCOL_VERSION, 0, 0, 0];
    let v: u8 = MAX_PROTOCOL_VERSION;
    assert((v as u32) | ((0u8 as u32) << 8u32) | ((0u8 as u32) << 16u32) | ((0u8 as u32) << 24u32) == v as u32)
        by (bit_vector);
    b
}

/// The four bytes that confirm the protocol version the peer proposed: its
/// low byte, then zeros.
pub fn protocol_confirm(proto: u32) -> (b: [u8; 4])
    ensures
        b@ == seq![proto as u8, 0u8, 0u8, 0u8],
        le_value(b@) == proto % 256,
{
    let low: u8 = proto as u8;
    assert((low as u32) | ((0u8 as u32) << 8u32) | ((0u8 as u32) << 16u32) | ((0u8 as u32) << 24u32) == proto % 256)
        by (bit_vector)
        requires
            low == proto as u8,
    ;
    [low, 0, 0, 0]
}

/// The body of a login: no port, eight jobs, no environments, the node
/// name, the platform, no chroot, and no remote jobs.
pub open spec fn login_body() -> Seq<u8> {
    u32_field(0) + u32_field(8) + u32_field(0) + str_field("cat"@) + str_field("x86_64"@)
        + u32_field(0) + u32_field(1)
}

/// The login message a daemon sends to the scheduler.
pub fn login_msg() -> (msg: Msg)
    ensures
        msg.kind() == MsgType::Login,
        msg@ == login_body(),
{
    let mut login_msg = Msg::new(MsgType::Login);
    login_msg.append_u32(0);  // not supporting remote connections so port 0 is fine.
    login_msg.append_u32(8);  // not supporting remote connections so this doesn't really matter.
    login_msg.append_u32(0);  // no envs.
    login_msg.append_str("cat");
    login_msg.append_str("x86_64");
    login_msg.append_u32(0);  // chroot_possible is false.
    login_msg.append_u32(1);  // noremote.
    assert(login_msg@ =~= login_body());
    login_msg
}

/// The body of a statistics report: four zeros.
pub open spec fn stats_body() -> Seq<u8> {
    u32_field(0) + u32_field(0) + u32_field(0) + u32_field(0)
}

/// The statistics message a daemon sends to the scheduler.
pub fn stats_msg() -> (msg: Msg)
    ensures
        msg.kind() == MsgType::Stats,
        msg@ == stats_body(),
{
    let mut stats_msg = Msg::new(MsgType::Stats);
    stats_msg.append_u32(0);
    stats_msg.append_u32(0);
    stats_msg.append_u32(0);
    stats_msg.append_u32(0);
    assert(stats_msg@ =~= stats_body());
    stats_msg
}

/// The body of the stand-alone client's request for a compile server: the
/// environment archive "/tmp/foo.tar.gz" for platform "x86_64", the file
/// "/tmp/test-icecc.c" in C, one job, the preferred platform, no argument
/// flags, client 53, no preferred host, and one zero.
pub open spec fn legacy_get_cs_body() -> Seq<u8> {
    u32_field(1) + str_field("x86_64"@) + str_field("/tmp/foo.tar.gz"@) + str_field(
        "/tmp/test-icecc.c"@,
    ) + u32_field(0) + u32_field(1) + str_field("x86_64"@) + u32_field(0) + u32_field(53)
        + str_field(""@) + u32_field(0)
}

/// The stand-alone client's one request for a compile server.
pub fn legacy_get_cs_msg() -> (msg: Msg)
    ensures
        msg.kind() == MsgType::GetCS,
        msg@ == legacy_get_cs_body(),
{
    let mut get_cs_msg = Msg::new(MsgType::GetCS);
    let envs = vec![("x86_64", "/tmp/foo.tar.gz")];
    let ghost pairs = envs@;
    get_cs_msg.append_envs(envs);
    assert(get_cs_msg@ =~= u32_field(1) + str_field("x86_64"@) + str_field("/tmp/foo.tar.gz"@)) by {
        assert(pairs.len() == 1);
        assert(pairs.drop_last() =~= Seq::<(&str, &str)>::empty());
        assert(crate::msg::env_pairs_bytes(pairs.drop_last()) =~= Seq::<u8>::empty());
    }
    get_cs_msg.append_str("/tmp/test-icecc.c");
    get_cs_msg.append_u32(0);
    get_cs_msg.append_u32(1);
    get_cs_msg.append_str("x86_64");
    get_cs_msg.append_u32(0);
    get_cs_msg.append_u32(53);
    get_cs_msg.append_str("");
    get_cs_msg.append_u32(0);
    assert(get_cs_msg@ =~= legacy_get_cs_body());
    get_cs_msg
}

/// The compile job's number fields, read in order, are language 0, the
/// given job id, and two zero flags, for every protocol version and every
/// job id; its strings are the environment "foo.tar.gz", the platform
/// "x86_64" and the compiler "gcc", followed from protocol 34 on by the
/// input file "bar.c" and the directory "/tmp/", and from protocol 35 on by
/// the output file "bar.o" and a zero.
pub proof fn lemma_compile_file_fields(protocol: u32, job_id: u32)
    ensures
        ({
            let b = compile_file_body(protocol, job_id);
            &&& spec_take_u32(b) == Ok::<(u32, Seq<u8>), ParseError>((0u32, b.skip(4)))
            &&& spec_take_u32(b.skip(4)) == Ok::<(u32, Seq<u8>), ParseError>((job_id, b.skip(8)))
            &&& spec_take_u32(b.skip(8)) == Ok::<(u32, Seq<u8>), ParseError>((0u32, b.skip(12)))
            &&& spec_take_u32(b.skip(12)) == Ok::<(u32, Seq<u8>), ParseError>((0u32, b.skip(16)))
            &&& b.subrange(4, 8) == be_bytes(job_id)
            &&& b.skip(16) == str_field("foo.tar.gz"@) + str_field("x86_64"@) + str_field("gcc"@) + (
            if protocol < 34 {
                Seq::<u8>::empty()
            } else if protocol == 34 {
                str_field("bar.c"@) + str_field("/tmp/"@)
            } else {
                str_field("bar.c"@) + str_field("/tmp/"@) + str_field("bar.o"@) + be_bytes(0)
            })
        }),
{
    let b = compile_file_body(protocol, job_id);
    let t = str_field("foo.tar.gz"@) + str_field("x86_64"@) + str_field("gcc"@) + (if protocol < 34 {
        Seq::<u8>::empty()
    } else if protocol == 34 {
        str_field("bar.c"@) + str_field("/tmp/"@)
    } else {
        str_field("bar.c"@) + str_field("/tmp/"@) + str_field("bar.o"@) + be_bytes(0)
    });
    let (lang, flags, rest_flags) = (0u32, 0u32, 0u32);
    assert(b =~= u32_field(lang) + u32_field(job_id) + u32_field(flags) + u32_field(rest_flags) + t);
    lemma_four_numbers(lang, job_id, flags, rest_flags, t);
}

/// A login's number fields are, in order, port 0, eight jobs and no
/// environments; then come the node name "cat" and the platform "x86_64";
/// it ends with chroot off (0) and no remote jobs (1).
pub proof fn lemma_login_fields()
    ensures
        ({
            let b = login_body();
            &&& spec_take_u32(b) == Ok::<(u32, Seq<u8>), ParseError>((0u32, b.skip(4)))
            &&& spec_take_u32(b.skip(4)) == Ok::<(u32, Seq<u8>), ParseError>((8u32, b.skip(8)))
            &&& spec_take_u32(b.skip(8)) == Ok::<(u32, Seq<u8>), ParseError>((0u32, b.skip(12)))
            &&& b.skip(12).take(b.len() - 20) == str_field("cat"@) + str_field("x86_64"@)
            &&& spec_take_u32(b.skip(b.len() - 8)) == Ok::<(u32, Seq<u8>), ParseError>(
                (0u32, b.skip(b.len() - 4)),
            )
            &&& spec_take_u32(b.skip(b.len() - 4)) == Ok::<(u32, Seq<u8>), ParseError>(
                (1u32, Seq::<u8>::empty()),
            )
        }),
{
    let b = login_body();
    let m = str_field("cat"@) + str_field("x86_64"@);
    let e = u32_field(0) + u32_field(1);
    assert(b =~= u32_field(0) + (u32_field(8) + (u32_field(0) + (m + e))));
    lemma_u32_roundtrip(0, u32_field(8) + (u32_field(0) + (m + e)));
    assert(b.skip(4) =~= u32_field(8) + (u32_field(0) + (m + e)));
    lemma_u32_roundtrip(8, u32_field(0) + (m + e));
    assert(b.skip(8) =~= u32_field(0) + (m + e));
    lemma_u32_roundtrip(0, m + e);
    assert(b.skip(12) =~= m + e);
    lemma_be_roundtrip(0);
    lemma_be_roundtrip(1);
    assert(b.skip(12).take(b.len() - 20) =~= m);
    assert(b.skip(b.len() - 8) =~= u32_field(0) + u32_field(1));
    lemma_u32_roundtrip(0, u32_field(1));
    assert(b.skip(b.len() - 4) =~= u32_field(1) + Seq::<u8>::empty());
    lemma_u32_roundtrip(1, Seq::<u8>::empty());
}

/// A statistics report is exactly four zero numbers.
pub proof fn lemma_stats_fields()
    ensures
        ({
            let b = stats_body();
            &&& b.len() == 16
            &&& spec_take_u32(b) == Ok::<(u32, Seq<u8>), ParseError>((0u32, b.skip(4)))
            &&& spec_take_u32(b.skip(4)) == Ok::<(u32, Seq<u8>), ParseError>((0u32, b.skip(8)))
            &&& spec_take_u32(b.skip(8)) == Ok::<(u32, Seq<u8>), ParseError>((0u32, b.skip(12)))
            &&& spec_take_u32(b.skip(12)) == Ok::<(u32, Seq<u8>), ParseError>((0u32, b.skip(16)))
        }),
{
    let b = stats_body();
    assert(b =~= u32_field(0) + u32_field(0) + u32_field(0) + u32_field(0) + Seq::<u8>::empty());
    lemma_four_numbers(0, 0, 0, 0, Seq::<u8>::empty());
    lemma_be_roundtrip(0);
}

/// The stand-alone client's request for a compile server is the
/// library's protocol-31 request for "/tmp/test-icecc.c" in C with the
/// environment archive named "/tmp/foo.tar.gz" instead of "foo.tar.gz":
/// the same count of one environment, the same platform, and the same
/// fields after the archive name, ending in one zero number.
pub proof fn lemma_legacy_get_cs_differs_only_in_archive()
    ensures
        exists|tail: Seq<u8>|
            {
                &&& get_cs_body(31, "/tmp/test-icecc.c"@, SourceLanguage::C) == u32_field(1)
                    + str_field("x86_64"@) + str_field("foo.tar.gz"@) + tail
                &&& legacy_get_cs_body() == u32_field(1) + str_field("x86_64"@) + str_field(
                    "/tmp/foo.tar.gz"@,
                ) + tail
                &&& tail.skip(tail.len() - 4) == be_bytes(0)
            },
{
    let tail = str_field("/tmp/test-icecc.c"@) + u32_field(0) + u32_field(1) + str_field("x86_64"@)
        + u32_field(0) + u32_field(53) + str_field(""@) + u32_field(0);
    lemma_be_roundtrip(0);
    assert(get_cs_body(31, "/tmp/test-icecc.c"@, SourceLanguage::C) =~= u32_field(1) + str_field(
        "x86_64"@,
    ) + str_field("foo.tar.gz"@) + tail);
    assert(legacy_get_cs_body() =~= u32_field(1) + str_field("x86_64"@) + str_field(
        "/tmp/foo.tar.gz"@,
    ) + tail);
    assert(tail.skip(tail.len() - 4) =~= be_bytes(0));
}

proof fn lemma_four_numbers(n0: u32, n1: u32, n2: u32, n3: u32, t: Seq<u8>)
    ensures
        ({
            let b = u32_field(n0) + u32_field(n1) + u32_field(n2) + u32_field(n3) + t;
            &&& spec_take_u32(b) == Ok::<(u32, Seq<u8>), ParseError>((n0, b.skip(4)))
            &&& spec_take_u32(b.skip(4)) == Ok::<(u32, Seq<u8>), ParseError>((n1, b.skip(8)))
            &&& spec_take_u32(b.skip(8)) == Ok::<(u32, Seq<u8>), ParseError>((n2, b.skip(12)))
            &&& spec_take_u32(b.skip(12)) == Ok::<(u32, Seq<u8>), ParseError>((n3, b.skip(16)))
            &&& b.subrange(4, 8) == be_bytes(n1)
            &&& b.skip(16) == t
        }),
{
    let b = u32_field(n0) + u32_field(n1) + u32_field(n2) + u32_field(n3) + t;
    assert(b =~= u32_field(n0) + (u32_field(n1) + (u32_field(n2) + (u32_field(n3) + t))));
    lemma_u32_roundtrip(n0, u32_field(n1) + (u32_field(n2) + (u32_field(n3) + t)));
    assert(b.skip(4) =~= u32_field(n1) + (u32_field(n2) + (u32_field(n3) + t)));
    lemma_u32_roundtrip(n1, u32_field(n2) + (u32_field(n3) + t));
    assert(b.skip(8) =~= u32_field(n2) + (u32_field(n3) + t));
    lemma_u32_roundtrip(n2, u32_field(n3) + t);
    assert(b.skip(12) =~= u32_field(n3) + t);
    lemma_u32_roundtrip(n3, t);
    assert(b.skip(16) =~= t);
    assert(b.subrange(4, 8) =~= be_bytes(n1));
}

/// The request for a compile server ends, after the empty preferred host,
/// with no extra field below protocol 31, one zero number from 31 to 33,
/// and two zero numbers from 34 on; before that come, in order, one
/// environment ("x86_64" with "foo.tar.gz"), the file, the language's code,
/// one job, the platform "x86_64", no flags, client 53 and the empty host.
pub proof fn lemma_get_cs_fields(protocol: u32, file: Seq<char>, lang: SourceLanguage)
    ensures
        ({
            let prefix = u32_field(1) + str_field("x86_64"@) + str_field("foo.tar.gz"@) + str_field(
                file,
            ) + u32_field(lang.wire_code()) + u32_field(1) + str_field("x86_64"@) + u32_field(0)
                + u32_field(53) + str_field(""@);
            let b = get_cs_body(protocol, file, lang);
            &&& protocol < 31 ==> b == prefix
            &&& 31 <= protocol < 34 ==> b == prefix + be_bytes(0) && b.len() == prefix.len() + 4
            &&& 34 <= protocol ==> b == prefix + be_bytes(0) + be_bytes(0) && b.len() == prefix.len()
                + 8
            &&& b.take(prefix.len() as int) == prefix
        }),
{
    let prefix = u32_field(1) + str_field("x86_64"@) + str_field("foo.tar.gz"@) + str_field(file)
        + u32_field(lang.wire_code()) + u32_field(1) + str_field("x86_64"@) + u32_field(0) + u32_field(
        53,
    ) + str_field(""@);
    let b = get_cs_body(protocol, file, lang);
    if protocol < 31 {
        assert(b =~= prefix);
    } else if protocol < 34 {
        assert(b =~= prefix + be_bytes(0));
    } else {
        assert(b =~= prefix + be_bytes(0) + be_bytes(0));
    }
    assert(b.take(prefix.len() as int) =~= prefix);
}

/// The body of a request for a compile server: the one environment this
/// client has (platform "x86_64", toolchain "foo.tar.gz"), the file, its
/// language, one job, the preferred platform, no argument flags, client
/// 53, no preferred host, and the fields later protocol versions add.
pub open spec fn get_cs_body(protocol: u32, file: Seq<char>, lang: SourceLanguage) -> Seq<u8> {
    u32_field(1) + str_field("x86_64"@) + str_field("foo.tar.gz"@) + str_field(file) + u32_field(
        lang.wire_code(),
    ) + u32_field(1) + str_field("x86_64"@) + u32_field(0) + u32_field(53) + str_field(""@) + (
    if protocol >= 31 {
        u32_field(0) + (if protocol >= 34 {
            u32_field(0)
        } else {
            Seq::empty()
        })
    } else {
        Seq::empty()
    })
}

/// The request for a compile server for `file`, laid out for the protocol
/// version agreed with the scheduler.
pub fn get_cs_msg(protocol: u32, file: &str, lang: SourceLanguage) -> (msg: Msg)
    ensures
        msg.kind() == MsgType::GetCS,
        msg@ == get_cs_body(protocol, file@, lang),
{
    let mut get_cs_msg = Msg::new(MsgType::GetCS);

    // a set of (host platform, tool chain file) pairs for each platform we have a toolchain for.
    let envs = vec![("x86_64", "foo.tar.gz")];
    let ghost pairs = envs@;
    get_cs_msg.append_envs(envs);
    assert(get_cs_msg@ =~= u32_field(1) + str_field("x86_64"@) + str_field("foo.tar.gz"@)) by {
        assert(pairs.len() == 1);
        assert(pairs.drop_last() =~= Seq::<(&str, &str)>::empty());
        assert(crate::msg::env_pairs_bytes(pairs.drop_last()) =~= Seq::<u8>::empty());
    }

    // information about the file we'll compile to show to things monitoring jobs.
    get_cs_msg.append_str(file);
    get_cs_msg.append_u32(lang.code());

    // the number of jobs we'd like to run.
    get_cs_msg.append_u32(1);

    // the type of platform we would prefer the compile server be.
    get_cs_msg.append_str("x86_64");

    // argument flags, only used in calculating speed of compile servers.
    get_cs_msg.append_u32(0);

    // client id is really a daemon id that requested a compile server allocation from the scheduler.
    get_cs_msg.append_u32(53);

    // preferred host is to use a particular daemon, not supported.
    get_cs_msg.append_str("");
    let ghost fixed = get_cs_msg@;
    assert(fixed =~= u32_field(1) + str_field("x86_64"@) + str_field("foo.tar.gz"@) + str_field(file@)
        + u32_field(lang.wire_code()) + u32_field(1) + str_field("x86_64"@) + u32_field(0)
        + u32_field(53) + str_field(""@));

    if protocol >= 31 {
        get_cs_msg.append_u32(0);
        if protocol >= 34 {
            get_cs_msg.append_u32(0);
        }
    }
    assert(get_cs_msg@ =~= get_cs_body(protocol, file@, lang));
    get_cs_msg
}

/// The body of a compile job: language C, the job id, no flags, the
/// environment, platform and compiler, then the input file and working
/// directory (protocol 34 on) and the output file and no split DWARF
/// (protocol 35 on).
pub open spec fn compile_file_body(protocol: u32, job_id: u32) -> Seq<u8> {
    u32_field(0) + u32_field(job_id) + u32_field(0) + u32_field(0) + str_field("foo.tar.gz"@)
        + str_field("x86_64"@) + str_field("gcc"@) + (if protocol >= 34 {
        str_field("bar.c"@) + str_field("/tmp/"@)
    } else {
        Seq::empty()
    }) + (if protocol >= 35 {
        str_field("bar.o"@) + u32_field(0)
    } else {
        Seq::empty()
    })
}

/// The compile job sent to a compile server, laid out for the protocol
/// version agreed with it.
pub fn compile_file_msg(protocol: u32, job_id: u32) -> (msg: Msg)
    ensures
        msg.kind() == MsgType::CompileFile,
        msg@ == compile_file_body(protocol, job_id),
{
    let mut msg = Msg::new(MsgType::CompileFile);
    msg.append_u32(0);  // language of source
    msg.append_u32(job_id);
    msg.append_u32(0);  // remote flags
    msg.append_u32(0);  // rest flags
    msg.append_str("foo.tar.gz");  // environment
    msg.append_str("x86_64");  // target platform
    msg.append_str("gcc");  // compiler name
    if protocol >= 34 {
        msg.append_str("bar.c");  // input file
        msg.append_str("/tmp/");  // cwd
    }
    if protocol >= 35 {
        msg.append_str("bar.o");  // output file name
        msg.append_u32(0);  // dwo enabled
    }
    assert(msg@ =~= compile_file_body(protocol, job_id));
    msg
}

/// The announcement of an environment archive: its name, then the platform
/// it is for.
pub fn env_transfer_msg(env_name: &str, platform: &str) -> (msg: Msg)
    ensures
        msg.kind() == MsgType::EnvTransfer,
        msg@ == str_field(env_name@) + str_field(platform@),
{
    let mut msg = Msg::new(MsgType::EnvTransfer);
    msg.append_str(env_name);
    msg.append_str(platform);
    msg
}

/// The request to check that an environment works: its name, then the
/// platform.
pub fn verify_env_msg(env_name: &str, platform: &str) -> (msg: Msg)
    ensures
        msg.kind() == MsgType::VerifyEnv,
        msg@ == str_field(env_name@) + str_field(platform@),
{
    let mut msg = Msg::new(MsgType::VerifyEnv);
    msg.append_str(env_name);
    msg.append_str(platform);
    msg
}

/// The `i`-th piece of a file of `len` bytes: from `i` pieces in to one
/// piece further or the end of the file, whichever comes first.
pub open spec fn chunk_range(i: int, len: usize) -> (usize, usize) {
    (
        (i * FILE_CHUNK_SIZE) as usize,
        if (i + 1) * FILE_CHUNK_SIZE <= len {
            ((i + 1) * FILE_CHUNK_SIZE) as usize
        } else {
            len
        },
    )
}

/// The number of pieces of `chunk_ranges`: enough to reach `len`, and no
/// piece past it.
pub open spec fn chunk_count_fits(n: int, len: usize) -> bool {
    n * FILE_CHUNK_SIZE >= len && (n == 0 || (n - 1) * FILE_CHUNK_SIZE < len)
}

/// The pieces of a file tile it: the first starts at 0, each starts where
/// the one before ends, the last ends at the end of the file, and every
/// piece holds at least one and at most `FILE_CHUNK_SIZE` bytes.
pub proof fn lemma_chunks_tile(n: int, len: usize)
    requires
        n >= 0,
        chunk_count_fits(n, len),
    ensures
        n > 0 ==> chunk_range(0, len).0 == 0 && chunk_range(n - 1, len).1 == len,
        forall|i: int| 0 <= i < n - 1 ==> #[trigger] chunk_range(i, len).1 == chunk_range(i + 1, len).0,
        forall|i: int|
            0 <= i < n ==> chunk_range(i, len).0 < #[trigger] chunk_range(i, len).1
                <= chunk_range(i, len).0 + FILE_CHUNK_SIZE,
{
    assert forall|i: int| 0 <= i < n - 1 implies #[trigger] chunk_range(i, len).1 == chunk_range(i + 1, len).0 by {
        assert((i + 1) * FILE_CHUNK_SIZE <= (n - 1) * FILE_CHUNK_SIZE) by (nonlinear_arith)
            requires i + 1 <= n - 1;
    }
    assert forall|i: int| 0 <= i < n implies chunk_range(i, len).0 < #[trigger] chunk_range(i, len).1
        <= chunk_range(i, len).0 + FILE_CHUNK_SIZE by {
        assert(i * FILE_CHUNK_SIZE <= (n - 1) * FILE_CHUNK_SIZE) by (nonlinear_arith)
            requires i <= n - 1;
    }
}

/// The first `n` pieces of `data`, joined in order.
pub open spec fn joined_pieces(data: Seq<u8>, n: nat) -> Seq<u8>
    decreases n,
{
    if n == 0 {
        Seq::empty()
    } else {
        joined_pieces(data, (n - 1) as nat) + data.subrange(
            chunk_range(n - 1, data.len() as usize).0 as int,
            chunk_range(n - 1, data.len() as usize).1 as int,
        )
    }
}

proof fn lemma_joined_prefix(data: Seq<u8>, n: int, k: int)
    requires
        data.len() <= usize::MAX,
        chunk_count_fits(n, data.len() as usize),
        0 <= k <= n,
    ensures
        joined_pieces(data, k as nat) == data.take(
            if k * FILE_CHUNK_SIZE <= data.len() {
                k * FILE_CHUNK_SIZE
            } else {
                data.len() as int
            },
        ),
    decreases k,
{
    if k == 0 {
        assert(data.take(0) =~= Seq::<u8>::empty());
    } else {
        lemma_joined_prefix(data, n, k - 1);
        assert((k - 1) * FILE_CHUNK_SIZE <= (n - 1) * FILE_CHUNK_SIZE) by (nonlinear_arith)
            requires
                k - 1 <= n - 1,
        ;
        let len = data.len() as usize;
        let r = chunk_range(k - 1, len);
        assert(r.0 == (k - 1) * FILE_CHUNK_SIZE);
        assert(data.take(r.0 as int) + data.subrange(r.0 as int, r.1 as int) =~= data.take(r.1 as int));
    }
}

/// The pieces of a file, joined in order, give the file back: what
/// `file_chunk_msgs` hands to the compressor, piece by piece, is the whole
/// file and nothing else.
pub proof fn lemma_pieces_join_to_file(data: Seq<u8>, n: int)
    requires
        data.len() <= usize::MAX,
        n >= 0,
        chunk_count_fits(n, data.len() as usize),
    ensures
        joined_pieces(data, n as nat) == data,
{
    lemma_joined_prefix(data, n, n);
    assert(data.take(data.len() as int) =~= data);
}

/// The pieces a file of `len` bytes is sent in: consecutive ranges of
/// `FILE_CHUNK_SIZE` bytes, the last one shorter when `len` is not a
/// multiple; none for an empty file.
pub fn chunk_ranges(len: usize) -> (r: Vec<(usize, usize)>)
    ensures
        chunk_count_fits(r@.len() as int, len),
        forall|i: int|
            0 <= i < r@.len() ==> #[trigger] r@[i] == chunk_range(i, len),
{
    let mut r: Vec<(usize, usize)> = Vec::new();
    let mut start: usize = 0;
    while start < len
        invariant
            start <= len,
            start < len ==> start == r@.len() * FILE_CHUNK_SIZE,
            start == len ==> r@.len() * FILE_CHUNK_SIZE >= len,
            r@.len() == 0 || (r@.len() - 1) * FILE_CHUNK_SIZE < len,
            forall|i: int|
                0 <= i < r@.len() ==> #[trigger] r@[i] == chunk_range(i, len),
        decreases len - start,
    {
        let end: usize = if len - start > FILE_CHUNK_SIZE {
            start + FILE_CHUNK_SIZE
        } else {
            len
        };
        r.push((start, end));
        start = end;
    }
    r
}

/// The messages that send a file: one per piece of `chunk_ranges`, in
/// order, each holding the piece's length, then the length and bytes of
/// what `compress` made of the piece. Pieces are compressed in order and the
/// messages stop at the first piece `compress` refuses; the flag says
/// whether every piece was compressed.
pub fn file_chunk_msgs<F: Fn(&[u8]) -> Option<Vec<u8>>>(data: &[u8], compress: F) -> (res: (
    Vec<Msg>,
    bool,
))
    requires
        forall|piece: &[u8]| #[trigger] compress.requires((piece,)),
    ensures
        res.1 ==> chunk_count_fits(res.0@.len() as int, data@.len() as usize),
        !res.1 ==> res.0@.len() * FILE_CHUNK_SIZE < data@.len() && exists|piece: &[u8]|
            piece@ == data@.subrange(
                chunk_range(res.0@.len() as int, data@.len() as usize).0 as int,
                chunk_range(res.0@.len() as int, data@.len() as usize).1 as int,
            ) && #[trigger] compress.ensures((piece,), None::<Vec<u8>>),
        forall|i: int|
            0 <= i < res.0@.len() ==> i * FILE_CHUNK_SIZE < data@.len() && (#[trigger] res.0@[i]).kind()
                == MsgType::FileChunk && exists|piece: &[u8], c: Vec<u8>|
                piece@ == data@.subrange(
                    chunk_range(i, data@.len() as usize).0 as int,
                    chunk_range(i, data@.len() as usize).1 as int,
                ) && #[trigger] compress.ensures((piece,), Some(c)) && res.0@[i]@ == u32_field(
                    piece@.len() as u32,
                ) + u32_field(c@.len() as u32) + c@,
{
    let len: usize = data.len();
    let ranges = chunk_ranges(len);
    proof {
        lemma_chunks_tile(ranges@.len() as int, len);
    }
    let mut msgs: Vec<Msg> = Vec::new();
    let mut i: usize = 0;
    while i < ranges.len()
        invariant
            len == data@.len(),
            i <= ranges@.len(),
            msgs@.len() == i,
            chunk_count_fits(ranges@.len() as int, len),
            forall|j: int| 0 <= j < ranges@.len() ==> #[trigger] ranges@[j] == chunk_range(j, len),
            forall|j: int|
                0 <= j < ranges@.len() ==> chunk_range(j, len).0 < #[trigger] chunk_range(j, len).1
                    <= chunk_range(j, len).0 + FILE_CHUNK_SIZE,
            forall|piece: &[u8]| #[trigger] compress.requires((piece,)),
            forall|j: int|
                0 <= j < msgs@.len() ==> j * FILE_CHUNK_SIZE < data@.len() && (#[trigger] msgs@[j]).kind()
                    == MsgType::FileChunk && exists|piece: &[u8], c: Vec<u8>|
                    piece@ == data@.subrange(
                        chunk_range(j, len).0 as int,
                        chunk_range(j, len).1 as int,
                    ) && #[trigger] compress.ensures((piece,), Some(c)) && msgs@[j]@ == u32_field(
                        piece@.len() as u32,
                    ) + u32_field(c@.len() as u32) + c@,
        decreases ranges@.len() - i,
    {
        let (start, end) = ranges[i];
        assert(ranges@[i as int] == chunk_range(i as int, len));
        assert(chunk_range(i as int, len).0 < chunk_range(i as int, len).1);
        let piece = slice_subrange(data, start, end);
        match compress(piece) {
            Some(c) => {
                let ghost cc = c;
                let piece_len: usize = piece.len();
                let m = file_chunk_msg(piece_len, c);
                msgs.push(m);
                assert(compress.ensures((piece,), Some(cc)));
                assert(msgs@[i as int]@ == u32_field(piece@.len() as u32) + u32_field(cc@.len() as u32)
                    + cc@);
            },
            None => {
                assert(compress.ensures((piece,), None::<Vec<u8>>));
                return (msgs, false);
            },
        }
        i = i + 1;
    }
    (msgs, true)
}

} // verus!
