use iceccd::discovery::{
    discovery_probe, discovery_targets, legacy_announced_name, name_contains, parse_announcement,
    NetInterface, DISCOVERY_PORT,
};
use iceccd::job::{run_job, JobAction};
use iceccd::msg::MsgType;
use iceccd::requests::compile_file_msg;

#[test]
fn probe_goes_to_broadcast_addresses_of_real_interfaces() {
    let ifaces = vec![
        NetInterface { loopback: true, v4_broadcast: Some([127, 255, 255, 255]) },
        NetInterface { loopback: false, v4_broadcast: Some([192, 168, 1, 255]) },
        NetInterface { loopback: false, v4_broadcast: None },
        NetInterface { loopback: false, v4_broadcast: Some([10, 0, 255, 255]) },
    ];
    assert_eq!(discovery_targets(&ifaces), vec![[192, 168, 1, 255], [10, 0, 255, 255]]);
    assert!(discovery_targets(&vec![]).is_empty());
    assert_eq!(discovery_probe(), [35]);
    assert_eq!(DISCOVERY_PORT, 8765);
}

#[test]
fn plain_announcement_names_the_network() {
    let mut ans = [0u8; 30];
    ans[0] = 35;
    ans[1..11].copy_from_slice(b"icecc-test");
    let a = parse_announcement(&ans);
    assert_eq!(a.version_ack, 35);
    assert_eq!(a.sched_version, 0);
    assert_eq!(a.sched_start, 0);
    assert_eq!(a.network, "icecc-test");
    assert!(a.is_network("icecc-test"));
    assert!(!a.is_network("ICECREAM"));
}

#[test]
fn extended_announcement_carries_version_and_start() {
    let mut ans = [0u8; 30];
    ans[0] = 37;
    ans[1..5].copy_from_slice(&42u32.to_le_bytes());
    ans[5..13].copy_from_slice(&0x0102_0304_0506_0708u64.to_le_bytes());
    ans[13..21].copy_from_slice(b"ICECREAM");
    let a = parse_announcement(&ans);
    assert_eq!(a.version_ack, 37);
    assert_eq!(a.sched_version, 42);
    assert_eq!(a.sched_start, 0x0102_0304_0506_0708);
    assert_eq!(a.network, "ICECREAM");
}

#[test]
fn announcement_name_skips_zero_bytes_and_maps_bytes_to_chars() {
    let mut ans = [0u8; 30];
    ans[0] = 1;
    ans[2] = b'a';
    ans[5] = 0xe9;
    let a = parse_announcement(&ans);
    assert_eq!(a.network, "aé");
}

#[test]
fn job_with_environment_sends_compile_job_directly() {
    let job = run_job("10.0.0.2", 70000, "x86_64", 9, true);
    assert_eq!(job.host, "10.0.0.2");
    assert_eq!(job.port, 70000u32 as u16);
    assert_eq!(job.job_id, 9);
    let steps = job.actions(35);
    assert_eq!(steps.len(), 4);
    match &steps[0] {
        JobAction::Send(m) => {
            assert_eq!(m.msg_type(), MsgType::CompileFile);
            assert_eq!(m.data(), compile_file_msg(35, 9).data());
        }
        _ => panic!("expected the compile job"),
    }
    assert!(matches!(&steps[1], JobAction::SendFile(p) if p == "/tmp/bar.c"));
    assert!(matches!(&steps[2], JobAction::Send(m) if m.msg_type() == MsgType::End && m.data().is_empty()));
    assert!(matches!(&steps[3], JobAction::Listen));
}

#[test]
fn job_without_environment_transfers_it_first() {
    let job = run_job("h", 1, "i686", 3, false);
    let steps = job.actions(33);
    assert_eq!(steps.len(), 9);
    assert!(matches!(&steps[0], JobAction::Send(m) if m.msg_type() == MsgType::EnvTransfer));
    assert!(matches!(&steps[1], JobAction::SendFile(p) if p == "/tmp/foo.tar.gz"));
    assert!(matches!(&steps[2], JobAction::Send(m) if m.msg_type() == MsgType::End));
    assert!(matches!(&steps[3], JobAction::Send(m) if m.msg_type() == MsgType::VerifyEnv));
    assert!(matches!(&steps[4], JobAction::AwaitReply));
    match &steps[5] {
        JobAction::Send(m) => assert_eq!(m.data(), compile_file_msg(33, 3).data()),
        _ => panic!("expected the compile job"),
    }
    assert!(matches!(&steps[8], JobAction::Listen));
    match &steps[0] {
        JobAction::Send(m) => {
            let mut want = vec![0, 0, 0, 11];
            want.extend_from_slice(b"foo.tar.gz\0");
            want.extend_from_slice(&[0, 0, 0, 5]);
            want.extend_from_slice(b"i686\0");
            assert_eq!(m.data(), &want[..]);
        }
        _ => unreachable!(),
    }
}

#[test]
fn stand_alone_client_drops_the_first_character_and_matches_by_substring() {
    let mut ans = [0u8; 30];
    ans[0] = 35;
    ans[1..16].copy_from_slice(b"my-icecc-test-1");
    let name = legacy_announced_name(&ans).unwrap();
    assert_eq!(name.iter().collect::<String>(), "my-icecc-test-1");
    assert!(name_contains(&name, "icecc-test"));
    assert!(!name_contains(&name, "ICECREAM"));
    assert!(name_contains(&name, ""));

    let mut zero_ack = [0u8; 30];
    zero_ack[1..4].copy_from_slice(b"abc");
    let name = legacy_announced_name(&zero_ack).unwrap();
    assert_eq!(name.iter().collect::<String>(), "bc");
    assert!(legacy_announced_name(&[0u8; 30]).is_none());
    assert!(!name_contains(&vec!['a'], "ab"));
}

#[test]
fn stand_alone_client_job_only_transfers_the_environment() {
    let job = run_job("h", 1, "i686", 3, false);
    let steps = job.legacy_actions();
    assert_eq!(steps.len(), 5);
    match &steps[0] {
        JobAction::Send(m) => {
            assert_eq!(m.msg_type(), MsgType::EnvTransfer);
            let mut want = vec![0, 0, 0, 16];
            want.extend_from_slice(b"/tmp/foo.tar.gz\0");
            want.extend_from_slice(&[0, 0, 0, 5]);
            want.extend_from_slice(b"i686\0");
            assert_eq!(m.data(), &want[..]);
        }
        _ => panic!("expected the environment announcement"),
    }
    assert!(matches!(&steps[1], JobAction::SendFile(p) if p == "/tmp/foo.tar.gz"));
    assert!(matches!(&steps[3], JobAction::Send(m) if m.msg_type() == MsgType::VerifyEnv));
    assert!(matches!(&steps[4], JobAction::AwaitReply));
    assert!(run_job("h", 1, "i686", 3, true).legacy_actions().is_empty());
}
