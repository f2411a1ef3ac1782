//! Finding the scheduler: which interfaces the discovery probe is broadcast
//! on, and what a scheduler's answer to the probe says.

use crate::buffer::string_push;
use crate::requests::MAX_PROTOCOL_VERSION;
use crate::wire::{le_value, le_value64, little_read_u32, little_read_u64};
use vstd::prelude::*;
use vstd::slice::slice_subrange;

verus! {

/// The UDP port schedulers listen on for discovery probes.
pub const DISCOVERY_PORT: u16 = 8765;

/// What discovery needs to know of a network interface.
#[derive(Clone, Copy, Debug)]
pub struct NetInterface {
    /// Whether the interface is a loopback interface.
    pub loopback: bool,
    /// The broadcast address of the interface's IPv4 address, where it has
    /// one; `None` for an IPv6 address or an IPv4 address without one.
    pub v4_broadcast: Option<[u8; 4]>,
}

/// The addresses a probe goes to: the IPv4 broadcast address of every
/// interface that is not a loopback interface and has one, in order.
pub open spec fn spec_targets(ifaces: Seq<NetInterface>) -> Seq<[u8; 4]>
    decreases ifaces.len(),
{
    if ifaces.len() == 0 {
        Seq::empty()
    } else {
        let rest = spec_targets(ifaces.drop_last());
        let last = ifaces.last();
        if !last.loopback && last.v4_broadcast is Some {
            rest.push(last.v4_broadcast->0)
        } else {
            rest
        }
    }
}

/// The broadcast addresses the discovery probe is sent to.
pub fn discovery_targets(ifaces: &Vec<NetInterface>) -> (targets: Vec<[u8; 4]>)
    ensures
        targets@ == spec_targets(ifaces@),
{
    let mut targets: Vec<[u8; 4]> = Vec::new();
    let mut i: usize = 0;
    while i < ifaces.len()
        invariant
            i <= ifaces@.len(),
            targets@ == spec_targets(ifaces@.take(i as int)),
        decreases ifaces@.len() - i,
    {
        let iface = ifaces[i];
        assert(ifaces@.take(i + 1).drop_last() =~= ifaces@.take(i as int));
        if !iface.loopback {
            match iface.v4_broadcast {
                Some(ip) => {
                    targets.push(ip);
                },
                None => {},
            }
        }
        i = i + 1;
    }
    assert(ifaces@.take(i as int) =~= ifaces@);
    targets
}

/// Whether an interface gets the probe: not a loopback interface, and with
/// an IPv4 broadcast address.
pub open spec fn probed(iface: NetInterface) -> bool {
    !iface.loopback && iface.v4_broadcast is Some
}

/// The probe goes to an address exactly when some interface that is not a
/// loopback interface has it as its IPv4 broadcast address, and it goes
/// once per such interface.
pub proof fn lemma_targets_are_probed_broadcasts(ifaces: Seq<NetInterface>)
    ensures
        forall|t: [u8; 4]|
            spec_targets(ifaces).contains(t) <==> exists|i: int|
                0 <= i < ifaces.len() && probed(#[trigger] ifaces[i]) && ifaces[i].v4_broadcast
                    == Some(t),
        spec_targets(ifaces).len() == ifaces.filter(|iface: NetInterface| probed(iface)).len(),
    decreases ifaces.len(),
{
    reveal_with_fuel(Seq::filter, 1);
    if ifaces.len() == 0 {
        assert(ifaces.filter(|iface: NetInterface| probed(iface)) =~= Seq::<NetInterface>::empty());
    } else {
        let init = ifaces.drop_last();
        lemma_targets_are_probed_broadcasts(init);
        assert forall|t: [u8; 4]|
            spec_targets(ifaces).contains(t) <==> exists|i: int|
                0 <= i < ifaces.len() && probed(#[trigger] ifaces[i]) && ifaces[i].v4_broadcast
                    == Some(t) by {
            if spec_targets(ifaces).contains(t) {
                if spec_targets(init).contains(t) {
                    let i = choose|i: int|
                        0 <= i < init.len() && probed(#[trigger] init[i]) && init[i].v4_broadcast
                            == Some(t);
                    assert(ifaces[i] == init[i]);
                } else {
                    assert(ifaces[ifaces.len() - 1] == ifaces.last());
                }
            }
            if exists|i: int|
                0 <= i < ifaces.len() && probed(#[trigger] ifaces[i]) && ifaces[i].v4_broadcast
                    == Some(t) {
                let i = choose|i: int|
                    0 <= i < ifaces.len() && probed(#[trigger] ifaces[i]) && ifaces[i].v4_broadcast
                        == Some(t);
                if i < ifaces.len() - 1 {
                    assert(init[i] == ifaces[i]);
                    assert(spec_targets(init).contains(t));
                    let k = choose|k: int| 0 <= k < spec_targets(init).len() && spec_targets(init)[k] == t;
                    if probed(ifaces.last()) {
                        assert(spec_targets(ifaces)[k] == t);
                    }
                } else {
                    assert(spec_targets(ifaces).last() == t);
                }
            }
        }
    }
}

/// The discovery probe: one byte, the highest protocol version this client
/// speaks.
pub fn discovery_probe() -> (probe: [u8; 1])
    ensures
        probe@ == seq![MAX_PROTOCOL_VERSION],
{
    [MAX_PROTOCOL_VERSION]
}

/// The number of non-zero bytes in `s`.
pub open spec fn count_nonzero(s: Seq<u8>) -> nat {
    s.filter(|b: u8| b != 0).len()
}

/// A network name keeps every non-zero byte of the answer, in order, each
/// as the character with that byte's number, and drops only the zero
/// bytes: a non-zero byte appended to the bytes appends its character to
/// the name, a zero byte changes nothing, and joining byte runs joins their
/// names.
pub proof fn lemma_name_keeps_nonzero_bytes(s: Seq<u8>, t: Seq<u8>, b: u8)
    ensures
        nonzero_chars(Seq::<u8>::empty()) == Seq::<char>::empty(),
        b != 0 ==> nonzero_chars(s.push(b)) == nonzero_chars(s).push(b as char),
        nonzero_chars(s.push(0u8)) == nonzero_chars(s),
        nonzero_chars(s + t) == nonzero_chars(s) + nonzero_chars(t),
        nonzero_chars(s).len() == count_nonzero(s),
    decreases t.len(),
{
    assert(s.push(b).drop_last() =~= s);
    assert(s.push(0u8).drop_last() =~= s);
    lemma_name_length(s);
    if t.len() == 0 {
        assert(s + t =~= s);
    } else {
        lemma_name_keeps_nonzero_bytes(s, t.drop_last(), b);
        assert((s + t).drop_last() =~= s + t.drop_last());
        assert((s + t).last() == t.last());
    }
}

proof fn lemma_name_length(s: Seq<u8>)
    ensures
        nonzero_chars(s).len() == count_nonzero(s),
    decreases s.len(),
{
    reveal_with_fuel(Seq::filter, 1);
    if s.len() > 0 {
        lemma_name_length(s.drop_last());
    } else {
        assert(s.filter(|b: u8| b != 0) =~= Seq::<u8>::empty());
    }
}

/// A scheduler's answer to the discovery probe.
pub struct Announcement {
    /// The first byte: the protocol version the scheduler acknowledges.
    pub version_ack: u8,
    /// The scheduler's protocol version, when the answer carries one.
    pub sched_version: u32,
    /// The scheduler's start time, when the answer carries one.
    pub sched_start: u64,
    /// The name of the scheduler's network.
    pub network: String,
}

/// The acknowledgement byte of an answer that carries the scheduler's
/// version and start time.
pub open spec fn extended_ack() -> u8 {
    (MAX_PROTOCOL_VERSION + 2) as u8
}

/// The characters of the non-zero bytes of `s`, each byte standing for the
/// character with its number.
pub open spec fn nonzero_chars(s: Seq<u8>) -> Seq<char>
    decreases s.len(),
{
    if s.len() == 0 {
        Seq::empty()
    } else if s.last() != 0 {
        nonzero_chars(s.drop_last()).push(s.last() as char)
    } else {
        nonzero_chars(s.drop_last())
    }
}

/// Reads an answer to the discovery probe. An answer whose first byte is
/// `MAX_PROTOCOL_VERSION + 2` carries, little-endian, the scheduler's
/// version in bytes 1 to 4 and its start time in bytes 5 to 12, and the
/// network name follows them; otherwise the name follows the first byte and
/// version and start time are 0. The name is made of the non-zero bytes.
pub fn parse_announcement(ans: &[u8; 30]) -> (a: Announcement)
    ensures
        a.version_ack == ans@[0],
        ans@[0] == extended_ack() ==> a.sched_version == le_value(ans@.subrange(1, 5))
            && a.sched_start == le_value64(ans@.subrange(5, 13)) && a.network@ == nonzero_chars(
            ans@.skip(13),
        ),
        ans@[0] != extended_ack() ==> a.sched_version == 0 && a.sched_start == 0 && a.network@
            == nonzero_chars(ans@.skip(1)),
{
    let bytes: &[u8] = ans.as_slice();
    let mut net: String = String::new();
    let version_ack: u8 = bytes[0];
    let mut offset: usize = 1;
    let mut sched_version: u32 = 0;
    let mut sched_start: u64 = 0;
    if MAX_PROTOCOL_VERSION + 2 == version_ack {
        // the numbers are in the scheduler's byte order, taken to be little endian.
        sched_version = little_read_u32(slice_subrange(bytes, 1, 5));
        sched_start = little_read_u64(slice_subrange(bytes, 5, 13));
        offset = offset + 12;
    }
    let ghost tail = bytes@.skip(offset as int);
    let mut i: usize = offset;
    while i < bytes.len()
        invariant
            offset <= i <= bytes@.len(),
            bytes@.len() == 30,
            tail == bytes@.skip(offset as int),
            net@ == nonzero_chars(tail.take(i - offset)),
        decreases bytes@.len() - i,
    {
        let x: u8 = bytes[i];
        assert(tail.take(i + 1 - offset).drop_last() =~= tail.take(i - offset));
        if x != 0 {
            string_push(&mut net, x as char);
        }
        i = i + 1;
    }
    assert(tail.take(i - offset) =~= tail);
    Announcement { version_ack, sched_version, sched_start, network: net }
}

/// Whether `needle` occurs in `hay` as a run of consecutive characters.
pub open spec fn contains_run(hay: Seq<char>, needle: Seq<char>) -> bool {
    exists|i: int|
        0 <= i && i + needle.len() <= hay.len() && #[trigger] hay.subrange(i, i + needle.len())
            == needle
}

/// The network name of an answer as the stand-alone client reads it: the
/// characters of all non-zero bytes of the answer, first byte included, with
/// the first of them removed. `None` when the answer has no non-zero byte,
/// so that there is nothing to remove.
pub fn legacy_announced_name(ans: &[u8; 30]) -> (name: Option<Vec<char>>)
    ensures
        nonzero_chars(ans@).len() == 0 ==> name is None,
        nonzero_chars(ans@).len() > 0 ==> (name matches Some(v) && v@ == nonzero_chars(ans@).drop_first()),
{
    let bytes: &[u8] = ans.as_slice();
    let mut net: Vec<char> = Vec::new();
    let mut i: usize = 0;
    while i < bytes.len()
        invariant
            i <= bytes@.len(),
            bytes@ == ans@,
            net@ == nonzero_chars(bytes@.take(i as int)),
        decreases bytes@.len() - i,
    {
        let x: u8 = bytes[i];
        assert(bytes@.take(i + 1).drop_last() =~= bytes@.take(i as int));
        if x != 0 {
            net.push(x as char);
        }
        i = i + 1;
    }
    assert(bytes@.take(i as int) =~= ans@);
    if net.len() == 0 {
        None
    } else {
        let ghost whole = net@;
        net.remove(0);
        assert(net@ =~= whole.drop_first());
        Some(net)
    }
}

/// Whether the text `network` occurs somewhere in `name`.
pub fn name_contains(name: &Vec<char>, network: &str) -> (b: bool)
    ensures
        b == contains_run(name@, network@),
{
    let k: usize = network.unicode_len();
    let h: usize = name.len();
    if k > h {
        return false;
    }
    let mut i: usize = 0;
    while i <= h - k
        invariant
            k == network@.len(),
            h == name@.len(),
            k <= h,
            i <= h - k + 1,
            forall|p: int| 0 <= p < i ==> #[trigger] name@.subrange(p, p + k) != network@,
        decreases h - k + 1 - i,
    {
        let mut j: usize = 0;
        let mut same: bool = true;
        while j < k && same
            invariant
                k == network@.len(),
                h == name@.len(),
                i + k <= h,
                j <= k,
                forall|q: int| 0 <= q < j ==> name@[i + q] == network@[q],
                !same ==> j < k && name@[i + j] != network@[j as int],
            decreases k - j + (if same { 1int } else { 0int }),
        {
            if name[i + j] != network.get_char(j) {
                same = false;
            } else {
                j = j + 1;
            }
        }
        if same {
            assert(name@.subrange(i as int, i + k) =~= network@);
            return true;
        }
        assert(name@.subrange(i as int, i + k)[j as int] != network@[j as int]);
        i = i + 1;
    }
    proof {
        assert forall|p: int|
            0 <= p && p + network@.len() <= name@.len() implies #[trigger] name@.subrange(
            p,
            p + network@.len(),
        ) != network@ by {
            assert(p < i);
        }
    }
    false
}

impl Announcement {
    /// Whether the answer comes from the scheduler of the network named
    /// `network`.
    pub fn is_network(&self, network: &str) -> (b: bool)
        ensures
            b == (self.network@ == network@),
    {
        let wanted = String::from_str(network);
        self.network == wanted
    }
}

} // verus!
