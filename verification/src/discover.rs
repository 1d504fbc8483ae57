//! Discovery reply handling.  The caller broadcasts the query built by
//! `get_discover_message`, gathers raw datagrams with each sender's
//! address, and hands them here: every datagram is decoded, a reply
//! whose raw length equals the query's own encoded length is discarded
//! as a loop-back echo, and the parameter of each remaining reply is
//! split into model, port, area and hardware identifier.

use vstd::prelude::*;

use crate::commands::{bytes3, bytes4};
use crate::device::{Device, DeviceView, DEVICE_MAC_MAX_LEN};
use crate::message::{spec_decode, IscpMessage, ISCP_MSG_DST_BROADCAST};

verus! {

/// Separator between the fields of a discovery reply parameter (`/`).
pub const DISCOVER_PARAMS_SEPARATOR: u8 = 0x2f;

/// Separator between host and port in a synthesized address (`:`).
pub const ADDRESS_PORT_SEPARATOR: u8 = 0x3a;

/// The segments of `s` between occurrences of `sep`: one segment more
/// than there are separators, in order, each without the separator.
pub open spec fn spec_split(s: Seq<u8>, sep: u8) -> Seq<Seq<u8>>
    decreases s.len(),
{
    if s.len() == 0 {
        seq![Seq::<u8>::empty()]
    } else if s[0] == sep {
        seq![Seq::<u8>::empty()] + spec_split(s.skip(1), sep)
    } else {
        let rest = spec_split(s.skip(1), sep);
        seq![seq![s[0]] + rest[0]] + rest.skip(1)
    }
}

/// Splitting always yields at least one segment.
pub proof fn lemma_split_nonempty(s: Seq<u8>, sep: u8)
    ensures
        spec_split(s, sep).len() >= 1,
    decreases s.len(),
{
    if s.len() != 0 {
        lemma_split_nonempty(s.skip(1), sep);
    }
}

/// The sequence views of a vector of byte vectors.
pub open spec fn views(vs: Seq<Vec<u8>>) -> Seq<Seq<u8>> {
    Seq::new(vs.len(), |k: int| vs[k]@)
}

/// The device views of a vector of devices.
pub open spec fn device_views(ds: Seq<Device>) -> Seq<DeviceView> {
    Seq::new(ds.len(), |k: int| ds[k]@)
}

/// The sequence views of gathered reply datagrams: each datagram's
/// bytes with its sender's address bytes.
pub open spec fn reply_views(rs: Seq<(Vec<u8>, Vec<u8>)>) -> Seq<(Seq<u8>, Seq<u8>)> {
    Seq::new(rs.len(), |k: int| (rs[k].0@, rs[k].1@))
}

fn split_from(s: &Vec<u8>, i: usize, sep: u8) -> (r: Vec<Vec<u8>>)
    requires
        i <= s@.len(),
    ensures
        views(r@) == spec_split(s@.skip(i as int), sep),
        r@.len() >= 1,
    decreases s@.len() - i,
{
    proof {
        lemma_split_nonempty(s@.skip(i as int), sep);
    }
    if i == s.len() {
        let mut r: Vec<Vec<u8>> = Vec::new();
        r.push(Vec::new());
        proof {
            assert(s@.skip(i as int) =~= Seq::<u8>::empty());
            assert(views(r@) =~= seq![Seq::<u8>::empty()]);
        }
        r
    } else if s[i] == sep {
        let mut r = split_from(s, i + 1, sep);
        r.insert(0, Vec::new());
        proof {
            assert(s@.skip(i as int).skip(1) =~= s@.skip(i + 1));
            assert(s@.skip(i as int)[0] == sep);
            assert(views(r@) =~= seq![Seq::<u8>::empty()] + spec_split(s@.skip(i + 1), sep));
        }
        r
    } else {
        let mut r = split_from(s, i + 1, sep);
        let ghost old_views = views(r@);
        let mut first = r.remove(0);
        first.insert(0, s[i]);
        r.insert(0, first);
        proof {
            assert(s@.skip(i as int).skip(1) =~= s@.skip(i + 1));
            assert(s@.skip(i as int)[0] == s@[i as int]);
            assert(first@ =~= seq![s@[i as int]] + old_views[0]);
            assert(views(r@) =~= seq![seq![s@[i as int]] + old_views[0]] + old_views.skip(1));
        }
        r
    }
}

/// Splits `s` at every occurrence of `sep`, as `spec_split` states.
pub fn split_bytes(s: &Vec<u8>, sep: u8) -> (r: Vec<Vec<u8>>)
    ensures
        views(r@) == spec_split(s@, sep),
        r@.len() >= 1,
{
    let r = split_from(s, 0, sep);
    proof {
        assert(s@.skip(0) =~= s@);
    }
    r
}

/// The broadcast discovery query: `ECN QSTN` addressed to every
/// receiver on the network.
pub fn get_discover_message() -> (m: IscpMessage)
    ensures
        m@.destination == ISCP_MSG_DST_BROADCAST,
        m@.command == seq![0x45u8, 0x43u8, 0x4eu8],
        m@.parameter == seq![0x51u8, 0x53u8, 0x54u8, 0x4eu8],
        m@.wf(),
{
    IscpMessage {
        destination: ISCP_MSG_DST_BROADCAST,
        command: bytes3(0x45, 0x43, 0x4e),
        parameter: bytes4(0x51, 0x53, 0x54, 0x4e),
    }
}

/// The device one gathered datagram stands for: absent when the raw
/// length equals the query's encoded length (a loop-back echo), when
/// the datagram does not decode, or when its parameter has fewer than
/// four fields.  Otherwise: the address synthesized from the sender and
/// the port field, the model and area fields as they stand, and the
/// hardware identifier truncated to `DEVICE_MAC_MAX_LEN` bytes.
pub open spec fn spec_reply_device(data: Seq<u8>, sender_ip: Seq<u8>, query_len: nat) -> Option<
    DeviceView,
> {
    if data.len() == query_len {
        None
    } else {
        match spec_decode(data) {
            None => None,
            Some(m) => {
                let fields = spec_split(m.parameter, DISCOVER_PARAMS_SEPARATOR);
                if fields.len() < 4 {
                    None
                } else {
                    let mac = if fields[3].len() <= DEVICE_MAC_MAX_LEN {
                        fields[3]
                    } else {
                        fields[3].take(DEVICE_MAC_MAX_LEN as int)
                    };
                    Some(
                        (DeviceView {
                            address: sender_ip + seq![ADDRESS_PORT_SEPARATOR] + fields[1],
                            model: fields[0],
                            area: fields[2],
                            mac,
                        }),
                    )
                }
            },
        }
    }
}

/// Parses one gathered datagram, as `spec_reply_device` states.
pub fn parse_reply(data: &Vec<u8>, sender_ip: &Vec<u8>, query_len: usize) -> (r: Option<Device>)
    ensures
        match r {
            Some(d) => spec_reply_device(data@, sender_ip@, query_len as nat) == Some(d@),
            None => spec_reply_device(data@, sender_ip@, query_len as nat) is None,
        },
{
    if data.len() == query_len {
        return None;
    }
    let msg = match IscpMessage::from_slice(data.as_slice()) {
        None => { return None; },
        Some(m) => m,
    };
    let fields = split_bytes(&msg.parameter, DISCOVER_PARAMS_SEPARATOR);
    if fields.len() < 4 {
        return None;
    }
    let mut address: Vec<u8> = Vec::new();
    address.extend_from_slice(sender_ip.as_slice());
    address.push(ADDRESS_PORT_SEPARATOR);
    address.extend_from_slice(fields[1].as_slice());
    let model = vstd::slice::slice_to_vec(fields[0].as_slice());
    let area = vstd::slice::slice_to_vec(fields[2].as_slice());
    let mac_field = &fields[3];
    let mac_len = if mac_field.len() < DEVICE_MAC_MAX_LEN {
        mac_field.len()
    } else {
        DEVICE_MAC_MAX_LEN
    };
    let mac = vstd::slice::slice_to_vec(
        vstd::slice::slice_subrange(mac_field.as_slice(), 0, mac_len),
    );
    proof {
        let ghost sfields = spec_split(msg.parameter@, DISCOVER_PARAMS_SEPARATOR);
        assert(address@ =~= sender_ip@ + seq![ADDRESS_PORT_SEPARATOR] + sfields[1]);
        if sfields[3].len() <= DEVICE_MAC_MAX_LEN {
            assert(mac@ =~= sfields[3]);
        } else {
            assert(mac@ =~= sfields[3].take(DEVICE_MAC_MAX_LEN as int));
        }
    }
    Some(Device::from(address, model, area, mac))
}

/// The devices a whole gathering run yields, in arrival order: one
/// entry per datagram that `spec_reply_device` accepts, echoes and
/// undecodable noise skipped.  Nothing is deduplicated: a device that
/// answered on several interfaces appears once per reply.
pub open spec fn spec_collect(replies: Seq<(Seq<u8>, Seq<u8>)>, query_len: nat) -> Seq<DeviceView>
    decreases replies.len(),
{
    if replies.len() == 0 {
        Seq::empty()
    } else {
        let head = match spec_reply_device(replies[0].0, replies[0].1, query_len) {
            None => Seq::<DeviceView>::empty(),
            Some(d) => seq![d],
        };
        head + spec_collect(replies.skip(1), query_len)
    }
}

/// Turns gathered datagrams into devices, as `spec_collect` states.
pub fn collect_devices(replies: &Vec<(Vec<u8>, Vec<u8>)>, query_len: usize) -> (r: Vec<Device>)
    ensures
        device_views(r@) == spec_collect(reply_views(replies@), query_len as nat),
{
    let ghost all = reply_views(replies@);
    let mut r: Vec<Device> = Vec::new();
    let mut i: usize = 0;
    proof {
        assert(all.skip(0) =~= all);
        assert(device_views(r@) =~= Seq::<DeviceView>::empty());
    }
    while i < replies.len()
        invariant
            i <= replies@.len(),
            all == reply_views(replies@),
            device_views(r@) + spec_collect(all.skip(i as int), query_len as nat) == spec_collect(
                all,
                query_len as nat,
            ),
        decreases replies@.len() - i,
    {
        let ghost old_devices = device_views(r@);
        let reply = &replies[i];
        proof {
            assert(all.skip(i as int)[0] == (replies@[i as int].0@, replies@[i as int].1@));
            assert(all.skip(i as int).skip(1) =~= all.skip(i + 1));
        }
        match parse_reply(&reply.0, &reply.1, query_len) {
            Some(d) => {
                let ghost dv = d@;
                r.push(d);
                proof {
                    assert(device_views(r@) =~= old_devices + seq![dv]);
                    assert(old_devices + seq![dv] + spec_collect(all.skip(i + 1), query_len as nat)
                        =~= old_devices + (seq![dv] + spec_collect(all.skip(i + 1), query_len as nat)));
                }
            },
            None => {
                proof {
                    assert(old_devices + Seq::<DeviceView>::empty() + spec_collect(
                        all.skip(i + 1),
                        query_len as nat,
                    ) =~= old_devices + (Seq::<DeviceView>::empty() + spec_collect(
                        all.skip(i + 1),
                        query_len as nat,
                    )));
                }
            },
        }
        i = i + 1;
    }
    proof {
        assert(all.skip(i as int) =~= Seq::<(Seq<u8>, Seq<u8>)>::empty());
        assert(spec_collect(Seq::<(Seq<u8>, Seq<u8>)>::empty(), query_len as nat)
            =~= Seq::<DeviceView>::empty());
        assert(device_views(r@) + Seq::<DeviceView>::empty() =~= device_views(r@));
    }
    r
}

/// A gathered datagram whose raw length equals the query's encoded
/// length never yields a device: it is discarded as a loop-back echo of
/// the query itself.
pub proof fn lemma_echo_reply_excluded(data: Seq<u8>, sender_ip: Seq<u8>, query_len: nat)
    requires
        data.len() == query_len,
    ensures
        spec_reply_device(data, sender_ip, query_len) is None,
{
}

/// Dropping an echo datagram from a gathering run changes nothing: the
/// devices collected with it are exactly the devices collected without
/// it, in the same order.
pub proof fn lemma_collect_ignores_echo(
    replies: Seq<(Seq<u8>, Seq<u8>)>,
    i: int,
    query_len: nat,
)
    requires
        0 <= i < replies.len(),
        replies[i].0.len() == query_len,
    ensures
        spec_collect(replies, query_len) == spec_collect(replies.remove(i), query_len),
    decreases i,
{
    if i == 0 {
        lemma_echo_reply_excluded(replies[0].0, replies[0].1, query_len);
        assert(replies.remove(0) =~= replies.skip(1));
        assert(Seq::<DeviceView>::empty() + spec_collect(replies.skip(1), query_len)
            =~= spec_collect(replies.skip(1), query_len));
    } else {
        lemma_collect_ignores_echo(replies.skip(1), i - 1, query_len);
        assert(replies.remove(i)[0] == replies[0]);
        assert(replies.remove(i).skip(1) =~= replies.skip(1).remove(i - 1));
        assert(replies.remove(i).len() != 0);
    }
}

} // verus!
