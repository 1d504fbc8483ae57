//! The device registry: an ordered sequence of known devices with
//! stable positional indices, and a lossless textual snapshot of their
//! descriptive fields.  Each snapshot record holds the four fields of
//! one device, each field written as its decimal byte length, a colon,
//! and the bytes themselves, the record closed by a line feed; records
//! stand in registry order.  Reading and writing the snapshot file is
//! the caller's business.

use vstd::prelude::*;

use crate::device::{Device, DeviceView};
use crate::discover::device_views;

verus! {

/// Separator between a field's length and its bytes (`:`).
pub const SNAPSHOT_LEN_SEPARATOR: u8 = 0x3a;

/// Terminator closing one device record (line feed).
pub const SNAPSHOT_RECORD_END: u8 = 0x0a;

/// Whether `b` is an ASCII decimal digit.
pub open spec fn is_digit(b: u8) -> bool {
    0x30 <= b <= 0x39
}

/// The decimal digits of `n`, most significant first, no leading
/// zeroes (a single `0` for zero).
pub open spec fn spec_dec(n: nat) -> Seq<u8>
    decreases n,
{
    if n < 10 {
        seq![(0x30 + n) as u8]
    } else {
        spec_dec(n / 10).push((0x30 + n % 10) as u8)
    }
}

/// The number a digit sequence denotes.
pub open spec fn spec_dec_value(ds: Seq<u8>) -> nat
    decreases ds.len(),
{
    if ds.len() == 0 {
        0
    } else {
        spec_dec_value(ds.drop_last()) * 10 + (ds.last() - 0x30) as nat
    }
}

/// The decimal digits of any number are digits, and there is at least
/// one of them.
pub proof fn lemma_dec_digits(n: nat)
    ensures
        spec_dec(n).len() >= 1,
        forall|k: int| 0 <= k < spec_dec(n).len() ==> is_digit(#[trigger] spec_dec(n)[k]),
    decreases n,
{
    if n >= 10 {
        lemma_dec_digits(n / 10);
        assert forall|k: int| 0 <= k < spec_dec(n).len() implies is_digit(
            #[trigger] spec_dec(n)[k],
        ) by {
            if k < spec_dec(n / 10).len() {
                assert(spec_dec(n)[k] == spec_dec(n / 10)[k]);
            }
        }
    }
}

/// Reading back the decimal digits of `n` yields `n`.
pub proof fn lemma_dec_value_round(n: nat)
    ensures
        spec_dec_value(spec_dec(n)) == n,
    decreases n,
{
    if n < 10 {
        assert(spec_dec(n).drop_last() =~= Seq::<u8>::empty());
        assert(spec_dec_value(Seq::<u8>::empty()) == 0);
        assert(spec_dec(n).last() == (0x30 + n) as u8);
        assert(spec_dec_value(spec_dec(n)) == n);
    } else {
        lemma_dec_value_round(n / 10);
        assert(spec_dec(n).drop_last() =~= spec_dec(n / 10));
        assert(spec_dec(n).last() == (0x30 + n % 10) as u8);
        vstd::arithmetic::div_mod::lemma_fundamental_div_mod(n as int, 10);
        assert(spec_dec_value(spec_dec(n)) == (n / 10) * 10 + n % 10);
    }
}

/// A longer digit run never denotes a smaller number.
pub proof fn lemma_dec_value_extend(s: Seq<u8>, i: int, j: int, e: int)
    requires
        0 <= i <= j <= e <= s.len(),
        forall|k: int| i <= k < e ==> is_digit(#[trigger] s[k]),
    ensures
        spec_dec_value(s.subrange(i, e)) >= spec_dec_value(s.subrange(i, j)),
    decreases e - j,
{
    if j < e {
        lemma_dec_value_extend(s, i, j + 1, e);
        assert(s.subrange(i, j + 1).drop_last() =~= s.subrange(i, j));
        assert(spec_dec_value(s.subrange(i, j + 1)) >= spec_dec_value(s.subrange(i, j)));
    }
}

/// First position at or after `i` that does not hold a digit.
pub open spec fn spec_digits_end(s: Seq<u8>, i: int) -> int
    recommends
        0 <= i <= s.len(),
    decreases s.len() - i,
{
    if i < s.len() && is_digit(s[i]) {
        spec_digits_end(s, i + 1)
    } else {
        i
    }
}

/// Where the digit run ends: within bounds, digits throughout, and a
/// non-digit (or the buffer's end) right after.
pub proof fn lemma_digits_end_bounds(s: Seq<u8>, i: int)
    requires
        0 <= i <= s.len(),
    ensures
        i <= spec_digits_end(s, i) <= s.len(),
        forall|k: int| i <= k < spec_digits_end(s, i) ==> is_digit(#[trigger] s[k]),
        spec_digits_end(s, i) == s.len() || !is_digit(s[spec_digits_end(s, i)]),
    decreases s.len() - i,
{
    if i < s.len() && is_digit(s[i]) {
        lemma_digits_end_bounds(s, i + 1);
    }
}

/// A run of digits closed by a non-digit or the buffer's end is
/// exactly where the digit scan stops.
pub proof fn lemma_digits_end_of(s: Seq<u8>, i: int, j: int)
    requires
        0 <= i <= j <= s.len(),
        forall|k: int| i <= k < j ==> is_digit(#[trigger] s[k]),
        j == s.len() || !is_digit(s[j]),
    ensures
        spec_digits_end(s, i) == j,
    decreases j - i,
{
    if i < j {
        lemma_digits_end_of(s, i + 1, j);
    }
}

/// One snapshot field starting at `i`: a non-empty digit run giving the
/// field's length, a colon, then exactly that many bytes.  Yields the
/// field's bytes and the position after them, or absent where the text
/// does not have that shape.
pub open spec fn spec_parse_field(s: Seq<u8>, i: int) -> Option<(Seq<u8>, int)>
    recommends
        0 <= i <= s.len(),
{
    let e = spec_digits_end(s, i);
    if e == i {
        None
    } else {
        let n = spec_dec_value(s.subrange(i, e));
        if e < s.len() && s[e] == SNAPSHOT_LEN_SEPARATOR && e + 1 + n <= s.len() {
            Some((s.subrange(e + 1, e + 1 + n), e + 1 + n))
        } else {
            None
        }
    }
}

/// One device record starting at `i`: four fields and the record
/// terminator.  Yields the device and the position after the record.
pub open spec fn spec_parse_record(s: Seq<u8>, i: int) -> Option<(DeviceView, int)>
    recommends
        0 <= i <= s.len(),
{
    match spec_parse_field(s, i) {
        None => None,
        Some((address, i1)) => match spec_parse_field(s, i1) {
            None => None,
            Some((model, i2)) => match spec_parse_field(s, i2) {
                None => None,
                Some((area, i3)) => match spec_parse_field(s, i3) {
                    None => None,
                    Some((mac, i4)) => {
                        if i4 < s.len() && s[i4] == SNAPSHOT_RECORD_END {
                            Some(((DeviceView { address, model, area, mac }), i4 + 1))
                        } else {
                            None
                        }
                    },
                },
            },
        },
    }
}

/// Every device record from `i` to the end of the text, in order;
/// absent where the remainder is not a sequence of records.
pub open spec fn spec_parse_all(s: Seq<u8>, i: int) -> Option<Seq<DeviceView>>
    recommends
        0 <= i <= s.len(),
    decreases s.len() - i,
{
    if i == s.len() {
        Some(Seq::<DeviceView>::empty())
    } else {
        match spec_parse_record(s, i) {
            None => None,
            Some((d, j)) => {
                if i < j <= s.len() {
                    match spec_parse_all(s, j) {
                        None => None,
                        Some(rest) => Some(seq![d] + rest),
                    }
                } else {
                    None
                }
            },
        }
    }
}

/// One field as the snapshot writes it: decimal length, colon, bytes.
pub open spec fn spec_field_bytes(f: Seq<u8>) -> Seq<u8> {
    spec_dec(f.len()) + seq![SNAPSHOT_LEN_SEPARATOR] + f
}

/// One device record as the snapshot writes it.
pub open spec fn spec_record_bytes(d: DeviceView) -> Seq<u8> {
    spec_field_bytes(d.address) + spec_field_bytes(d.model) + spec_field_bytes(d.area)
        + spec_field_bytes(d.mac) + seq![SNAPSHOT_RECORD_END]
}

/// The whole snapshot: every device's record, in registry order.
pub open spec fn spec_serialize(ds: Seq<DeviceView>) -> Seq<u8>
    decreases ds.len(),
{
    if ds.len() == 0 {
        Seq::<u8>::empty()
    } else {
        spec_record_bytes(ds[0]) + spec_serialize(ds.skip(1))
    }
}

/// What reading a whole snapshot yields.
pub open spec fn spec_deserialize(s: Seq<u8>) -> Option<Seq<DeviceView>> {
    spec_parse_all(s, 0)
}

/// The decimal digits of `n`, as `spec_dec` states.
pub fn to_decimal(n: usize) -> (r: Vec<u8>)
    ensures
        r@ == spec_dec(n as nat),
    decreases n,
{
    if n < 10 {
        let mut r: Vec<u8> = Vec::new();
        r.push(0x30 + (n as u8));
        assert(r@ =~= spec_dec(n as nat));
        r
    } else {
        let mut r = to_decimal(n / 10);
        r.push(0x30 + ((n % 10) as u8));
        assert(r@ =~= spec_dec(n as nat));
        r
    }
}

/// Appends one field in snapshot form to `out`.
fn append_field(out: &mut Vec<u8>, f: &Vec<u8>)
    ensures
        final(out)@ == old(out)@ + spec_field_bytes(f@),
{
    let mut digits = to_decimal(f.len());
    out.append(&mut digits);
    out.push(SNAPSHOT_LEN_SEPARATOR);
    out.extend_from_slice(f.as_slice());
    assert(out@ =~= old(out)@ + spec_field_bytes(f@));
}

fn serialize_from(devices: &Vec<Device>, i: usize) -> (r: Vec<u8>)
    requires
        i <= devices@.len(),
    ensures
        r@ == spec_serialize(device_views(devices@).skip(i as int)),
    decreases devices@.len() - i,
{
    if i == devices.len() {
        proof {
            assert(device_views(devices@).skip(i as int) =~= Seq::<DeviceView>::empty());
        }
        Vec::new()
    } else {
        let d = &devices[i];
        let mut r: Vec<u8> = Vec::new();
        append_field(&mut r, &d.address);
        append_field(&mut r, &d.model);
        append_field(&mut r, &d.area);
        append_field(&mut r, &d.mac);
        r.push(SNAPSHOT_RECORD_END);
        proof {
            assert(r@ =~= spec_record_bytes(devices@[i as int]@));
        }
        let mut rest = serialize_from(devices, i + 1);
        r.append(&mut rest);
        proof {
            let dv = device_views(devices@);
            assert(dv.skip(i as int)[0] == devices@[i as int]@);
            assert(dv.skip(i as int).skip(1) =~= dv.skip(i + 1));
            assert(r@ =~= spec_record_bytes(dv.skip(i as int)[0]) + spec_serialize(dv.skip(i + 1)));
        }
        r
    }
}

/// Whether the byte at `j` is a decimal digit.
fn digit_at(s: &Vec<u8>, j: usize) -> (r: bool)
    requires
        j < s@.len(),
    ensures
        r == is_digit(s@[j as int]),
{
    let b = s[j];
    0x30 <= b && b <= 0x39
}

/// Scans the digit run starting at `i` and accumulates its value.
/// Yields the value with the run's end, or absent where the value does
/// not fit the machine, in which case it cannot name any position
/// inside the text either.
fn scan_number(s: &Vec<u8>, i: usize) -> (r: Option<(usize, usize)>)
    requires
        i <= s@.len(),
    ensures
        match r {
            Some((n, j)) => {
                &&& j as int == spec_digits_end(s@, i as int)
                &&& n as nat == spec_dec_value(s@.subrange(i as int, j as int))
                &&& i <= j <= s@.len()
            },
            None => spec_dec_value(
                s@.subrange(i as int, spec_digits_end(s@, i as int)),
            ) > usize::MAX,
        },
{
    proof {
        lemma_digits_end_bounds(s@, i as int);
    }
    let ghost e = spec_digits_end(s@, i as int);
    let mut j: usize = i;
    let mut acc: usize = 0;
    proof {
        assert(s@.subrange(i as int, i as int) =~= Seq::<u8>::empty());
    }
    while j < s.len() && digit_at(s, j)
        invariant
            i <= j <= s@.len(),
            e == spec_digits_end(s@, i as int),
            spec_digits_end(s@, j as int) == e,
            j <= e <= s@.len(),
            forall|k: int| i <= k < e ==> is_digit(#[trigger] s@[k]),
            acc as nat == spec_dec_value(s@.subrange(i as int, j as int)),
        decreases s@.len() - j,
    {
        let b = s[j];
        let d = (b - 0x30) as usize;
        proof {
            assert(is_digit(s@[j as int]));
            assert(j < e) by {
                if j == e {
                    lemma_digits_end_bounds(s@, i as int);
                }
            }
            assert(s@.subrange(i as int, j + 1).drop_last() =~= s@.subrange(i as int, j as int));
            assert(spec_dec_value(s@.subrange(i as int, j + 1)) == acc * 10 + d);
        }
        if acc > usize::MAX / 10 || (acc == usize::MAX / 10 && d > usize::MAX % 10) {
            proof {
                assert(usize::MAX as int == 10 * (usize::MAX as int / 10) + usize::MAX as int
                    % 10);
                assert(acc * 10 + d > usize::MAX);
                lemma_dec_value_extend(s@, i as int, j + 1, e);
            }
            return None;
        }
        proof {
            assert(usize::MAX as int == 10 * (usize::MAX as int / 10) + usize::MAX as int % 10);
            assert(acc * 10 + d <= usize::MAX);
        }
        proof {
            assert(spec_digits_end(s@, j as int) == spec_digits_end(s@, j + 1));
        }
        acc = acc * 10 + d;
        j = j + 1;
    }
    proof {
        assert(spec_digits_end(s@, j as int) == j);
    }
    Some((acc, j))
}

/// Parses one snapshot field, as `spec_parse_field` states.
fn parse_field(s: &Vec<u8>, i: usize) -> (r: Option<(Vec<u8>, usize)>)
    requires
        i <= s@.len(),
    ensures
        match r {
            Some((f, j)) => {
                &&& spec_parse_field(s@, i as int) == Some((f@, j as int))
                &&& i < j <= s@.len()
            },
            None => spec_parse_field(s@, i as int) is None,
        },
{
    let sl = s.len();
    let scanned = match scan_number(s, i) {
        None => {
            proof {
                lemma_digits_end_bounds(s@, i as int);
                let e = spec_digits_end(s@, i as int);
                let n = spec_dec_value(s@.subrange(i as int, e));
                assert(e != i) by {
                    if e == i as int {
                        assert(s@.subrange(i as int, i as int) =~= Seq::<u8>::empty());
                        assert(spec_dec_value(Seq::<u8>::empty()) == 0);
                    }
                }
                assert(s@.len() <= usize::MAX);
                assert(e + 1 + n > s@.len());
            }
            return None;
        },
        Some(p) => p,
    };
    let (n, e) = scanned;
    if e == i {
        return None;
    }
    if e >= s.len() {
        return None;
    }
    if s[e] != SNAPSHOT_LEN_SEPARATOR {
        return None;
    }
    if n > s.len() - (e + 1) {
        return None;
    }
    let f = vstd::slice::slice_to_vec(vstd::slice::slice_subrange(s.as_slice(), e + 1, e + 1 + n));
    Some((f, e + 1 + n))
}

/// Parses one device record, as `spec_parse_record` states.
fn parse_record(s: &Vec<u8>, i: usize) -> (r: Option<(Device, usize)>)
    requires
        i <= s@.len(),
    ensures
        match r {
            Some((d, j)) => {
                &&& spec_parse_record(s@, i as int) == Some((d@, j as int))
                &&& i < j <= s@.len()
            },
            None => spec_parse_record(s@, i as int) is None,
        },
{
    let (address, i1) = match parse_field(s, i) {
        None => { return None; },
        Some(p) => p,
    };
    let (model, i2) = match parse_field(s, i1) {
        None => { return None; },
        Some(p) => p,
    };
    let (area, i3) = match parse_field(s, i2) {
        None => { return None; },
        Some(p) => p,
    };
    let (mac, i4) = match parse_field(s, i3) {
        None => { return None; },
        Some(p) => p,
    };
    if i4 >= s.len() {
        return None;
    }
    if s[i4] != SNAPSHOT_RECORD_END {
        return None;
    }
    Some((Device::from(address, model, area, mac), i4 + 1))
}

fn parse_devices(s: &Vec<u8>, i: usize) -> (r: Option<Vec<Device>>)
    requires
        i <= s@.len(),
    ensures
        match r {
            Some(ds) => spec_parse_all(s@, i as int) == Some(device_views(ds@)),
            None => spec_parse_all(s@, i as int) is None,
        },
    decreases s@.len() - i,
{
    if i == s.len() {
        let ds: Vec<Device> = Vec::new();
        proof {
            assert(device_views(ds@) =~= Seq::<DeviceView>::empty());
        }
        return Some(ds);
    }
    let (d, j) = match parse_record(s, i) {
        None => { return None; },
        Some(p) => p,
    };
    let mut rest = match parse_devices(s, j) {
        None => { return None; },
        Some(ds) => ds,
    };
    let ghost rest_views = device_views(rest@);
    let ghost dv = d@;
    rest.insert(0, d);
    proof {
        assert(device_views(rest@) =~= seq![dv] + rest_views);
    }
    Some(rest)
}

/// The ordered registry of known devices.  Positional indices are
/// stable only until the sequence is replaced wholesale by a new
/// discovery run.
pub struct Remote {
    pub devices: Vec<Device>,
}

impl Remote {
    /// An empty registry.
    pub fn new() -> (r: Remote)
        ensures
            r.devices@.len() == 0,
    {
        Remote { devices: Vec::new() }
    }

    /// Positional lookup; absent is the normal outcome for an index
    /// beyond the current sequence.
    pub fn device(&self, index: usize) -> (r: Option<&Device>)
        ensures
            match r {
                Some(d) => index < self.devices@.len() && *d == self.devices@[index as int],
                None => index >= self.devices@.len(),
            },
    {
        if index < self.devices.len() {
            Some(&self.devices[index])
        } else {
            None
        }
    }

    /// The message a raw command sends to the device at
    /// `device_address`: the caller opens the transient connection to
    /// that address and writes the encoded frame there.
    pub fn raw(device_address: &[u8], command: &[u8], parameter: &[u8]) -> (m: crate::message::IscpMessage)
        requires
            command@.len() >= crate::message::ISCP_MSG_CMD_LEN,
        ensures
            m@.destination == crate::message::ISCP_MSG_DST_RECEIVER,
            m@.command == command@.subrange(0, crate::message::ISCP_MSG_CMD_LEN as int),
            command@.len() == crate::message::ISCP_MSG_CMD_LEN ==> m@.command == command@,
            m@.parameter == parameter@,
            m@.wf(),
    {
        let device = Device::from_address(device_address);
        device.raw(command, parameter)
    }

    /// Writes the snapshot of the device sequence, as `spec_serialize`
    /// states.
    pub fn serialize(&self) -> (r: Vec<u8>)
        ensures
            r@ == spec_serialize(device_views(self.devices@)),
    {
        let r = serialize_from(&self.devices, 0);
        proof {
            assert(device_views(self.devices@).skip(0) =~= device_views(self.devices@));
        }
        r
    }

    /// Reads a snapshot back into a registry, as `spec_deserialize`
    /// states; absent where the text is not a sequence of records.
    pub fn deserialize(data: &Vec<u8>) -> (r: Option<Remote>)
        ensures
            match r {
                Some(rem) => spec_deserialize(data@) == Some(device_views(rem.devices@)),
                None => spec_deserialize(data@) is None,
            },
    {
        match parse_devices(data, 0) {
            None => None,
            Some(ds) => Some(Remote { devices: ds }),
        }
    }
}

/// A field written at `i` parses back to exactly its bytes, ending
/// right after them.
pub proof fn lemma_parse_field_at(s: Seq<u8>, i: int, f: Seq<u8>)
    requires
        0 <= i,
        i + spec_field_bytes(f).len() <= s.len(),
        s.subrange(i, i + spec_field_bytes(f).len() as int) == spec_field_bytes(f),
    ensures
        spec_parse_field(s, i) == Some((f, i + spec_field_bytes(f).len() as int)),
{
    let fb = spec_field_bytes(f);
    let dl = spec_dec(f.len()).len() as int;
    lemma_dec_digits(f.len());
    assert forall|k: int| 0 <= k < fb.len() implies s[i + k] == fb[k] by {
        assert(s.subrange(i, i + fb.len() as int)[k] == s[i + k]);
    }
    assert forall|k: int| i <= k < i + dl implies is_digit(#[trigger] s[k]) by {
        assert(fb[k - i] == spec_dec(f.len())[k - i]);
        assert(s[k] == fb[k - i]);
    }
    assert(fb[dl] == SNAPSHOT_LEN_SEPARATOR);
    assert(s[i + dl] == SNAPSHOT_LEN_SEPARATOR);
    assert(!is_digit(SNAPSHOT_LEN_SEPARATOR));
    lemma_digits_end_of(s, i, i + dl);
    assert(s.subrange(i, i + dl) =~= spec_dec(f.len()));
    lemma_dec_value_round(f.len());
    assert(spec_dec_value(s.subrange(i, i + dl)) == f.len());
    assert(s.subrange(i + dl + 1, i + dl + 1 + f.len() as int) =~= f) by {
        assert forall|k: int| 0 <= k < f.len() implies s.subrange(
            i + dl + 1,
            i + dl + 1 + f.len() as int,
        )[k] == f[k] by {
            assert(s[i + (dl + 1 + k)] == fb[dl + 1 + k]);
            assert(fb[dl + 1 + k] == f[k]);
        }
    }
}

/// A record written at `i` parses back to exactly its device, ending
/// right after the record terminator.
pub proof fn lemma_parse_record_at(s: Seq<u8>, i: int, d: DeviceView)
    requires
        0 <= i,
        i + spec_record_bytes(d).len() <= s.len(),
        s.subrange(i, i + spec_record_bytes(d).len() as int) == spec_record_bytes(d),
    ensures
        spec_parse_record(s, i) == Some((d, i + spec_record_bytes(d).len() as int)),
{
    let rb = spec_record_bytes(d);
    let a = spec_field_bytes(d.address);
    let m = spec_field_bytes(d.model);
    let ar = spec_field_bytes(d.area);
    let mc = spec_field_bytes(d.mac);
    let i1 = i + a.len() as int;
    let i2 = i1 + m.len() as int;
    let i3 = i2 + ar.len() as int;
    let i4 = i3 + mc.len() as int;
    assert forall|k: int| 0 <= k < rb.len() implies s[i + k] == rb[k] by {
        assert(s.subrange(i, i + rb.len() as int)[k] == s[i + k]);
    }
    assert(s.subrange(i, i1) =~= a) by {
        assert forall|k: int| 0 <= k < a.len() implies s.subrange(i, i1)[k] == a[k] by {
            assert(s[i + (0 + k)] == rb[0 + k]);
            assert(rb[0 + k] == a[k]);
        }
    }
    lemma_parse_field_at(s, i, d.address);
    assert(s.subrange(i1, i2) =~= m) by {
        assert forall|k: int| 0 <= k < m.len() implies s.subrange(i1, i2)[k] == m[k] by {
            assert(s[i + (a.len() as int + k)] == rb[a.len() as int + k]);
            assert(rb[a.len() as int + k] == m[k]);
        }
    }
    lemma_parse_field_at(s, i1, d.model);
    assert(s.subrange(i2, i3) =~= ar) by {
        assert forall|k: int| 0 <= k < ar.len() implies s.subrange(i2, i3)[k] == ar[k] by {
            assert(s[i + (a.len() + m.len() as int + k)] == rb[a.len() + m.len() as int + k]);
            assert(rb[a.len() + m.len() as int + k] == ar[k]);
        }
    }
    lemma_parse_field_at(s, i2, d.area);
    assert(s.subrange(i3, i4) =~= mc) by {
        assert forall|k: int| 0 <= k < mc.len() implies s.subrange(i3, i4)[k] == mc[k] by {
            assert(s[i + (a.len() + m.len() + ar.len() as int + k)] == rb[a.len() + m.len() + ar.len() as int + k]);
            assert(rb[a.len() + m.len() + ar.len() as int + k] == mc[k]);
        }
    }
    lemma_parse_field_at(s, i3, d.mac);
    assert(rb[i4 - i] == SNAPSHOT_RECORD_END);
    assert(s[i4] == SNAPSHOT_RECORD_END);
    assert(spec_parse_record(s, i) == Some(
        ((DeviceView { address: d.address, model: d.model, area: d.area, mac: d.mac }), i4 + 1),
    ));
    assert((DeviceView { address: d.address, model: d.model, area: d.area, mac: d.mac }) == d);
}

/// A snapshot written from `i` to the end of the text parses back to
/// exactly the device sequence it was written from.
pub proof fn lemma_parse_all_serialized(s: Seq<u8>, i: int, ds: Seq<DeviceView>)
    requires
        0 <= i <= s.len(),
        s.skip(i) == spec_serialize(ds),
    ensures
        spec_parse_all(s, i) == Some(ds),
    decreases ds.len(),
{
    if ds.len() == 0 {
        assert(s.skip(i).len() == 0);
    } else {
        let rb = spec_record_bytes(ds[0]);
        assert(s.skip(i).len() == rb.len() + spec_serialize(ds.skip(1)).len());
        assert(i + rb.len() <= s.len());
        assert forall|k: int| 0 <= k < rb.len() implies s[i + k] == rb[k] by {
            assert(s.skip(i)[k] == s[i + k]);
        }
        assert(s.subrange(i, i + rb.len() as int) =~= rb);
        lemma_parse_record_at(s, i, ds[0]);
        let j = i + rb.len() as int;
        assert(s.skip(j) =~= spec_serialize(ds.skip(1))) by {
            assert forall|k: int| 0 <= k < s.len() - j implies s.skip(j)[k] == spec_serialize(
                ds.skip(1),
            )[k] by {
                assert(s.skip(i)[rb.len() + k] == s[j + k]);
            }
        }
        lemma_parse_all_serialized(s, j, ds.skip(1));
        assert(seq![ds[0]] + ds.skip(1) =~= ds);
    }
}

/// Round trip: reading a written snapshot back yields exactly the same
/// ordered device sequence, descriptive fields intact, whatever bytes
/// the fields hold.
pub proof fn lemma_snapshot_round_trip(ds: Seq<DeviceView>)
    ensures
        spec_deserialize(spec_serialize(ds)) == Some(ds),
{
    let s = spec_serialize(ds);
    assert(s.skip(0) =~= s);
    lemma_parse_all_serialized(s, 0, ds);
}

} // verus!
