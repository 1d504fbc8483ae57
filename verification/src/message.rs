//! The ISCP wire frame: a fixed binary header followed by a one-byte
//! destination code, a three-byte command, a variable ASCII parameter
//! and a line-feed terminator.

use vstd::prelude::*;

verus! {

/// Destination code addressing one receiver.
pub const ISCP_MSG_DST_RECEIVER: u8 = 0x31;

/// Destination code for a broadcast discovery query.
pub const ISCP_MSG_DST_BROADCAST: u8 = 0x78;

/// Protocol version byte of the frame header.
pub const ISCP_VERSION: u8 = 0x01;

/// Start-of-frame marker (ASCII `!`) standing right after the header.
pub const ISCP_MSG_START: u8 = 0x21;

/// Frame terminator (line feed).
pub const ISCP_MSG_END_LF: u8 = 0x0A;

/// Fixed value of the header-length field.
pub const ISCP_MSG_HEADER_LEN: u32 = 16;

/// Length of the command field in bytes.
pub const ISCP_MSG_CMD_LEN: usize = 3;

/// Shortest well-formed frame: 16 header bytes, start marker,
/// destination, three command bytes and the terminator.
pub const ISCP_MSG_MIN_LEN: usize = 22;

/// The four magic bytes opening every frame (ASCII `ISCP`).
pub open spec fn spec_magic() -> Seq<u8> {
    seq![0x49u8, 0x53u8, 0x43u8, 0x50u8]
}

/// A protocol message before framing: where it goes, what operation it
/// names, and the operation's parameter.
pub struct IscpMessage {
    pub destination: u8,
    pub command: Vec<u8>,
    pub parameter: Vec<u8>,
}

/// Mathematical model of a message: the same three fields over `Seq`.
pub struct IscpMessageView {
    pub destination: u8,
    pub command: Seq<u8>,
    pub parameter: Seq<u8>,
}

impl View for IscpMessage {
    type V = IscpMessageView;

    open spec fn view(&self) -> IscpMessageView {
        IscpMessageView {
            destination: self.destination,
            command: self.command@,
            parameter: self.parameter@,
        }
    }
}

impl IscpMessageView {
    /// A message is well formed when its command is exactly three bytes.
    pub open spec fn wf(self) -> bool {
        self.command.len() == ISCP_MSG_CMD_LEN
    }
}

/// The four big-endian bytes of a 32-bit header field.
pub open spec fn spec_be32(v: u32) -> Seq<u8> {
    seq![
        ((v >> 24) & 0xff) as u8,
        ((v >> 16) & 0xff) as u8,
        ((v >> 8) & 0xff) as u8,
        (v & 0xff) as u8,
    ]
}

/// Payload length as declared in the header: start marker, destination,
/// three command bytes, the parameter, and the terminator.
pub open spec fn spec_payload_len(parameter: Seq<u8>) -> int {
    6 + parameter.len() as int
}

/// Everything of the frame that comes before the parameter: magic,
/// the two length fields, version, reserved bytes, start marker,
/// destination and command.
pub open spec fn spec_frame_head(destination: u8, command: Seq<u8>, parameter: Seq<u8>) -> Seq<u8> {
    spec_magic() + spec_be32(ISCP_MSG_HEADER_LEN) + spec_be32(spec_payload_len(parameter) as u32)
        + seq![ISCP_VERSION] + seq![0u8, 0u8, 0u8] + seq![ISCP_MSG_START] + seq![destination]
        + command
}

/// The encoded frame for the given fields, with `command` taken as it
/// stands (callers hand in exactly three bytes).
pub open spec fn spec_frame(destination: u8, command: Seq<u8>, parameter: Seq<u8>) -> Seq<u8> {
    spec_frame_head(destination, command, parameter) + parameter + seq![ISCP_MSG_END_LF]
}

/// What decoding yields on the given buffer: absent for an undersized
/// buffer, a magic mismatch or a missing start marker; otherwise the
/// destination, the three command bytes, and every remaining byte up
/// to but not including a trailing terminator.  The two header length
/// fields are informational and never checked.
pub open spec fn spec_decode(data: Seq<u8>) -> Option<IscpMessageView> {
    if data.len() < ISCP_MSG_MIN_LEN {
        None
    } else if data.subrange(0, 4) != spec_magic() {
        None
    } else if data[16] != ISCP_MSG_START {
        None
    } else {
        let end = if data[data.len() - 1] == ISCP_MSG_END_LF {
            data.len() - 1
        } else {
            data.len() as int
        };
        Some(IscpMessageView {
            destination: data[17],
            command: data.subrange(18, 21),
            parameter: data.subrange(21, end),
        })
    }
}

/// Appends the four big-endian bytes of `x` to `out`.
fn push_be32(out: &mut Vec<u8>, x: u32)
    ensures
        final(out)@ == old(out)@ + spec_be32(x),
{
    out.push(((x >> 24) & 0xff) as u8);
    out.push(((x >> 16) & 0xff) as u8);
    out.push(((x >> 8) & 0xff) as u8);
    out.push((x & 0xff) as u8);
    assert(out@ =~= old(out)@ + spec_be32(x));
}

impl IscpMessage {
    /// An empty message addressed to a receiver.  Its command is empty,
    /// so it is not yet well formed for encoding.
    pub fn new() -> (m: IscpMessage)
        ensures
            m@.destination == ISCP_MSG_DST_RECEIVER,
            m@.command.len() == 0,
            m@.parameter.len() == 0,
    {
        IscpMessage { destination: ISCP_MSG_DST_RECEIVER, command: Vec::new(), parameter: Vec::new() }
    }

    /// A receiver-addressed message with the given command and
    /// parameter.  The command is validated here: it must supply three
    /// bytes, and only its first three bytes are kept, so every message
    /// built this way is well formed.
    pub fn from(command: &[u8], parameter: &[u8]) -> (m: IscpMessage)
        requires
            command@.len() >= ISCP_MSG_CMD_LEN,
        ensures
            m@.destination == ISCP_MSG_DST_RECEIVER,
            m@.command == command@.subrange(0, ISCP_MSG_CMD_LEN as int),
            command@.len() == ISCP_MSG_CMD_LEN ==> m@.command == command@,
            m@.parameter == parameter@,
            m@.wf(),
    {
        proof {
            if command@.len() == ISCP_MSG_CMD_LEN {
                assert(command@.subrange(0, ISCP_MSG_CMD_LEN as int) =~= command@);
            }
        }
        let cmd = vstd::slice::slice_to_vec(vstd::slice::slice_subrange(command, 0, ISCP_MSG_CMD_LEN));
        let param = vstd::slice::slice_to_vec(parameter);
        IscpMessage { destination: ISCP_MSG_DST_RECEIVER, command: cmd, parameter: param }
    }

    /// Decodes one datagram.  Returns absent exactly where
    /// `spec_decode` does: a buffer shorter than the minimum frame
    /// length, a magic mismatch, or a missing start marker.
    pub fn from_slice(data: &[u8]) -> (r: Option<IscpMessage>)
        ensures
            match r {
                Some(m) => spec_decode(data@) == Some(m@) && m@.wf(),
                None => spec_decode(data@) is None,
            },
    {
        let n = data.len();
        if n < ISCP_MSG_MIN_LEN {
            return None;
        }
        let magic_ok = *vstd::slice::slice_index_get(data, 0) == 0x49
            && *vstd::slice::slice_index_get(data, 1) == 0x53
            && *vstd::slice::slice_index_get(data, 2) == 0x43
            && *vstd::slice::slice_index_get(data, 3) == 0x50;
        if !magic_ok {
            proof {
                assert(data@.subrange(0, 4) != spec_magic()) by {
                    if data@.subrange(0, 4) == spec_magic() {
                        assert(data@.subrange(0, 4)[0] == data@[0]);
                        assert(data@.subrange(0, 4)[1] == data@[1]);
                        assert(data@.subrange(0, 4)[2] == data@[2]);
                        assert(data@.subrange(0, 4)[3] == data@[3]);
                    }
                }
            }
            return None;
        }
        proof {
            assert(data@.subrange(0, 4) =~= spec_magic());
        }
        if *vstd::slice::slice_index_get(data, 16) != ISCP_MSG_START {
            return None;
        }
        let destination = *vstd::slice::slice_index_get(data, 17);
        let command = vstd::slice::slice_to_vec(vstd::slice::slice_subrange(data, 18, 21));
        let last = *vstd::slice::slice_index_get(data, n - 1);
        let end = if last == ISCP_MSG_END_LF { n - 1 } else { n };
        let parameter = vstd::slice::slice_to_vec(vstd::slice::slice_subrange(data, 21, end));
        Some(IscpMessage { destination, command, parameter })
    }

    /// Encodes the frame.  The command must supply three bytes; only
    /// its first three are written, as `spec_frame` states.
    pub fn bytes(&self) -> (r: Vec<u8>)
        requires
            self.command@.len() >= ISCP_MSG_CMD_LEN,
            self.parameter@.len() + ISCP_MSG_MIN_LEN <= usize::MAX,
            spec_payload_len(self.parameter@) <= u32::MAX,
        ensures
            r@ == spec_frame(self.destination, self.command@.take(ISCP_MSG_CMD_LEN as int), self.parameter@),
            r@.len() == ISCP_MSG_MIN_LEN + self.parameter@.len(),
    {
        let mut out: Vec<u8> = Vec::new();
        out.push(0x49);
        out.push(0x53);
        out.push(0x43);
        out.push(0x50);
        push_be32(&mut out, ISCP_MSG_HEADER_LEN);
        push_be32(&mut out, self.len_payload() as u32);
        out.push(ISCP_VERSION);
        out.push(0x00);
        out.push(0x00);
        out.push(0x00);
        out.push(ISCP_MSG_START);
        out.push(self.destination);
        out.push(self.command[0]);
        out.push(self.command[1]);
        out.push(self.command[2]);
        let ghost head = spec_frame_head(self.destination, self.command@.take(ISCP_MSG_CMD_LEN as int), self.parameter@);
        assert(out@ =~= head);
        let mut i: usize = 0;
        while i < self.parameter.len()
            invariant
                i <= self.parameter@.len(),
                out@ == head + self.parameter@.take(i as int),
            decreases self.parameter@.len() - i,
        {
            out.push(self.parameter[i]);
            i = i + 1;
            assert(out@ =~= head + self.parameter@.take(i as int));
        }
        assert(self.parameter@.take(self.parameter@.len() as int) =~= self.parameter@);
        out.push(ISCP_MSG_END_LF);
        assert(out@ =~= spec_frame(self.destination, self.command@.take(ISCP_MSG_CMD_LEN as int), self.parameter@));
        out
    }

    /// Declared payload length: start marker, destination, command,
    /// parameter, terminator.
    pub fn len_payload(&self) -> (r: usize)
        requires
            self.parameter@.len() + 6 <= usize::MAX,
        ensures
            r == spec_payload_len(self.parameter@),
    {
        2 + ISCP_MSG_CMD_LEN + self.parameter.len() + 1
    }

    /// Total encoded length of the frame.
    pub fn len_bytes(&self) -> (r: usize)
        requires
            self.parameter@.len() + ISCP_MSG_MIN_LEN <= usize::MAX,
        ensures
            r == ISCP_MSG_HEADER_LEN + spec_payload_len(self.parameter@),
    {
        ISCP_MSG_HEADER_LEN as usize + self.len_payload()
    }
}

/// Round trip: a frame encoded from a well-formed message decodes back
/// to exactly the same destination, command and parameter, whatever the
/// parameter holds.
pub proof fn lemma_frame_round_trip(destination: u8, command: Seq<u8>, parameter: Seq<u8>)
    requires
        command.len() == ISCP_MSG_CMD_LEN,
    ensures
        spec_decode(spec_frame(destination, command, parameter)) == Some(
            (IscpMessageView { destination, command, parameter }),
        ),
{
    let f = spec_frame(destination, command, parameter);
    assert(f.len() == 22 + parameter.len());
    assert(f.subrange(0, 4) =~= spec_magic());
    assert(f[16] == ISCP_MSG_START);
    assert(f[f.len() - 1] == ISCP_MSG_END_LF);
    assert(f[17] == destination);
    assert(f.subrange(18, 21) =~= command);
    assert(f.subrange(21, f.len() - 1) =~= parameter);
}

/// A buffer shorter than the minimum frame length never decodes.
pub proof fn lemma_decode_rejects_short(data: Seq<u8>)
    requires
        data.len() < ISCP_MSG_MIN_LEN,
    ensures
        spec_decode(data) is None,
{
}

/// A buffer whose first four bytes are not the magic marker never
/// decodes.
pub proof fn lemma_decode_rejects_bad_magic(data: Seq<u8>)
    requires
        data.len() >= 4,
        data.subrange(0, 4) != spec_magic(),
    ensures
        spec_decode(data) is None,
{
}

} // verus!
