//! The netlink message reader: a sequence of (header, body) pairs read from
//! one received datagram.
use crate::aligned_buffer::{read_spec, FromBuffer, U32AlignedBuffer, MAX_SPAN};
use crate::wire::{le_u16, le_u32, read_u16, read_u32};
use vstd::prelude::*;

verus! {

/// Message type: nothing, to be skipped.
pub const NLMSG_NOOP: u16 = 1;

/// Message type: an error report (or acknowledgement) from the kernel.
pub const NLMSG_ERROR: u16 = 2;

/// Message type: the end of a multipart response.
pub const NLMSG_DONE: u16 = 3;

/// Message type: the kernel dropped data it had for this socket.
pub const NLMSG_OVERRUN: u16 = 4;

/// Header flag: the message is a request.
pub const NLM_F_REQUEST: u16 = 1;

/// Header flag: the message is one part of a multipart response.
pub const NLM_F_MULTI: u16 = 2;

/// Header flags: return the whole table (`NLM_F_ROOT | NLM_F_MATCH`).
pub const NLM_F_DUMP: u16 = 0x300;

/// Size of the netlink message header.
pub const NLMSG_HDRLEN: usize = 16;

/// The netlink message header, as laid out on the wire (host byte order,
/// taken here as little-endian).
#[allow(non_camel_case_types)]
#[derive(Clone, Copy, Debug, PartialEq, Eq, Structural)]
pub struct nlmsghdr {
    pub nlmsg_len: u32,
    pub nlmsg_type: u16,
    pub nlmsg_flags: u16,
    pub nlmsg_seq: u32,
    pub nlmsg_pid: u32,
}

/// Whether `flags` mark one part of a multipart response.
pub open spec fn is_multipart(flags: u16) -> bool {
    flags & NLM_F_MULTI != 0
}

impl FromBuffer for nlmsghdr {
    open spec fn spec_size() -> nat {
        16
    }

    open spec fn spec_decode(b: Seq<u8>) -> nlmsghdr {
        nlmsghdr {
            nlmsg_len: le_u32(b, 0),
            nlmsg_type: le_u16(b, 4),
            nlmsg_flags: le_u16(b, 6),
            nlmsg_seq: le_u32(b, 8),
            nlmsg_pid: le_u32(b, 12),
        }
    }

    /// A part of a multipart response declares its own length; any other
    /// message is taken to fill the rest of the datagram, which ends the
    /// reading after it.
    open spec fn spec_len(&self, total: nat) -> nat {
        if is_multipart(self.nlmsg_flags) {
            self.nlmsg_len as nat
        } else {
            total
        }
    }

    fn size() -> (r: usize) {
        NLMSG_HDRLEN
    }

    fn decode(b: &[u8], start: usize) -> (r: nlmsghdr) {
        assert(start + 16 <= b.len());
        let r = nlmsghdr {
            nlmsg_len: read_u32(b, start),
            nlmsg_type: read_u16(b, start + 4),
            nlmsg_flags: read_u16(b, start + 6),
            nlmsg_seq: read_u32(b, start + 8),
            nlmsg_pid: read_u32(b, start + 12),
        };
        let ghost s = b@.subrange(start as int, start + 16);
        assert(le_u32(s, 0) == le_u32(b@, start as int));
        assert(le_u16(s, 4) == le_u16(b@, start + 4));
        assert(le_u16(s, 6) == le_u16(b@, start + 6));
        assert(le_u32(s, 8) == le_u32(b@, start + 8));
        assert(le_u32(s, 12) == le_u32(b@, start + 12));
        r
    }

    fn len(&self, total: usize) -> (r: u32) {
        if self.nlmsg_flags & NLM_F_MULTI != 0 {
            self.nlmsg_len
        } else {
            total as u32
        }
    }
}

/// The messages that `data` holds, in order: each header with the bytes of
/// its body. Reading stops at the first header that is cut short or that
/// declares an impossible length.
pub open spec fn messages(data: Seq<u8>) -> Seq<(nlmsghdr, Seq<u8>)>
    decreases data.len(),
{
    match read_spec::<nlmsghdr>(data) {
        None => Seq::empty(),
        Some((h, body, rest)) => seq![(h, body)] + messages(rest),
    }
}

/// Reads the messages of one datagram, front to back.
#[derive(Debug)]
pub struct NetlinkIterator<'a>(U32AlignedBuffer<'a>);

impl<'a> View for NetlinkIterator<'a> {
    type V = Seq<(nlmsghdr, Seq<u8>)>;

    /// The messages still to come.
    closed spec fn view(&self) -> Seq<(nlmsghdr, Seq<u8>)> {
        messages(self.0@)
    }
}

impl<'a> NetlinkIterator<'a> {
    pub fn new(buffer: &'a [u8]) -> (r: NetlinkIterator<'a>)
        requires
            buffer@.len() < MAX_SPAN,
        ensures
            r@ == messages(buffer@),
    {
        NetlinkIterator(U32AlignedBuffer::new(buffer))
    }

    /// The next message, as its header and a cursor over its body.
    pub fn next(&mut self) -> (r: Option<(nlmsghdr, U32AlignedBuffer<'a>)>)
        ensures
            old(self)@ == match r {
                None => Seq::empty(),
                Some((h, body)) => seq![(h, body@)] + final(self)@,
            },
    {
        self.0.read()
    }
}

} // verus!
