//! Reading address and route records out of notification and dump
//! datagrams.
use crate::aligned_buffer::{read_spec, U32AlignedBuffer, MAX_SPAN};
use crate::net::{net_of, IfEvent, IpNet};
use crate::netlink::{messages, nlmsghdr, NetlinkIterator, NLMSG_DONE, NLMSG_ERROR, NLMSG_OVERRUN};
use crate::rtnetlink::{
    attributes, first_address, ifaddrmsg, read_msg, rtmsg, RecordForm, AF_INET, AF_INET6,
    RTM_DELADDR, RTM_DELROUTE, RTM_GETADDR, RTM_GETROUTE, RTM_NEWADDR, RTM_NEWROUTE, RTN_LOCAL,
    RT_TABLE_LOCAL,
};
use vstd::prelude::*;

verus! {

/// Why a datagram could not be taken in.
#[derive(Clone, Copy, Debug, PartialEq, Eq, Structural)]
pub enum WatchError {
    /// The kernel dropped messages for this socket, or a datagram was cut
    /// short: what is known must be fetched again with a full dump.
    Desync,
    /// The kernel broke the protocol: a record without its header or its
    /// address, a prefix longer than its address, or an error in answer to
    /// a dump request.
    Protocol,
}

/// Which kernel table the networks are watched in.
#[derive(Clone, Copy, Debug, PartialEq, Eq, Structural)]
pub enum Table {
    /// The interface addresses: each address with its prefix length.
    Addresses,
    /// The local routes of the local table: each destination with its
    /// prefix length.
    Routes,
}

impl Table {
    /// Type of the messages that list an entry or announce a new one.
    pub open spec fn spec_new_type(self) -> u16 {
        match self {
            Table::Addresses => RTM_NEWADDR,
            Table::Routes => RTM_NEWROUTE,
        }
    }

    /// Type of the messages that announce a removed entry.
    pub open spec fn spec_del_type(self) -> u16 {
        match self {
            Table::Addresses => RTM_DELADDR,
            Table::Routes => RTM_DELROUTE,
        }
    }

    /// Type of the request that dumps the table.
    pub open spec fn spec_get_type(self) -> u16 {
        match self {
            Table::Addresses => RTM_GETADDR,
            Table::Routes => RTM_GETROUTE,
        }
    }

    pub fn new_type(&self) -> (r: u16)
        ensures
            r == self.spec_new_type(),
    {
        match self {
            Table::Addresses => RTM_NEWADDR,
            Table::Routes => RTM_NEWROUTE,
        }
    }

    pub fn del_type(&self) -> (r: u16)
        ensures
            r == self.spec_del_type(),
    {
        match self {
            Table::Addresses => RTM_DELADDR,
            Table::Routes => RTM_DELROUTE,
        }
    }

    pub fn get_type(&self) -> (r: u16)
        ensures
            r == self.spec_get_type(),
    {
        match self {
            Table::Addresses => RTM_GETADDR,
            Table::Routes => RTM_GETROUTE,
        }
    }
}

/// The network that the body of an address record announces. `Ok(None)` for
/// an address family other than IPv4 and IPv6, which is skipped; the
/// address is the first address-bearing attribute.
pub open spec fn record_network(body: Seq<u8>) -> Result<Option<IpNet>, WatchError> {
    match read_spec::<ifaddrmsg>(body) {
        None => Err(WatchError::Protocol),
        Some((h, attrs, _)) => {
            if h.ifa_family != AF_INET && h.ifa_family != AF_INET6 {
                Ok(None)
            } else {
                match first_address(attributes(attrs, RecordForm::Address)) {
                    None => Err(WatchError::Protocol),
                    Some(ip) => {
                        if h.ifa_prefixlen as nat <= ip.max_prefix_len() {
                            Ok(Some(net_of(ip, h.ifa_prefixlen)))
                        } else {
                            Err(WatchError::Protocol)
                        }
                    },
                }
            }
        },
    }
}

/// Reads the body of an address record; see `record_network`.
pub fn read_ifaddrmsg(body: &mut U32AlignedBuffer) -> (r: Result<Option<IpNet>, WatchError>)
    ensures
        r == record_network(old(body)@),
{
    match read_msg::<ifaddrmsg>(body, RecordForm::Address) {
        None => Err(WatchError::Protocol),
        Some((hdr, mut attrs)) => {
            if hdr.ifa_family != AF_INET && hdr.ifa_family != AF_INET6 {
                return Ok(None);
            }
            match attrs.first_address() {
                None => Err(WatchError::Protocol),
                Some(ip) => match IpNet::from_addr(ip, hdr.ifa_prefixlen) {
                    None => Err(WatchError::Protocol),
                    Some(net) => Ok(Some(net)),
                },
            }
        },
    }
}

/// The network that the body of a route record announces: the destination
/// of a local route of the local table, with the destination's prefix
/// length. `Ok(None)` for other routes and for families other than IPv4 and
/// IPv6, which are skipped.
pub open spec fn route_network(body: Seq<u8>) -> Result<Option<IpNet>, WatchError> {
    match read_spec::<rtmsg>(body) {
        None => Err(WatchError::Protocol),
        Some((h, attrs, _)) => {
            if h.rtm_family != AF_INET && h.rtm_family != AF_INET6 {
                Ok(None)
            } else if h.rtm_table != RT_TABLE_LOCAL || h.rtm_type != RTN_LOCAL {
                Ok(None)
            } else {
                match first_address(attributes(attrs, RecordForm::Route)) {
                    None => Err(WatchError::Protocol),
                    Some(ip) => {
                        if h.rtm_dst_len as nat <= ip.max_prefix_len() {
                            Ok(Some(net_of(ip, h.rtm_dst_len)))
                        } else {
                            Err(WatchError::Protocol)
                        }
                    },
                }
            }
        },
    }
}

/// Reads the body of a route record; see `route_network`.
pub fn read_route(body: &mut U32AlignedBuffer) -> (r: Result<Option<IpNet>, WatchError>)
    ensures
        r == route_network(old(body)@),
{
    match read_msg::<rtmsg>(body, RecordForm::Route) {
        None => Err(WatchError::Protocol),
        Some((hdr, mut attrs)) => {
            if hdr.rtm_family != AF_INET && hdr.rtm_family != AF_INET6 {
                return Ok(None);
            }
            if hdr.rtm_table != RT_TABLE_LOCAL || hdr.rtm_type != RTN_LOCAL {
                return Ok(None);
            }
            match attrs.first_address() {
                None => Err(WatchError::Protocol),
                Some(ip) => match IpNet::from_addr(ip, hdr.rtm_dst_len) {
                    None => Err(WatchError::Protocol),
                    Some(net) => Ok(Some(net)),
                },
            }
        },
    }
}

/// The network that a record of `table` announces.
pub open spec fn table_network(table: Table, body: Seq<u8>) -> Result<Option<IpNet>, WatchError> {
    match table {
        Table::Addresses => record_network(body),
        Table::Routes => route_network(body),
    }
}

/// Reads the body of a record of `table`; see `table_network`.
pub fn read_record(table: Table, body: &mut U32AlignedBuffer) -> (r: Result<
    Option<IpNet>,
    WatchError,
>)
    ensures
        r == table_network(table, old(body)@),
{
    match table {
        Table::Addresses => read_ifaddrmsg(body),
        Table::Routes => read_route(body),
    }
}

/// The event a record of `table` of type `ty` (a new or a removed entry)
/// gives.
pub open spec fn change_of(table: Table, ty: u16, n: IpNet) -> IfEvent {
    if ty == table.spec_new_type() {
        IfEvent::Up(n)
    } else {
        IfEvent::Down(n)
    }
}

/// The changes to `table` that the messages of a notification datagram
/// announce, in order. Reading stops at a `NLMSG_DONE` message; an overrun
/// message makes the datagram a desync; messages of other types are
/// skipped.
pub open spec fn notification_changes(msgs: Seq<(nlmsghdr, Seq<u8>)>, table: Table) -> Result<
    Seq<IfEvent>,
    WatchError,
>
    decreases msgs.len(),
{
    if msgs.len() == 0 {
        Ok(Seq::empty())
    } else {
        let (h, body) = msgs[0];
        let rest = notification_changes(msgs.drop_first(), table);
        if h.nlmsg_type == NLMSG_DONE {
            Ok(Seq::empty())
        } else if h.nlmsg_type == NLMSG_OVERRUN {
            Err(WatchError::Desync)
        } else if h.nlmsg_type == table.spec_new_type() || h.nlmsg_type == table.spec_del_type() {
            match table_network(table, body) {
                Err(e) => Err(e),
                Ok(None) => rest,
                Ok(Some(n)) => match rest {
                    Err(e) => Err(e),
                    Ok(cs) => Ok(seq![change_of(table, h.nlmsg_type, n)] + cs),
                },
            }
        } else {
            rest
        }
    }
}

/// The networks that the messages of one datagram of the dump of `table`
/// with sequence number `seq` list, and whether the dump ends in it.
/// Messages of other sequence numbers are skipped; an overrun message makes
/// the datagram a desync, and an error message in answer to the dump is a
/// protocol error.
pub open spec fn dump_part(msgs: Seq<(nlmsghdr, Seq<u8>)>, seq: u32, table: Table) -> Result<
    (Seq<IpNet>, bool),
    WatchError,
>
    decreases msgs.len(),
{
    if msgs.len() == 0 {
        Ok((Seq::empty(), false))
    } else {
        let (h, body) = msgs[0];
        let rest = dump_part(msgs.drop_first(), seq, table);
        if h.nlmsg_type == NLMSG_OVERRUN {
            Err(WatchError::Desync)
        } else if h.nlmsg_seq != seq {
            rest
        } else if h.nlmsg_type == NLMSG_DONE {
            Ok((Seq::empty(), true))
        } else if h.nlmsg_type == NLMSG_ERROR {
            Err(WatchError::Protocol)
        } else if h.nlmsg_type == table.spec_new_type() {
            match table_network(table, body) {
                Err(e) => Err(e),
                Ok(None) => rest,
                Ok(Some(n)) => match rest {
                    Err(e) => Err(e),
                    Ok((ns, done)) => Ok((seq![n] + ns, done)),
                },
            }
        } else {
            rest
        }
    }
}

/// The changes to `table` that a notification datagram announces; see
/// `notification_changes`.
pub fn parse_notification(data: &[u8], table: Table) -> (r: Result<Vec<IfEvent>, WatchError>)
    requires
        data@.len() < MAX_SPAN,
    ensures
        match (r, notification_changes(messages(data@), table)) {
            (Ok(v), Ok(s)) => v@ == s,
            (Err(e), Err(f)) => e == f,
            _ => false,
        },
{
    let mut it = NetlinkIterator::new(data);
    let mut out: Vec<IfEvent> = Vec::new();
    loop
        invariant
            notification_changes(messages(data@), table) == match notification_changes(
                it@,
                table,
            ) {
                Ok(cs) => Ok(out@ + cs),
                Err(e) => Err(e),
            },
        decreases it@.len(),
    {
        let ghost before = it@;
        match it.next() {
            None => {
                assert(out@ + Seq::<IfEvent>::empty() =~= out@);
                return Ok(out);
            },
            Some((hdr, mut body)) => {
                assert(before.drop_first() =~= it@);
                if hdr.nlmsg_type == NLMSG_DONE {
                    assert(out@ + Seq::<IfEvent>::empty() =~= out@);
                    return Ok(out);
                } else if hdr.nlmsg_type == NLMSG_OVERRUN {
                    return Err(WatchError::Desync);
                } else if hdr.nlmsg_type == table.new_type() || hdr.nlmsg_type == table.del_type() {
                    match read_record(table, &mut body) {
                        Err(e) => {
                            return Err(e);
                        },
                        Ok(None) => {},
                        Ok(Some(n)) => {
                            let ev = if hdr.nlmsg_type == table.new_type() {
                                IfEvent::Up(n)
                            } else {
                                IfEvent::Down(n)
                            };
                            let ghost old_out = out@;
                            out.push(ev);
                            proof {
                                match notification_changes(it@, table) {
                                    Ok(cs) => {
                                        assert(old_out + (seq![ev] + cs) =~= out@ + cs);
                                    },
                                    Err(_) => {},
                                }
                            }
                        },
                    }
                }
            },
        }
    }
}

/// One datagram of a dump: the networks it lists and whether the dump ends
/// in it.
pub struct DumpPart {
    pub networks: Vec<IpNet>,
    pub done: bool,
}

/// Reads one datagram of the dump of `table` with sequence number `seq`;
/// see `dump_part`.
pub fn parse_dump(data: &[u8], seq: u32, table: Table) -> (r: Result<DumpPart, WatchError>)
    requires
        data@.len() < MAX_SPAN,
    ensures
        match (r, dump_part(messages(data@), seq, table)) {
            (Ok(p), Ok((ns, done))) => p.networks@ == ns && p.done == done,
            (Err(e), Err(f)) => e == f,
            _ => false,
        },
{
    let mut it = NetlinkIterator::new(data);
    let mut out: Vec<IpNet> = Vec::new();
    loop
        invariant
            dump_part(messages(data@), seq, table) == match dump_part(it@, seq, table) {
                Ok((ns, done)) => Ok((out@ + ns, done)),
                Err(e) => Err(e),
            },
        decreases it@.len(),
    {
        let ghost before = it@;
        match it.next() {
            None => {
                assert(out@ + Seq::<IpNet>::empty() =~= out@);
                return Ok(DumpPart { networks: out, done: false });
            },
            Some((hdr, mut body)) => {
                assert(before.drop_first() =~= it@);
                if hdr.nlmsg_type == NLMSG_OVERRUN {
                    return Err(WatchError::Desync);
                } else if hdr.nlmsg_seq != seq {
                } else if hdr.nlmsg_type == NLMSG_DONE {
                    assert(out@ + Seq::<IpNet>::empty() =~= out@);
                    return Ok(DumpPart { networks: out, done: true });
                } else if hdr.nlmsg_type == NLMSG_ERROR {
                    return Err(WatchError::Protocol);
                } else if hdr.nlmsg_type == table.new_type() {
                    match read_record(table, &mut body) {
                        Err(e) => {
                            return Err(e);
                        },
                        Ok(None) => {},
                        Ok(Some(n)) => {
                            let ghost old_out = out@;
                            out.push(n);
                            proof {
                                match dump_part(it@, seq, table) {
                                    Ok((ns, done)) => {
                                        assert(old_out + (seq![n] + ns) =~= out@ + ns);
                                    },
                                    Err(_) => {},
                                }
                            }
                        },
                    }
                }
            },
        }
    }
}

} // verus!
