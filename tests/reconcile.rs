use if_watch::{
    classify_datagram, parse_dump, parse_notification, read_ifaddrmsg, IfEvent, IpNet, Ipv4Net,
    Ipv6Net, Phase, Reconciler, Table, RecvInfo, RecvOutcome, U32AlignedBuffer, WatchError, AF_INET,
    AF_INET6, IFA_ADDRESS, INITIAL_BUFFER, MAX_BUFFER, MSG_TRUNC, NLMSG_DONE, NLMSG_ERROR,
    NLMSG_NOOP, NLMSG_OVERRUN, NLM_F_MULTI, RTA_DST, RTM_DELADDR, RTM_DELROUTE, RTM_GETROUTE,
    RTM_NEWADDR, RTM_NEWROUTE, RTN_LOCAL, RT_TABLE_LOCAL,
};

fn message(ty: u16, flags: u16, seq: u32, body: &[u8]) -> Vec<u8> {
    let mut v = Vec::new();
    v.extend_from_slice(&((16 + body.len()) as u32).to_le_bytes());
    v.extend_from_slice(&ty.to_le_bytes());
    v.extend_from_slice(&flags.to_le_bytes());
    v.extend_from_slice(&seq.to_le_bytes());
    v.extend_from_slice(&0u32.to_le_bytes());
    v.extend_from_slice(body);
    while v.len() % 4 != 0 {
        v.push(0);
    }
    v
}

fn address_body(family: u8, prefix: u8, addr: &[u8]) -> Vec<u8> {
    let mut v = vec![family, prefix, 0, 0, 2, 0, 0, 0];
    v.extend_from_slice(&((4 + addr.len()) as u16).to_le_bytes());
    v.extend_from_slice(&IFA_ADDRESS.to_le_bytes());
    v.extend_from_slice(addr);
    while v.len() % 4 != 0 {
        v.push(0);
    }
    v
}

fn v4(a: [u8; 4], prefix: u8) -> IpNet {
    IpNet::V4(Ipv4Net::new(u32::from_be_bytes(a), prefix).unwrap())
}

fn v4_record(ty: u16, seq: u32, a: [u8; 4], prefix: u8) -> Vec<u8> {
    message(ty, NLM_F_MULTI, seq, &address_body(AF_INET, prefix, &a))
}

fn done(seq: u32) -> Vec<u8> {
    message(NLMSG_DONE, NLM_F_MULTI, seq, &[0, 0, 0, 0])
}

fn drain(r: &mut Reconciler) -> Vec<IfEvent> {
    let mut out = Vec::new();
    while let Some(e) = r.pop_event() {
        out.push(e);
    }
    out
}

fn dump_seq(request: &[u8]) -> u32 {
    u32::from_le_bytes([request[8], request[9], request[10], request[11]])
}

#[test]
fn up_then_down_then_duplicate_down() {
    let net = v4([10, 0, 0, 5], 24);
    let mut r = Reconciler::new();
    assert!(r.wants_dump());
    let request = r.start_dump(0);
    let seq = dump_seq(&request);
    let mut dump = v4_record(RTM_NEWADDR, seq, [10, 0, 0, 5], 24);
    dump.extend(done(seq));
    assert_eq!(r.handle_datagram(&dump), Ok(()));
    assert_eq!(drain(&mut r), vec![IfEvent::Up(net)]);
    assert_eq!(r.networks().to_vec(), vec![net]);

    let removal = message(RTM_DELADDR, 0, 0, &address_body(AF_INET, 24, &[10, 0, 0, 5]));
    assert_eq!(r.handle_datagram(&removal), Ok(()));
    assert_eq!(drain(&mut r), vec![IfEvent::Down(net)]);
    assert!(r.networks().is_empty());

    assert_eq!(r.handle_datagram(&removal), Ok(()));
    assert_eq!(drain(&mut r), vec![]);
    assert!(r.networks().is_empty());
}

#[test]
fn second_snapshot_reports_symmetric_difference() {
    let a = v4([10, 0, 0, 1], 8);
    let b = v4([10, 0, 0, 2], 8);
    let c = v4([10, 0, 0, 3], 8);
    let d = IpNet::V6(Ipv6Net::new(1, 128).unwrap());
    let mut r = Reconciler::new();
    r.apply_snapshot(&[a, b, c]);
    assert_eq!(drain(&mut r), vec![IfEvent::Up(a), IfEvent::Up(b), IfEvent::Up(c)]);
    r.apply_snapshot(&[c, d, a, d]);
    assert_eq!(drain(&mut r), vec![IfEvent::Down(b), IfEvent::Up(d)]);
    assert_eq!(r.networks().to_vec(), vec![a, c, d]);
}

#[test]
fn same_prefix_other_address_is_another_network() {
    let a = v4([10, 0, 0, 1], 24);
    let b = v4([10, 0, 0, 1], 16);
    let mut r = Reconciler::new();
    r.apply_snapshot(&[a]);
    drain(&mut r);
    r.apply_snapshot(&[b]);
    assert_eq!(drain(&mut r), vec![IfEvent::Down(a), IfEvent::Up(b)]);
}

#[test]
fn resync_twice_gives_no_second_events() {
    let mut r = Reconciler::new();
    let mut events = Vec::new();
    for _ in 0..2 {
        let seq = dump_seq(&r.start_dump(0));
        let mut dump = v4_record(RTM_NEWADDR, seq, [192, 168, 0, 10], 24);
        dump.extend(v4_record(RTM_NEWADDR, seq, [127, 0, 0, 1], 8));
        dump.extend(done(seq));
        assert_eq!(r.handle_datagram(&dump), Ok(()));
        events.push(drain(&mut r));
    }
    assert_eq!(events[0].len(), 2);
    assert_eq!(events[1], vec![]);
}

#[test]
fn truncated_datagram_then_dump_matches_the_dump() {
    let kept = v4([10, 1, 0, 1], 16);
    let gone = v4([10, 2, 0, 1], 16);
    let partial = v4([10, 3, 0, 1], 16);
    let fresh = v4([10, 4, 0, 1], 16);
    let mut r = Reconciler::new();
    r.apply_snapshot(&[kept, gone]);
    assert_eq!(drain(&mut r).len(), 2);
    let note = v4_record(RTM_NEWADDR, 0, [10, 3, 0, 1], 16);
    assert_eq!(r.handle_datagram(&note), Ok(()));
    assert_eq!(r.networks().to_vec(), vec![kept, gone, partial]);

    let truncated = RecvInfo {
        status: 4096,
        errno: 0,
        name_len: 12,
        family: 16,
        pid: 0,
        control_len: if_watch::cmsg_space(12),
        flags: MSG_TRUNC,
        control: None,
    };
    assert_eq!(classify_datagram(&truncated), RecvOutcome::Desync);
    assert_eq!(r.handle_desync(), Ok(()));
    assert!(r.wants_dump());
    assert_eq!(r.buffer_size(), 2 * INITIAL_BUFFER);
    assert_eq!(r.networks().to_vec(), vec![kept, gone]);

    let seq = dump_seq(&r.start_dump(0));
    let mut dump = v4_record(RTM_NEWADDR, seq, [10, 1, 0, 1], 16);
    dump.extend(v4_record(RTM_NEWADDR, seq, [10, 4, 0, 1], 16));
    dump.extend(done(seq));
    assert_eq!(r.handle_datagram(&dump), Ok(()));
    assert_eq!(drain(&mut r), vec![IfEvent::Down(gone), IfEvent::Up(fresh)]);
    assert_eq!(r.networks().to_vec(), vec![kept, fresh]);
}

#[test]
fn overrun_message_is_a_desync() {
    let mut r = Reconciler::new();
    r.apply_snapshot(&[v4([10, 0, 0, 1], 8)]);
    let mut data = v4_record(RTM_NEWADDR, 0, [10, 9, 9, 9], 8);
    data.extend(message(NLMSG_OVERRUN, NLM_F_MULTI, 0, &[]));
    assert_eq!(r.handle_datagram(&data), Ok(()));
    assert!(r.wants_dump());
    assert!(r.networks().is_empty());
    assert_eq!(r.pop_event(), None);
}

#[test]
fn buffer_grows_to_its_limit_then_the_desync_is_returned() {
    let mut r = Reconciler::new();
    let mut size = INITIAL_BUFFER;
    while size < MAX_BUFFER {
        assert_eq!(r.handle_desync(), Ok(()));
        size = std::cmp::min(2 * size, MAX_BUFFER);
        assert_eq!(r.buffer_size(), size);
    }
    assert_eq!(r.handle_desync(), Err(WatchError::Desync));
    assert_eq!(r.buffer_size(), MAX_BUFFER);
}

#[test]
fn dump_spans_several_datagrams_and_skips_foreign_sequence_numbers() {
    let mut r = Reconciler::new();
    let seq = dump_seq(&r.start_dump(0));
    let first = v4_record(RTM_NEWADDR, seq, [10, 0, 0, 1], 8);
    assert_eq!(r.handle_datagram(&first), Ok(()));
    assert!(r.networks().is_empty());
    let mut second = v4_record(RTM_NEWADDR, seq + 100, [10, 0, 0, 2], 8);
    second.extend(message(NLMSG_NOOP, NLM_F_MULTI, seq, &[]));
    second.extend(v4_record(RTM_NEWADDR, seq, [10, 0, 0, 3], 8));
    second.extend(done(seq));
    assert_eq!(r.handle_datagram(&second), Ok(()));
    assert_eq!(
        drain(&mut r),
        vec![IfEvent::Up(v4([10, 0, 0, 1], 8)), IfEvent::Up(v4([10, 0, 0, 3], 8))]
    );
}

#[test]
fn error_in_answer_to_a_dump_is_a_protocol_error() {
    let mut r = Reconciler::new();
    let seq = dump_seq(&r.start_dump(0));
    let data = message(NLMSG_ERROR, 0, seq, &[0xf0, 0xff, 0xff, 0xff]);
    assert_eq!(r.handle_datagram(&data), Err(WatchError::Protocol));
    assert!(!r.wants_dump());
}

#[test]
fn record_without_address_is_a_protocol_error() {
    let body = vec![AF_INET, 24, 0, 0, 2, 0, 0, 0];
    let data = message(RTM_NEWADDR, 0, 0, &body);
    assert_eq!(parse_notification(&data, Table::Addresses), Err(WatchError::Protocol));
    let mut r = Reconciler::new();
    assert_eq!(r.handle_datagram(&data), Err(WatchError::Protocol));
    assert!(r.networks().is_empty());
}

#[test]
fn prefix_longer_than_the_address_is_a_protocol_error() {
    let body = address_body(AF_INET, 33, &[10, 0, 0, 1]);
    let mut buf = U32AlignedBuffer::new(&body);
    assert_eq!(read_ifaddrmsg(&mut buf), Err(WatchError::Protocol));
    let body = address_body(AF_INET6, 128, &[0; 16]);
    let mut buf = U32AlignedBuffer::new(&body);
    assert_eq!(read_ifaddrmsg(&mut buf), Ok(Some(IpNet::V6(Ipv6Net::new(0, 128).unwrap()))));
}

#[test]
fn other_families_are_skipped() {
    let body = address_body(7, 24, &[10, 0, 0, 1]);
    let mut buf = U32AlignedBuffer::new(&body);
    assert_eq!(read_ifaddrmsg(&mut buf), Ok(None));
}

#[test]
fn notifications_stop_at_done() {
    let mut data = v4_record(RTM_NEWADDR, 0, [10, 0, 0, 1], 8);
    data.extend(done(0));
    data.extend(v4_record(RTM_NEWADDR, 0, [10, 0, 0, 2], 8));
    assert_eq!(parse_notification(&data, Table::Addresses), Ok(vec![IfEvent::Up(v4([10, 0, 0, 1], 8))]));
}

#[test]
fn dump_part_reports_whether_it_ends() {
    let data = v4_record(RTM_NEWADDR, 5, [10, 0, 0, 1], 8);
    let part = parse_dump(&data, 5, Table::Addresses).unwrap();
    assert_eq!(part.networks, vec![v4([10, 0, 0, 1], 8)]);
    assert!(!part.done);
    let part = parse_dump(&done(5), 5, Table::Addresses).unwrap();
    assert!(part.networks.is_empty());
    assert!(part.done);
    assert_eq!(parse_dump(&done(5), 6, Table::Addresses).unwrap().done, false);
}

#[test]
fn phases_follow_the_dump() {
    let mut r = Reconciler::new();
    assert_eq!(r.wants_dump(), true);
    let seq = dump_seq(&r.start_dump(0));
    assert_eq!(seq, 1);
    assert_eq!(r.wants_dump(), false);
    assert_eq!(r.handle_datagram(&done(seq)), Ok(()));
    assert_eq!(r.wants_dump(), false);
    let seq2 = dump_seq(&r.start_dump(0));
    assert_eq!(seq2, 2);
    let _ = Phase::Idle;
}

fn route_record(ty: u16, seq: u32, table: u8, kind: u8, dst: &[u8], dst_len: u8) -> Vec<u8> {
    let family = if dst.len() == 4 { AF_INET } else { AF_INET6 };
    let mut body = vec![family, dst_len, 0, 0, table, 2, 254, kind, 0, 0, 0, 0];
    body.extend_from_slice(&((4 + dst.len()) as u16).to_le_bytes());
    body.extend_from_slice(&RTA_DST.to_le_bytes());
    body.extend_from_slice(dst);
    message(ty, NLM_F_MULTI, seq, &body)
}

#[test]
fn route_engine_watches_local_routes() {
    let mut r = Reconciler::with_table(Table::Routes);
    assert_eq!(r.table(), Table::Routes);
    let request = r.start_dump(0);
    assert_eq!(u16::from_le_bytes([request[4], request[5]]), RTM_GETROUTE);
    let seq = dump_seq(&request);
    let mut dump = route_record(RTM_NEWROUTE, seq, RT_TABLE_LOCAL, RTN_LOCAL, &[127, 0, 0, 1], 32);
    dump.extend(route_record(RTM_NEWROUTE, seq, 254, 1, &[10, 0, 0, 0], 8));
    dump.extend(route_record(RTM_NEWROUTE, seq, RT_TABLE_LOCAL, RTN_LOCAL, &[0xfe, 0x80, 0, 0, 0, 0, 0, 0, 0, 0, 0, 0, 0, 0, 0, 1], 128));
    dump.extend(v4_record(RTM_NEWADDR, seq, [10, 9, 9, 9], 8));
    dump.extend(done(seq));
    assert_eq!(r.handle_datagram(&dump), Ok(()));
    let loopback = v4([127, 0, 0, 1], 32);
    let link = IpNet::V6(Ipv6Net::new(0xfe80_0000_0000_0000_0000_0000_0000_0001, 128).unwrap());
    assert_eq!(drain(&mut r), vec![IfEvent::Up(loopback), IfEvent::Up(link)]);
    let removal = route_record(RTM_DELROUTE, 0, RT_TABLE_LOCAL, RTN_LOCAL, &[127, 0, 0, 1], 32);
    assert_eq!(r.handle_datagram(&removal), Ok(()));
    assert_eq!(drain(&mut r), vec![IfEvent::Down(loopback)]);
}

#[test]
fn route_without_destination_is_a_protocol_error() {
    let body = vec![AF_INET, 32, 0, 0, RT_TABLE_LOCAL, 2, 254, RTN_LOCAL, 0, 0, 0, 0];
    let data = message(RTM_NEWROUTE, 0, 0, &body);
    assert_eq!(parse_notification(&data, Table::Routes), Err(WatchError::Protocol));
    assert_eq!(parse_notification(&data, Table::Addresses), Ok(vec![]));
}
