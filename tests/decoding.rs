use if_watch::{
    ip_addr_from_payload, nlmsghdr, read_msg, read_rtmsg, rtattr, IpAddr, NetlinkIterator,
    RecordForm, RtaMessage, U32AlignedBuffer, IFA_ADDRESS, NLMSG_DONE, NLM_F_MULTI, RTA_DST,
    RTA_SRC,
};

fn header(len: u32, ty: u16, flags: u16, seq: u32, pid: u32) -> Vec<u8> {
    let mut v = Vec::new();
    v.extend_from_slice(&len.to_le_bytes());
    v.extend_from_slice(&ty.to_le_bytes());
    v.extend_from_slice(&flags.to_le_bytes());
    v.extend_from_slice(&seq.to_le_bytes());
    v.extend_from_slice(&pid.to_le_bytes());
    v
}

fn attribute(ty: u16, payload: &[u8]) -> Vec<u8> {
    let mut v = Vec::new();
    v.extend_from_slice(&((4 + payload.len()) as u16).to_le_bytes());
    v.extend_from_slice(&ty.to_le_bytes());
    v.extend_from_slice(payload);
    while v.len() % 4 != 0 {
        v.push(0);
    }
    v
}

fn route_header() -> Vec<u8> {
    vec![2, 24, 0, 0, 255, 0, 254, 2, 0, 1, 0, 0]
}

#[test]
fn short_spans_hold_no_message() {
    let bytes = [0xffu8; 16];
    for n in 0..16 {
        let mut it = NetlinkIterator::new(&bytes[..n]);
        assert!(it.next().is_none(), "span of {} bytes", n);
    }
}

#[test]
fn short_spans_hold_no_attribute() {
    for n in 0..4 {
        let mut body = route_header();
        body.extend(std::iter::repeat(0xffu8).take(n));
        let mut buf = U32AlignedBuffer::new(&body);
        let (_, mut attrs) = read_rtmsg(&mut buf).unwrap();
        assert!(attrs.next().is_none(), "attribute span of {} bytes", n);
    }
}

#[test]
fn reads_multipart_messages_in_order() {
    let mut data = header(20, 16, NLM_F_MULTI, 7, 0);
    data.extend_from_slice(&[1, 2, 3, 4]);
    data.extend(header(16, NLMSG_DONE, NLM_F_MULTI, 7, 0));
    let mut it = NetlinkIterator::new(&data);
    let (h, body) = it.next().unwrap();
    assert_eq!(
        h,
        nlmsghdr { nlmsg_len: 20, nlmsg_type: 16, nlmsg_flags: NLM_F_MULTI, nlmsg_seq: 7, nlmsg_pid: 0 }
    );
    assert_eq!(body.len(), 4);
    assert_eq!(body.byte(0), 1);
    assert_eq!(body.byte(3), 4);
    let (h, body) = it.next().unwrap();
    assert_eq!(h.nlmsg_type, NLMSG_DONE);
    assert_eq!(body.len(), 0);
    assert!(it.next().is_none());
}

#[test]
fn advance_is_rounded_up_to_four_bytes() {
    let mut data = header(17, 16, NLM_F_MULTI, 1, 0);
    data.extend_from_slice(&[9, 0, 0, 0]);
    data.extend(header(16, 17, NLM_F_MULTI, 2, 0));
    let mut it = NetlinkIterator::new(&data);
    let (_, body) = it.next().unwrap();
    assert_eq!(body.len(), 1);
    assert_eq!(body.byte(0), 9);
    let (h, _) = it.next().unwrap();
    assert_eq!(h.nlmsg_type, 17);
    assert_eq!(h.nlmsg_seq, 2);
    assert!(it.next().is_none());
}

#[test]
fn a_single_part_message_takes_the_rest_of_the_datagram() {
    let mut data = header(16, 16, 0, 1, 0);
    data.extend(header(16, 17, NLM_F_MULTI, 2, 0));
    let mut it = NetlinkIterator::new(&data);
    let (h, body) = it.next().unwrap();
    assert_eq!(h.nlmsg_type, 16);
    assert_eq!(body.len(), 16);
    assert!(it.next().is_none());
}

#[test]
fn impossible_lengths_end_the_reading() {
    let data = header(15, 16, NLM_F_MULTI, 1, 0);
    assert!(NetlinkIterator::new(&data).next().is_none());
    let data = header(40, 16, NLM_F_MULTI, 1, 0);
    assert!(NetlinkIterator::new(&data).next().is_none());
}

#[test]
fn a_failed_read_leaves_the_cursor_alone() {
    let data = [3u8, 0, 0, 0, 1, 0];
    let mut buf = U32AlignedBuffer::new(&data);
    assert!(buf.read::<rtattr>().is_none());
    assert_eq!(buf.len(), 6);
    assert_eq!(buf.byte(0), 3);
}

#[test]
fn four_byte_payloads_are_ipv4_addresses() {
    let payload = [10u8, 0, 0, 5];
    let buf = U32AlignedBuffer::new(&payload);
    let a = ip_addr_from_payload(&buf).unwrap();
    assert_eq!(a, IpAddr::V4(0x0a00_0005));
    match a {
        IpAddr::V4(v) => assert_eq!(v.to_be_bytes(), payload),
        IpAddr::V6(_) => panic!("expected an IPv4 address"),
    }
}

#[test]
fn sixteen_byte_payloads_are_ipv6_addresses() {
    let payload = [0xfeu8, 0x80, 0, 0, 0, 0, 0, 0, 0x12, 0x34, 0x56, 0x78, 0x9a, 0xbc, 0xde, 0xf0];
    let buf = U32AlignedBuffer::new(&payload);
    match ip_addr_from_payload(&buf).unwrap() {
        IpAddr::V6(v) => {
            assert_eq!(v.to_be_bytes(), payload);
        }
        IpAddr::V4(_) => panic!("expected an IPv6 address"),
    }
}

#[test]
fn other_payload_lengths_give_no_address() {
    let bytes = [1u8; 20];
    for n in [0usize, 1, 2, 3, 5, 8, 12, 15, 17, 20] {
        let buf = U32AlignedBuffer::new(&bytes[..n]);
        assert_eq!(ip_addr_from_payload(&buf), None, "payload of {} bytes", n);
    }
}

#[test]
fn route_attributes_map_destination_and_source() {
    let mut body = route_header();
    body.extend(attribute(RTA_DST, &[127, 0, 0, 1]));
    body.extend(attribute(RTA_SRC, &[192, 168, 1, 2]));
    body.extend(attribute(RTA_DST, &[1, 2, 3, 4, 5, 6]));
    body.extend(attribute(6, &[1, 2, 3, 4]));
    let mut buf = U32AlignedBuffer::new(&body);
    let (hdr, mut attrs) = read_rtmsg(&mut buf).unwrap();
    assert_eq!(hdr.rtm_family, 2);
    assert_eq!(hdr.rtm_dst_len, 24);
    assert_eq!(hdr.rtm_table, 255);
    assert_eq!(hdr.rtm_flags, 256);
    assert_eq!(attrs.next(), Some(RtaMessage::IPAddr(IpAddr::V4(0x7f00_0001))));
    assert_eq!(attrs.next(), Some(RtaMessage::IPAddr(IpAddr::V4(0xc0a8_0102))));
    assert_eq!(attrs.next(), Some(RtaMessage::Other));
    assert_eq!(attrs.next(), Some(RtaMessage::Other));
    assert_eq!(attrs.next(), None);
}

#[test]
fn address_records_take_only_the_address_attribute() {
    let mut body = vec![2u8, 24, 0, 0, 1, 0, 0, 0];
    body.extend(attribute(2, &[10, 0, 0, 9]));
    body.extend(attribute(IFA_ADDRESS, &[10, 0, 0, 5]));
    let mut buf = U32AlignedBuffer::new(&body);
    let (hdr, mut attrs) = read_msg::<if_watch::ifaddrmsg>(&mut buf, RecordForm::Address).unwrap();
    assert_eq!(hdr.ifa_prefixlen, 24);
    assert_eq!(hdr.ifa_index, 1);
    assert_eq!(attrs.next(), Some(RtaMessage::Other));
    assert_eq!(attrs.next(), Some(RtaMessage::IPAddr(IpAddr::V4(0x0a00_0005))));
    assert_eq!(attrs.next(), None);
}

#[test]
fn first_address_skips_other_attributes() {
    let mut body = vec![10u8, 64, 0, 0, 2, 0, 0, 0];
    body.extend(attribute(8, &[0, 0, 0, 0]));
    body.extend(attribute(IFA_ADDRESS, &[0x20, 1, 0xd, 0xb8, 0, 0, 0, 0, 0, 0, 0, 0, 0, 0, 0, 1]));
    let mut buf = U32AlignedBuffer::new(&body);
    let (_, mut attrs) = read_msg::<if_watch::ifaddrmsg>(&mut buf, RecordForm::Address).unwrap();
    assert_eq!(
        attrs.first_address(),
        Some(IpAddr::V6(0x2001_0db8_0000_0000_0000_0000_0000_0001))
    );
}

#[test]
fn spans_of_a_mebibyte_or_more_are_refused() {
    let big = vec![0u8; 1 << 20];
    assert!(U32AlignedBuffer::try_new(&big).is_none());
    assert_eq!(if_watch::MAX_SPAN, 1 << 20);
    let fits = &big[..(1 << 20) - 1];
    assert_eq!(U32AlignedBuffer::try_new(fits).unwrap().len(), (1 << 20) - 1);
}
