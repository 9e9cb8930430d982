use allora::apps::net::{checksum, FrameKind, Net, Reply};
use allora::apps::shell::{Request, Shell};

const MAC: [u8; 6] = [0x52, 0x54, 0x00, 0x12, 0x34, 0x56];
const PEER: [u8; 6] = [0x02, 0x00, 0x00, 0xaa, 0xbb, 0xcc];
const HOST: [u8; 4] = [192, 168, 14, 4];
const FRAME: usize = 1526;

fn resum(bytes: &[u8]) -> u16 {
    !checksum(bytes)
}

fn arp_request(target: [u8; 4]) -> Vec<u8> {
    let mut f = Vec::new();
    f.extend_from_slice(&[0xff; 6]);
    f.extend_from_slice(&PEER);
    f.extend_from_slice(&[0x08, 0x06]);
    f.extend_from_slice(&[0x00, 0x01, 0x08, 0x00, 0x06, 0x04, 0x00, 0x01]);
    f.extend_from_slice(&PEER);
    f.extend_from_slice(&[0xc0, 0xa8, 0x0e, 0x01]);
    f.extend_from_slice(&[0; 6]);
    f.extend_from_slice(&target);
    f.resize(FRAME, 0);
    f
}

fn ip_frame(protocol: u8, src: [u8; 4], dst: [u8; 4], payload: &[u8]) -> Vec<u8> {
    let mut f = Vec::new();
    f.extend_from_slice(&MAC);
    f.extend_from_slice(&PEER);
    f.extend_from_slice(&[0x08, 0x00]);
    let total = (20 + payload.len()) as u16;
    let mut ip = vec![0x45, 0x00];
    ip.extend_from_slice(&total.to_be_bytes());
    ip.extend_from_slice(&[0xbe, 0xef, 0x40, 0x00, 64, protocol, 0, 0]);
    ip.extend_from_slice(&src);
    ip.extend_from_slice(&dst);
    let sum = checksum(&ip);
    ip[10..12].copy_from_slice(&sum.to_be_bytes());
    f.extend_from_slice(&ip);
    f.extend_from_slice(payload);
    f.resize(FRAME, 0);
    f
}

fn echo_request(dst: [u8; 4]) -> Vec<u8> {
    let mut icmp = vec![8, 0, 0, 0, 0x12, 0x34, 0x00, 0x01];
    icmp.extend_from_slice(b"abcdefghijklmnopqrstuvwxyzabcdef");
    let sum = checksum(&icmp);
    icmp[2..4].copy_from_slice(&sum.to_be_bytes());
    ip_frame(1, [192, 168, 14, 1], dst, &icmp)
}

fn udp(src: [u8; 4], sport: u16, dport: u16, payload: &[u8]) -> Vec<u8> {
    let mut u = Vec::new();
    u.extend_from_slice(&sport.to_be_bytes());
    u.extend_from_slice(&dport.to_be_bytes());
    u.extend_from_slice(&((8 + payload.len()) as u16).to_be_bytes());
    u.extend_from_slice(&[0, 0]);
    u.extend_from_slice(payload);
    ip_frame(17, src, HOST, &u)
}

#[test]
fn checksum_of_a_known_header() {
    let header = [
        0x45, 0x00, 0x00, 0x73, 0x00, 0x00, 0x40, 0x00, 0x40, 0x11, 0x00, 0x00, 0xc0, 0xa8, 0x00,
        0x01, 0xc0, 0xa8, 0x00, 0xc7,
    ];
    assert_eq!(checksum(&header), 0xb861);
}

#[test]
fn checksum_of_little() {
    assert_eq!(checksum(&[]), 0xffff);
    assert_eq!(checksum(&[0x00, 0x01]), 0xfffe);
    assert_eq!(checksum(&[0x12, 0x34, 0x56, 0x78]), !0x68acu16);
}

#[test]
fn checksum_counts_a_last_odd_byte_as_a_high_byte() {
    assert_eq!(checksum(&[0x01]), 0xfeff);
    assert_eq!(checksum(&[0x12, 0x34, 0x56]), !0x6834u16);
}

#[test]
fn checksum_folds_its_carries() {
    assert_eq!(checksum(&[0xff, 0xff, 0xff, 0xff]), 0);
    assert_eq!(checksum(&[0xff, 0xff, 0x00, 0x02]), !0x0002u16);
    assert_eq!(checksum(&[0x80, 0x00, 0x80, 0x00, 0x00, 0x05]), !0x0006u16);
}

#[test]
fn checksum_of_much() {
    let many = vec![0xffu8; 400_000];
    assert_eq!(checksum(&many), 0);
    let mut odd = vec![0xffu8; 400_001];
    odd[400_000] = 0x01;
    assert_eq!(checksum(&odd), !0x0100u16);
}

#[test]
fn checksum_ignores_a_zero_pad_behind_an_odd_length() {
    for bytes in [&[1u8, 2, 3][..], &[0xff], &[0xab, 0xcd, 0xef, 0x01, 0x23]] {
        let mut padded = bytes.to_vec();
        padded.push(0);
        assert_eq!(checksum(bytes), checksum(&padded));
    }
}

#[test]
fn header_with_its_checksum_sums_to_ffff() {
    for seed in 0..200u32 {
        let mut header: Vec<u8> = (0..20u32)
            .map(|i| (seed.wrapping_mul(2654435761).wrapping_add(i * 97) >> 7) as u8)
            .collect();
        header[10] = 0;
        header[11] = 0;
        let sum = checksum(&header);
        header[10..12].copy_from_slice(&sum.to_be_bytes());
        assert_eq!(resum(&header), 0xffff);
    }
    let mut zeros = [0u8; 20];
    let sum = checksum(&zeros);
    assert_eq!(sum, 0xffff);
    zeros[10..12].copy_from_slice(&sum.to_be_bytes());
    assert_eq!(resum(&zeros), 0xffff);
}

#[test]
fn arp_request_for_this_host_is_answered() {
    let net = Net::new(MAC);
    let request = arp_request(HOST);
    assert_eq!(Net::classify(&request), FrameKind::ArpRequest);
    let mut frame = request.clone();
    assert!(matches!(net.serve_ping(&mut frame), Reply::Transmit));
    assert_eq!(frame.len(), FRAME);
    assert_eq!(frame[0..6], PEER);
    assert_eq!(frame[6..12], MAC);
    assert_eq!(frame[12..14], [0x08, 0x06]);
    assert_eq!(frame[14..20], [0x00, 0x01, 0x08, 0x00, 0x06, 0x04]);
    assert_eq!(frame[20..22], [0x00, 0x02]);
    assert_eq!(frame[22..28], MAC);
    assert_eq!(frame[28..32], [0xc0, 0xa8, 0x0e, 0x04]);
    assert_eq!(frame[32..38], PEER);
    assert_eq!(frame[38..42], [0xc0, 0xa8, 0x0e, 0x01]);
    assert_eq!(frame[42..], request[42..]);
}

#[test]
fn arp_for_others_is_dropped() {
    let net = Net::new(MAC);
    let mut frame = arp_request([192, 168, 14, 5]);
    let before = frame.clone();
    assert!(matches!(net.serve_ping(&mut frame), Reply::Drop));
    assert_eq!(frame, before);
    let mut reply = arp_request(HOST);
    reply[21] = 2;
    assert_eq!(Net::classify(&reply), FrameKind::Ignored);
    let mut other_hw = arp_request(HOST);
    other_hw[15] = 6;
    assert_eq!(Net::classify(&other_hw), FrameKind::Ignored);
    let mut other_proto = arp_request(HOST);
    other_proto[16] = 0x86;
    assert_eq!(Net::classify(&other_proto), FrameKind::Ignored);
}

#[test]
fn short_and_foreign_frames_are_dropped() {
    let net = Net::new(MAC);
    let mut short = arp_request(HOST);
    short.truncate(41);
    assert!(matches!(net.serve_ping(&mut short), Reply::Drop));
    let mut exact = arp_request(HOST);
    exact.truncate(42);
    assert!(matches!(net.serve_ping(&mut exact), Reply::Transmit));
    let mut empty: Vec<u8> = Vec::new();
    assert!(matches!(net.serve_ping(&mut empty), Reply::Drop));
    let mut ipv6 = echo_request(HOST);
    ipv6[12] = 0x86;
    ipv6[13] = 0xdd;
    assert!(matches!(net.serve_ping(&mut ipv6), Reply::Drop));
    let mut tcp = ip_frame(6, [192, 168, 14, 1], HOST, &[0; 20]);
    let before = tcp.clone();
    assert!(matches!(net.serve_ping(&mut tcp), Reply::Drop));
    assert_eq!(tcp, before);
}

#[test]
fn echo_request_is_answered() {
    let net = Net::new(MAC);
    let request = echo_request(HOST);
    assert_eq!(Net::classify(&request), FrameKind::Ping);
    let mut frame = request.clone();
    assert!(matches!(net.serve_ping(&mut frame), Reply::Transmit));
    assert_eq!(frame[0..6], PEER);
    assert_eq!(frame[6..12], MAC);
    assert_eq!(frame[12..14], [0x08, 0x00]);
    assert_eq!(frame[14..18], request[14..18]);
    assert_eq!(frame[18..22], [0, 0, 0, 0]);
    assert_eq!(frame[22..24], request[22..24]);
    assert_eq!(frame[26..30], HOST);
    assert_eq!(frame[30..34], [192, 168, 14, 1]);
    assert_eq!(frame[34], 0);
    assert_eq!(frame[35], 0);
    assert_eq!(frame[38..42], [0x12, 0x34, 0x00, 0x01]);
    assert_eq!(&frame[42..74], b"abcdefghijklmnopqrstuvwxyzabcdef");
    assert_eq!(resum(&frame[14..34]), 0xffff);
    assert_eq!(resum(&frame[34..74]), 0xffff);
    assert_ne!(frame[24..26], [0, 0]);
    assert_eq!(frame[74..], request[74..]);
}

#[test]
fn echo_for_others_or_with_a_bad_length_is_dropped() {
    let net = Net::new(MAC);
    let mut other = echo_request([192, 168, 14, 9]);
    assert!(matches!(net.serve_ping(&mut other), Reply::Drop));
    let mut long = echo_request(HOST);
    long[16] = 0xff;
    long[17] = 0xff;
    assert!(matches!(net.serve_ping(&mut long), Reply::Drop));
    let mut tiny = echo_request(HOST);
    tiny[16] = 0;
    tiny[17] = 19;
    assert!(matches!(net.serve_ping(&mut tiny), Reply::Drop));
    let mut whole = echo_request(HOST);
    whole[16..18].copy_from_slice(&((FRAME - 14) as u16).to_be_bytes());
    assert!(matches!(net.serve_ping(&mut whole), Reply::Transmit));
    assert_eq!(resum(&whole[34..]), 0xffff);
}

#[test]
fn udp_for_the_shell_port_hands_out_its_line() {
    let net = Net::new(MAC);
    let request = udp([192, 168, 1, 1], 33000, 44, b"rand\n");
    assert_eq!(Net::classify(&request), FrameKind::ShellLine);
    let mut frame = request.clone();
    let line = match net.serve_ping(&mut frame) {
        Reply::Shell { line } => line,
        _ => panic!("no line"),
    };
    assert_eq!(line, b"rand\n");
    assert_eq!(frame[0..6], PEER);
    assert_eq!(frame[6..12], MAC);
    assert_eq!(frame[26..30], HOST);
    assert_eq!(frame[30..34], [192, 168, 1, 1]);
    assert_eq!(frame[34..36], 44u16.to_be_bytes());
    assert_eq!(frame[36..38], 33000u16.to_be_bytes());
    assert_eq!(frame[38..], request[38..]);
}

#[test]
fn udp_for_other_ports_or_with_a_bad_length_is_dropped() {
    let net = Net::new(MAC);
    let mut other = udp([192, 168, 1, 1], 33000, 45, b"rand\n");
    assert!(matches!(net.serve_ping(&mut other), Reply::Drop));
    let mut high = udp([192, 168, 1, 1], 33000, 0x012c, b"rand\n");
    assert!(matches!(net.serve_ping(&mut high), Reply::Drop));
    let mut short = udp([192, 168, 1, 1], 33000, 44, b"rand\n");
    short[38] = 0;
    short[39] = 7;
    assert!(matches!(net.serve_ping(&mut short), Reply::Drop));
    let mut long = udp([192, 168, 1, 1], 33000, 44, b"rand\n");
    long[38..40].copy_from_slice(&((FRAME - 33) as u16).to_be_bytes());
    assert!(matches!(net.serve_ping(&mut long), Reply::Drop));
    let mut empty = udp([192, 168, 1, 1], 33000, 44, b"");
    match net.serve_ping(&mut empty) {
        Reply::Shell { line } => assert!(line.is_empty()),
        _ => panic!("no line"),
    }
}

#[test]
fn udp_reply_fills_lengths_and_checksum() {
    let net = Net::new(MAC);
    let mut frame = udp([192, 168, 1, 1], 33000, 44, b"read 0\n");
    assert!(matches!(net.serve_ping(&mut frame), Reply::Shell { .. }));
    let turned = frame.clone();
    assert_eq!(Net::udp_reply(&mut frame, b"hello"), Some(47));
    assert_eq!(frame[..16], turned[..16]);
    assert_eq!(frame[16..18], 33u16.to_be_bytes());
    assert_eq!(frame[18..24], turned[18..24]);
    assert_eq!(resum(&frame[14..34]), 0xffff);
    assert_eq!(frame[26..38], turned[26..38]);
    assert_eq!(frame[38..40], 13u16.to_be_bytes());
    assert_eq!(frame[40..42], [0, 0]);
    assert_eq!(&frame[42..47], b"hello");
    assert_eq!(frame[47..], turned[47..]);
    assert_eq!(Net::udp_reply(&mut frame, b""), Some(42));
    assert_eq!(frame[16..18], 28u16.to_be_bytes());
    assert_eq!(frame[38..40], 8u16.to_be_bytes());
    assert_eq!(resum(&frame[14..34]), 0xffff);
}

#[test]
fn udp_reply_refuses_what_does_not_fit() {
    let mut frame = udp([192, 168, 1, 1], 33000, 44, b"x");
    let before = frame.clone();
    assert_eq!(Net::udp_reply(&mut frame, &[7; FRAME - 41]), None);
    assert_eq!(frame, before);
    assert_eq!(Net::udp_reply(&mut frame, &[7; FRAME - 42]), Some(FRAME));
    let mut small = vec![0u8; 41];
    assert_eq!(Net::udp_reply(&mut small, b""), None);
    let mut huge = vec![0u8; 70_000];
    assert_eq!(Net::udp_reply(&mut huge, &[1; 65_507]), Some(65_549));
    assert_eq!(huge[16..18], [0xff, 0xff]);
    assert_eq!(Net::udp_reply(&mut huge, &[1; 65_508]), None);
}

#[test]
fn rand_over_udp() {
    let net = Net::new(MAC);
    let mut shell = Shell::new(false);
    let mut frame = udp([192, 168, 1, 1], 33000, 44, b"rand\n");
    let line = match net.serve_ping(&mut frame) {
        Reply::Shell { line } => line,
        _ => panic!("no line"),
    };
    let step = shell.do_line(&line);
    assert!(step.output.is_empty());
    let len = match step.request {
        Request::Entropy { len } => len,
        _ => panic!("no entropy asked for"),
    };
    assert_eq!(len, 16);
    let random: Vec<u8> = (0..16u8).map(|i| i.wrapping_mul(37).wrapping_add(11)).collect();
    let step = shell.resume(&random);
    assert!(matches!(step.request, Request::Done { exit: false }));
    let mut payload = Vec::new();
    for chunk in &step.output {
        let used = Net::udp_reply(&mut frame, chunk).unwrap();
        assert_eq!(frame[0..6], PEER);
        assert_eq!(frame[26..30], HOST);
        assert_eq!(frame[30..34], [192, 168, 1, 1]);
        assert_eq!(frame[34..36], 44u16.to_be_bytes());
        assert_eq!(frame[36..38], 33000u16.to_be_bytes());
        assert_eq!(resum(&frame[14..34]), 0xffff);
        payload.extend_from_slice(&frame[42..used]);
    }
    assert_eq!(&payload[..8], b"Random: ");
    assert_eq!(payload[8..], random[..]);
    assert_eq!(payload.len(), 24);
}

#[test]
fn farewell_is_a_line_feed_when_the_shell_ends() {
    let net = Net::new(MAC);
    let mut frame = udp([192, 168, 1, 1], 33000, 44, b"exit\n");
    let line = match net.serve_ping(&mut frame) {
        Reply::Shell { line } => line,
        _ => panic!("no line"),
    };
    let mut shell = Shell::new(false);
    let step = shell.do_line(&line);
    assert!(step.output.is_empty());
    let exit = matches!(step.request, Request::Done { exit: true });
    assert!(exit);
    let turned = frame.clone();
    assert_eq!(Net::udp_farewell(&mut frame, false), None);
    assert_eq!(frame, turned);
    assert_eq!(Net::udp_farewell(&mut frame, exit), Some(43));
    assert_eq!(frame[16..18], 29u16.to_be_bytes());
    assert_eq!(frame[38..40], 9u16.to_be_bytes());
    assert_eq!(frame[42], b'\n');
    assert_eq!(frame[30..34], [192, 168, 1, 1]);
    assert_eq!(frame[36..38], 33000u16.to_be_bytes());
    assert_eq!(resum(&frame[14..34]), 0xffff);
    let mut small = vec![0u8; 42];
    assert_eq!(Net::udp_farewell(&mut small, true), None);
}
