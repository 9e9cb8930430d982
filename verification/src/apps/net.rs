//! The network responder: ARP and ICMP echo for one fixed address, and the
//! shell behind UDP port 44.
//!
//! A frame is a byte vector. Each function changes the received frame into
//! the frame to send, in place; the contracts give the frame to send as a
//! spec function of the frame received.

use vstd::prelude::*;
use vstd::arithmetic::div_mod::lemma_mod_multiples_vanish;

verus! {

/// The sum of the first `n` big-endian 16-bit words of `s`.
pub open spec fn words_sum(s: Seq<u8>, n: nat) -> nat
    decreases n,
{
    if n == 0 {
        0
    } else {
        words_sum(s, (n - 1) as nat) + s[2 * n - 2] as nat * 256 + s[2 * n - 1] as nat
    }
}

/// The sum of the big-endian 16-bit words of `s`; a last odd byte counts as
/// the high byte of a word whose low byte is 0.
pub open spec fn total(s: Seq<u8>) -> nat {
    words_sum(s, s.len() / 2) + if s.len() % 2 == 1 {
        s.last() as nat * 256
    } else {
        0
    }
}

/// `x` with its carries folded in: what is above 16 bits is added to what is
/// below, until nothing is above.
pub open spec fn fold(x: nat) -> nat
    decreases x,
{
    if x < 0x1_0000 {
        x
    } else {
        fold(x % 0x1_0000 + x / 0x1_0000)
    }
}

/// The one's-complement checksum of `s`.
pub open spec fn checksum_spec(s: Seq<u8>) -> u16 {
    (0xffff - fold(total(s))) as u16
}

/// A folded sum fits into 16 bits.
pub proof fn lemma_fold_fits(x: nat)
    ensures
        fold(x) < 0x1_0000,
        x > 0 ==> fold(x) > 0,
    decreases x,
{
    if x >= 0x1_0000 {
        lemma_fold_fits(x % 0x1_0000 + x / 0x1_0000);
    }
}

/// Folding keeps a sum as it is modulo 2^16 - 1, and never makes 0 of a
/// sum that is not 0.
pub proof fn lemma_fold_mod(x: nat)
    ensures
        fold(x) == if x == 0 {
            0
        } else {
            (x - 1) % 0xffff + 1
        },
    decreases x,
{
    if x >= 0x1_0000 {
        let lo = x % 0x1_0000;
        let hi = x / 0x1_0000;
        lemma_fold_mod(lo + hi);
        assert(x - 1 == 0xffff * hi + (lo + hi - 1));
        lemma_mod_multiples_vanish(hi as int, lo + hi - 1, 0xffff);
    }
}

/// Computes the one's-complement checksum of `payload`.
pub fn checksum(payload: &[u8]) -> (r: u16)
    ensures
        r == checksum_spec(payload@),
{
    let mut sum: u128 = 0;
    let len = payload.len();
    let words = len / 2;
    let mut i: usize = 0;
    while i < words
        invariant
            len == payload@.len(),
            words == len / 2,
            i <= words,
            sum == words_sum(payload@, i as nat),
            sum <= 0xffff * i,
        decreases words - i,
    {
        sum = sum + ((payload[i * 2] as u128) * 256 + payload[i * 2 + 1] as u128);
        i = i + 1;
    }
    if len % 2 != 0 {
        sum = sum + (payload[len - 1] as u128) * 256;
    }
    while sum >= 0x1_0000
        invariant
            fold(sum as nat) == fold(total(payload@)),
        decreases sum,
    {
        sum = sum % 0x1_0000 + sum / 0x1_0000;
    }
    (0xffff - sum) as u16
}

/// `s` with the 16-bit number `x` at `off`, high byte first.
pub open spec fn put16(s: Seq<u8>, off: int, x: u16) -> Seq<u8> {
    s.update(off, (x / 256) as u8).update(off + 1, (x % 256) as u8)
}

/// The 16-bit number at `off`, high byte first.
pub open spec fn be16(s: Seq<u8>, off: int) -> u16 {
    (s[off] as u16 * 256 + s[off + 1] as u16) as u16
}

proof fn lemma_words_sum_same(a: Seq<u8>, b: Seq<u8>, n: nat)
    requires
        2 * n <= a.len(),
        2 * n <= b.len(),
        forall|i: int| 0 <= i < 2 * n ==> a[i] == b[i],
    ensures
        words_sum(a, n) == words_sum(b, n),
    decreases n,
{
    if n > 0 {
        lemma_words_sum_same(a, b, (n - 1) as nat);
    }
}

proof fn lemma_words_sum_put(s: Seq<u8>, w: int, x: u16, n: nat)
    requires
        0 <= w,
        2 * w + 2 <= s.len(),
        2 * n <= s.len(),
    ensures
        words_sum(put16(s, 2 * w, x), n) == if w < n {
            words_sum(s, n) - be16(s, 2 * w) + x
        } else {
            words_sum(s, n) as int
        },
    decreases n,
{
    if n > 0 {
        lemma_words_sum_put(s, w, x, (n - 1) as nat);
    }
}

/// Storing a number into a word of `s` changes the sum of `s` by as much as
/// the word changes.
pub proof fn lemma_total_put(s: Seq<u8>, off: int, x: u16)
    requires
        0 <= off,
        off % 2 == 0,
        off + 2 <= s.len(),
    ensures
        total(put16(s, off, x)) == total(s) - be16(s, off) + x,
{
    lemma_words_sum_put(s, off / 2, x, s.len() / 2);
}

/// A checksum put into its field, which held 0 while the sum was taken,
/// makes the covered bytes sum up to 0xffff. So does every receiver check
/// it.
pub proof fn lemma_checksum_verifies(s: Seq<u8>, off: int)
    requires
        0 <= off,
        off % 2 == 0,
        off + 2 <= s.len(),
        s[off] == 0,
        s[off + 1] == 0,
    ensures
        fold(total(put16(s, off, checksum_spec(s)))) == 0xffff,
{
    let w = total(s);
    let c = checksum_spec(s);
    lemma_fold_fits(w);
    lemma_fold_mod(w);
    lemma_total_put(s, off, c);
    let t = (w + c) as nat;
    assert(total(put16(s, off, c)) == t);
    lemma_fold_mod(t);
    if w > 0 {
        let q = (w - 1) / 0xffff;
        assert(t - 1 == 0xffff * q + 0xfffe);
        lemma_mod_multiples_vanish(q, 0xfffe, 0xffff);
    }
}

/// A zero byte behind an odd number of bytes changes no checksum.
pub proof fn lemma_checksum_padding(s: Seq<u8>)
    requires
        s.len() % 2 == 1,
    ensures
        checksum_spec(s.push(0)) == checksum_spec(s),
{
    let p = s.push(0);
    lemma_words_sum_same(s, p, s.len() / 2);
    assert(words_sum(p, p.len() / 2) == words_sum(p, s.len() / 2) + p[s.len() - 1] as nat * 256
        + p[s.len() as int] as nat);
}

/// EtherType of ARP.
pub const ETHERTYPE_ARP: u16 = 0x0806;

/// EtherType of IPv4.
pub const ETHERTYPE_IPV4: u16 = 0x0800;

/// IP protocol number of ICMP.
pub const PROTO_ICMP: u8 = 1;

/// IP protocol number of UDP.
pub const PROTO_UDP: u8 = 17;

/// The UDP port behind which the shell listens.
pub const SHELL_PORT: u16 = 44;

/// Line feed.
pub const LF: u8 = 0x0a;

/// Bytes of an Ethernet header, an IPv4 header without options and a UDP
/// header together; also the length of an ARP packet in its frame.
pub const HEADERS_LEN: usize = 42;

/// The address of this host: 192.168.14.4.
pub open spec fn host_ip() -> Seq<u8> {
    seq![192u8, 168u8, 14u8, 4u8]
}

/// The address of this host: 192.168.14.4.
pub fn host_ip_bytes() -> (r: [u8; 4])
    ensures
        r@ == host_ip(),
{
    let r: [u8; 4] = [192, 168, 14, 4];
    assert(r@ =~= host_ip());
    r
}

/// What a received frame asks of this host.
#[derive(Clone, Copy, Debug, PartialEq, Eq, Structural)]
pub enum FrameKind {
    /// Nothing: the frame is cut short, or for another host, or of a
    /// protocol that is not served.
    Ignored,
    /// An ARP request for the address of this host.
    ArpRequest,
    /// An ICMP packet for this host.
    Ping,
    /// A UDP packet for this host's shell port.
    ShellLine,
}

/// What a received frame asks of this host.
pub open spec fn kind_of(f: Seq<u8>) -> FrameKind {
    if f.len() < HEADERS_LEN {
        FrameKind::Ignored
    } else if be16(f, 12) == ETHERTYPE_ARP {
        if be16(f, 14) == 1 && be16(f, 16) == ETHERTYPE_IPV4 && be16(f, 20) == 1 && f.subrange(
            38,
            42,
        ) == host_ip() {
            FrameKind::ArpRequest
        } else {
            FrameKind::Ignored
        }
    } else if be16(f, 12) == ETHERTYPE_IPV4 && f.subrange(30, 34) == host_ip() {
        if f[23] == PROTO_ICMP {
            if 20 <= be16(f, 16) && 14 + be16(f, 16) <= f.len() {
                FrameKind::Ping
            } else {
                FrameKind::Ignored
            }
        } else if f[23] == PROTO_UDP && be16(f, 36) == SHELL_PORT {
            if 8 <= be16(f, 38) && 34 + be16(f, 38) <= f.len() {
                FrameKind::ShellLine
            } else {
                FrameKind::Ignored
            }
        } else {
            FrameKind::Ignored
        }
    } else {
        FrameKind::Ignored
    }
}

/// `s` with `bytes` written over it from `off` on.
pub open spec fn splice(s: Seq<u8>, off: int, bytes: Seq<u8>) -> Seq<u8> {
    Seq::new(
        s.len(),
        |i: int|
            if off <= i < off + bytes.len() {
                bytes[i - off]
            } else {
                s[i]
            },
    )
}

/// The answer to the ARP request `f` by the host with the address `mac`: it
/// goes to the sender of the request, is a reply (operation 2), names this
/// host as its sender and the asker as its target.
pub open spec fn arp_reply(f: Seq<u8>, mac: Seq<u8>) -> Seq<u8> {
    Seq::new(
        f.len(),
        |i: int|
            if i < 6 {
                f[i + 6]
            } else if i < 12 {
                mac[i - 6]
            } else if i == 20 {
                0
            } else if i == 21 {
                2
            } else if 22 <= i < 28 {
                mac[i - 22]
            } else if 28 <= i < 32 {
                host_ip()[i - 28]
            } else if 32 <= i < 42 {
                f[i - 10]
            } else {
                f[i]
            },
    )
}

/// The ICMP packet `f` turned round, with every checksum field at 0: it
/// goes to its sender, from this host; identification and fragment fields
/// are 0; the ICMP type is 0, an echo reply.
pub open spec fn ping_turned(f: Seq<u8>, mac: Seq<u8>) -> Seq<u8> {
    Seq::new(
        f.len(),
        |i: int|
            if i < 6 {
                f[i + 6]
            } else if i < 12 {
                mac[i - 6]
            } else if 18 <= i < 22 {
                0
            } else if 24 <= i < 26 {
                0
            } else if 26 <= i < 30 {
                host_ip()[i - 26]
            } else if 30 <= i < 34 {
                f[i - 4]
            } else if i == 34 {
                0
            } else if 36 <= i < 38 {
                0
            } else {
                f[i]
            },
    )
}

/// The answer to the ICMP packet `f`: the packet turned round, with the
/// checksum of the IP header, and with the ICMP checksum over the whole IP
/// payload.
pub open spec fn ping_reply(f: Seq<u8>, mac: Seq<u8>) -> Seq<u8> {
    let a = ping_turned(f, mac);
    let b = put16(a, 24, checksum_spec(a.subrange(14, 34)));
    put16(b, 36, checksum_spec(b.subrange(34, 14 + be16(f, 16))))
}

/// The UDP packet `f` turned round: it goes to its sender, from this host,
/// and from the port it came to, to the port it came from.
pub open spec fn udp_turned(f: Seq<u8>, mac: Seq<u8>) -> Seq<u8> {
    Seq::new(
        f.len(),
        |i: int|
            if i < 6 {
                f[i + 6]
            } else if i < 12 {
                mac[i - 6]
            } else if 26 <= i < 30 {
                host_ip()[i - 26]
            } else if 30 <= i < 34 {
                f[i - 4]
            } else if 34 <= i < 36 {
                f[i + 2]
            } else if 36 <= i < 38 {
                f[i - 2]
            } else {
                f[i]
            },
    )
}

/// The line that the UDP packet `f` carries.
pub open spec fn udp_payload(f: Seq<u8>) -> Seq<u8> {
    f.subrange(42, 34 + be16(f, 38))
}

/// The payload `chunk` fits a UDP packet in the frame `f`.
pub open spec fn chunk_fits(f: Seq<u8>, chunk: Seq<u8>) -> bool {
    HEADERS_LEN + chunk.len() <= f.len() && 28 + chunk.len() <= 0xffff
}

/// The frame `f` with `chunk` as the payload of its UDP packet: the lengths
/// of the IP and of the UDP packet are set, the UDP checksum is 0, and the
/// checksum of the IP header is fresh.
pub open spec fn udp_filled(f: Seq<u8>, chunk: Seq<u8>) -> Seq<u8> {
    let a = put16(f, 16, (28 + chunk.len()) as u16);
    let b = put16(a, 24, 0);
    let c = put16(b, 38, (8 + chunk.len()) as u16);
    let d = put16(c, 40, 0);
    let e = splice(d, 42, chunk);
    put16(e, 24, checksum_spec(e.subrange(14, 34)))
}

/// Every ARP reply goes to the sender of the request, names the address of
/// this host as its sender's, and is a reply.
pub proof fn lemma_arp_reply_fields(f: Seq<u8>, mac: Seq<u8>)
    requires
        f.len() >= HEADERS_LEN,
        mac.len() == 6,
    ensures
        arp_reply(f, mac).subrange(0, 6) == f.subrange(6, 12),
        arp_reply(f, mac).subrange(28, 32) == host_ip(),
        be16(arp_reply(f, mac), 20) == 2,
        arp_reply(f, mac).subrange(6, 12) == mac,
        arp_reply(f, mac).subrange(22, 28) == mac,
        arp_reply(f, mac).subrange(32, 38) == f.subrange(22, 28),
        arp_reply(f, mac).subrange(38, 42) == f.subrange(28, 32),
{
    let r = arp_reply(f, mac);
    assert(r.subrange(0, 6) =~= f.subrange(6, 12));
    assert(r.subrange(28, 32) =~= host_ip());
    assert(r.subrange(6, 12) =~= mac);
    assert(r.subrange(22, 28) =~= mac);
    assert(r.subrange(32, 38) =~= f.subrange(22, 28));
    assert(r.subrange(38, 42) =~= f.subrange(28, 32));
}

/// The 16-bit number at `off`, high byte first.
fn read16(bytes: &[u8], off: usize) -> (r: u16)
    requires
        off + 2 <= bytes@.len(),
    ensures
        r == be16(bytes@, off as int),
{
    (bytes[off] as u16) * 256 + bytes[off + 1] as u16
}

/// Stores the 16-bit number `x` at `off`, high byte first.
fn write16(frame: &mut Vec<u8>, off: usize, x: u16)
    requires
        off + 2 <= old(frame)@.len(),
    ensures
        final(frame)@ == put16(old(frame)@, off as int, x),
{
    assert(frame@.len() == frame.len());
    frame.set(off, (x / 256) as u8);
    frame.set(off + 1, (x % 256) as u8);
}

/// Writes `bytes` over the frame from `off` on.
fn write_bytes(frame: &mut Vec<u8>, off: usize, bytes: &[u8])
    requires
        off + bytes@.len() <= old(frame)@.len(),
    ensures
        final(frame)@ == splice(old(frame)@, off as int, bytes@),
{
    assert(frame@.len() == frame.len());
    let mut i: usize = 0;
    while i < bytes.len()
        invariant
            i <= bytes@.len(),
            off + bytes@.len() <= frame@.len() <= usize::MAX,
            frame@.len() == old(frame)@.len(),
            frame@ == splice(old(frame)@, off as int, bytes@.take(i as int)),
        decreases bytes@.len() - i,
    {
        frame.set(off + i, bytes[i]);
        i = i + 1;
        assert(frame@ =~= splice(old(frame)@, off as int, bytes@.take(i as int)));
    }
    assert(bytes@.take(bytes@.len() as int) == bytes@);
}

/// Copies `n` bytes inside the frame from `src` to `dst`; the two ranges do
/// not overlap.
fn copy_bytes(frame: &mut Vec<u8>, dst: usize, src: usize, n: usize)
    requires
        dst + n <= old(frame)@.len(),
        src + n <= old(frame)@.len(),
        dst + n <= src || src + n <= dst,
    ensures
        final(frame)@ == splice(
            old(frame)@,
            dst as int,
            old(frame)@.subrange(src as int, src + n),
        ),
{
    assert(frame@.len() == frame.len());
    let mut i: usize = 0;
    while i < n
        invariant
            i <= n,
            dst + n <= frame@.len() <= usize::MAX,
            src + n <= frame@.len(),
            dst + n <= src || src + n <= dst,
            frame@.len() == old(frame)@.len(),
            frame@ == splice(old(frame)@, dst as int, old(frame)@.subrange(src as int, src + i)),
        decreases n - i,
    {
        let b = frame[src + i];
        frame.set(dst + i, b);
        i = i + 1;
        assert(frame@ =~= splice(
            old(frame)@,
            dst as int,
            old(frame)@.subrange(src as int, src + i),
        ));
    }
}

/// What to do with a frame after a look at it.
pub enum Reply {
    /// Nothing; the frame is as it was.
    Drop,
    /// Send the frame, which now holds the answer.
    Transmit,
    /// Give `line` to the shell, and send each piece of what the shell says
    /// with [`Net::udp_reply`] in the frame, which is turned round already.
    Shell { line: Vec<u8> },
}

/// The network responder of the host with the address `mac`.
pub struct Net {
    pub mac: [u8; 6],
}

impl Net {
    /// The responder of the host with the address `mac`.
    pub fn new(mac: [u8; 6]) -> (r: Net)
        ensures
            r.mac == mac,
    {
        Net { mac }
    }

    /// What the frame asks of this host.
    pub fn classify(frame: &[u8]) -> (r: FrameKind)
        ensures
            r == kind_of(frame@),
    {
        if frame.len() < HEADERS_LEN {
            return FrameKind::Ignored;
        }
        let ip = host_ip_bytes();
        let ethertype = read16(frame, 12);
        if ethertype == ETHERTYPE_ARP {
            if read16(frame, 14) == 1 && read16(frame, 16) == ETHERTYPE_IPV4 && read16(frame, 20)
                == 1 && crate::text::bytes_eq(&frame[38..42], ip.as_slice()) {
                FrameKind::ArpRequest
            } else {
                FrameKind::Ignored
            }
        } else if ethertype == ETHERTYPE_IPV4 && crate::text::bytes_eq(
            &frame[30..34],
            ip.as_slice(),
        ) {
            if frame[23] == PROTO_ICMP {
                let length = read16(frame, 16) as usize;
                if 20 <= length && length <= frame.len() - 14 {
                    FrameKind::Ping
                } else {
                    FrameKind::Ignored
                }
            } else if frame[23] == PROTO_UDP && read16(frame, 36) == SHELL_PORT {
                let length = read16(frame, 38) as usize;
                if 8 <= length && length <= frame.len() - 34 {
                    FrameKind::ShellLine
                } else {
                    FrameKind::Ignored
                }
            } else {
                FrameKind::Ignored
            }
        } else {
            FrameKind::Ignored
        }
    }

    /// Serves one received frame. An ARP request for this host's address and
    /// an ICMP packet for this host are answered in place; a UDP packet for
    /// the shell port is turned round and its line handed out; every other
    /// frame is left alone.
    pub fn serve_ping(&self, frame: &mut Vec<u8>) -> (r: Reply)
        ensures
            match kind_of(old(frame)@) {
                FrameKind::Ignored => r is Drop && final(frame)@ == old(frame)@,
                FrameKind::ArpRequest => r is Transmit && final(frame)@ == arp_reply(
                    old(frame)@,
                    self.mac@,
                ),
                FrameKind::Ping => r is Transmit && final(frame)@ == ping_reply(
                    old(frame)@,
                    self.mac@,
                ),
                FrameKind::ShellLine => r matches Reply::Shell { line } && line@ == udp_payload(
                    old(frame)@,
                ) && final(frame)@ == udp_turned(old(frame)@, self.mac@),
            },
    {
        let ip = host_ip_bytes();
        match Net::classify(frame.as_slice()) {
            FrameKind::Ignored => Reply::Drop,
            FrameKind::ArpRequest => {
                copy_bytes(frame, 0, 6, 6);
                write_bytes(frame, 6, self.mac.as_slice());
                write16(frame, 20, 2);
                copy_bytes(frame, 32, 22, 10);
                write_bytes(frame, 22, self.mac.as_slice());
                write_bytes(frame, 28, ip.as_slice());
                assert(frame@ =~= arp_reply(old(frame)@, self.mac@));
                Reply::Transmit
            },
            FrameKind::Ping => {
                let length = read16(frame.as_slice(), 16) as usize;
                copy_bytes(frame, 0, 6, 6);
                write_bytes(frame, 6, self.mac.as_slice());
                copy_bytes(frame, 30, 26, 4);
                write_bytes(frame, 26, ip.as_slice());
                write16(frame, 18, 0);
                write16(frame, 20, 0);
                write16(frame, 24, 0);
                frame.set(34, 0);
                write16(frame, 36, 0);
                assert(frame@ =~= ping_turned(old(frame)@, self.mac@));
                let sum = checksum(&frame.as_slice()[14..34]);
                write16(frame, 24, sum);
                let sum = checksum(&frame.as_slice()[34..14 + length]);
                write16(frame, 36, sum);
                Reply::Transmit
            },
            FrameKind::ShellLine => {
                let length = read16(frame.as_slice(), 38) as usize;
                let line = vstd::slice::slice_to_vec(&frame.as_slice()[42..34 + length]);
                copy_bytes(frame, 0, 6, 6);
                write_bytes(frame, 6, self.mac.as_slice());
                copy_bytes(frame, 30, 26, 4);
                write_bytes(frame, 26, ip.as_slice());
                let source = read16(frame.as_slice(), 34);
                copy_bytes(frame, 34, 36, 2);
                write16(frame, 36, source);
                assert(frame@ =~= udp_turned(old(frame)@, self.mac@));
                Reply::Shell { line }
            },
        }
    }

    /// Puts `chunk` into the turned-round UDP packet of the frame, ready to
    /// send. Returns the length of the frame's use, headers and chunk; or
    /// `None`, with the frame as it was, where the chunk does not fit.
    pub fn udp_reply(frame: &mut Vec<u8>, chunk: &[u8]) -> (r: Option<usize>)
        ensures
            match r {
                Some(n) => chunk_fits(old(frame)@, chunk@) && n == HEADERS_LEN + chunk@.len()
                    && final(frame)@ == udp_filled(old(frame)@, chunk@),
                None => !chunk_fits(old(frame)@, chunk@) && final(frame)@ == old(frame)@,
            },
    {
        let n = chunk.len();
        if frame.len() < HEADERS_LEN || n > frame.len() - HEADERS_LEN || n > 0xffff - 28 {
            return None;
        }
        write16(frame, 16, (28 + n) as u16);
        write16(frame, 24, 0);
        write16(frame, 38, (8 + n) as u16);
        write16(frame, 40, 0);
        write_bytes(frame, 42, chunk);
        let sum = checksum(&frame.as_slice()[14..34]);
        write16(frame, 24, sum);
        Some(HEADERS_LEN + n)
    }

    /// What ends the answer to a line: where the line has ended the shell,
    /// one more packet with a line feed alone, made as [`Net::udp_reply`]
    /// makes it; else nothing, and the frame is as it was. After that packet
    /// the shell is served over the network no longer.
    pub fn udp_farewell(frame: &mut Vec<u8>, exit: bool) -> (r: Option<usize>)
        ensures
            match r {
                Some(n) => exit && chunk_fits(old(frame)@, seq![LF]) && n == HEADERS_LEN + 1
                    && final(frame)@ == udp_filled(old(frame)@, seq![LF]),
                None => !(exit && chunk_fits(old(frame)@, seq![LF])) && final(frame)@ == old(
                    frame,
                )@,
            },
    {
        if exit {
            let line_feed: [u8; 1] = [LF];
            assert(line_feed@ =~= seq![LF]);
            Net::udp_reply(frame, line_feed.as_slice())
        } else {
            None
        }
    }
}

} // verus!
