//! The frame classifier: one linear pass that decodes a raw link-layer
//! frame down to the transport header and extracts the candidate flow
//! fields, or reports the frame as not decodable or not of interest.
//!
//! The grammar is the classical layering: an Ethernet header whose ethertype
//! must be IPv4, an IPv4 header whose length field locates the transport
//! payload, then a TCP or a UDP header. Malformed frames are dropped
//! silently; other ethertypes and transports are ignored silently.

use vstd::prelude::*;

verus! {

/// Length of an Ethernet header.
pub const ETHERNET_HEADER_LEN: usize = 14;

/// The ethertype that declares an IPv4 payload.
pub const ETHERTYPE_IPV4: u16 = 0x0800;

/// The IPv4 protocol numbers of TCP and UDP.
pub const PROTO_TCP: u8 = 6;

pub const PROTO_UDP: u8 = 17;

/// What one captured frame classifies to.
pub enum Classified {
    /// Truncated or structurally malformed down to the transport header.
    NotDecodable,
    /// Well-formed but of no interest: not IPv4, or another transport.
    Uninteresting,
    /// An IPv4 TCP segment: addresses, ports and the two inspected flags.
    Tcp { src: u32, dst: u32, src_port: u16, dst_port: u16, syn: bool, ack: bool },
    /// An IPv4 UDP datagram: addresses and ports.
    Udp { src: u32, dst: u32, src_port: u16, dst_port: u16 },
}

/// The big-endian 16-bit field at offset `i`.
pub open spec fn be16(b: Seq<u8>, i: int) -> int {
    b[i] * 256 + b[i + 1]
}

/// The big-endian 32-bit field at offset `i`.
pub open spec fn be32(b: Seq<u8>, i: int) -> int {
    ((b[i] * 256 + b[i + 1]) * 256 + b[i + 2]) * 256 + b[i + 3]
}

/// The header length an IPv4 header declares: its low nibble, in 32-bit
/// words.
pub open spec fn ipv4_ihl(p: Seq<u8>) -> int {
    (p[0] % 16) * 4
}

/// Classification of a TCP header, reached with the addresses already read.
pub open spec fn classify_tcp(src: int, dst: int, t: Seq<u8>) -> Classified {
    if t.len() < 20 {
        Classified::NotDecodable
    } else {
        Classified::Tcp {
            src: src as u32,
            dst: dst as u32,
            src_port: be16(t, 0) as u16,
            dst_port: be16(t, 2) as u16,
            syn: t[13] & 0x02 != 0,
            ack: t[13] & 0x10 != 0,
        }
    }
}

/// Classification of a UDP header, reached with the addresses already read.
pub open spec fn classify_udp(src: int, dst: int, t: Seq<u8>) -> Classified {
    if t.len() < 8 {
        Classified::NotDecodable
    } else {
        Classified::Udp {
            src: src as u32,
            dst: dst as u32,
            src_port: be16(t, 0) as u16,
            dst_port: be16(t, 2) as u16,
        }
    }
}

/// Classification of an IPv4 packet: the link-layer payload.
pub open spec fn classify_ipv4(p: Seq<u8>) -> Classified {
    if p.len() < 20 {
        Classified::NotDecodable
    } else if ipv4_ihl(p) < 20 || p.len() < ipv4_ihl(p) {
        Classified::NotDecodable
    } else {
        let proto = p[9];
        let src = be32(p, 12);
        let dst = be32(p, 16);
        if proto == PROTO_TCP {
            classify_tcp(src, dst, p.skip(ipv4_ihl(p)))
        } else if proto == PROTO_UDP {
            classify_udp(src, dst, p.skip(ipv4_ihl(p)))
        } else {
            Classified::Uninteresting
        }
    }
}

/// Classification of one whole captured frame.
pub open spec fn classify_spec(b: Seq<u8>) -> Classified {
    if b.len() < 14 {
        Classified::NotDecodable
    } else if be16(b, 12) != ETHERTYPE_IPV4 {
        Classified::Uninteresting
    } else {
        classify_ipv4(b.skip(14))
    }
}

/// Reads the big-endian 16-bit field at `i`.
fn read_be16(b: &[u8], i: usize) -> (r: u16)
    requires
        i + 2 <= b@.len(),
    ensures
        r == be16(b@, i as int),
{
    (b[i] as u16) * 256 + (b[i + 1] as u16)
}

/// Reads the big-endian 32-bit field at `i`.
fn read_be32(b: &[u8], i: usize) -> (r: u32)
    requires
        i + 4 <= b@.len(),
    ensures
        r == be32(b@, i as int),
{
    (((b[i] as u32) * 256 + (b[i + 1] as u32)) * 256 + (b[i + 2] as u32)) * 256 + (b[i + 3] as u32)
}

/// Decodes one captured frame: a single linear pass through the three
/// headers, never failing on malformed input.
pub fn classify(frame: &[u8]) -> (r: Classified)
    ensures
        r == classify_spec(frame@),
{
    if frame.len() < 14 {
        return Classified::NotDecodable;
    }
    let ethertype = read_be16(frame, 12);
    if ethertype != ETHERTYPE_IPV4 {
        return Classified::Uninteresting;
    }
    let ghost p = frame@.skip(14);
    if frame.len() < 14 + 20 {
        proof {
            assert(p.len() < 20);
        }
        return Classified::NotDecodable;
    }
    proof {
        assert(p.len() >= 20);
        assert(p[0] == frame@[14]);
        assert(p[9] == frame@[23]);
    }
    let ihl: usize = ((frame[14] % 16) as usize) * 4;
    if ihl < 20 || frame.len() - 14 < ihl {
        return Classified::NotDecodable;
    }
    let proto = frame[14 + 9];
    proof {
        assert(p[12] == frame@[26]);
        assert(p[13] == frame@[27]);
        assert(p[14] == frame@[28]);
        assert(p[15] == frame@[29]);
        assert(p[16] == frame@[30]);
        assert(p[17] == frame@[31]);
        assert(p[18] == frame@[32]);
        assert(p[19] == frame@[33]);
    }
    let src = read_be32(frame, 14 + 12);
    let dst = read_be32(frame, 14 + 16);
    let off: usize = 14 + ihl;
    let ghost t = p.skip(ihl as int);
    proof {
        assert(t.len() == frame@.len() - off);
        assert forall|k: int| 0 <= k < t.len() implies t[k] == frame@[off as int + k] by {
            assert(t[k] == p[ihl as int + k]);
            assert(p[ihl as int + k] == frame@[14 + ihl as int + k]);
        }
    }
    if proto == PROTO_TCP {
        if frame.len() < off + 20 {
            return Classified::NotDecodable;
        }
        let src_port = read_be16(frame, off);
        let dst_port = read_be16(frame, off + 2);
        let flags = frame[off + 13];
        proof {
            assert(be16(t, 0) == be16(frame@, off as int));
            assert(be16(t, 2) == be16(frame@, off as int + 2));
            assert(t[13] == flags);
        }
        Classified::Tcp {
            src,
            dst,
            src_port,
            dst_port,
            syn: flags & 0x02 != 0,
            ack: flags & 0x10 != 0,
        }
    } else if proto == PROTO_UDP {
        if frame.len() < off + 8 {
            return Classified::NotDecodable;
        }
        let src_port = read_be16(frame, off);
        let dst_port = read_be16(frame, off + 2);
        proof {
            assert(be16(t, 0) == be16(frame@, off as int));
            assert(be16(t, 2) == be16(frame@, off as int + 2));
        }
        Classified::Udp { src, dst, src_port, dst_port }
    } else {
        Classified::Uninteresting
    }
}

} // verus!
