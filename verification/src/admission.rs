//! The admission filter and the front door of the engine: classify one
//! frame, apply the admission policy, and hand back the canonical flow key
//! of an admitted flow.
//!
//! TCP flows are admitted only on the opening packet of a connection
//! attempt (SYN set, ACK clear). UDP flows are admitted only inside the
//! configured port ranges, a heuristic against ephemeral reply traffic.
//! Rejection is silent policy, never an error.

use vstd::prelude::*;

use crate::classify::{classify, classify_spec, Classified};
use crate::flow::{Address, AddressView, ConnectionView};
use crate::store::{flow_record, record_spec, store_contains, lemma_key_discrimination};
use crate::text::{dec_digits, dec_string, lemma_dec_injective, push_char, push_dec};

verus! {

/// The externally configured UDP admission bounds.
#[derive(Clone, Copy)]
pub struct AdmissionConfig {
    /// UDP flows to destination ports above this are not recorded.
    pub max_dst_udp_port: u16,
    /// UDP flows from source ports below this are not recorded.
    pub min_src_udp_port: u16,
}

impl Default for AdmissionConfig {
    /// The default bounds: no destination cap, source ports above the first
    /// two thousand and forty-eight.
    fn default() -> (r: Self)
        ensures
            r.max_dst_udp_port == 65535,
            r.min_src_udp_port == 2048,
    {
        AdmissionConfig { max_dst_udp_port: 65535, min_src_udp_port: 2048 }
    }
}

/// Whether a classified frame is admitted for recording.
pub open spec fn admit_spec(c: Classified, cfg: AdmissionConfig) -> bool {
    match c {
        Classified::Tcp { syn, ack, .. } => syn && !ack,
        Classified::Udp { src_port, dst_port, .. } => dst_port <= cfg.max_dst_udp_port && src_port
            >= cfg.min_src_udp_port,
        _ => false,
    }
}

/// The admission decision for one classified frame.
pub fn admitted(c: &Classified, cfg: &AdmissionConfig) -> (r: bool)
    ensures
        r == admit_spec(*c, *cfg),
{
    match c {
        Classified::Tcp { syn, ack, .. } => *syn && !*ack,
        Classified::Udp { src_port, dst_port, .. } => *dst_port <= cfg.max_dst_udp_port
            && *src_port >= cfg.min_src_udp_port,
        _ => false,
    }
}

/// The canonical dotted-decimal rendering of an IPv4 address.
pub open spec fn ipv4_text(a: u32) -> Seq<char> {
    dec_digits(((a as nat) / 0x1000000) % 256) + seq!['.'] + dec_digits(
        ((a as nat) / 0x10000) % 256,
    ) + seq!['.'] + dec_digits(((a as nat) / 0x100) % 256) + seq!['.'] + dec_digits((a as nat) % 256)
}

/// Renders an IPv4 address as canonical dotted decimal.
pub fn ipv4_string(a: u32) -> (r: String)
    ensures
        r@ == ipv4_text(a),
{
    let mut s = String::new();
    push_dec(&mut s, ((a / 0x1000000) % 256) as u64);
    push_char(&mut s, '.');
    push_dec(&mut s, ((a / 0x10000) % 256) as u64);
    push_char(&mut s, '.');
    push_dec(&mut s, ((a / 0x100) % 256) as u64);
    push_char(&mut s, '.');
    push_dec(&mut s, (a % 256) as u64);
    proof {
        assert(s@ =~= ipv4_text(a));
    }
    s
}

/// The flow key of an admitted TCP flow.
pub open spec fn tcp_key(src: u32, dst: u32, dst_port: u16) -> AddressView {
    AddressView {
        src: ipv4_text(src),
        dst: ipv4_text(dst),
        protocol: "TCP"@,
        port: dec_digits(dst_port as nat),
    }
}

/// The flow key of an admitted UDP flow.
pub open spec fn udp_key(src: u32, dst: u32, dst_port: u16) -> AddressView {
    AddressView {
        src: ipv4_text(src),
        dst: ipv4_text(dst),
        protocol: "UDP"@,
        port: dec_digits(dst_port as nat),
    }
}

/// Classifies one captured frame and applies the admission policy: the
/// canonical flow key when the frame opens a recordable flow, nothing when
/// the frame is malformed, uninteresting, or rejected by policy.
pub fn classify_and_filter(frame: &[u8], cfg: &AdmissionConfig) -> (r: Option<Address>)
    ensures
        (match classify_spec(frame@) {
            Classified::Tcp { src, dst, src_port: _, dst_port, syn, ack } => {
                if syn && !ack {
                    r matches Some(a) && a@ == tcp_key(src, dst, dst_port)
                } else {
                    r is None
                }
            },
            Classified::Udp { src, dst, src_port, dst_port } => {
                if dst_port <= cfg.max_dst_udp_port && src_port >= cfg.min_src_udp_port {
                    r matches Some(a) && a@ == udp_key(src, dst, dst_port)
                } else {
                    r is None
                }
            },
            _ => r is None,
        }),
        r is Some <==> admit_spec(classify_spec(frame@), *cfg),
{
    match classify(frame) {
        Classified::Tcp { src, dst, src_port: _, dst_port, syn, ack } => {
            if syn && !ack {
                Some(
                    Address {
                        src: ipv4_string(src),
                        dst: ipv4_string(dst),
                        protocol: "TCP".to_owned(),
                        port: dec_string(dst_port as u64),
                    },
                )
            } else {
                None
            }
        },
        Classified::Udp { src, dst, src_port, dst_port } => {
            if dst_port <= cfg.max_dst_udp_port && src_port >= cfg.min_src_udp_port {
                Some(
                    Address {
                        src: ipv4_string(src),
                        dst: ipv4_string(dst),
                        protocol: "UDP".to_owned(),
                        port: dec_string(dst_port as u64),
                    },
                )
            } else {
                None
            }
        },
        _ => None,
    }
}

/// A TCP frame with SYN and ACK both set is never admitted; one with SYN
/// set and ACK clear always is, whatever the configuration.
pub proof fn lemma_tcp_gate(c: Classified, cfg: AdmissionConfig)
    ensures
        (c matches Classified::Tcp { syn: true, ack: true, .. }) ==> !admit_spec(c, cfg),
        (c matches Classified::Tcp { syn: true, ack: false, .. }) ==> admit_spec(c, cfg),
{
}

/// Under a destination cap of 49151 and a source floor of 1024, a UDP flow
/// to destination port 50000 is rejected whatever its source port, and one
/// to destination port 80 from any source port at or above the floor is
/// admitted.
pub proof fn lemma_udp_gate(src: u32, dst: u32, src_port: u16)
    ensures
        !admit_spec(
            (Classified::Udp { src, dst, src_port, dst_port: 50000 }),
            (AdmissionConfig { max_dst_udp_port: 49151, min_src_udp_port: 1024 }),
        ),
        src_port >= 1024 ==> admit_spec(
            (Classified::Udp { src, dst, src_port, dst_port: 80 }),
            (AdmissionConfig { max_dst_udp_port: 49151, min_src_udp_port: 1024 }),
        ),
{
}

/// Two admitted frames that differ only in destination port map to two
/// distinct flow keys.
pub proof fn lemma_port_discriminates(src: u32, dst: u32, p1: u16, p2: u16)
    requires
        p1 != p2,
    ensures
        tcp_key(src, dst, p1) != tcp_key(src, dst, p2),
        udp_key(src, dst, p1) != udp_key(src, dst, p2),
{
    lemma_dec_injective(p1 as nat, p2 as nat);
}

/// Two admitted TCP flows between the same endpoints that differ only in
/// destination port are stored as two distinct records: recording both on a
/// store that holds neither leaves both present, each under its own key.
pub proof fn lemma_two_ports_two_records(
    s: Seq<ConnectionView>,
    src: u32,
    dst: u32,
    p1: u16,
    p2: u16,
    t1: u64,
    t2: u64,
)
    requires
        p1 != p2,
        !store_contains(s, tcp_key(src, dst, p1)),
        !store_contains(s, tcp_key(src, dst, p2)),
    ensures
        ({
            let s2 = record_spec(record_spec(s, tcp_key(src, dst, p1), t1), tcp_key(src, dst, p2), t2);
            s2 == s.push(flow_record(tcp_key(src, dst, p1), t1)).push(
                flow_record(tcp_key(src, dst, p2), t2),
            ) && store_contains(s2, tcp_key(src, dst, p1)) && store_contains(
                s2,
                tcp_key(src, dst, p2),
            )
        }),
{
    lemma_port_discriminates(src, dst, p1, p2);
    lemma_key_discrimination(s, tcp_key(src, dst, p1), tcp_key(src, dst, p2), t1, t2);
}

} // verus!
