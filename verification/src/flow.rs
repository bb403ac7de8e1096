//! The flow data model: a flow's identity (`Address`) and the stored record
//! (`Connection`), with their mathematical views.

use vstd::prelude::*;

use crate::text::{push_char, push_str};

verus! {

/// The identity of a flow, all four fields rendered as canonical strings.
/// Two observations belong to the same flow exactly when all four fields
/// are equal as strings.
pub struct Address {
    pub src: String,
    pub dst: String,
    pub protocol: String,
    pub port: String,
}

/// The mathematical value of an `Address`: its four fields as character
/// sequences.
pub ghost struct AddressView {
    pub src: Seq<char>,
    pub dst: Seq<char>,
    pub protocol: Seq<char>,
    pub port: Seq<char>,
}

impl View for Address {
    type V = AddressView;

    open spec fn view(&self) -> AddressView {
        AddressView { src: self.src@, dst: self.dst@, protocol: self.protocol@, port: self.port@ }
    }
}

/// One stored flow: its identity, the first-seen timestamp in Unix seconds,
/// and the two reserved speed fields, which this crate carries through
/// unchanged and never computes.
pub struct Connection {
    pub addr: Address,
    pub time: u64,
    pub max_speed: u32,
    pub avg_speed: u32,
}

/// The mathematical value of a `Connection`.
pub ghost struct ConnectionView {
    pub addr: AddressView,
    pub time: u64,
    pub max_speed: u32,
    pub avg_speed: u32,
}

impl View for Connection {
    type V = ConnectionView;

    open spec fn view(&self) -> ConnectionView {
        ConnectionView {
            addr: self.addr@,
            time: self.time,
            max_speed: self.max_speed,
            avg_speed: self.avg_speed,
        }
    }
}

/// The mathematical value of a sequence of connections.
pub open spec fn seq_view(s: Seq<Connection>) -> Seq<ConnectionView> {
    s.map_values(|c: Connection| c@)
}

/// The primary-key encoding of an address: the four fields joined by `'_'`.
pub open spec fn key_text(a: AddressView) -> Seq<char> {
    a.src + seq!['_'] + a.dst + seq!['_'] + a.protocol + seq!['_'] + a.port
}

impl Address {
    /// The primary-key string under which a flow with this address is stored.
    pub fn to_key(&self) -> (r: String)
        ensures
            r@ == key_text(self@),
    {
        let mut s = self.src.clone();
        push_char(&mut s, '_');
        push_str(&mut s, self.dst.as_str());
        push_char(&mut s, '_');
        push_str(&mut s, self.protocol.as_str());
        push_char(&mut s, '_');
        push_str(&mut s, self.port.as_str());
        proof {
            assert(s@ =~= key_text(self@));
        }
        s
    }

    /// The single key name under which the store indexes flows.
    pub fn key_names() -> (r: Vec<String>)
        ensures
            r@.len() == 1,
            r@[0]@ == "Address"@,
    {
        let mut v: Vec<String> = Vec::new();
        v.push("Address".to_owned());
        v
    }

    /// Whether `self` and `other` identify the same flow: exact string
    /// equality of all four fields.
    pub fn same_flow(&self, other: &Address) -> (r: bool)
        ensures
            r == (self@ == other@),
    {
        let r = self.src == other.src && self.dst == other.dst && self.protocol == other.protocol
            && self.port == other.port;
        proof {
            if r {
                assert(self@ == other@);
            } else {
                assert(self@ != other@);
            }
        }
        r
    }
}

impl Clone for Address {
    fn clone(&self) -> (r: Self)
        ensures
            r == *self,
    {
        Address {
            src: self.src.clone(),
            dst: self.dst.clone(),
            protocol: self.protocol.clone(),
            port: self.port.clone(),
        }
    }
}

impl Clone for Connection {
    fn clone(&self) -> (r: Self)
        ensures
            r == *self,
    {
        Connection {
            addr: self.addr.clone(),
            time: self.time,
            max_speed: self.max_speed,
            avg_speed: self.avg_speed,
        }
    }
}

} // verus!
