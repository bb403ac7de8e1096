//! The flow store: a keyed set of flows with first-seen-wins insertion.
//!
//! The store holds at most one record per address, never updates a record
//! once inserted, and offers a full consistent snapshot of its contents.

use vstd::prelude::*;

use crate::flow::{Address, AddressView, Connection, ConnectionView, seq_view};

verus! {

/// The result of offering a record to the store.
#[derive(Debug, PartialEq, Eq, Structural)]
pub enum RecordOutcome {
    /// The key was absent; the record is now stored.
    Inserted,
    /// A record under the key was already stored; nothing changed.
    AlreadyPresent,
}

/// Whether some stored record carries the address `k`.
pub open spec fn store_contains(s: Seq<ConnectionView>, k: AddressView) -> bool {
    exists|i: int| 0 <= i < s.len() && s[i].addr == k
}

/// No two stored records share an address.
pub open spec fn unique_keys(s: Seq<ConnectionView>) -> bool {
    forall|i: int, j: int| 0 <= i < j < s.len() ==> s[i].addr != s[j].addr
}

/// The record created when the address `k` is first seen at time `t`: the
/// speed fields are reserved and start at zero.
pub open spec fn flow_record(k: AddressView, t: u64) -> ConnectionView {
    ConnectionView { addr: k, time: t, max_speed: 0, avg_speed: 0 }
}

/// What recording the address `k` at time `t` does to the store contents:
/// nothing when the key is already present, else one appended record.
pub open spec fn record_spec(s: Seq<ConnectionView>, k: AddressView, t: u64) -> Seq<
    ConnectionView,
> {
    if store_contains(s, k) {
        s
    } else {
        s.push(flow_record(k, t))
    }
}

/// The system of record: an append-only keyed set of flows.
pub struct FlowStore {
    flows: Vec<Connection>,
}

impl View for FlowStore {
    type V = Seq<ConnectionView>;

    closed spec fn view(&self) -> Seq<ConnectionView> {
        seq_view(self.flows@)
    }
}

impl FlowStore {
    /// Every address appears at most once.
    pub open spec fn wf(&self) -> bool {
        unique_keys(self@)
    }

    /// An empty store.
    pub fn new() -> (r: FlowStore)
        ensures
            r@ == Seq::<ConnectionView>::empty(),
            r.wf(),
    {
        let r = FlowStore { flows: Vec::new() };
        proof {
            assert(r@ =~= Seq::<ConnectionView>::empty());
        }
        r
    }

    /// Point lookup by primary key, read-only.
    pub fn contains(&self, key: &Address) -> (r: bool)
        ensures
            r == store_contains(self@, key@),
    {
        let n = self.flows.len();
        let mut i: usize = 0;
        while i < n
            invariant
                n == self.flows.len(),
                0 <= i <= n,
                forall|j: int| 0 <= j < i ==> self@[j].addr != key@,
            decreases n - i,
        {
            proof {
                assert(self@[i as int] == self.flows@[i as int]@);
            }
            if self.flows[i].addr.same_flow(key) {
                proof {
                    assert(self@[i as int].addr == key@);
                }
                return true;
            }
            i = i + 1;
        }
        false
    }

    /// The one write path: an atomic check-then-insert. Exactly one of two
    /// concurrent offers of a never-seen key can observe `Inserted`; the
    /// store is held by exclusive reference for the whole operation, so the
    /// check and the insert cannot be interleaved with another writer.
    pub fn insert_if_absent(&mut self, rec: Connection) -> (r: RecordOutcome)
        requires
            old(self).wf(),
        ensures
            final(self).wf(),
            final(self)@ == (if store_contains(old(self)@, rec@.addr) {
                old(self)@
            } else {
                old(self)@.push(rec@)
            }),
            (r == RecordOutcome::AlreadyPresent) <==> store_contains(old(self)@, rec@.addr),
            (r == RecordOutcome::Inserted) <==> !store_contains(old(self)@, rec@.addr),
    {
        if self.contains(&rec.addr) {
            RecordOutcome::AlreadyPresent
        } else {
            let ghost s0 = self@;
            self.flows.push(rec);
            proof {
                assert(self@ =~= s0.push(rec@));
                assert forall|i: int, j: int| 0 <= i < j < self@.len() implies self@[i].addr
                    != self@[j].addr by {
                    if j == s0.len() as int {
                        assert(self@[i] == s0[i]);
                        assert(!(s0[i].addr == rec@.addr));
                    }
                }
            }
            RecordOutcome::Inserted
        }
    }

    /// The single write entry point: record that the flow `key` was observed
    /// at `observed_at`. The first observation of a key stores it with that
    /// timestamp and zeroed speed fields; every later observation leaves the
    /// store unchanged.
    pub fn record(&mut self, key: Address, observed_at: u64) -> (r: RecordOutcome)
        requires
            old(self).wf(),
        ensures
            final(self).wf(),
            final(self)@ == record_spec(old(self)@, key@, observed_at),
            (r == RecordOutcome::Inserted) <==> !store_contains(old(self)@, key@),
            (r == RecordOutcome::AlreadyPresent) <==> store_contains(old(self)@, key@),
    {
        let rec = Connection { addr: key, time: observed_at, max_speed: 0, avg_speed: 0 };
        self.insert_if_absent(rec)
    }

    /// A full, consistent snapshot of the store, in insertion order. Every
    /// returned record is a whole committed record.
    pub fn scan_all(&self) -> (r: Vec<Connection>)
        ensures
            seq_view(r@) == self@,
    {
        let n = self.flows.len();
        let mut r: Vec<Connection> = Vec::new();
        let mut i: usize = 0;
        while i < n
            invariant
                n == self.flows.len(),
                0 <= i <= n,
                r@.len() == i,
                forall|j: int| 0 <= j < i ==> r@[j] == self.flows@[j],
            decreases n - i,
        {
            r.push(self.flows[i].clone());
            i = i + 1;
        }
        proof {
            assert(seq_view(r@) =~= self@);
        }
        r
    }
}

/// Idempotent admission: once a previously-absent key is recorded, recording
/// it again at any later time changes nothing, and the only record under the
/// key keeps the first timestamp.
pub proof fn lemma_record_idempotent(s: Seq<ConnectionView>, k: AddressView, t1: u64, t2: u64)
    requires
        !store_contains(s, k),
        t1 < t2,
    ensures
        record_spec(s, k, t1) == s.push(flow_record(k, t1)),
        record_spec(record_spec(s, k, t1), k, t2) == record_spec(s, k, t1),
        forall|i: int|
            0 <= i < record_spec(s, k, t1).len() && record_spec(s, k, t1)[i].addr == k
                ==> record_spec(s, k, t1)[i] == flow_record(k, t1),
{
    let s1 = s.push(flow_record(k, t1));
    assert(s1[s.len() as int].addr == k);
    assert(store_contains(s1, k));
    assert forall|i: int| 0 <= i < s1.len() && s1[i].addr == k implies s1[i] == flow_record(
        k,
        t1,
    ) by {
        if i < s.len() {
            assert(s1[i] == s[i]);
        }
    }
}

/// Key discrimination: two distinct keys — in particular two that differ
/// only in their destination port — are stored as two distinct records.
pub proof fn lemma_key_discrimination(
    s: Seq<ConnectionView>,
    k1: AddressView,
    k2: AddressView,
    t1: u64,
    t2: u64,
)
    requires
        k1 != k2,
        !store_contains(s, k1),
        !store_contains(s, k2),
    ensures
        record_spec(record_spec(s, k1, t1), k2, t2) == s.push(flow_record(k1, t1)).push(
            flow_record(k2, t2),
        ),
        store_contains(record_spec(record_spec(s, k1, t1), k2, t2), k1),
        store_contains(record_spec(record_spec(s, k1, t1), k2, t2), k2),
{
    let s1 = s.push(flow_record(k1, t1));
    assert forall|i: int| 0 <= i < s1.len() implies s1[i].addr != k2 by {
        if i < s.len() {
            assert(s1[i] == s[i]);
            assert(!(s[i].addr == k2));
        }
    }
    assert(!store_contains(s1, k2));
    let s2 = s1.push(flow_record(k2, t2));
    assert(s2[s.len() as int].addr == k1);
    assert(s2[s.len() as int + 1].addr == k2);
}

} // verus!
