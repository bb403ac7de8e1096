//! The three-stage rollup of the flow table.
//!
//! Each stage scans its input in order and folds a row into the first
//! already-produced row of the same group, preserving first-encountered-wins
//! and append-in-encounter-order semantics. Stage 1 groups by (source,
//! protocol, destination port) and space-joins destinations; stage 2 groups
//! by (source, destination, protocol) and comma-space-joins ports; stage 3
//! groups by (destination, protocol, destination port) and comma-space-joins
//! sources. The separator asymmetry is part of the reporting contract.

use vstd::prelude::*;

use crate::flow::{Address, AddressView, Connection, ConnectionView, seq_view};
use crate::store::FlowStore;
use crate::text::push_str;

verus! {

/// The later of two timestamps.
pub open spec fn time_max(a: u64, b: u64) -> u64 {
    if a >= b {
        a
    } else {
        b
    }
}

/// Whether stage `stage` folds row `b` into the already-produced row `a`.
pub open spec fn group_match(stage: int, a: ConnectionView, b: ConnectionView) -> bool {
    if stage == 1 {
        a.addr.port == b.addr.port && a.addr.protocol == b.addr.protocol && a.addr.src
            == b.addr.src
    } else if stage == 2 {
        a.addr.src == b.addr.src && a.addr.dst == b.addr.dst && a.addr.protocol == b.addr.protocol
    } else {
        a.addr.port == b.addr.port && a.addr.protocol == b.addr.protocol && a.addr.dst
            == b.addr.dst
    }
}

/// The row that stands in place of `a` after `b` is folded into it: one
/// field is joined (space for stage 1, comma-space for stages 2 and 3), the
/// timestamp is raised to the later of the two, everything else keeps `a`'s
/// value.
pub open spec fn merge_rows(stage: int, a: ConnectionView, b: ConnectionView) -> ConnectionView {
    if stage == 1 {
        ConnectionView {
            addr: AddressView {
                src: a.addr.src,
                dst: a.addr.dst + " "@ + b.addr.dst,
                protocol: a.addr.protocol,
                port: a.addr.port,
            },
            time: time_max(a.time, b.time),
            max_speed: a.max_speed,
            avg_speed: a.avg_speed,
        }
    } else if stage == 2 {
        ConnectionView {
            addr: AddressView {
                src: a.addr.src,
                dst: a.addr.dst,
                protocol: a.addr.protocol,
                port: a.addr.port + ", "@ + b.addr.port,
            },
            time: time_max(a.time, b.time),
            max_speed: a.max_speed,
            avg_speed: a.avg_speed,
        }
    } else {
        ConnectionView {
            addr: AddressView {
                src: a.addr.src + ", "@ + b.addr.src,
                dst: a.addr.dst,
                protocol: a.addr.protocol,
                port: a.addr.port,
            },
            time: time_max(a.time, b.time),
            max_speed: a.max_speed,
            avg_speed: a.avg_speed,
        }
    }
}

/// The first index of `acc` whose row is in the same group as `c`, or `-1`
/// when no produced row matches.
pub open spec fn find_group(stage: int, acc: Seq<ConnectionView>, c: ConnectionView) -> int
    decreases acc.len(),
{
    if acc.len() == 0 {
        -1
    } else if group_match(stage, acc[0], c) {
        0
    } else {
        let r = find_group(stage, acc.drop_first(), c);
        if r == -1 {
            -1
        } else {
            r + 1
        }
    }
}

/// One step of a stage: fold `c` into the first matching produced row, or
/// append it as a new row.
pub open spec fn fold_step(stage: int, acc: Seq<ConnectionView>, c: ConnectionView) -> Seq<
    ConnectionView,
> {
    let f = find_group(stage, acc, c);
    if f == -1 {
        acc.push(c)
    } else {
        acc.update(f, merge_rows(stage, acc[f], c))
    }
}

/// One whole stage: the rows folded left to right into an accumulator that
/// starts empty.
pub open spec fn fold_rows(stage: int, rows: Seq<ConnectionView>) -> Seq<ConnectionView>
    decreases rows.len(),
{
    if rows.len() == 0 {
        Seq::<ConnectionView>::empty()
    } else {
        fold_step(stage, fold_rows(stage, rows.drop_last()), rows.last())
    }
}

/// The full three-stage rollup.
pub open spec fn aggregate_spec(rows: Seq<ConnectionView>) -> Seq<ConnectionView> {
    fold_rows(3, fold_rows(2, fold_rows(1, rows)))
}

/// `find_group` returns exactly the first matching index: if nothing before
/// `i` matches and `i` matches (or `i` is the length), the search lands on
/// `i` (or misses).
proof fn lemma_find_group_at(stage: int, acc: Seq<ConnectionView>, c: ConnectionView, i: int)
    requires
        0 <= i <= acc.len(),
        forall|t: int| 0 <= t < i ==> !group_match(stage, acc[t], c),
        i < acc.len() ==> group_match(stage, acc[i], c),
    ensures
        i < acc.len() ==> find_group(stage, acc, c) == i,
        i == acc.len() ==> find_group(stage, acc, c) == -1,
    decreases acc.len(),
{
    if acc.len() == 0 {
    } else if group_match(stage, acc[0], c) {
        assert(i == 0);
    } else {
        let rest = acc.drop_first();
        assert(i >= 1);
        assert forall|t: int| 0 <= t < i - 1 implies !group_match(stage, rest[t], c) by {
            assert(rest[t] == acc[t + 1]);
        }
        if i < acc.len() {
            assert(rest[i - 1] == acc[i]);
        }
        lemma_find_group_at(stage, rest, c, i - 1);
    }
}

fn rows_match(stage: u8, a: &Connection, b: &Connection) -> (r: bool)
    requires
        1 <= stage <= 3,
    ensures
        r == group_match(stage as int, a@, b@),
{
    if stage == 1 {
        a.addr.port == b.addr.port && a.addr.protocol == b.addr.protocol && a.addr.src
            == b.addr.src
    } else if stage == 2 {
        a.addr.src == b.addr.src && a.addr.dst == b.addr.dst && a.addr.protocol == b.addr.protocol
    } else {
        a.addr.port == b.addr.port && a.addr.protocol == b.addr.protocol && a.addr.dst
            == b.addr.dst
    }
}

fn merge_into(stage: u8, a: &Connection, b: &Connection) -> (r: Connection)
    requires
        1 <= stage <= 3,
    ensures
        r@ == merge_rows(stage as int, a@, b@),
{
    let time = if a.time >= b.time {
        a.time
    } else {
        b.time
    };
    if stage == 1 {
        let mut dst = a.addr.dst.clone();
        push_str(&mut dst, " ");
        push_str(&mut dst, b.addr.dst.as_str());
        Connection {
            addr: Address {
                src: a.addr.src.clone(),
                dst,
                protocol: a.addr.protocol.clone(),
                port: a.addr.port.clone(),
            },
            time,
            max_speed: a.max_speed,
            avg_speed: a.avg_speed,
        }
    } else if stage == 2 {
        let mut port = a.addr.port.clone();
        push_str(&mut port, ", ");
        push_str(&mut port, b.addr.port.as_str());
        Connection {
            addr: Address {
                src: a.addr.src.clone(),
                dst: a.addr.dst.clone(),
                protocol: a.addr.protocol.clone(),
                port,
            },
            time,
            max_speed: a.max_speed,
            avg_speed: a.avg_speed,
        }
    } else {
        let mut src = a.addr.src.clone();
        push_str(&mut src, ", ");
        push_str(&mut src, b.addr.src.as_str());
        Connection {
            addr: Address {
                src,
                dst: a.addr.dst.clone(),
                protocol: a.addr.protocol.clone(),
                port: a.addr.port.clone(),
            },
            time,
            max_speed: a.max_speed,
            avg_speed: a.avg_speed,
        }
    }
}

/// One stage of the rollup over a snapshot of rows.
pub fn aggregate_stage(stage: u8, rows: &Vec<Connection>) -> (r: Vec<Connection>)
    requires
        1 <= stage <= 3,
    ensures
        seq_view(r@) == fold_rows(stage as int, seq_view(rows@)),
{
    let n = rows.len();
    let mut acc: Vec<Connection> = Vec::new();
    let mut i: usize = 0;
    proof {
        assert(seq_view(rows@).take(0) =~= Seq::<ConnectionView>::empty());
        assert(seq_view(acc@) =~= Seq::<ConnectionView>::empty());
    }
    while i < n
        invariant
            1 <= stage <= 3,
            n == rows.len(),
            0 <= i <= n,
            seq_view(acc@) == fold_rows(stage as int, seq_view(rows@).take(i as int)),
        decreases n - i,
    {
        let c = &rows[i];
        let ghost accv = seq_view(acc@);
        let m = acc.len();
        let mut j: usize = 0;
        let mut found: bool = false;
        let mut fidx: usize = 0;
        while j < m
            invariant
                1 <= stage <= 3,
                m == acc.len(),
                accv == seq_view(acc@),
                0 <= j <= m,
                c == &rows@[i as int],
                i < rows@.len(),
                !found ==> forall|t: int| 0 <= t < j ==> !group_match(stage as int, accv[t], c@),
                found ==> fidx < m && group_match(stage as int, accv[fidx as int], c@) && forall|
                    t: int,
                |
                    0 <= t < fidx ==> !group_match(stage as int, accv[t], c@),
            decreases m - j,
        {
            if !found {
                proof {
                    assert(accv[j as int] == acc.view()[j as int]@);
                }
                if rows_match(stage, &acc[j], c) {
                    found = true;
                    fidx = j;
                }
            }
            j = j + 1;
        }
        let ghost prev = seq_view(rows@).take(i as int);
        proof {
            assert(seq_view(rows@).take(i as int + 1).drop_last() =~= prev);
            assert(seq_view(rows@).take(i as int + 1).last() == c@);
        }
        if found {
            proof {
                lemma_find_group_at(stage as int, accv, c@, fidx as int);
            }
            let merged = merge_into(stage, &acc[fidx], c);
            acc[fidx] = merged;
            proof {
                assert(seq_view(acc@) =~= accv.update(
                    fidx as int,
                    merge_rows(stage as int, accv[fidx as int], c@),
                ));
            }
        } else {
            proof {
                lemma_find_group_at(stage as int, accv, c@, m as int);
            }
            acc.push(c.clone());
            proof {
                assert(seq_view(acc@) =~= accv.push(c@));
            }
        }
        i = i + 1;
    }
    proof {
        assert(seq_view(rows@).take(n as int) =~= seq_view(rows@));
    }
    acc
}

/// The full three-stage rollup of a snapshot, a pure function of its input.
pub fn aggregate(rows: &Vec<Connection>) -> (r: Vec<Connection>)
    ensures
        seq_view(r@) == aggregate_spec(seq_view(rows@)),
{
    let s1 = aggregate_stage(1, rows);
    let s2 = aggregate_stage(2, &s1);
    aggregate_stage(3, &s2)
}

/// The aggregated view of the current store contents, computed fresh from a
/// full snapshot.
pub fn list_aggregated(store: &FlowStore) -> (r: Vec<Connection>)
    ensures
        seq_view(r@) == aggregate_spec(store@),
{
    let rows = store.scan_all();
    aggregate(&rows)
}

/// Aggregating no rows yields no rows, at every stage and for the whole
/// pipeline.
pub proof fn lemma_aggregate_empty()
    ensures
        forall|stage: int|
            fold_rows(stage, Seq::<ConnectionView>::empty()) == Seq::<ConnectionView>::empty(),
        aggregate_spec(Seq::<ConnectionView>::empty()) == Seq::<ConnectionView>::empty(),
{
}

/// Aggregating a single row yields exactly that row, unchanged, at every
/// stage and for the whole pipeline: a group of size one is emitted verbatim
/// and no separator is introduced.
pub proof fn lemma_aggregate_singleton(c: ConnectionView)
    ensures
        forall|stage: int| #[trigger] fold_rows(stage, seq![c]) == seq![c],
        aggregate_spec(seq![c]) == seq![c],
{
    assert forall|stage: int| #[trigger] fold_rows(stage, seq![c]) == seq![c] by {
        assert(seq![c].drop_last() =~= Seq::<ConnectionView>::empty());
        assert(seq![c].last() == c);
        assert(fold_rows(stage, seq![c].drop_last()) == Seq::<ConnectionView>::empty());
        assert(find_group(stage, Seq::<ConnectionView>::empty(), c) == -1);
        assert(Seq::<ConnectionView>::empty().push(c) =~= seq![c]);
    }
    assert(aggregate_spec(seq![c]) == seq![c]);
}

} // verus!
