//! Counters of a platform and the numbers that it hands out.
use std::collections::HashMap;
use vstd::prelude::*;

use crate::text;

verus! {

broadcast use vstd::std_specs::hash::group_hash_axioms;

/// The counters of a platform and its sequences of numbers.
#[derive(Debug)]
pub struct PlatformStats {
    pub orders: u64,
    pub acks: u64,
    pub trades: u64,
    pub order_rejects: u64,
    pub business_rejects: u64,
    pub cancels: u64,
    pub total_connections: u64,
    /// The last report index of each partition.
    pub partition_report_index: HashMap<i32, i64>,
    /// The last order number.
    pub order_seq: u64,
    /// The last execution number.
    pub exec_seq: u64,
}

/// The counters that are shown.
#[derive(Debug, Clone, Copy, Default, PartialEq, Eq, Structural)]
pub struct StatsSnapshot {
    pub orders: u64,
    pub acks: u64,
    pub trades: u64,
    pub order_rejects: u64,
    pub business_rejects: u64,
    pub cancels: u64,
    pub total_connections: u64,
}

/// A number of 16 digits.
pub open spec fn id_text(n: int) -> Seq<char> {
    text::zero_pad(text::dec(n as nat), 16)
}

/// The last index of a partition in a table of indices.
pub open spec fn end_index(m: Map<i32, i64>, partition: i32) -> int {
    if m.contains_key(partition) {
        m[partition] as int
    } else {
        0
    }
}

/// A counter after one more event.
pub open spec fn next_count(n: u64) -> u64 {
    if n == u64::MAX {
        0
    } else {
        (n + 1) as u64
    }
}

/// One more event; the counter starts over at its limit.
pub fn bump(n: u64) -> (r: u64)
    ensures
        r == next_count(n),
{
    n.wrapping_add(1)
}

/// The sequences of order and execution numbers are not used up.
pub open spec fn ids_left(st: PlatformStats) -> bool {
    st.order_seq < 0x7fff_ffff_ffff_ffff && st.exec_seq < 0x7fff_ffff_ffff_ffff
}

impl PlatformStats {
    pub open spec fn counters(&self) -> StatsSnapshot {
        StatsSnapshot {
            orders: self.orders,
            acks: self.acks,
            trades: self.trades,
            order_rejects: self.order_rejects,
            business_rejects: self.business_rejects,
            cancels: self.cancels,
            total_connections: self.total_connections,
        }
    }

    /// The sequences, which a reset leaves alone.
    pub open spec fn sequences(&self) -> (Map<i32, i64>, u64, u64) {
        (self.partition_report_index@, self.order_seq, self.exec_seq)
    }

    /// The next report index of a partition: indices are consecutive and start at 1.
    pub fn next_report_index_for(&mut self, partition: i32) -> (r: i64)
        requires
            end_index(old(self).partition_report_index@, partition) < i64::MAX,
        ensures
            r == end_index(old(self).partition_report_index@, partition) + 1,
            final(self).partition_report_index@ == old(self).partition_report_index@.insert(
                partition,
                r,
            ),
            final(self).counters() == old(self).counters(),
            final(self).order_seq == old(self).order_seq,
            final(self).exec_seq == old(self).exec_seq,
    {
        let n: i64 = self.partition_end_index(partition) + 1;
        self.partition_report_index.insert(partition, n);
        n
    }

    /// The last report index of a partition, 0 before the first report.
    pub fn partition_end_index(&self, partition: i32) -> (r: i64)
        ensures
            r == end_index(self.partition_report_index@, partition),
    {
        match self.partition_report_index.get(&partition) {
            Some(n) => *n,
            None => 0,
        }
    }

    /// Whether there are numbers left for the reports on an order.
    pub fn has_ids_left(&self) -> (r: bool)
        ensures
            r == ids_left(*self),
    {
        self.order_seq < 0x7fff_ffff_ffff_ffff && self.exec_seq < 0x7fff_ffff_ffff_ffff
    }

    /// The next order number.
    pub fn next_order_id(&mut self) -> (r: String)
        requires
            old(self).order_seq < u64::MAX,
        ensures
            r@ == id_text(old(self).order_seq + 1),
            final(self).order_seq == old(self).order_seq + 1,
            final(self).exec_seq == old(self).exec_seq,
            final(self).partition_report_index@ == old(self).partition_report_index@,
            final(self).counters() == old(self).counters(),
    {
        self.order_seq = self.order_seq + 1;
        text::padded(self.order_seq, 16)
    }

    /// The next execution number.
    pub fn next_exec_id(&mut self) -> (r: String)
        requires
            old(self).exec_seq < u64::MAX,
        ensures
            r@ == id_text(old(self).exec_seq + 1),
            final(self).exec_seq == old(self).exec_seq + 1,
            final(self).order_seq == old(self).order_seq,
            final(self).partition_report_index@ == old(self).partition_report_index@,
            final(self).counters() == old(self).counters(),
    {
        self.exec_seq = self.exec_seq + 1;
        text::padded(self.exec_seq, 16)
    }

    pub fn snapshot(&self) -> (r: StatsSnapshot)
        ensures
            r == self.counters(),
    {
        StatsSnapshot {
            orders: self.orders,
            acks: self.acks,
            trades: self.trades,
            order_rejects: self.order_rejects,
            business_rejects: self.business_rejects,
            cancels: self.cancels,
            total_connections: self.total_connections,
        }
    }

    /// Sets the counters to 0; numbers that were handed out do not come again.
    pub fn reset(&mut self)
        ensures
            final(self).counters() == (StatsSnapshot {
                orders: 0,
                acks: 0,
                trades: 0,
                order_rejects: 0,
                business_rejects: 0,
                cancels: 0,
                total_connections: 0,
            }),
            final(self).sequences() == old(self).sequences(),
    {
        self.orders = 0;
        self.acks = 0;
        self.trades = 0;
        self.order_rejects = 0;
        self.business_rejects = 0;
        self.cancels = 0;
        self.total_connections = 0;
    }
}

impl Default for PlatformStats {
    fn default() -> (r: Self)
        ensures
            r.counters() == (StatsSnapshot {
                orders: 0,
                acks: 0,
                trades: 0,
                order_rejects: 0,
                business_rejects: 0,
                cancels: 0,
                total_connections: 0,
            }),
            r.sequences() == (Map::<i32, i64>::empty(), 0u64, 0u64),
    {
        PlatformStats {
            orders: 0,
            acks: 0,
            trades: 0,
            order_rejects: 0,
            business_rejects: 0,
            cancels: 0,
            total_connections: 0,
            partition_report_index: HashMap::new(),
            order_seq: 0,
            exec_seq: 0,
        }
    }
}

/// `n` reports numbered in one partition carry the indices that follow the last one, and
/// other partitions keep their indices.
pub open spec fn numbered(m: Map<i32, i64>, partition: i32, n: nat) -> Map<i32, i64>
    decreases n,
{
    if n == 0 {
        m
    } else {
        let before = numbered(m, partition, (n - 1) as nat);
        before.insert(partition, (end_index(before, partition) + 1) as i64)
    }
}

/// Report indices of a partition are consecutive, and numbering in one partition does not
/// touch another.
pub proof fn law_report_indices(m: Map<i32, i64>, partition: i32, other: i32, n: nat)
    requires
        other != partition,
        0 <= end_index(m, partition),
        end_index(m, partition) + n <= i64::MAX,
    ensures
        end_index(numbered(m, partition, n), partition) == end_index(m, partition) + n,
        end_index(numbered(m, partition, n), other) == end_index(m, other),
    decreases n,
{
    if n > 0 {
        law_report_indices(m, partition, other, (n - 1) as nat);
    }
}

/// Different numbers are written differently, so no two orders or executions share one.
pub proof fn law_ids_distinct(a: nat, b: nat)
    requires
        a != b,
        a <= u64::MAX,
        b <= u64::MAX,
    ensures
        id_text(a as int) != id_text(b as int),
{
    text::lemma_padded_value(a, 16);
    text::lemma_padded_value(b, 16);
}

/// An order or execution number is the number in decimal, with zeros in front up to 16 digits;
/// a later one is greater.
pub proof fn law_id_digits(a: nat, b: nat)
    ensures
        text::all_digits(id_text(a as int)),
        id_text(a as int).len() >= 16,
        a < 10_000_000_000_000_000 ==> id_text(a as int).len() == 16,
        text::number(id_text(a as int)) == a,
        a < b ==> text::number(id_text(a as int)) < text::number(id_text(b as int)),
{
    text::lemma_padded_value(a, 16);
    text::lemma_padded_value(b, 16);
    text::lemma_dec_value(a);
    if a < 10_000_000_000_000_000 {
        text::lemma_dec_len(a, 16);
    }
    assert forall|i: int| 0 <= i < id_text(a as int).len() implies text::is_digit(
        #[trigger] id_text(a as int)[i],
    ) by {
        let k = id_text(a as int).len() - text::dec(a).len();
        if i >= k {
            assert(text::is_digit(text::dec(a)[i - k]));
        }
    }
}

/// One more event is counted as one more, but at the limit, where the counter starts over.
pub proof fn law_next_count(n: u64)
    ensures
        n < u64::MAX ==> next_count(n) == n + 1,
        n == u64::MAX ==> next_count(n) == 0,
{
}

} // verus!
