//! Reports that are sent by hand on an order that is kept.
use vstd::prelude::*;

use crate::orderbook::{OrderEntry, OrderUpdate, OrderUpdateView};
use crate::stats;
use crate::stats::PlatformStats;

verus! {

/// What a report that is sent by hand says.
#[derive(Debug, Clone, Copy, PartialEq, Eq, Structural)]
pub enum ManualReportKind {
    /// The order is acknowledged and stays open.
    Ack,
    /// The order is filled, in whole or in part.
    Trade,
    /// The order is rejected.
    Reject,
    /// The order is cancelled.
    Cancel,
}

/// A report that is sent by hand: the message, what the log says of it, and what it changes
/// in the order.
pub struct ManualReport {
    pub frame: Vec<u8>,
    pub desc: String,
    pub update: OrderUpdate,
}

/// The values of [`ManualReport`].
pub struct ManualReportView {
    pub frame: Seq<u8>,
    pub desc: Seq<char>,
    pub update: OrderUpdateView,
}

impl View for ManualReport {
    type V = ManualReportView;

    open spec fn view(&self) -> ManualReportView {
        ManualReportView { frame: self.frame@, desc: self.desc@, update: self.update@ }
    }
}

/// The values of a report, or the words of the refusal.
pub open spec fn outcome(r: Result<ManualReport, String>) -> Result<ManualReportView, Seq<char>> {
    match r {
        Ok(m) => Ok(m@),
        Err(e) => Err(e@),
    }
}

/// The whole shares that are open. `unit` is a share.
pub open spec fn open_shares(e: OrderEntry, unit: int) -> int {
    e.leaves_qty as int / unit
}

/// The shares that a fill by hand takes: those that were asked for, at least one, at most
/// those that are open; all that are open where none were asked for.
pub open spec fn fill_shares(e: OrderEntry, qty: Option<i64>, unit: int) -> int {
    let open = open_shares(e, unit);
    match qty {
        None => open,
        Some(q) => if q < 1 {
            1
        } else if q > open {
            open
        } else {
            q as int
        },
    }
}

/// What is filled of an order after one more fill, at most the greatest number.
pub open spec fn filled_after(e: OrderEntry, amount: int) -> int {
    if e.cum_qty + amount > i64::MAX {
        i64::MAX as int
    } else {
        e.cum_qty + amount
    }
}

/// What is filled of an order after one more fill.
pub fn add_filled(e: &OrderEntry, amount: i64) -> (r: i64)
    requires
        amount >= 0,
    ensures
        r == filled_after(*e, amount as int),
{
    if e.cum_qty > i64::MAX - amount {
        i64::MAX
    } else {
        e.cum_qty + amount
    }
}

/// The shares that a fill by hand takes.
pub fn shares_to_fill(e: &OrderEntry, qty: Option<i64>, unit: i64) -> (r: i64)
    requires
        1 <= unit <= 1000,
        e.leaves_qty >= unit,
    ensures
        r == fill_shares(*e, qty, unit as int),
        1 <= r,
        r * unit <= e.leaves_qty,
{
    let open: i64 = e.leaves_qty / unit;
    proof {
        let d = unit as int;
        let v = e.leaves_qty as int;
        vstd::arithmetic::div_mod::lemma_fundamental_div_mod(v, d);
        vstd::arithmetic::div_mod::lemma_mod_bound(v, d);
        let k = v / d;
        assert(1 <= k && k * d <= v) by (nonlinear_arith)
            requires
                v == d * k + v % d,
                0 <= v % d < d,
                v >= d,
                d >= 1,
        ;
        assert(forall|x: int| #![trigger x * d] 0 <= x <= k ==> x * d <= k * d) by (nonlinear_arith)
            requires
                d >= 1,
        ;
    }
    match qty {
        None => open,
        Some(q) => if q < 1 {
            1
        } else if q > open {
            open
        } else {
            q
        },
    }
}

/// The order number that reports carry: that of the order, or the next one where it has none.
pub open spec fn manual_order_id(e: OrderEntry, order_no: int) -> Seq<char> {
    if e.order_id@.len() == 0 {
        stats::id_text(order_no + 1)
    } else {
        e.order_id@
    }
}

/// The order number that reports carry; a number is taken only where the order has none.
pub fn next_manual_order_id(stats: &mut PlatformStats, entry: &OrderEntry) -> (r: String)
    requires
        old(stats).order_seq < 0x7fff_ffff_ffff_ffff,
    ensures
        r@ == manual_order_id(*entry, old(stats).order_seq as int),
        final(stats).order_seq == old(stats).order_seq + (if entry.order_id@.len() == 0 {
            1int
        } else {
            0
        }),
        final(stats).exec_seq == old(stats).exec_seq,
        final(stats).counters() == old(stats).counters(),
        final(stats).partition_report_index@ == old(stats).partition_report_index@,
{
    if entry.order_id.as_str().is_empty() {
        stats.next_order_id()
    } else {
        entry.order_id.clone()
    }
}

/// The words of the refusal to fill an order with less than a share open.
pub open spec fn nothing_open_text(e: OrderEntry) -> Seq<char> {
    "订单 ["@ + e.cl_ord_id@ + "] 剩余数量不足 1 股，不能手动回复成交"@
}

/// The words of the refusal to fill an order with less than a share open.
pub fn nothing_open(entry: &OrderEntry) -> (r: String)
    ensures
        r@ == nothing_open_text(*entry),
{
    let mut why = "订单 [".to_owned();
    why.push_str(entry.cl_ord_id.as_str());
    why.push_str("] 剩余数量不足 1 股，不能手动回复成交");
    why
}

} // verus!
