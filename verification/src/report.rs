//! Reports that a strategy has planned, and what sending them does.
use vstd::prelude::*;

use crate::orderbook;
use crate::orderbook::{OrderBook, OrderUpdate, OrderUpdateView};
use crate::stats;
use crate::stats::PlatformStats;

verus! {

/// What a report tells.
#[derive(Debug, Clone, Copy, PartialEq, Eq, Structural)]
pub enum ReportKind {
    /// The order was accepted.
    Ack,
    /// The order was executed.
    Trade,
    /// The order was rejected by an execution report.
    Reject,
    /// The order was rejected by a message of its own.
    BusinessReject,
    /// An answer to a cancel request.
    Cancel,
}

/// A report that is to be sent.
#[derive(Debug)]
pub struct PlannedReport {
    /// How long to wait behind the report before, in milliseconds.
    pub delay_ms: u64,
    pub kind: ReportKind,
    /// The whole message.
    pub frame: Vec<u8>,
    /// What the log says of the report.
    pub desc: String,
    /// The order that the report is about.
    pub cl_ord_id: String,
    /// What sending the report changes in the order.
    pub order_update: Option<OrderUpdate>,
}

/// The values of [`PlannedReport`].
pub struct PlannedReportView {
    pub delay_ms: u64,
    pub kind: ReportKind,
    pub frame: Seq<u8>,
    pub desc: Seq<char>,
    pub cl_ord_id: Seq<char>,
    pub order_update: Option<OrderUpdateView>,
}

impl View for PlannedReport {
    type V = PlannedReportView;

    open spec fn view(&self) -> PlannedReportView {
        PlannedReportView {
            delay_ms: self.delay_ms,
            kind: self.kind,
            frame: self.frame@,
            desc: self.desc@,
            cl_ord_id: self.cl_ord_id@,
            order_update: match self.order_update {
                Some(u) => Some(u@),
                None => None,
            },
        }
    }
}

/// The values of planned reports.
pub open spec fn plan_views(s: Seq<PlannedReport>) -> Seq<PlannedReportView> {
    s.map_values(|p: PlannedReport| p@)
}

/// Whether a report still goes out: an order that has ended gets no more reports, except
/// the answer to a cancel request.
pub open spec fn goes_out(kind: ReportKind, cl_ord_id: Seq<char>, orders: Option<Seq<orderbook::OrderEntry>>) -> bool {
    kind is Cancel || match orders {
        Some(book) => match orderbook::lookup(book, cl_ord_id) {
            Some(o) => o.status.inflight(),
            None => true,
        },
        None => true,
    }
}

/// Whether a report still goes out.
pub fn should_send(p: &PlannedReport, orders: Option<&OrderBook>) -> (r: bool)
    ensures
        r == goes_out(
            p.kind,
            p.cl_ord_id@,
            match orders {
                Some(b) => Some(b@),
                None => None,
            },
        ),
{
    match p.kind {
        ReportKind::Cancel => true,
        _ => match orders {
            Some(book) => match book.find(p.cl_ord_id.as_str()) {
                Some(o) => o.status.is_inflight(),
                None => true,
            },
            None => true,
        },
    }
}

/// The counters after a report was sent.
pub open spec fn counted(c: stats::StatsSnapshot, kind: ReportKind) -> stats::StatsSnapshot {
    match kind {
        ReportKind::Ack => stats::StatsSnapshot { acks: stats::next_count(c.acks), ..c },
        ReportKind::Trade => stats::StatsSnapshot { trades: stats::next_count(c.trades), ..c },
        ReportKind::Reject => stats::StatsSnapshot {
            order_rejects: stats::next_count(c.order_rejects),
            ..c
        },
        ReportKind::BusinessReject => stats::StatsSnapshot {
            business_rejects: stats::next_count(c.business_rejects),
            ..c
        },
        ReportKind::Cancel => c,
    }
}

/// Counts a report that was sent.
pub fn count_report(st: &mut PlatformStats, kind: ReportKind)
    ensures
        final(st).counters() == counted(old(st).counters(), kind),
        final(st).sequences() == old(st).sequences(),
{
    match kind {
        ReportKind::Ack => {
            st.acks = stats::bump(st.acks);
        },
        ReportKind::Trade => {
            st.trades = stats::bump(st.trades);
        },
        ReportKind::Reject => {
            st.order_rejects = stats::bump(st.order_rejects);
        },
        ReportKind::BusinessReject => {
            st.business_rejects = stats::bump(st.business_rejects);
        },
        ReportKind::Cancel => {},
    }
}

/// Brings the order up to date with a report that was sent.
pub fn settle(p: &PlannedReport, book: &mut OrderBook)
    requires
        old(book).wf(),
    ensures
        final(book).wf(),
        final(book)@ == (match p.order_update {
            Some(u) => orderbook::applied(old(book)@, p.cl_ord_id@, u),
            None => old(book)@,
        }),
{
    if let Some(u) = &p.order_update {
        book.apply(p.cl_ord_id.as_str(), u);
    }
}

/// Whether all reports go out without a delay.
pub fn all_immediate(plans: &Vec<PlannedReport>) -> (r: bool)
    ensures
        r == (forall|i: int| 0 <= i < plans@.len() ==> (#[trigger] plans@[i]).delay_ms == 0),
{
    let mut i: usize = 0;
    while i < plans.len()
        invariant
            i <= plans@.len(),
            forall|k: int| 0 <= k < i ==> (#[trigger] plans@[k]).delay_ms == 0,
        decreases plans@.len() - i,
    {
        if plans[i].delay_ms != 0 {
            return false;
        }
        i += 1;
    }
    true
}

/// Once an order was cancelled, none of the reports that were planned for it go out any
/// more, except the answer to the cancel request.
pub proof fn law_cancel_silences(book: Seq<orderbook::OrderEntry>, key: Seq<char>, kind: ReportKind)
    requires
        orderbook::lookup(book, key) matches Some(o) && o.status.inflight(),
        !(kind is Cancel),
    ensures
        !goes_out(
            kind,
            key,
            Some(
                book.update(
                    orderbook::slot(book, key),
                    orderbook::cancelled(book[orderbook::slot(book, key)]),
                ),
            ),
        ),
{
    orderbook::law_cancel_once(book, key);
}

/// Which reports go out: answers to requests to cancel always do, and so do all reports on
/// orders that are not kept. Other reports on an order that is kept go out exactly as long as
/// it is new or partly filled.
pub proof fn law_ended_orders_are_silent(
    kind: ReportKind,
    key: Seq<char>,
    orders: Option<Seq<orderbook::OrderEntry>>,
)
    ensures
        kind is Cancel || orders is None ==> goes_out(kind, key, orders),
        orders matches Some(book) ==> {
            &&& (forall|i: int| 0 <= i < book.len() ==> (#[trigger] book[i]).cl_ord_id@ != key)
                ==> goes_out(kind, key, orders)
            &&& orderbook::lookup(book, key) matches Some(o) ==> (goes_out(kind, key, orders) <==> {
                ||| kind is Cancel
                ||| o.status is New
                ||| o.status is Partial
            })
        },
{
    match orders {
        Some(book) => {
            orderbook::law_found_by_number(book, key);
        },
        None => {},
    }
}

/// A report is counted once, under what it tells; an answer to a request to cancel is not
/// counted again. A counter at its limit is left out.
pub proof fn law_report_is_counted(c: stats::StatsSnapshot, kind: ReportKind)
    requires
        c.acks < u64::MAX,
        c.trades < u64::MAX,
        c.order_rejects < u64::MAX,
        c.business_rejects < u64::MAX,
    ensures
        ({
            let d = counted(c, kind);
            &&& d.acks - c.acks == (if kind is Ack {
                1int
            } else {
                0
            })
            &&& d.trades - c.trades == (if kind is Trade {
                1int
            } else {
                0
            })
            &&& d.order_rejects - c.order_rejects == (if kind is Reject {
                1int
            } else {
                0
            })
            &&& d.business_rejects - c.business_rejects == (if kind is BusinessReject {
                1int
            } else {
                0
            })
            &&& d.orders == c.orders
            &&& d.cancels == c.cancels
            &&& d.total_connections == c.total_connections
        }),
{
}

} // verus!
