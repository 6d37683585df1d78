//! Reports that are sent by hand on a Shanghai auction platform.
use vstd::prelude::*;

use super::protocol;
use super::protocol::{
    exec_type, msg_type, ord_status, ExecRpt, ExecRptView, ExtendFields, OrderReject,
    OrderRejectView, TradeRpt, TradeRptView,
};
use super::strategy;
use super::strategy::BizInfo;
use crate::config::{partition_of, PlatformConfig};
use crate::manual;
use crate::manual::{ManualReport, ManualReportKind, ManualReportView};
use crate::orderbook::{OrderEntry, OrderStatus, OrderUpdate, OrderUpdateView};
use crate::stats;
use crate::stats::PlatformStats;
use crate::sz::session::{side_byte, side_code};
use crate::text;

verus! {

/// The acknowledgement of an order that is kept.
pub open spec fn manual_ack_of(
    set_id: u32,
    e: OrderEntry,
    ord_cnfm_id: Seq<char>,
    date: u32,
    time: u64,
) -> ExecRptView {
    ExecRptView {
        pbu: e.pbu@,
        set_id,
        report_index: 0,
        biz_id: e.biz_id,
        exec_type: exec_type::NEW,
        biz_pbu: e.biz_pbu@,
        cl_ord_id: e.cl_ord_id@,
        security_id: e.security_id@,
        account: e.account@,
        owner_type: e.owner_type as u8,
        side: side_code(e.side@),
        price: e.price,
        order_qty: e.qty,
        leaves_qty: e.leaves_qty,
        cxl_qty: 0,
        ord_type: e.ord_type,
        time_in_force: 0,
        ord_status: ord_status::NEW,
        credit_tag: e.credit_tag@,
        orig_cl_ord_id: Seq::empty(),
        clearing_firm: e.clearing_firm@,
        branch_id: e.branch@,
        ord_rej_reason: 0,
        ord_cnfm_id,
        orig_ord_cnfm_id: Seq::empty(),
        trade_date: date,
        transact_time: time,
        user_info: e.user_info@,
        extend: protocol::no_extend(),
    }
}

/// The acknowledgement of an order that is kept.
pub fn base_manual_rpt(set_id: u32, entry: &OrderEntry, ord_cnfm_id: &str, date: u32, time: u64) -> (r:
    ExecRpt)
    ensures
        r@ == manual_ack_of(set_id, *entry, ord_cnfm_id@, date, time),
{
    let r = ExecRpt {
        pbu: entry.pbu.clone(),
        set_id,
        report_index: 0,
        biz_id: entry.biz_id,
        exec_type: exec_type::NEW,
        biz_pbu: entry.biz_pbu.clone(),
        cl_ord_id: entry.cl_ord_id.clone(),
        security_id: entry.security_id.clone(),
        account: entry.account.clone(),
        owner_type: #[verifier::truncate]
        (entry.owner_type as u8),
        side: side_byte(entry.side.as_str()),
        price: entry.price,
        order_qty: entry.qty,
        leaves_qty: entry.leaves_qty,
        cxl_qty: 0,
        ord_type: entry.ord_type,
        time_in_force: 0,
        ord_status: ord_status::NEW,
        credit_tag: entry.credit_tag.clone(),
        orig_cl_ord_id: String::new(),
        clearing_firm: entry.clearing_firm.clone(),
        branch_id: entry.branch.clone(),
        ord_rej_reason: 0,
        ord_cnfm_id: ord_cnfm_id.to_owned(),
        orig_ord_cnfm_id: String::new(),
        trade_date: date,
        transact_time: time,
        user_info: entry.user_info.clone(),
        extend: ExtendFields {
            custodian: String::new(),
            dividend_select: 0,
            dest_security: String::new(),
        },
    };
    assert(r.extend@ == protocol::no_extend());
    r
}

/// An execution report as a message.
pub open spec fn exec_frame(v: ExecRptView) -> Seq<u8> {
    protocol::framed(msg_type::EXEC_RPT, v.body())
}

/// The acknowledgement, sent by hand: the order gets the number of the report.
pub open spec fn manual_ack(
    set_id: u32,
    e: OrderEntry,
    ord_cnfm_id: Seq<char>,
    date: u32,
    time: u64,
) -> ManualReportView {
    ManualReportView {
        frame: exec_frame(manual_ack_of(set_id, e, ord_cnfm_id, date, time)),
        desc: "手动确认回报(32) ClOrdID="@ + e.cl_ord_id@ + " OrdCnfmID="@ + text::strip_zeros(
            ord_cnfm_id,
        ),
        update: OrderUpdateView {
            order_id: ord_cnfm_id,
            cum_qty: e.cum_qty,
            leaves_qty: e.leaves_qty,
            status: OrderStatus::New,
        },
    }
}

fn build_ack(set_id: u32, entry: &OrderEntry, ord_cnfm_id: String, date: u32, time: u64) -> (r:
    ManualReport)
    ensures
        r@ == manual_ack(set_id, *entry, ord_cnfm_id@, date, time),
{
    let rpt = base_manual_rpt(set_id, entry, ord_cnfm_id.as_str(), date, time);
    let mut desc = "手动确认回报(32) ClOrdID=".to_owned();
    desc.push_str(entry.cl_ord_id.as_str());
    desc.push_str(" OrdCnfmID=");
    desc.push_str(text::without_zeros(ord_cnfm_id.as_str()).as_str());
    ManualReport {
        frame: rpt.encode(),
        desc,
        update: OrderUpdate {
            order_id: ord_cnfm_id,
            cum_qty: entry.cum_qty,
            leaves_qty: entry.leaves_qty,
            status: OrderStatus::New,
        },
    }
}

/// The price of a fill by hand: at least a hundredth of a cent.
pub open spec fn fill_price(e: OrderEntry, price: Option<i64>) -> i64 {
    let p = match price {
        Some(p) => p,
        None => e.price,
    };
    if p < 10 {
        10
    } else {
        p
    }
}

/// A fill of an order that is kept.
pub open spec fn manual_trade_of(
    set_id: u32,
    e: OrderEntry,
    ord_cnfm_id: Seq<char>,
    trd_cnfm_id: Seq<char>,
    shares: int,
    px: i64,
    date: u32,
    time: u64,
) -> TradeRptView {
    let leaves = e.leaves_qty - shares * 1000;
    TradeRptView {
        pbu: e.pbu@,
        set_id,
        report_index: 0,
        biz_id: e.biz_id,
        exec_type: exec_type::TRADE,
        biz_pbu: e.biz_pbu@,
        cl_ord_id: e.cl_ord_id@,
        security_id: e.security_id@,
        account: e.account@,
        owner_type: e.owner_type as u8,
        order_entry_time: time,
        last_px: px,
        last_qty: (shares * 1000) as i64,
        gross_trade_amt: strategy::amount_of(px, (shares * 1000) as i64),
        side: side_code(e.side@),
        order_qty: e.qty,
        leaves_qty: leaves as i64,
        ord_status: if leaves == 0 {
            ord_status::FILLED
        } else {
            ord_status::PARTIALLY_FILLED
        },
        credit_tag: e.credit_tag@,
        clearing_firm: e.clearing_firm@,
        branch_id: e.branch@,
        trd_cnfm_id,
        ord_cnfm_id,
        trade_date: date,
        transact_time: time,
        user_info: e.user_info@,
    }
}

/// A fill, sent by hand.
pub open spec fn manual_trade(
    set_id: u32,
    e: OrderEntry,
    ord_cnfm_id: Seq<char>,
    trd_cnfm_id: Seq<char>,
    shares: int,
    px: i64,
    date: u32,
    time: u64,
) -> ManualReportView {
    let leaves = e.leaves_qty - shares * 1000;
    ManualReportView {
        frame: protocol::framed(
            msg_type::TRADE,
            manual_trade_of(set_id, e, ord_cnfm_id, trd_cnfm_id, shares, px, date, time).body(),
        ),
        desc: "手动成交回报(103) ClOrdID="@ + e.cl_ord_id@ + " 价格="@ + text::fixed(
            px as int,
            100_000,
        ) + " 数量="@ + text::dec_int(shares) + " 剩余="@ + text::scaled(leaves, 1000),
        update: OrderUpdateView {
            order_id: e.order_id@,
            cum_qty: manual::filled_after(e, shares * 1000) as i64,
            leaves_qty: leaves as i64,
            status: if leaves == 0 {
                OrderStatus::Filled
            } else {
                OrderStatus::Partial
            },
        },
    }
}

fn build_fill(
    set_id: u32,
    entry: &OrderEntry,
    ord_cnfm_id: String,
    trd_cnfm_id: String,
    shares: i64,
    px: i64,
    date: u32,
    time: u64,
) -> (r: ManualReport)
    requires
        shares >= 1,
        shares * 1000 <= entry.leaves_qty,
    ensures
        r@ == manual_trade(
            set_id,
            *entry,
            ord_cnfm_id@,
            trd_cnfm_id@,
            shares as int,
            px,
            date,
            time,
        ),
{
    let filled: i64 = shares * 1000;
    let leaves: i64 = entry.leaves_qty - filled;
    let cum: i64 = manual::add_filled(entry, filled);
    let trade = TradeRpt {
        pbu: entry.pbu.clone(),
        set_id,
        report_index: 0,
        biz_id: entry.biz_id,
        exec_type: exec_type::TRADE,
        biz_pbu: entry.biz_pbu.clone(),
        cl_ord_id: entry.cl_ord_id.clone(),
        security_id: entry.security_id.clone(),
        account: entry.account.clone(),
        owner_type: #[verifier::truncate]
        (entry.owner_type as u8),
        order_entry_time: time,
        last_px: px,
        last_qty: filled,
        gross_trade_amt: strategy::amount_raw(px, filled),
        side: side_byte(entry.side.as_str()),
        order_qty: entry.qty,
        leaves_qty: leaves,
        ord_status: if leaves == 0 {
            ord_status::FILLED
        } else {
            ord_status::PARTIALLY_FILLED
        },
        credit_tag: entry.credit_tag.clone(),
        clearing_firm: entry.clearing_firm.clone(),
        branch_id: entry.branch.clone(),
        trd_cnfm_id,
        ord_cnfm_id,
        trade_date: date,
        transact_time: time,
        user_info: entry.user_info.clone(),
    };
    assert(trade@ == manual_trade_of(
        set_id,
        *entry,
        ord_cnfm_id@,
        trd_cnfm_id@,
        shares as int,
        px,
        date,
        time,
    ));
    let mut desc = "手动成交回报(103) ClOrdID=".to_owned();
    desc.push_str(entry.cl_ord_id.as_str());
    desc.push_str(" 价格=");
    desc.push_str(text::fmt_fixed(px, 100_000).as_str());
    desc.push_str(" 数量=");
    text::push_int(&mut desc, shares);
    desc.push_str(" 剩余=");
    desc.push_str(text::fmt_scaled(leaves, 1000).as_str());
    ManualReport {
        frame: trade.encode(),
        desc,
        update: OrderUpdate {
            order_id: entry.order_id.clone(),
            cum_qty: cum,
            leaves_qty: leaves,
            status: if leaves == 0 {
                OrderStatus::Filled
            } else {
                OrderStatus::Partial
            },
        },
    }
}

/// The reason of a rejection; 1 where none is given.
pub open spec fn reason_code(reason: Option<i32>) -> u32 {
    match reason {
        Some(v) => v as u32,
        None => 1,
    }
}

fn reason_of(reason: Option<i32>) -> (r: u32)
    ensures
        r == reason_code(reason),
{
    match reason {
        Some(v) => #[verifier::truncate]
        (v as u32),
        None => 1,
    }
}

/// The rejection of an order that is kept by a message of its own.
pub open spec fn manual_front_reject_of(e: OrderEntry, reason: u32, date: u32, time: u64) -> OrderRejectView {
    OrderRejectView {
        biz_id: e.biz_id,
        biz_pbu: e.biz_pbu@,
        cl_ord_id: e.cl_ord_id@,
        security_id: e.security_id@,
        ord_rej_reason: reason,
        trade_date: date,
        transact_time: time,
        user_info: e.user_info@,
    }
}

/// The rejection by a message of its own, sent by hand; it carries no order number.
pub open spec fn manual_front_reject(e: OrderEntry, reason: u32, date: u32, time: u64) -> ManualReportView {
    ManualReportView {
        frame: protocol::framed(
            msg_type::ORDER_REJECT,
            manual_front_reject_of(e, reason, date, time).body(),
        ),
        desc: "手动前台拒单(204) ClOrdID="@ + e.cl_ord_id@ + " 原因代码="@ + text::dec(
            reason as nat,
        ),
        update: OrderUpdateView {
            order_id: Seq::empty(),
            cum_qty: e.cum_qty,
            leaves_qty: 0,
            status: OrderStatus::Rejected,
        },
    }
}

fn build_front_reject(entry: &OrderEntry, reason: u32, date: u32, time: u64) -> (r: ManualReport)
    ensures
        r@ == manual_front_reject(*entry, reason, date, time),
{
    let rej = OrderReject {
        biz_id: entry.biz_id,
        biz_pbu: entry.biz_pbu.clone(),
        cl_ord_id: entry.cl_ord_id.clone(),
        security_id: entry.security_id.clone(),
        ord_rej_reason: reason,
        trade_date: date,
        transact_time: time,
        user_info: entry.user_info.clone(),
    };
    assert(rej@ == manual_front_reject_of(*entry, reason, date, time));
    let mut desc = "手动前台拒单(204) ClOrdID=".to_owned();
    desc.push_str(entry.cl_ord_id.as_str());
    desc.push_str(" 原因代码=");
    text::push_dec(&mut desc, reason as u64);
    ManualReport {
        frame: rej.encode(),
        desc,
        update: OrderUpdate {
            order_id: String::new(),
            cum_qty: entry.cum_qty,
            leaves_qty: 0,
            status: OrderStatus::Rejected,
        },
    }
}

/// The rejection by an execution report, sent by hand.
pub open spec fn manual_reject(
    set_id: u32,
    e: OrderEntry,
    ord_cnfm_id: Seq<char>,
    reason: u32,
    date: u32,
    time: u64,
) -> ManualReportView {
    ManualReportView {
        frame: exec_frame(
            ExecRptView {
                exec_type: exec_type::REJECT,
                ord_status: ord_status::REJECTED,
                ord_rej_reason: reason,
                leaves_qty: 0,
                ..manual_ack_of(set_id, e, ord_cnfm_id, date, time)
            },
        ),
        desc: "手动拒单回报(32) ClOrdID="@ + e.cl_ord_id@ + " 原因代码="@ + text::dec(reason as nat),
        update: OrderUpdateView {
            order_id: e.order_id@,
            cum_qty: e.cum_qty,
            leaves_qty: 0,
            status: OrderStatus::Rejected,
        },
    }
}

fn build_reject(
    set_id: u32,
    entry: &OrderEntry,
    ord_cnfm_id: String,
    reason: u32,
    date: u32,
    time: u64,
) -> (r: ManualReport)
    ensures
        r@ == manual_reject(set_id, *entry, ord_cnfm_id@, reason, date, time),
{
    let mut rpt = base_manual_rpt(set_id, entry, ord_cnfm_id.as_str(), date, time);
    rpt.exec_type = exec_type::REJECT;
    rpt.ord_status = ord_status::REJECTED;
    rpt.ord_rej_reason = reason;
    rpt.leaves_qty = 0;
    let mut desc = "手动拒单回报(32) ClOrdID=".to_owned();
    desc.push_str(entry.cl_ord_id.as_str());
    desc.push_str(" 原因代码=");
    text::push_dec(&mut desc, reason as u64);
    ManualReport {
        frame: rpt.encode(),
        desc,
        update: OrderUpdate {
            order_id: entry.order_id.clone(),
            cum_qty: entry.cum_qty,
            leaves_qty: 0,
            status: OrderStatus::Rejected,
        },
    }
}

/// The report on a cancelled order, sent by hand: it has an order number of its own, names
/// that of the order, and names the order twice, as no request has a number of its own.
pub open spec fn manual_cancel(
    set_id: u32,
    e: OrderEntry,
    ord_cnfm_id: Seq<char>,
    date: u32,
    time: u64,
) -> ManualReportView {
    ManualReportView {
        frame: exec_frame(
            ExecRptView {
                exec_type: exec_type::CANCELLED,
                ord_status: ord_status::CANCELLED,
                orig_cl_ord_id: e.cl_ord_id@,
                leaves_qty: 0,
                cxl_qty: e.leaves_qty,
                orig_ord_cnfm_id: e.order_id@,
                ..manual_ack_of(set_id, e, ord_cnfm_id, date, time)
            },
        ),
        desc: "手动撤单成功回报(32) ClOrdID="@ + e.cl_ord_id@,
        update: OrderUpdateView {
            order_id: e.order_id@,
            cum_qty: e.cum_qty,
            leaves_qty: 0,
            status: OrderStatus::Cancelled,
        },
    }
}

fn build_cancel(set_id: u32, entry: &OrderEntry, ord_cnfm_id: String, date: u32, time: u64) -> (r:
    ManualReport)
    ensures
        r@ == manual_cancel(set_id, *entry, ord_cnfm_id@, date, time),
{
    let mut rpt = base_manual_rpt(set_id, entry, ord_cnfm_id.as_str(), date, time);
    rpt.exec_type = exec_type::CANCELLED;
    rpt.ord_status = ord_status::CANCELLED;
    rpt.orig_cl_ord_id = entry.cl_ord_id.clone();
    rpt.leaves_qty = 0;
    rpt.cxl_qty = entry.leaves_qty;
    rpt.orig_ord_cnfm_id = entry.order_id.clone();
    let mut desc = "手动撤单成功回报(32) ClOrdID=".to_owned();
    desc.push_str(entry.cl_ord_id.as_str());
    ManualReport {
        frame: rpt.encode(),
        desc,
        update: OrderUpdate {
            order_id: entry.order_id.clone(),
            cum_qty: entry.cum_qty,
            leaves_qty: 0,
            status: OrderStatus::Cancelled,
        },
    }
}

/// The words of the refusal to fill an order of a business without fills.
pub open spec fn no_fills_text(biz: BizInfo) -> Seq<char> {
    "业务["@ + biz.name@ + "]无成交回报（表 3.2.1），不能手动回复成交"@
}

/// Whether the report is refused: only a fill is, where the business reports no fills or
/// less than a share is open.
pub open spec fn refused(e: OrderEntry, kind: ManualReportKind) -> Option<Seq<char>> {
    let biz = strategy::business(e.biz_id);
    if kind != ManualReportKind::Trade {
        None
    } else if !biz.allow_trade {
        Some(no_fills_text(biz))
    } else if e.leaves_qty < 1000 {
        Some(manual::nothing_open_text(e))
    } else {
        None
    }
}

/// The last number that was handed out when the report on a cancelled order takes its own:
/// an order without a number takes one before.
pub open spec fn cancel_order_no(e: OrderEntry, order_no: int) -> int {
    if e.order_id@.len() == 0 {
        order_no + 1
    } else {
        order_no
    }
}

/// The report that is sent by hand, or the words of the refusal. `order_no` and `exec_no`
/// are the last numbers that were handed out.
pub open spec fn manual_report(
    cfg: PlatformConfig,
    order_no: int,
    exec_no: int,
    e: OrderEntry,
    kind: ManualReportKind,
    qty: Option<i64>,
    price: Option<i64>,
    reason: Option<i32>,
    front_reject: bool,
    date: u32,
    time: u64,
) -> Result<ManualReportView, Seq<char>> {
    let set_id = strategy::set_of(
        strategy::business(e.biz_id),
        partition_of(cfg.partition_list(), e.security_id@) as i32,
    );
    let order_id = manual::manual_order_id(e, order_no);
    match refused(e, kind) {
        Some(why) => Err(why),
        None => match kind {
            ManualReportKind::Ack => Ok(manual_ack(set_id, e, order_id, date, time)),
            ManualReportKind::Trade => Ok(
                manual_trade(
                    set_id,
                    e,
                    order_id,
                    stats::id_text(exec_no + 1),
                    manual::fill_shares(e, qty, 1000),
                    fill_price(e, price),
                    date,
                    time,
                ),
            ),
            ManualReportKind::Reject => if front_reject {
                Ok(manual_front_reject(e, reason_code(reason), date, time))
            } else {
                Ok(manual_reject(set_id, e, order_id, reason_code(reason), date, time))
            },
            ManualReportKind::Cancel => Ok(
                manual_cancel(
                    set_id,
                    e,
                    stats::id_text(cancel_order_no(e, order_no) + 1),
                    date,
                    time,
                ),
            ),
        },
    }
}

/// How many order numbers a report takes.
pub open spec fn order_ids_taken(e: OrderEntry, kind: ManualReportKind, front_reject: bool) -> int {
    let own: int = if e.order_id@.len() == 0 {
        1
    } else {
        0
    };
    if refused(e, kind) is Some || kind == ManualReportKind::Reject && front_reject {
        0
    } else if kind == ManualReportKind::Cancel {
        own + 1
    } else {
        own
    }
}

/// How many execution numbers a report takes.
pub open spec fn exec_ids_taken(e: OrderEntry, kind: ManualReportKind) -> int {
    if kind == ManualReportKind::Trade && refused(e, kind) is None {
        1
    } else {
        0
    }
}

/// Builds the report that is sent by hand. `qty` is in shares, `price` in the units of the
/// interface; without them an order is filled in whole, at its own price.
pub fn build_manual_report(
    cfg: &PlatformConfig,
    stats: &mut PlatformStats,
    entry: &OrderEntry,
    kind: ManualReportKind,
    qty: Option<i64>,
    price: Option<i64>,
    reason: Option<i32>,
    front_reject: bool,
    date: u32,
    time: u64,
) -> (r: Result<ManualReport, String>)
    requires
        stats::ids_left(*old(stats)),
    ensures
        manual::outcome(r) == manual_report(
            *cfg,
            old(stats).order_seq as int,
            old(stats).exec_seq as int,
            *entry,
            kind,
            qty,
            price,
            reason,
            front_reject,
            date,
            time,
        ),
        final(stats).order_seq == old(stats).order_seq + order_ids_taken(
            *entry,
            kind,
            front_reject,
        ),
        final(stats).exec_seq == old(stats).exec_seq + exec_ids_taken(*entry, kind),
        final(stats).counters() == old(stats).counters(),
        final(stats).partition_report_index@ == old(stats).partition_report_index@,
{
    let biz = strategy::biz_info(entry.biz_id);
    let partition: i32 = cfg.partition_for(entry.security_id.as_str());
    let set_id: u32 = strategy::report_set(&biz, partition);
    match kind {
        ManualReportKind::Ack => {
            let id = manual::next_manual_order_id(stats, entry);
            Ok(build_ack(set_id, entry, id, date, time))
        },
        ManualReportKind::Trade => {
            if !biz.allow_trade {
                let mut why = "业务[".to_owned();
                why.push_str(biz.name);
                why.push_str("]无成交回报（表 3.2.1），不能手动回复成交");
                return Err(why);
            }
            if entry.leaves_qty < 1000 {
                return Err(manual::nothing_open(entry));
            }
            let shares: i64 = manual::shares_to_fill(entry, qty, 1000);
            let asked: i64 = match price {
                Some(p) => p,
                None => entry.price,
            };
            let px: i64 = if asked < 10 {
                10
            } else {
                asked
            };
            let trd_id = stats.next_exec_id();
            let id = manual::next_manual_order_id(stats, entry);
            Ok(build_fill(set_id, entry, id, trd_id, shares, px, date, time))
        },
        ManualReportKind::Reject => {
            let why: u32 = reason_of(reason);
            if front_reject {
                Ok(build_front_reject(entry, why, date, time))
            } else {
                let id = manual::next_manual_order_id(stats, entry);
                Ok(build_reject(set_id, entry, id, why, date, time))
            }
        },
        ManualReportKind::Cancel => {
            let _first = manual::next_manual_order_id(stats, entry);
            let id = stats.next_order_id();
            Ok(build_cancel(set_id, entry, id, date, time))
        },
    }
}

/// A fill by hand never takes more than is open, and what is filled and open stays the same
/// together.
pub proof fn law_manual_fill(
    cfg: PlatformConfig,
    order_no: int,
    exec_no: int,
    e: OrderEntry,
    qty: Option<i64>,
    price: Option<i64>,
    reason: Option<i32>,
    front_reject: bool,
    date: u32,
    time: u64,
)
    requires
        e.cum_qty + e.leaves_qty <= i64::MAX,
        refused(e, ManualReportKind::Trade) is None,
    ensures
        manual_report(
            cfg,
            order_no,
            exec_no,
            e,
            ManualReportKind::Trade,
            qty,
            price,
            reason,
            front_reject,
            date,
            time,
        ) matches Ok(m) && {
            &&& m.update.cum_qty + m.update.leaves_qty == e.cum_qty + e.leaves_qty
            &&& m.update.leaves_qty >= 0
            &&& m.update.cum_qty > e.cum_qty
            &&& m.update.status == OrderStatus::Filled <==> m.update.leaves_qty == 0
        },
{
}

} // verus!
