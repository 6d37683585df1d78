//! Reports that are sent by hand on a Shenzhen platform.
use vstd::prelude::*;

use super::protocol;
use super::protocol::{
    exec_type, msg_type, ord_status, BusinessReject, BusinessRejectView, ExecRptAck, ExecRptAckView,
    ExecRptTrade, ExecRptTradeView,
};
use super::session::{business_reject_frame, entry_business, side_byte, side_code};
use super::strategy;
use super::strategy::BizInfo;
use crate::config::PlatformConfig;
use crate::manual;
use crate::manual::{ManualReport, ManualReportKind, ManualReportView};
use crate::orderbook::{OrderEntry, OrderStatus, OrderUpdate, OrderUpdateView};
use crate::stats;
use crate::stats::PlatformStats;
use crate::text;

verus! {

/// The acknowledgement of an order that is kept.
pub open spec fn manual_ack_of(
    partition_no: i32,
    e: OrderEntry,
    biz: BizInfo,
    order_id: Seq<char>,
    exec_id: Seq<char>,
    now: i64,
) -> ExecRptAckView {
    ExecRptAckView {
        msg_type: biz.ack_msg_type,
        partition_no,
        report_index: 0,
        appl_id: biz.appl_id@,
        reporting_pbu_id: e.pbu@,
        submitting_pbu_id: e.pbu@,
        security_id: e.security_id@,
        security_id_source: "102"@,
        owner_type: e.owner_type,
        clearing_firm: e.clearing_firm@,
        transact_time: now,
        user_info: e.user_info@,
        order_id,
        cl_ord_id: e.cl_ord_id@,
        orig_cl_ord_id: Seq::empty(),
        exec_id,
        exec_type: exec_type::NEW,
        ord_status: ord_status::NEW,
        ord_rej_reason: 0,
        leaves_qty: e.leaves_qty,
        cum_qty: e.cum_qty,
        side: side_code(e.side@),
        ord_type: e.ord_type,
        order_qty: e.qty,
        price: e.price,
        account_id: e.account@,
        branch_id: e.branch@,
        order_restrictions: Seq::empty(),
        extend: protocol::no_extend(),
    }
}

fn no_extension() -> (r: protocol::OrderExtend)
    ensures
        r == protocol::no_extend(),
{
    protocol::OrderExtend {
        stop_px: 0,
        min_qty: 0,
        max_price_levels: 0,
        time_in_force: 0,
        cash_margin: 0,
    }
}

/// The acknowledgement of an order that is kept.
pub fn base_manual_ack(
    partition_no: i32,
    entry: &OrderEntry,
    biz: &BizInfo,
    order_id: &str,
    exec_id: String,
    now: i64,
) -> (r: ExecRptAck)
    ensures
        r@ == manual_ack_of(partition_no, *entry, *biz, order_id@, exec_id@, now),
{
    ExecRptAck {
        msg_type: biz.ack_msg_type,
        partition_no,
        report_index: 0,
        appl_id: biz.appl_id.to_owned(),
        reporting_pbu_id: entry.pbu.clone(),
        submitting_pbu_id: entry.pbu.clone(),
        security_id: entry.security_id.clone(),
        security_id_source: "102".to_owned(),
        owner_type: entry.owner_type,
        clearing_firm: entry.clearing_firm.clone(),
        transact_time: now,
        user_info: entry.user_info.clone(),
        order_id: order_id.to_owned(),
        cl_ord_id: entry.cl_ord_id.clone(),
        orig_cl_ord_id: String::new(),
        exec_id,
        exec_type: exec_type::NEW,
        ord_status: ord_status::NEW,
        ord_rej_reason: 0,
        leaves_qty: entry.leaves_qty,
        cum_qty: entry.cum_qty,
        side: side_byte(entry.side.as_str()),
        ord_type: entry.ord_type,
        order_qty: entry.qty,
        price: entry.price,
        account_id: entry.account.clone(),
        branch_id: entry.branch.clone(),
        order_restrictions: String::new(),
        extend: no_extension(),
    }
}

/// The acknowledgement, sent by hand: the order stays as it is.
pub open spec fn manual_ack(
    partition_no: i32,
    e: OrderEntry,
    biz: BizInfo,
    order_id: Seq<char>,
    exec_id: Seq<char>,
    now: i64,
) -> ManualReportView {
    ManualReportView {
        frame: manual_ack_of(partition_no, e, biz, order_id, exec_id, now).frame(),
        desc: "手动确认回报("@ + text::dec(biz.ack_msg_type as nat) + ") ClOrdID="@ + e.cl_ord_id@
            + " OrderID="@ + text::strip_zeros(order_id),
        update: OrderUpdateView {
            order_id,
            cum_qty: e.cum_qty,
            leaves_qty: e.leaves_qty,
            status: e.status,
        },
    }
}

fn build_ack(
    partition_no: i32,
    entry: &OrderEntry,
    biz: &BizInfo,
    order_id: String,
    exec_id: String,
    now: i64,
) -> (r: ManualReport)
    ensures
        r@ == manual_ack(partition_no, *entry, *biz, order_id@, exec_id@, now),
{
    let rpt = base_manual_ack(partition_no, entry, biz, order_id.as_str(), exec_id, now);
    let mut desc = "手动确认回报(".to_owned();
    text::push_dec(&mut desc, biz.ack_msg_type as u64);
    desc.push_str(") ClOrdID=");
    desc.push_str(entry.cl_ord_id.as_str());
    desc.push_str(" OrderID=");
    desc.push_str(text::without_zeros(order_id.as_str()).as_str());
    ManualReport {
        frame: rpt.encode(),
        desc,
        update: OrderUpdate {
            order_id,
            cum_qty: entry.cum_qty,
            leaves_qty: entry.leaves_qty,
            status: entry.status,
        },
    }
}

/// The price of a fill by hand: at least the least price.
pub open spec fn fill_price(e: OrderEntry, price: Option<i64>) -> i64 {
    let p = match price {
        Some(p) => p,
        None => e.price,
    };
    if p < 1 {
        1
    } else {
        p
    }
}

/// A fill of an order that is kept.
pub open spec fn manual_trade_of(
    partition_no: i32,
    e: OrderEntry,
    biz: BizInfo,
    mt: u32,
    order_id: Seq<char>,
    exec_id: Seq<char>,
    shares: int,
    px: i64,
    now: i64,
) -> ExecRptTradeView {
    let leaves = e.leaves_qty - shares * 100;
    ExecRptTradeView {
        msg_type: mt,
        partition_no,
        report_index: 0,
        appl_id: biz.appl_id@,
        reporting_pbu_id: e.pbu@,
        submitting_pbu_id: e.pbu@,
        security_id: e.security_id@,
        security_id_source: "102"@,
        owner_type: e.owner_type,
        clearing_firm: e.clearing_firm@,
        transact_time: now,
        user_info: e.user_info@,
        order_id,
        cl_ord_id: e.cl_ord_id@,
        exec_id,
        exec_type: exec_type::TRADE,
        ord_status: if leaves == 0 {
            ord_status::FILLED
        } else {
            ord_status::PARTIALLY_FILLED
        },
        last_px: px,
        last_qty: (shares * 100) as i64,
        leaves_qty: leaves as i64,
        cum_qty: manual::filled_after(e, shares * 100) as i64,
        side: side_code(e.side@),
        account_id: e.account@,
        branch_id: e.branch@,
        extend: protocol::no_extend(),
    }
}

/// A fill, sent by hand.
pub open spec fn manual_trade(
    partition_no: i32,
    e: OrderEntry,
    biz: BizInfo,
    mt: u32,
    order_id: Seq<char>,
    exec_id: Seq<char>,
    shares: int,
    px: i64,
    now: i64,
) -> ManualReportView {
    let leaves = e.leaves_qty - shares * 100;
    ManualReportView {
        frame: manual_trade_of(
            partition_no,
            e,
            biz,
            mt,
            order_id,
            exec_id,
            shares,
            px,
            now,
        ).frame(),
        desc: "手动成交回报("@ + text::dec(mt as nat) + ") ClOrdID="@ + e.cl_ord_id@ + " 价格="@
            + text::fixed(px as int, 10_000) + " 数量="@ + text::dec_int(shares) + " 剩余="@
            + text::scaled(leaves, 100),
        update: OrderUpdateView {
            order_id,
            cum_qty: manual::filled_after(e, shares * 100) as i64,
            leaves_qty: leaves as i64,
            status: if leaves == 0 {
                OrderStatus::Filled
            } else {
                OrderStatus::Partial
            },
        },
    }
}

fn build_fill(
    partition_no: i32,
    entry: &OrderEntry,
    biz: &BizInfo,
    mt: u32,
    order_id: String,
    exec_id: String,
    shares: i64,
    px: i64,
    now: i64,
) -> (r: ManualReport)
    requires
        shares >= 1,
        shares * 100 <= entry.leaves_qty,
    ensures
        r@ == manual_trade(
            partition_no,
            *entry,
            *biz,
            mt,
            order_id@,
            exec_id@,
            shares as int,
            px,
            now,
        ),
{
    let filled: i64 = shares * 100;
    let leaves: i64 = entry.leaves_qty - filled;
    let cum: i64 = manual::add_filled(entry, filled);
    let trade = ExecRptTrade {
        msg_type: mt,
        partition_no,
        report_index: 0,
        appl_id: biz.appl_id.to_owned(),
        reporting_pbu_id: entry.pbu.clone(),
        submitting_pbu_id: entry.pbu.clone(),
        security_id: entry.security_id.clone(),
        security_id_source: "102".to_owned(),
        owner_type: entry.owner_type,
        clearing_firm: entry.clearing_firm.clone(),
        transact_time: now,
        user_info: entry.user_info.clone(),
        order_id: order_id.clone(),
        cl_ord_id: entry.cl_ord_id.clone(),
        exec_id,
        exec_type: exec_type::TRADE,
        ord_status: if leaves == 0 {
            ord_status::FILLED
        } else {
            ord_status::PARTIALLY_FILLED
        },
        last_px: px,
        last_qty: filled,
        leaves_qty: leaves,
        cum_qty: cum,
        side: side_byte(entry.side.as_str()),
        account_id: entry.account.clone(),
        branch_id: entry.branch.clone(),
        extend: no_extension(),
    };
    assert(trade@ == manual_trade_of(
        partition_no,
        *entry,
        *biz,
        mt,
        order_id@,
        exec_id@,
        shares as int,
        px,
        now,
    ));
    let mut desc = "手动成交回报(".to_owned();
    text::push_dec(&mut desc, mt as u64);
    desc.push_str(") ClOrdID=");
    desc.push_str(entry.cl_ord_id.as_str());
    desc.push_str(" 价格=");
    desc.push_str(text::fmt_fixed(px, 10_000).as_str());
    desc.push_str(" 数量=");
    text::push_int(&mut desc, shares);
    desc.push_str(" 剩余=");
    desc.push_str(text::fmt_scaled(leaves, 100).as_str());
    ManualReport {
        frame: trade.encode(),
        desc,
        update: OrderUpdate {
            order_id,
            cum_qty: cum,
            leaves_qty: leaves,
            status: if leaves == 0 {
                OrderStatus::Filled
            } else {
                OrderStatus::Partial
            },
        },
    }
}

/// The reason of a rejection; 1 where none is given.
pub open spec fn reason_code(reason: Option<i32>) -> u16 {
    match reason {
        Some(v) => v as u16,
        None => 1,
    }
}

fn reason_of(reason: Option<i32>) -> (r: u16)
    ensures
        r == reason_code(reason),
{
    match reason {
        Some(v) => #[verifier::truncate]
        (v as u16),
        None => 1,
    }
}

/// The type of the order that is kept; that of the cash auction where it is not known.
pub open spec fn entry_order_type(biz: Seq<char>) -> u32 {
    match strategy::order_type(biz) {
        Some(mt) => mt,
        None => msg_type::NEW_ORDER_CASH,
    }
}

/// The rejection of an order that is kept by a business rejection.
pub open spec fn manual_front_reject_of(e: OrderEntry, reason: u16, now: i64) -> BusinessRejectView {
    BusinessRejectView {
        appl_id: e.biz@,
        transact_time: now,
        submitting_pbu_id: e.pbu@,
        security_id: e.security_id@,
        security_id_source: "102"@,
        ref_seq_num: 0,
        ref_msg_type: entry_order_type(e.biz@),
        business_reject_ref_id: e.cl_ord_id@,
        business_reject_reason: reason,
        business_reject_text: Seq::empty(),
    }
}

/// The rejection by a business rejection, sent by hand; it carries no order number.
pub open spec fn manual_front_reject(e: OrderEntry, reason: u16, now: i64) -> ManualReportView {
    ManualReportView {
        frame: business_reject_frame(manual_front_reject_of(e, reason, now)),
        desc: "手动前台拒单(4) ClOrdID="@ + e.cl_ord_id@ + " 原因代码="@ + text::dec(reason as nat),
        update: OrderUpdateView {
            order_id: Seq::empty(),
            cum_qty: e.cum_qty,
            leaves_qty: 0,
            status: OrderStatus::Rejected,
        },
    }
}

fn build_front_reject(entry: &OrderEntry, reason: u16, now: i64) -> (r: ManualReport)
    ensures
        r@ == manual_front_reject(*entry, reason, now),
{
    let rej = BusinessReject {
        appl_id: entry.biz.clone(),
        transact_time: now,
        submitting_pbu_id: entry.pbu.clone(),
        security_id: entry.security_id.clone(),
        security_id_source: "102".to_owned(),
        ref_seq_num: 0,
        ref_msg_type: match strategy::order_msg_type_by_appl_id(entry.biz.as_str()) {
            Some(mt) => mt,
            None => msg_type::NEW_ORDER_CASH,
        },
        business_reject_ref_id: entry.cl_ord_id.clone(),
        business_reject_reason: reason,
        business_reject_text: String::new(),
    };
    assert(rej@ == manual_front_reject_of(*entry, reason, now));
    let mut desc = "手动前台拒单(4) ClOrdID=".to_owned();
    desc.push_str(entry.cl_ord_id.as_str());
    desc.push_str(" 原因代码=");
    text::push_dec(&mut desc, reason as u64);
    ManualReport {
        frame: rej.encode(),
        desc,
        update: OrderUpdate {
            order_id: String::new(),
            cum_qty: entry.cum_qty,
            leaves_qty: 0,
            status: OrderStatus::Rejected,
        },
    }
}

/// The rejection by an execution report, sent by hand.
pub open spec fn manual_reject(
    partition_no: i32,
    e: OrderEntry,
    biz: BizInfo,
    order_id: Seq<char>,
    exec_id: Seq<char>,
    reason: u16,
    now: i64,
) -> ManualReportView {
    ManualReportView {
        frame: (ExecRptAckView {
            exec_type: exec_type::REJECT,
            ord_status: ord_status::REJECTED,
            ord_rej_reason: reason,
            leaves_qty: 0,
            ..manual_ack_of(partition_no, e, biz, order_id, exec_id, now)
        }).frame(),
        desc: "手动拒单回报("@ + text::dec(biz.ack_msg_type as nat) + ") ClOrdID="@ + e.cl_ord_id@
            + " 原因代码="@ + text::dec(reason as nat),
        update: OrderUpdateView {
            order_id,
            cum_qty: e.cum_qty,
            leaves_qty: 0,
            status: OrderStatus::Rejected,
        },
    }
}

fn build_reject(
    partition_no: i32,
    entry: &OrderEntry,
    biz: &BizInfo,
    order_id: String,
    exec_id: String,
    reason: u16,
    now: i64,
) -> (r: ManualReport)
    ensures
        r@ == manual_reject(partition_no, *entry, *biz, order_id@, exec_id@, reason, now),
{
    let mut rpt = base_manual_ack(partition_no, entry, biz, order_id.as_str(), exec_id, now);
    rpt.exec_type = exec_type::REJECT;
    rpt.ord_status = ord_status::REJECTED;
    rpt.ord_rej_reason = reason;
    rpt.leaves_qty = 0;
    let mut desc = "手动拒单回报(".to_owned();
    text::push_dec(&mut desc, biz.ack_msg_type as u64);
    desc.push_str(") ClOrdID=");
    desc.push_str(entry.cl_ord_id.as_str());
    desc.push_str(" 原因代码=");
    text::push_dec(&mut desc, reason as u64);
    ManualReport {
        frame: rpt.encode(),
        desc,
        update: OrderUpdate {
            order_id,
            cum_qty: entry.cum_qty,
            leaves_qty: 0,
            status: OrderStatus::Rejected,
        },
    }
}

/// The report on a cancelled order, sent by hand; the order is named twice, as no request
/// has a number of its own.
pub open spec fn manual_cancel(
    partition_no: i32,
    e: OrderEntry,
    biz: BizInfo,
    order_id: Seq<char>,
    exec_id: Seq<char>,
    now: i64,
) -> ManualReportView {
    ManualReportView {
        frame: (ExecRptAckView {
            exec_type: exec_type::CANCELLED,
            ord_status: ord_status::CANCELLED,
            orig_cl_ord_id: e.cl_ord_id@,
            leaves_qty: 0,
            ..manual_ack_of(partition_no, e, biz, order_id, exec_id, now)
        }).frame(),
        desc: "手动撤单成功回报("@ + text::dec(biz.ack_msg_type as nat) + ") ClOrdID="@
            + e.cl_ord_id@,
        update: OrderUpdateView {
            order_id,
            cum_qty: e.cum_qty,
            leaves_qty: 0,
            status: OrderStatus::Cancelled,
        },
    }
}

fn build_cancel(
    partition_no: i32,
    entry: &OrderEntry,
    biz: &BizInfo,
    order_id: String,
    exec_id: String,
    now: i64,
) -> (r: ManualReport)
    ensures
        r@ == manual_cancel(partition_no, *entry, *biz, order_id@, exec_id@, now),
{
    let mut rpt = base_manual_ack(partition_no, entry, biz, order_id.as_str(), exec_id, now);
    rpt.exec_type = exec_type::CANCELLED;
    rpt.ord_status = ord_status::CANCELLED;
    rpt.orig_cl_ord_id = entry.cl_ord_id.clone();
    rpt.leaves_qty = 0;
    let mut desc = "手动撤单成功回报(".to_owned();
    text::push_dec(&mut desc, biz.ack_msg_type as u64);
    desc.push_str(") ClOrdID=");
    desc.push_str(entry.cl_ord_id.as_str());
    ManualReport {
        frame: rpt.encode(),
        desc,
        update: OrderUpdate {
            order_id,
            cum_qty: entry.cum_qty,
            leaves_qty: 0,
            status: OrderStatus::Cancelled,
        },
    }
}

/// The words of the refusal to fill an order of a business without fills.
pub open spec fn no_fills_text(biz: BizInfo) -> Seq<char> {
    "业务["@ + biz.name@ + "]无成交回报（表3-4），不能手动回复成交"@
}

/// Whether the report is refused: only a fill is, where the business reports no fills or
/// less than a share is open.
pub open spec fn refused(e: OrderEntry, kind: ManualReportKind) -> Option<Seq<char>> {
    let biz = entry_business(e.biz@);
    if kind != ManualReportKind::Trade {
        None
    } else if biz.trade_msg_type is None {
        Some(no_fills_text(biz))
    } else if e.leaves_qty < 100 {
        Some(manual::nothing_open_text(e))
    } else {
        None
    }
}

/// The report that is sent by hand, or the words of the refusal. `order_no` and `exec_no`
/// are the last numbers that were handed out.
pub open spec fn manual_report(
    cfg: PlatformConfig,
    order_no: int,
    exec_no: int,
    e: OrderEntry,
    kind: ManualReportKind,
    qty: Option<i64>,
    price: Option<i64>,
    reason: Option<i32>,
    front_reject: bool,
    now: i64,
) -> Result<ManualReportView, Seq<char>> {
    let biz = entry_business(e.biz@);
    let partition_no = crate::config::partition_of(cfg.partition_list(), e.security_id@) as i32;
    let order_id = manual::manual_order_id(e, order_no);
    let exec_id = stats::id_text(exec_no + 1);
    match refused(e, kind) {
        Some(why) => Err(why),
        None => match kind {
            ManualReportKind::Ack => Ok(manual_ack(partition_no, e, biz, order_id, exec_id, now)),
            ManualReportKind::Trade => Ok(
                manual_trade(
                    partition_no,
                    e,
                    biz,
                    biz.trade_msg_type->0,
                    order_id,
                    exec_id,
                    manual::fill_shares(e, qty, 100),
                    fill_price(e, price),
                    now,
                ),
            ),
            ManualReportKind::Reject => if front_reject {
                Ok(manual_front_reject(e, reason_code(reason), now))
            } else {
                Ok(
                    manual_reject(
                        partition_no,
                        e,
                        biz,
                        order_id,
                        exec_id,
                        reason_code(reason),
                        now,
                    ),
                )
            },
            ManualReportKind::Cancel => Ok(
                manual_cancel(partition_no, e, biz, order_id, exec_id, now),
            ),
        },
    }
}

/// Whether a report takes an execution number.
pub open spec fn takes_exec_id(e: OrderEntry, kind: ManualReportKind, front_reject: bool) -> bool {
    refused(e, kind) is None && !(kind == ManualReportKind::Reject && front_reject)
}

/// Builds the report that is sent by hand. `qty` is in shares, `price` in the units of the
/// interface; without them an order is filled in whole, at its own price.
pub fn build_manual_report(
    cfg: &PlatformConfig,
    stats: &mut PlatformStats,
    entry: &OrderEntry,
    kind: ManualReportKind,
    qty: Option<i64>,
    price: Option<i64>,
    reason: Option<i32>,
    front_reject: bool,
    now: i64,
) -> (r: Result<ManualReport, String>)
    requires
        stats::ids_left(*old(stats)),
    ensures
        manual::outcome(r) == manual_report(
            *cfg,
            old(stats).order_seq as int,
            old(stats).exec_seq as int,
            *entry,
            kind,
            qty,
            price,
            reason,
            front_reject,
            now,
        ),
        final(stats).exec_seq == old(stats).exec_seq + (if takes_exec_id(
            *entry,
            kind,
            front_reject,
        ) {
            1int
        } else {
            0
        }),
        final(stats).order_seq == old(stats).order_seq + (if takes_exec_id(
            *entry,
            kind,
            front_reject,
        ) && entry.order_id@.len() == 0 {
            1int
        } else {
            0
        }),
        final(stats).counters() == old(stats).counters(),
        final(stats).partition_report_index@ == old(stats).partition_report_index@,
{
    let biz = match strategy::biz_info_by_appl_id(entry.biz.as_str()) {
        Some(b) => b,
        None => strategy::biz_info(msg_type::NEW_ORDER_CASH),
    };
    let partition_no: i32 = cfg.partition_for(entry.security_id.as_str());
    match kind {
        ManualReportKind::Ack => {
            let exec_id = stats.next_exec_id();
            let order_id = manual::next_manual_order_id(stats, entry);
            Ok(build_ack(partition_no, entry, &biz, order_id, exec_id, now))
        },
        ManualReportKind::Trade => {
            let mt: u32 = match biz.trade_msg_type {
                Some(mt) => mt,
                None => {
                    let mut why = "业务[".to_owned();
                    why.push_str(biz.name);
                    why.push_str("]无成交回报（表3-4），不能手动回复成交");
                    return Err(why);
                },
            };
            if entry.leaves_qty < 100 {
                return Err(manual::nothing_open(entry));
            }
            let shares: i64 = manual::shares_to_fill(entry, qty, 100);
            let asked: i64 = match price {
                Some(p) => p,
                None => entry.price,
            };
            let px: i64 = if asked < 1 {
                1
            } else {
                asked
            };
            let order_id = manual::next_manual_order_id(stats, entry);
            let exec_id = stats.next_exec_id();
            Ok(build_fill(partition_no, entry, &biz, mt, order_id, exec_id, shares, px, now))
        },
        ManualReportKind::Reject => {
            let why: u16 = reason_of(reason);
            if front_reject {
                Ok(build_front_reject(entry, why, now))
            } else {
                let exec_id = stats.next_exec_id();
                let order_id = manual::next_manual_order_id(stats, entry);
                Ok(build_reject(partition_no, entry, &biz, order_id, exec_id, why, now))
            }
        },
        ManualReportKind::Cancel => {
            let exec_id = stats.next_exec_id();
            let order_id = manual::next_manual_order_id(stats, entry);
            Ok(build_cancel(partition_no, entry, &biz, order_id, exec_id, now))
        },
    }
}

/// A fill by hand never takes more than is open, and what is filled and open stays the same
/// together.
pub proof fn law_manual_fill(
    cfg: PlatformConfig,
    order_no: int,
    exec_no: int,
    e: OrderEntry,
    qty: Option<i64>,
    price: Option<i64>,
    reason: Option<i32>,
    front_reject: bool,
    now: i64,
)
    requires
        e.cum_qty + e.leaves_qty <= i64::MAX,
        refused(e, ManualReportKind::Trade) is None,
    ensures
        manual_report(
            cfg,
            order_no,
            exec_no,
            e,
            ManualReportKind::Trade,
            qty,
            price,
            reason,
            front_reject,
            now,
        ) matches Ok(m) && {
            &&& m.update.cum_qty + m.update.leaves_qty == e.cum_qty + e.leaves_qty
            &&& m.update.leaves_qty >= 0
            &&& m.update.cum_qty > e.cum_qty
            &&& m.update.status == OrderStatus::Filled <==> m.update.leaves_qty == 0
        },
{
}

} // verus!
