//! What the Shanghai gateway answers an order with.
use vstd::prelude::*;

use super::protocol;
use super::protocol::{
    exec_type, msg_type, ord_status, ExecRpt, ExecRptView, NewOrder, NewOrderView, OrderReject,
    OrderRejectView, TradeRpt, TradeRptView,
};
use crate::clock;
use crate::config::{RejectVia, StrategyConfig, StrategyMode};
use crate::fills;
use crate::fills::{
    cum_after, delays_ok, leaves_after, sample_delays, sums_fit, Terms, Units,
};
use crate::orderbook::{OrderStatus, OrderUpdate, OrderUpdateView};
use crate::report;
use crate::stats;
use crate::stats::{ids_left, PlatformStats};
use crate::text;

pub use crate::fills::{partial_shares, sample_split_count, split_shares, LOT};
pub use crate::report::{PlannedReport, PlannedReportView, ReportKind};

verus! {

/// A share in the units of the interface.
pub const QTY_UNIT: i64 = 1000;

/// A yuan in the units of the interface.
pub const PX_UNIT: i64 = 100_000;

/// What is particular to a business.
#[derive(Debug, Clone, Copy)]
pub struct BizInfo {
    pub name: &'static str,
    pub biz_id: u32,
    /// The partition of the reports; 0 stands for that of the order.
    pub set_id: u32,
    /// Whether orders can be cancelled.
    pub allow_cancel: bool,
    /// Whether executions are reported.
    pub allow_trade: bool,
    /// Whether orders can be filled in part.
    pub allow_partial: bool,
}

/// The business of a number; unknown numbers are treated as the cash auction.
pub open spec fn business(biz_id: u32) -> BizInfo {
    if biz_id == protocol::BIZ_ID_CASH_AUCTION {
        BizInfo {
            name: "股票现货竞价",
            biz_id,
            set_id: 0,
            allow_cancel: true,
            allow_trade: true,
            allow_partial: true,
        }
    } else if biz_id == protocol::BIZ_ID_ISSUE {
        BizInfo {
            name: "发行",
            biz_id,
            set_id: protocol::SET_ID_OTHER_BIZ,
            allow_cancel: false,
            allow_trade: false,
            allow_partial: false,
        }
    } else if biz_id == protocol::BIZ_ID_RIGHTS {
        BizInfo {
            name: "配股/科创板配售",
            biz_id,
            set_id: protocol::SET_ID_OTHER_BIZ,
            allow_cancel: false,
            allow_trade: true,
            allow_partial: false,
        }
    } else if biz_id == protocol::BIZ_ID_RIGHTS_BOND {
        BizInfo {
            name: "配转债",
            biz_id,
            set_id: protocol::SET_ID_OTHER_BIZ,
            allow_cancel: false,
            allow_trade: true,
            allow_partial: false,
        }
    } else if biz_id == protocol::BIZ_ID_TENDER_ACCEPT {
        BizInfo {
            name: "要约预受",
            biz_id,
            set_id: protocol::SET_ID_OTHER_BIZ,
            allow_cancel: true,
            allow_trade: false,
            allow_partial: false,
        }
    } else if biz_id == protocol::BIZ_ID_TENDER_CANCEL {
        BizInfo {
            name: "要约撤销",
            biz_id,
            set_id: protocol::SET_ID_OTHER_BIZ,
            allow_cancel: true,
            allow_trade: false,
            allow_partial: false,
        }
    } else if biz_id == protocol::BIZ_ID_FUND_SUB {
        BizInfo {
            name: "基金申购",
            biz_id,
            set_id: protocol::SET_ID_OTHER_BIZ,
            allow_cancel: true,
            allow_trade: false,
            allow_partial: false,
        }
    } else if biz_id == protocol::BIZ_ID_FUND_RED {
        BizInfo {
            name: "基金赎回",
            biz_id,
            set_id: protocol::SET_ID_OTHER_BIZ,
            allow_cancel: true,
            allow_trade: false,
            allow_partial: false,
        }
    } else if biz_id == protocol::BIZ_ID_FUND_SUB_ISSUE {
        BizInfo {
            name: "基金认购",
            biz_id,
            set_id: protocol::SET_ID_OTHER_BIZ,
            allow_cancel: true,
            allow_trade: false,
            allow_partial: false,
        }
    } else if biz_id == protocol::BIZ_ID_FUND_TRANSFER {
        BizInfo {
            name: "转托管",
            biz_id,
            set_id: protocol::SET_ID_OTHER_BIZ,
            allow_cancel: true,
            allow_trade: false,
            allow_partial: false,
        }
    } else if biz_id == protocol::BIZ_ID_FUND_DIVIDEND {
        BizInfo {
            name: "分红设置",
            biz_id,
            set_id: protocol::SET_ID_OTHER_BIZ,
            allow_cancel: true,
            allow_trade: false,
            allow_partial: false,
        }
    } else if biz_id == protocol::BIZ_ID_FUND_CONVERT {
        BizInfo {
            name: "转换",
            biz_id,
            set_id: protocol::SET_ID_OTHER_BIZ,
            allow_cancel: true,
            allow_trade: false,
            allow_partial: false,
        }
    } else if biz_id == protocol::BIZ_ID_REMAIN_TRANSFER {
        BizInfo {
            name: "余券划转",
            biz_id,
            set_id: protocol::SET_ID_OTHER_BIZ,
            allow_cancel: true,
            allow_trade: false,
            allow_partial: false,
        }
    } else if biz_id == protocol::BIZ_ID_RETURN_TRANSFER {
        BizInfo {
            name: "还券划转",
            biz_id,
            set_id: protocol::SET_ID_OTHER_BIZ,
            allow_cancel: true,
            allow_trade: false,
            allow_partial: false,
        }
    } else if biz_id == protocol::BIZ_ID_COLLATERAL_IN {
        BizInfo {
            name: "担保品划入",
            biz_id,
            set_id: protocol::SET_ID_OTHER_BIZ,
            allow_cancel: true,
            allow_trade: false,
            allow_partial: false,
        }
    } else if biz_id == protocol::BIZ_ID_COLLATERAL_OUT {
        BizInfo {
            name: "担保品划出",
            biz_id,
            set_id: protocol::SET_ID_OTHER_BIZ,
            allow_cancel: true,
            allow_trade: false,
            allow_partial: false,
        }
    } else if biz_id == protocol::BIZ_ID_SEC_SRC_IN {
        BizInfo {
            name: "券源划入",
            biz_id,
            set_id: protocol::SET_ID_OTHER_BIZ,
            allow_cancel: true,
            allow_trade: false,
            allow_partial: false,
        }
    } else if biz_id == protocol::BIZ_ID_SEC_SRC_OUT {
        BizInfo {
            name: "券源划出",
            biz_id,
            set_id: protocol::SET_ID_OTHER_BIZ,
            allow_cancel: true,
            allow_trade: false,
            allow_partial: false,
        }
    } else if biz_id == protocol::BIZ_ID_PWD_SERVICE {
        BizInfo {
            name: "网络密码服务",
            biz_id,
            set_id: protocol::SET_ID_OTHER_BIZ,
            allow_cancel: false,
            allow_trade: false,
            allow_partial: false,
        }
    } else if biz_id == protocol::BIZ_ID_DESIGNATION {
        BizInfo {
            name: "指定登记",
            biz_id,
            set_id: protocol::SET_ID_DESIGNATION,
            allow_cancel: false,
            allow_trade: false,
            allow_partial: false,
        }
    } else if biz_id == protocol::BIZ_ID_DESIGNATION_CANCEL {
        BizInfo {
            name: "指定撤销",
            biz_id,
            set_id: protocol::SET_ID_DESIGNATION,
            allow_cancel: false,
            allow_trade: false,
            allow_partial: false,
        }
    } else {
        BizInfo {
            name: "未知业务",
            biz_id,
            set_id: 0,
            allow_cancel: true,
            allow_trade: true,
            allow_partial: true,
        }
    }
}

/// The business of a number.
pub fn biz_info(biz_id: u32) -> (r: BizInfo)
    ensures
        r == business(biz_id),
{
    if biz_id == protocol::BIZ_ID_CASH_AUCTION {
        BizInfo {
            name: "股票现货竞价",
            biz_id,
            set_id: 0,
            allow_cancel: true,
            allow_trade: true,
            allow_partial: true,
        }
    } else if biz_id == protocol::BIZ_ID_ISSUE {
        BizInfo {
            name: "发行",
            biz_id,
            set_id: protocol::SET_ID_OTHER_BIZ,
            allow_cancel: false,
            allow_trade: false,
            allow_partial: false,
        }
    } else if biz_id == protocol::BIZ_ID_RIGHTS {
        BizInfo {
            name: "配股/科创板配售",
            biz_id,
            set_id: protocol::SET_ID_OTHER_BIZ,
            allow_cancel: false,
            allow_trade: true,
            allow_partial: false,
        }
    } else if biz_id == protocol::BIZ_ID_RIGHTS_BOND {
        BizInfo {
            name: "配转债",
            biz_id,
            set_id: protocol::SET_ID_OTHER_BIZ,
            allow_cancel: false,
            allow_trade: true,
            allow_partial: false,
        }
    } else if biz_id == protocol::BIZ_ID_TENDER_ACCEPT {
        BizInfo {
            name: "要约预受",
            biz_id,
            set_id: protocol::SET_ID_OTHER_BIZ,
            allow_cancel: true,
            allow_trade: false,
            allow_partial: false,
        }
    } else if biz_id == protocol::BIZ_ID_TENDER_CANCEL {
        BizInfo {
            name: "要约撤销",
            biz_id,
            set_id: protocol::SET_ID_OTHER_BIZ,
            allow_cancel: true,
            allow_trade: false,
            allow_partial: false,
        }
    } else if biz_id == protocol::BIZ_ID_FUND_SUB {
        BizInfo {
            name: "基金申购",
            biz_id,
            set_id: protocol::SET_ID_OTHER_BIZ,
            allow_cancel: true,
            allow_trade: false,
            allow_partial: false,
        }
    } else if biz_id == protocol::BIZ_ID_FUND_RED {
        BizInfo {
            name: "基金赎回",
            biz_id,
            set_id: protocol::SET_ID_OTHER_BIZ,
            allow_cancel: true,
            allow_trade: false,
            allow_partial: false,
        }
    } else if biz_id == protocol::BIZ_ID_FUND_SUB_ISSUE {
        BizInfo {
            name: "基金认购",
            biz_id,
            set_id: protocol::SET_ID_OTHER_BIZ,
            allow_cancel: true,
            allow_trade: false,
            allow_partial: false,
        }
    } else if biz_id == protocol::BIZ_ID_FUND_TRANSFER {
        BizInfo {
            name: "转托管",
            biz_id,
            set_id: protocol::SET_ID_OTHER_BIZ,
            allow_cancel: true,
            allow_trade: false,
            allow_partial: false,
        }
    } else if biz_id == protocol::BIZ_ID_FUND_DIVIDEND {
        BizInfo {
            name: "分红设置",
            biz_id,
            set_id: protocol::SET_ID_OTHER_BIZ,
            allow_cancel: true,
            allow_trade: false,
            allow_partial: false,
        }
    } else if biz_id == protocol::BIZ_ID_FUND_CONVERT {
        BizInfo {
            name: "转换",
            biz_id,
            set_id: protocol::SET_ID_OTHER_BIZ,
            allow_cancel: true,
            allow_trade: false,
            allow_partial: false,
        }
    } else if biz_id == protocol::BIZ_ID_REMAIN_TRANSFER {
        BizInfo {
            name: "余券划转",
            biz_id,
            set_id: protocol::SET_ID_OTHER_BIZ,
            allow_cancel: true,
            allow_trade: false,
            allow_partial: false,
        }
    } else if biz_id == protocol::BIZ_ID_RETURN_TRANSFER {
        BizInfo {
            name: "还券划转",
            biz_id,
            set_id: protocol::SET_ID_OTHER_BIZ,
            allow_cancel: true,
            allow_trade: false,
            allow_partial: false,
        }
    } else if biz_id == protocol::BIZ_ID_COLLATERAL_IN {
        BizInfo {
            name: "担保品划入",
            biz_id,
            set_id: protocol::SET_ID_OTHER_BIZ,
            allow_cancel: true,
            allow_trade: false,
            allow_partial: false,
        }
    } else if biz_id == protocol::BIZ_ID_COLLATERAL_OUT {
        BizInfo {
            name: "担保品划出",
            biz_id,
            set_id: protocol::SET_ID_OTHER_BIZ,
            allow_cancel: true,
            allow_trade: false,
            allow_partial: false,
        }
    } else if biz_id == protocol::BIZ_ID_SEC_SRC_IN {
        BizInfo {
            name: "券源划入",
            biz_id,
            set_id: protocol::SET_ID_OTHER_BIZ,
            allow_cancel: true,
            allow_trade: false,
            allow_partial: false,
        }
    } else if biz_id == protocol::BIZ_ID_SEC_SRC_OUT {
        BizInfo {
            name: "券源划出",
            biz_id,
            set_id: protocol::SET_ID_OTHER_BIZ,
            allow_cancel: true,
            allow_trade: false,
            allow_partial: false,
        }
    } else if biz_id == protocol::BIZ_ID_PWD_SERVICE {
        BizInfo {
            name: "网络密码服务",
            biz_id,
            set_id: protocol::SET_ID_OTHER_BIZ,
            allow_cancel: false,
            allow_trade: false,
            allow_partial: false,
        }
    } else if biz_id == protocol::BIZ_ID_DESIGNATION {
        BizInfo {
            name: "指定登记",
            biz_id,
            set_id: protocol::SET_ID_DESIGNATION,
            allow_cancel: false,
            allow_trade: false,
            allow_partial: false,
        }
    } else if biz_id == protocol::BIZ_ID_DESIGNATION_CANCEL {
        BizInfo {
            name: "指定撤销",
            biz_id,
            set_id: protocol::SET_ID_DESIGNATION,
            allow_cancel: false,
            allow_trade: false,
            allow_partial: false,
        }
    } else {
        BizInfo {
            name: "未知业务",
            biz_id,
            set_id: 0,
            allow_cancel: true,
            allow_trade: true,
            allow_partial: true,
        }
    }
}

/// The numbers of businesses.
pub open spec fn known(biz_id: u32) -> bool {
    biz_id == protocol::BIZ_ID_CASH_AUCTION
        || biz_id == protocol::BIZ_ID_ISSUE
        || biz_id == protocol::BIZ_ID_RIGHTS
        || biz_id == protocol::BIZ_ID_RIGHTS_BOND
        || biz_id == protocol::BIZ_ID_TENDER_ACCEPT
        || biz_id == protocol::BIZ_ID_TENDER_CANCEL
        || biz_id == protocol::BIZ_ID_FUND_SUB
        || biz_id == protocol::BIZ_ID_FUND_RED
        || biz_id == protocol::BIZ_ID_FUND_SUB_ISSUE
        || biz_id == protocol::BIZ_ID_FUND_TRANSFER
        || biz_id == protocol::BIZ_ID_FUND_DIVIDEND
        || biz_id == protocol::BIZ_ID_FUND_CONVERT
        || biz_id == protocol::BIZ_ID_REMAIN_TRANSFER
        || biz_id == protocol::BIZ_ID_RETURN_TRANSFER
        || biz_id == protocol::BIZ_ID_COLLATERAL_IN
        || biz_id == protocol::BIZ_ID_COLLATERAL_OUT
        || biz_id == protocol::BIZ_ID_SEC_SRC_IN
        || biz_id == protocol::BIZ_ID_SEC_SRC_OUT
        || biz_id == protocol::BIZ_ID_PWD_SERVICE
        || biz_id == protocol::BIZ_ID_DESIGNATION
        || biz_id == protocol::BIZ_ID_DESIGNATION_CANCEL
}

/// Whether a business has the number.
pub fn is_known_biz(biz_id: u32) -> (r: bool)
    ensures
        r == known(biz_id),
{
    biz_id == protocol::BIZ_ID_CASH_AUCTION
        || biz_id == protocol::BIZ_ID_ISSUE
        || biz_id == protocol::BIZ_ID_RIGHTS
        || biz_id == protocol::BIZ_ID_RIGHTS_BOND
        || biz_id == protocol::BIZ_ID_TENDER_ACCEPT
        || biz_id == protocol::BIZ_ID_TENDER_CANCEL
        || biz_id == protocol::BIZ_ID_FUND_SUB
        || biz_id == protocol::BIZ_ID_FUND_RED
        || biz_id == protocol::BIZ_ID_FUND_SUB_ISSUE
        || biz_id == protocol::BIZ_ID_FUND_TRANSFER
        || biz_id == protocol::BIZ_ID_FUND_DIVIDEND
        || biz_id == protocol::BIZ_ID_FUND_CONVERT
        || biz_id == protocol::BIZ_ID_REMAIN_TRANSFER
        || biz_id == protocol::BIZ_ID_RETURN_TRANSFER
        || biz_id == protocol::BIZ_ID_COLLATERAL_IN
        || biz_id == protocol::BIZ_ID_COLLATERAL_OUT
        || biz_id == protocol::BIZ_ID_SEC_SRC_IN
        || biz_id == protocol::BIZ_ID_SEC_SRC_OUT
        || biz_id == protocol::BIZ_ID_PWD_SERVICE
        || biz_id == protocol::BIZ_ID_DESIGNATION
        || biz_id == protocol::BIZ_ID_DESIGNATION_CANCEL
}

/// Only the cash auction reports in the partition of the order and fills orders in part.
pub proof fn law_cash_auction_is_special(biz_id: u32)
    requires
        known(biz_id),
    ensures
        business(biz_id).allow_partial <==> biz_id == protocol::BIZ_ID_CASH_AUCTION,
        business(biz_id).set_id == 0 <==> biz_id == protocol::BIZ_ID_CASH_AUCTION,
        business(biz_id).allow_partial ==> business(biz_id).allow_trade,
{
}

/// The partition of the reports on an order that came in `partition_no`.
pub open spec fn set_of(biz: BizInfo, partition_no: i32) -> u32 {
    if biz.set_id == 0 {
        partition_no as u32
    } else {
        biz.set_id
    }
}

/// The partition of the reports on an order that came in `partition_no`.
pub fn report_set(biz: &BizInfo, partition_no: i32) -> (r: u32)
    ensures
        r == set_of(*biz, partition_no),
{
    if biz.set_id == 0 {
        #[verifier::truncate]
        (partition_no as u32)
    } else {
        biz.set_id
    }
}

/// Shares in the units of the interface.
pub fn qty_raw(shares: i64) -> (r: i64)
    requires
        i64::MIN <= shares * 1000 <= i64::MAX,
    ensures
        r == shares * 1000,
{
    shares * QTY_UNIT
}

/// The amount of an execution, in hundred-thousandths of a yuan.
pub open spec fn amount_of(px: i64, qty: i64) -> i64 {
    fills::toward_zero(px * qty, 1000) as i64
}

/// The amount of an execution, in hundred-thousandths of a yuan.
pub fn amount_raw(px: i64, qty: i64) -> (r: i64)
    ensures
        r == amount_of(px, qty),
{
    assert(-0x4000_0000_0000_0000_0000_0000_0000_0000 <= px * qty
        <= 0x4000_0000_0000_0000_0000_0000_0000_0000) by (nonlinear_arith)
        requires
            -0x8000_0000_0000_0000 <= px <= 0x7fff_ffff_ffff_ffff,
            -0x8000_0000_0000_0000 <= qty <= 0x7fff_ffff_ffff_ffff,
    ;
    let p: i128 = (px as i128) * (qty as i128);
    let q: i128 = if p >= 0 {
        p / 1000
    } else {
        -((-p) / 1000)
    };
    #[verifier::truncate]
    (q as i64)
}

/// The acknowledgement of an order.
pub open spec fn ack_of(
    set_id: u32,
    o: NewOrderView,
    pbu: Seq<char>,
    ord_cnfm_id: Seq<char>,
    date: u32,
    time: u64,
) -> ExecRptView {
    ExecRptView {
        pbu,
        set_id,
        report_index: 0,
        biz_id: o.biz_id,
        exec_type: exec_type::NEW,
        biz_pbu: o.biz_pbu,
        cl_ord_id: o.cl_ord_id,
        security_id: o.security_id,
        account: o.account,
        owner_type: o.owner_type,
        side: o.side,
        price: o.price,
        order_qty: o.order_qty,
        leaves_qty: o.order_qty,
        cxl_qty: 0,
        ord_type: o.ord_type,
        time_in_force: o.time_in_force,
        ord_status: ord_status::NEW,
        credit_tag: o.credit_tag,
        orig_cl_ord_id: Seq::empty(),
        clearing_firm: o.clearing_firm,
        branch_id: o.branch_id,
        ord_rej_reason: 0,
        ord_cnfm_id,
        orig_ord_cnfm_id: Seq::empty(),
        trade_date: date,
        transact_time: time,
        user_info: o.user_info,
        extend: o.extend,
    }
}

/// The acknowledgement of an order.
pub fn base_ack(
    set_id: u32,
    order: &NewOrder,
    pbu: &str,
    ord_cnfm_id: &str,
    date: u32,
    time: u64,
) -> (r: ExecRpt)
    ensures
        r@ == ack_of(set_id, order@, pbu@, ord_cnfm_id@, date, time),
{
    ExecRpt {
        pbu: pbu.to_owned(),
        set_id,
        report_index: 0,
        biz_id: order.biz_id,
        exec_type: exec_type::NEW,
        biz_pbu: order.biz_pbu.clone(),
        cl_ord_id: order.cl_ord_id.clone(),
        security_id: order.security_id.clone(),
        account: order.account.clone(),
        owner_type: order.owner_type,
        side: order.side,
        price: order.price,
        order_qty: order.order_qty,
        leaves_qty: order.order_qty,
        cxl_qty: 0,
        ord_type: order.ord_type,
        time_in_force: order.time_in_force,
        ord_status: ord_status::NEW,
        credit_tag: order.credit_tag.clone(),
        orig_cl_ord_id: String::new(),
        clearing_firm: order.clearing_firm.clone(),
        branch_id: order.branch_id.clone(),
        ord_rej_reason: 0,
        ord_cnfm_id: ord_cnfm_id.to_owned(),
        orig_ord_cnfm_id: String::new(),
        trade_date: date,
        transact_time: time,
        user_info: order.user_info.clone(),
        extend: order.extend.clone(),
    }
}

/// The rejection of an order by an execution report: nothing is open and nothing cancelled.
pub open spec fn reject_of(
    set_id: u32,
    o: NewOrderView,
    pbu: Seq<char>,
    ord_cnfm_id: Seq<char>,
    reason: u16,
    date: u32,
    time: u64,
) -> ExecRptView {
    ExecRptView {
        exec_type: exec_type::REJECT,
        ord_status: ord_status::REJECTED,
        ord_rej_reason: reason as u32,
        leaves_qty: 0,
        cxl_qty: 0,
        time_in_force: 0,
        ..ack_of(set_id, o, pbu, ord_cnfm_id, date, time)
    }
}

/// The rejection of an order by a message of its own.
pub open spec fn order_reject_of(o: NewOrderView, reason: u16, date: u32, time: u64) -> OrderRejectView {
    OrderRejectView {
        biz_id: o.biz_id,
        biz_pbu: o.biz_pbu,
        cl_ord_id: o.cl_ord_id,
        security_id: o.security_id,
        ord_rej_reason: reason as u32,
        trade_date: date,
        transact_time: time,
        user_info: o.user_info,
    }
}

/// The rejection of an order by a message of its own.
pub fn build_order_reject(order: &NewOrder, reason: u16, date: u32, time: u64) -> (r: OrderReject)
    ensures
        r@ == order_reject_of(order@, reason, date, time),
{
    OrderReject {
        biz_id: order.biz_id,
        biz_pbu: order.biz_pbu.clone(),
        cl_ord_id: order.cl_ord_id.clone(),
        security_id: order.security_id.clone(),
        ord_rej_reason: reason as u32,
        trade_date: date,
        transact_time: time,
        user_info: order.user_info.clone(),
    }
}

/// An execution of an order.
pub open spec fn trade_of(
    set_id: u32,
    o: NewOrderView,
    pbu: Seq<char>,
    ord_cnfm_id: Seq<char>,
    trd_cnfm_id: Seq<char>,
    fill: (i64, i64),
    leaves: int,
    date: u32,
    time: u64,
) -> TradeRptView {
    TradeRptView {
        pbu,
        set_id,
        report_index: 0,
        biz_id: o.biz_id,
        exec_type: exec_type::TRADE,
        biz_pbu: o.biz_pbu,
        cl_ord_id: o.cl_ord_id,
        security_id: o.security_id,
        account: o.account,
        owner_type: o.owner_type,
        order_entry_time: o.transact_time,
        last_px: fill.1,
        last_qty: fill.0,
        gross_trade_amt: amount_of(fill.1, fill.0),
        side: o.side,
        order_qty: o.order_qty,
        leaves_qty: leaves as i64,
        ord_status: if leaves == 0 {
            ord_status::FILLED
        } else {
            ord_status::PARTIALLY_FILLED
        },
        credit_tag: o.credit_tag,
        clearing_firm: o.clearing_firm,
        branch_id: o.branch_id,
        trd_cnfm_id,
        ord_cnfm_id,
        trade_date: date,
        transact_time: time,
        user_info: o.user_info,
    }
}

fn build_trade(
    set_id: u32,
    order: &NewOrder,
    pbu: &str,
    ord_cnfm_id: &str,
    trd_cnfm_id: String,
    fill: (i64, i64),
    leaves: i64,
    date: u32,
    time: u64,
) -> (r: TradeRpt)
    ensures
        r@ == trade_of(
            set_id,
            order@,
            pbu@,
            ord_cnfm_id@,
            trd_cnfm_id@,
            fill,
            leaves as int,
            date,
            time,
        ),
{
    TradeRpt {
        pbu: pbu.to_owned(),
        set_id,
        report_index: 0,
        biz_id: order.biz_id,
        exec_type: exec_type::TRADE,
        biz_pbu: order.biz_pbu.clone(),
        cl_ord_id: order.cl_ord_id.clone(),
        security_id: order.security_id.clone(),
        account: order.account.clone(),
        owner_type: order.owner_type,
        order_entry_time: order.transact_time,
        last_px: fill.1,
        last_qty: fill.0,
        gross_trade_amt: amount_raw(fill.1, fill.0),
        side: order.side,
        order_qty: order.order_qty,
        leaves_qty: leaves,
        ord_status: if leaves == 0 {
            ord_status::FILLED
        } else {
            ord_status::PARTIALLY_FILLED
        },
        credit_tag: order.credit_tag.clone(),
        clearing_firm: order.clearing_firm.clone(),
        branch_id: order.branch_id.clone(),
        trd_cnfm_id,
        ord_cnfm_id: ord_cnfm_id.to_owned(),
        trade_date: date,
        transact_time: time,
        user_info: order.user_info.clone(),
    }
}

/// What the log says of an acknowledgement.
pub open spec fn ack_desc(o: NewOrderView, ord_cnfm_id: Seq<char>) -> Seq<char> {
    "申报响应(32) ClOrdID="@ + o.cl_ord_id + " OrdCnfmID="@ + text::strip_zeros(ord_cnfm_id)
}

/// What the log says of a rejection by an execution report.
pub open spec fn reject_desc(o: NewOrderView, reason: u16) -> Seq<char> {
    "拒单回报(32) ClOrdID="@ + o.cl_ord_id + " 原因代码="@ + text::dec(reason as nat)
}

/// What the log says of a rejection by a message of its own.
pub open spec fn order_reject_desc(o: NewOrderView, reason: u16) -> Seq<char> {
    "申报拒绝(204) ClOrdID="@ + o.cl_ord_id + " 原因代码="@ + text::dec(reason as nat)
}

/// What the log says of an execution.
pub open spec fn trade_desc(
    o: NewOrderView,
    i: int,
    n: int,
    fill: (i64, i64),
    leaves: int,
) -> Seq<char> {
    "成交回报(103) ClOrdID="@ + o.cl_ord_id + " 第"@ + text::dec((i + 1) as nat) + "/"@ + text::dec(
        n as nat,
    ) + "笔 价格="@ + text::fixed(fill.1 as int, 100_000) + " 数量="@ + text::dec_int(
        fills::toward_zero(fill.0 as int, 1000),
    ) + " 剩余="@ + text::dec_int(fills::toward_zero(leaves, 1000))
}

/// The report on the `i`-th execution.
#[verifier::opaque]
pub open spec fn trade_plan(
    set_id: u32,
    o: NewOrderView,
    pbu: Seq<char>,
    ord_cnfm_id: Seq<char>,
    trd_cnfm_id: Seq<char>,
    fs: Seq<(i64, i64)>,
    i: int,
    delay_ms: u64,
    date: u32,
    time: u64,
) -> PlannedReportView {
    let cum = cum_after(fs, i + 1);
    let leaves = leaves_after(o.order_qty, fs, i + 1);
    PlannedReportView {
        delay_ms,
        kind: ReportKind::Trade,
        frame: protocol::framed(
            msg_type::TRADE,
            trade_of(
                set_id,
                o,
                pbu,
                ord_cnfm_id,
                trd_cnfm_id,
                fs[i],
                leaves,
                date,
                time,
            ).body(),
        ),
        desc: trade_desc(o, i, fs.len() as int, fs[i], leaves),
        cl_ord_id: o.cl_ord_id,
        order_update: Some(
            OrderUpdateView {
                order_id: ord_cnfm_id,
                cum_qty: cum as i64,
                leaves_qty: leaves as i64,
                status: if leaves == 0 {
                    OrderStatus::Filled
                } else {
                    OrderStatus::Partial
                },
            },
        ),
    }
}

/// The reports on the executions. `exec_no` is the last number that was handed out.
pub open spec fn trade_plans(
    set_id: u32,
    o: NewOrderView,
    pbu: Seq<char>,
    ord_cnfm_id: Seq<char>,
    exec_no: int,
    fs: Seq<(i64, i64)>,
    delays: Seq<u64>,
    date: u32,
    time: u64,
) -> Seq<PlannedReportView> {
    Seq::new(
        fs.len(),
        |i: int|
            trade_plan(
                set_id,
                o,
                pbu,
                ord_cnfm_id,
                stats::id_text(exec_no + 1 + i),
                fs,
                i,
                delays[i + 1],
                date,
                time,
            ),
    )
}

/// The report that rejects an order by an execution report.
pub open spec fn reject_plan(
    reason: u16,
    set_id: u32,
    o: NewOrderView,
    pbu: Seq<char>,
    ord_cnfm_id: Seq<char>,
    delay_ms: u64,
    date: u32,
    time: u64,
) -> PlannedReportView {
    PlannedReportView {
        delay_ms,
        kind: ReportKind::Reject,
        frame: protocol::framed(
            msg_type::EXEC_RPT,
            reject_of(set_id, o, pbu, ord_cnfm_id, reason, date, time).body(),
        ),
        desc: reject_desc(o, reason),
        cl_ord_id: o.cl_ord_id,
        order_update: Some(
            OrderUpdateView {
                order_id: ord_cnfm_id,
                cum_qty: 0,
                leaves_qty: 0,
                status: OrderStatus::Rejected,
            },
        ),
    }
}

/// The report that rejects an order by a message of its own; it carries no order number.
pub open spec fn order_reject_plan(
    reason: u16,
    o: NewOrderView,
    delay_ms: u64,
    date: u32,
    time: u64,
) -> PlannedReportView {
    PlannedReportView {
        delay_ms,
        kind: ReportKind::BusinessReject,
        frame: protocol::framed(
            msg_type::ORDER_REJECT,
            order_reject_of(o, reason, date, time).body(),
        ),
        desc: order_reject_desc(o, reason),
        cl_ord_id: o.cl_ord_id,
        order_update: Some(
            OrderUpdateView {
                order_id: Seq::empty(),
                cum_qty: 0,
                leaves_qty: 0,
                status: OrderStatus::Rejected,
            },
        ),
    }
}

/// The report that acknowledges an order.
pub open spec fn ack_plan(
    set_id: u32,
    o: NewOrderView,
    pbu: Seq<char>,
    ord_cnfm_id: Seq<char>,
    delay_ms: u64,
    date: u32,
    time: u64,
) -> PlannedReportView {
    PlannedReportView {
        delay_ms,
        kind: ReportKind::Ack,
        frame: protocol::framed(
            msg_type::EXEC_RPT,
            ack_of(set_id, o, pbu, ord_cnfm_id, date, time).body(),
        ),
        desc: ack_desc(o, ord_cnfm_id),
        cl_ord_id: o.cl_ord_id,
        order_update: Some(
            OrderUpdateView {
                order_id: ord_cnfm_id,
                cum_qty: 0,
                leaves_qty: o.order_qty,
                status: OrderStatus::New,
            },
        ),
    }
}

/// The reports on an order. `order_no` and `exec_no` are the last numbers that were handed
/// out, `fs` the executions, `delays` the delays of the reports.
pub open spec fn planned(
    st: StrategyConfig,
    partition_no: i32,
    o: NewOrderView,
    biz: BizInfo,
    pbu: Seq<char>,
    order_no: int,
    exec_no: int,
    fs: Seq<(i64, i64)>,
    delays: Seq<u64>,
    date: u32,
    time: u64,
) -> Seq<PlannedReportView> {
    let set_id = set_of(biz, partition_no);
    let id = stats::id_text(order_no + 1);
    match st.mode {
        StrategyMode::NoAutoReply => Seq::empty(),
        StrategyMode::Reject => match st.reject_via {
            RejectVia::ExecutionReport => seq![
                reject_plan(st.reject_reason, set_id, o, pbu, id, delays[0], date, time),
            ],
            RejectVia::BusinessReject => seq![
                order_reject_plan(st.reject_reason, o, delays[0], date, time),
            ],
        },
        _ => {
            let ack = seq![ack_plan(set_id, o, pbu, id, delays[0], date, time)];
            if biz.allow_trade {
                ack + trade_plans(set_id, o, pbu, id, exec_no, fs, delays, date, time)
            } else {
                ack
            }
        },
    }
}

/// How many execution numbers the reports on an order use.
pub open spec fn exec_ids_used(st: StrategyConfig, biz: BizInfo, n: int) -> int {
    match st.mode {
        StrategyMode::NoAutoReply | StrategyMode::Reject => 0,
        _ => if biz.allow_trade {
            n
        } else {
            0
        },
    }
}

/// The units of the interface.
pub open spec fn units() -> Units {
    Units { share: 1000, price: 1 }
}

/// What of an order decides its executions.
pub open spec fn terms(o: NewOrderView) -> Terms {
    Terms { qty: o.order_qty, price: o.price, side: o.side }
}

fn order_terms(order: &NewOrder) -> (r: Terms)
    ensures
        r == terms(order@),
{
    Terms { qty: order.order_qty, price: order.price, side: order.side }
}

/// The business of an order reports executions.
pub open spec fn trades(o: NewOrderView) -> bool {
    business(o.biz_id).allow_trade
}

/// Whatever is drawn, the reports on an order stay in the range of numbers.
pub open spec fn fits(st: StrategyConfig, o: NewOrderView) -> bool {
    trades(o) ==> fills::fits(st, business(o.biz_id).allow_partial, terms(o), units())
}

/// Whether the reports on an order stay in the range of numbers, whatever is drawn.
pub fn check_fits(st: &StrategyConfig, order: &NewOrder) -> (r: bool)
    ensures
        r == fits(*st, order@),
{
    let biz = biz_info(order.biz_id);
    !biz.allow_trade || fills::check_fits(st, biz.allow_partial, order_terms(order), Units { share: QTY_UNIT, price: 1 })
}

/// Some draw takes the reports on an order out of the range of numbers.
pub open spec fn may_leave(st: StrategyConfig, o: NewOrderView) -> bool {
    trades(o) && fills::may_leave(st, business(o.biz_id).allow_partial, terms(o), units())
}

/// Some draw takes the reports on an order out of the range of numbers, unless they stay in it
/// whatever is drawn.
pub proof fn law_fits(st: StrategyConfig, o: NewOrderView)
    ensures
        may_leave(st, o) <==> !fits(st, o),
{
    fills::law_fits(st, business(o.biz_id).allow_partial, terms(o), units());
}

/// The executions that the settings allow for an order: none where its business reports none.
pub open spec fn are_executions(st: StrategyConfig, o: NewOrderView, fs: Seq<(i64, i64)>) -> bool {
    if trades(o) {
        fills::is_fills(st, business(o.biz_id).allow_partial, terms(o), units(), fs)
    } else {
        fs.len() == 0
    }
}

fn plan_reject(
    reason: u16,
    set_id: u32,
    order: &NewOrder,
    pbu: &str,
    ord_cnfm_id: String,
    delay_ms: u64,
    date: u32,
    time: u64,
) -> (r: PlannedReport)
    ensures
        r@ == reject_plan(reason, set_id, order@, pbu@, ord_cnfm_id@, delay_ms, date, time),
{
    let mut rpt = base_ack(set_id, order, pbu, ord_cnfm_id.as_str(), date, time);
    rpt.exec_type = exec_type::REJECT;
    rpt.ord_status = ord_status::REJECTED;
    rpt.ord_rej_reason = reason as u32;
    rpt.leaves_qty = 0;
    rpt.cxl_qty = 0;
    rpt.time_in_force = 0;
    let mut desc = "拒单回报(32) ClOrdID=".to_owned();
    desc.push_str(order.cl_ord_id.as_str());
    desc.push_str(" 原因代码=");
    text::push_dec(&mut desc, reason as u64);
    PlannedReport {
        delay_ms,
        kind: ReportKind::Reject,
        frame: rpt.encode(),
        desc,
        cl_ord_id: order.cl_ord_id.clone(),
        order_update: Some(
            OrderUpdate {
                order_id: ord_cnfm_id,
                cum_qty: 0,
                leaves_qty: 0,
                status: OrderStatus::Rejected,
            },
        ),
    }
}

fn plan_order_reject(reason: u16, order: &NewOrder, delay_ms: u64, date: u32, time: u64) -> (r:
    PlannedReport)
    ensures
        r@ == order_reject_plan(reason, order@, delay_ms, date, time),
{
    let rej = build_order_reject(order, reason, date, time);
    let mut desc = "申报拒绝(204) ClOrdID=".to_owned();
    desc.push_str(order.cl_ord_id.as_str());
    desc.push_str(" 原因代码=");
    text::push_dec(&mut desc, reason as u64);
    PlannedReport {
        delay_ms,
        kind: ReportKind::BusinessReject,
        frame: rej.encode(),
        desc,
        cl_ord_id: order.cl_ord_id.clone(),
        order_update: Some(
            OrderUpdate {
                order_id: String::new(),
                cum_qty: 0,
                leaves_qty: 0,
                status: OrderStatus::Rejected,
            },
        ),
    }
}

fn plan_ack(
    set_id: u32,
    order: &NewOrder,
    pbu: &str,
    ord_cnfm_id: &str,
    delay_ms: u64,
    date: u32,
    time: u64,
) -> (r: PlannedReport)
    ensures
        r@ == ack_plan(set_id, order@, pbu@, ord_cnfm_id@, delay_ms, date, time),
{
    let ack = base_ack(set_id, order, pbu, ord_cnfm_id, date, time);
    let mut desc = "申报响应(32) ClOrdID=".to_owned();
    desc.push_str(order.cl_ord_id.as_str());
    desc.push_str(" OrdCnfmID=");
    desc.push_str(text::without_zeros(ord_cnfm_id).as_str());
    PlannedReport {
        delay_ms,
        kind: ReportKind::Ack,
        frame: ack.encode(),
        desc,
        cl_ord_id: order.cl_ord_id.clone(),
        order_update: Some(
            OrderUpdate {
                order_id: ord_cnfm_id.to_owned(),
                cum_qty: 0,
                leaves_qty: order.order_qty,
                status: OrderStatus::New,
            },
        ),
    }
}

/// The reports on an order, from the executions, the delays and the time.
pub fn plan_with(
    st: &StrategyConfig,
    partition_no: i32,
    order: &NewOrder,
    biz: &BizInfo,
    pbu: &str,
    stats: &mut PlatformStats,
    fs: &Vec<(i64, i64)>,
    delays: &Vec<u64>,
    date: u32,
    time: u64,
) -> (r: Vec<PlannedReport>)
    requires
        ids_left(*old(stats)),
        sums_fit(order.order_qty, fs@),
        fs@.len() <= 0x7fff_ffff_ffff_ffff,
        delays@.len() > fs@.len(),
    ensures
        report::plan_views(r@) == planned(
            *st,
            partition_no,
            order@,
            *biz,
            pbu@,
            old(stats).order_seq as int,
            old(stats).exec_seq as int,
            fs@,
            delays@,
            date,
            time,
        ),
        final(stats).order_seq == old(stats).order_seq + 1,
        final(stats).exec_seq == old(stats).exec_seq + exec_ids_used(
            *st,
            *biz,
            fs@.len() as int,
        ),
        final(stats).counters() == old(stats).counters(),
        final(stats).partition_report_index@ == old(stats).partition_report_index@,
{
    let set_id: u32 = report_set(biz, partition_no);
    let id = stats.next_order_id();
    let mut plans: Vec<PlannedReport> = Vec::new();
    match st.mode {
        StrategyMode::NoAutoReply => {
            assert(report::plan_views(plans@) =~= Seq::<PlannedReportView>::empty());
        },
        StrategyMode::Reject => match st.reject_via {
            RejectVia::ExecutionReport => {
                let p = plan_reject(
                    st.reject_reason,
                    set_id,
                    order,
                    pbu,
                    id,
                    delays[0],
                    date,
                    time,
                );
                plans.push(p);
                assert(report::plan_views(plans@) =~= seq![p@]);
            },
            RejectVia::BusinessReject => {
                let p = plan_order_reject(st.reject_reason, order, delays[0], date, time);
                plans.push(p);
                assert(report::plan_views(plans@) =~= seq![p@]);
            },
        },
        _ => {
            let p = plan_ack(set_id, order, pbu, id.as_str(), delays[0], date, time);
            plans.push(p);
            assert(report::plan_views(plans@) =~= seq![p@]);
            if biz.allow_trade {
                plan_trades(
                    set_id,
                    order,
                    pbu,
                    id.as_str(),
                    fs,
                    delays,
                    date,
                    time,
                    stats,
                    &mut plans,
                );
            }
        },
    }
    plans
}

/// Appends the reports on the executions.
fn plan_trades(
    set_id: u32,
    order: &NewOrder,
    pbu: &str,
    ord_cnfm_id: &str,
    fs: &Vec<(i64, i64)>,
    delays: &Vec<u64>,
    date: u32,
    time: u64,
    stats: &mut PlatformStats,
    plans: &mut Vec<PlannedReport>,
)
    requires
        old(stats).exec_seq < 0x7fff_ffff_ffff_ffff,
        sums_fit(order.order_qty, fs@),
        fs@.len() <= 0x7fff_ffff_ffff_ffff,
        delays@.len() > fs@.len(),
    ensures
        report::plan_views(final(plans)@) == report::plan_views(old(plans)@) + trade_plans(
            set_id,
            order@,
            pbu@,
            ord_cnfm_id@,
            old(stats).exec_seq as int,
            fs@,
            delays@,
            date,
            time,
        ),
        final(stats).exec_seq == old(stats).exec_seq + fs@.len(),
        final(stats).order_seq == old(stats).order_seq,
        final(stats).counters() == old(stats).counters(),
        final(stats).partition_report_index@ == old(stats).partition_report_index@,
{
    let ghost head = report::plan_views(plans@);
    let ghost trades = trade_plans(
        set_id,
        order@,
        pbu@,
        ord_cnfm_id@,
        old(stats).exec_seq as int,
        fs@,
        delays@,
        date,
        time,
    );
    let n: usize = fs.len();
    let mut cum: i64 = 0;
    let mut i: usize = 0;
    assert(fs@.take(0) =~= Seq::<(i64, i64)>::empty());
    assert(trades.take(0) =~= Seq::<PlannedReportView>::empty());
    assert(head + trades.take(0) =~= head);
    while i < n
        invariant
            i <= n,
            n == fs@.len(),
            n <= 0x7fff_ffff_ffff_ffff,
            delays@.len() > n,
            sums_fit(order.order_qty, fs@),
            cum == cum_after(fs@, i as int),
            old(stats).exec_seq < 0x7fff_ffff_ffff_ffff,
            stats.exec_seq == old(stats).exec_seq + i,
            stats.order_seq == old(stats).order_seq,
            stats.counters() == old(stats).counters(),
            stats.partition_report_index@ == old(stats).partition_report_index@,
            trades == trade_plans(
                set_id,
                order@,
                pbu@,
                ord_cnfm_id@,
                old(stats).exec_seq as int,
                fs@,
                delays@,
                date,
                time,
            ),
            report::plan_views(plans@) == head + trades.take(i as int),
        decreases n - i,
    {
        proof {
            let t = fs@.take(i + 1);
            assert(t.drop_last() =~= fs@.take(i as int));
            assert(t.last() == fs@[i as int]);
            assert(cum_after(fs@, i + 1) == cum_after(fs@, i as int) + fs@[i as int].0);
            assert(fills::sum_fits(order.order_qty, cum_after(fs@, i + 1)));
        }
        cum = cum + fs[i].0;
        let trd_cnfm_id = stats.next_exec_id();
        let ghost before = plans@;
        let p = plan_trade(
            set_id,
            order,
            pbu,
            ord_cnfm_id,
            trd_cnfm_id,
            fs,
            i,
            cum,
            delays[i + 1],
            date,
            time,
        );
        plans.push(p);
        proof {
            assert(p@ == trades[i as int]);
            assert(report::plan_views(plans@) =~= report::plan_views(before).push(p@));
            assert(trades.take(i + 1) =~= trades.take(i as int).push(trades[i as int]));
            assert(head + trades.take(i + 1) =~= (head + trades.take(i as int)).push(
                trades[i as int],
            ));
        }
        i += 1;
    }
    assert(trades.take(i as int) =~= trades);
}

/// The report on one execution.
fn plan_trade(
    set_id: u32,
    order: &NewOrder,
    pbu: &str,
    ord_cnfm_id: &str,
    trd_cnfm_id: String,
    fs: &Vec<(i64, i64)>,
    i: usize,
    cum: i64,
    delay_ms: u64,
    date: u32,
    time: u64,
) -> (r: PlannedReport)
    requires
        i < fs@.len(),
        sums_fit(order.order_qty, fs@),
        cum == cum_after(fs@, i + 1),
    ensures
        r@ == trade_plan(
            set_id,
            order@,
            pbu@,
            ord_cnfm_id@,
            trd_cnfm_id@,
            fs@,
            i as int,
            delay_ms,
            date,
            time,
        ),
{
    let fill = fs[i];
    proof {
        reveal(trade_plan);
        assert(fills::sum_fits(order.order_qty, cum_after(fs@, i + 1)));
    }
    let rest: i64 = order.order_qty - cum;
    let leaves: i64 = if rest < 0 {
        0
    } else {
        rest
    };
    let trade = build_trade(set_id, order, pbu, ord_cnfm_id, trd_cnfm_id, fill, leaves, date, time);
    PlannedReport {
        delay_ms,
        kind: ReportKind::Trade,
        frame: trade.encode(),
        desc: trade_text(order, i, fs.len(), fill, leaves),
        cl_ord_id: order.cl_ord_id.clone(),
        order_update: Some(
            OrderUpdate {
                order_id: ord_cnfm_id.to_owned(),
                cum_qty: cum,
                leaves_qty: leaves,
                status: if leaves == 0 {
                    OrderStatus::Filled
                } else {
                    OrderStatus::Partial
                },
            },
        ),
    }
}

fn trade_text(order: &NewOrder, i: usize, n: usize, fill: (i64, i64), leaves: i64) -> (r: String)
    requires
        i < n,
        leaves >= 0,
    ensures
        r@ == trade_desc(order@, i as int, n as int, fill, leaves as int),
{
    let mut desc = "成交回报(103) ClOrdID=".to_owned();
    desc.push_str(order.cl_ord_id.as_str());
    desc.push_str(" 第");
    text::push_dec(&mut desc, i as u64 + 1);
    desc.push_str("/");
    text::push_dec(&mut desc, n as u64);
    desc.push_str("笔 价格=");
    desc.push_str(text::fmt_fixed(fill.1, PX_UNIT).as_str());
    desc.push_str(" 数量=");
    text::push_int(&mut desc, fills::div_toward_zero(fill.0, QTY_UNIT));
    desc.push_str(" 剩余=");
    text::push_int(&mut desc, fills::div_toward_zero(leaves, QTY_UNIT));
    desc
}

/// Pairs the shares of a split with prices that climb or descend to the limit.
pub fn with_ladder_prices(st: &StrategyConfig, order: &NewOrder, qtys: &[i64]) -> (r: Vec<
    (i64, i64),
>)
    requires
        qtys@.len() <= 0xffff_ffff,
        qtys@.len() > 0 ==> fills::ladder_range(
            terms(order@).price as int,
            terms(order@).side == 0x32,
            fills::tick_of(st.price_tick, units()),
            qtys@.len() - 1,
        ),
        forall|i: int| 0 <= i < qtys@.len() ==> i64::MIN <= #[trigger] qtys@[i] * 1000 <= i64::MAX,
    ensures
        r@ == fills::laddered(
            qtys@,
            terms(order@),
            fills::tick_of(st.price_tick, units()),
            units(),
        ),
{
    fills::ladder_fills(st, order_terms(order), Units { share: QTY_UNIT, price: 1 }, qtys)
}

/// Makes up the executions of an order in a business.
pub fn gen_fills(st: &StrategyConfig, order: &NewOrder, biz: &BizInfo) -> (r: Vec<(i64, i64)>)
    requires
        fills::fits(*st, biz.allow_partial, terms(order@), units()),
    ensures
        fills::is_fills(*st, biz.allow_partial, terms(order@), units(), r@),
        sums_fit(order.order_qty, r@),
{
    proof {
        fills::law_fits(*st, biz.allow_partial, terms(order@), units());
    }
    match fills::make_fills(st, biz.allow_partial, order_terms(order), Units { share: QTY_UNIT, price: 1 }) {
        Some(fs) => fs,
        // Whatever is drawn, the order stays in the range of numbers.
        None => Vec::new(),
    }
}

/// Draws the executions of an order; nothing where what was drawn leads out of the range of
/// numbers.
pub fn draw_fills(st: &StrategyConfig, order: &NewOrder) -> (r: Option<Vec<(i64, i64)>>)
    ensures
        match r {
            Some(fs) => {
                &&& are_executions(*st, order@, fs@)
                &&& sums_fit(order.order_qty, fs@)
                &&& fs@.len() <= 0x7fff_ffff_ffff_ffff
            },
            None => may_leave(*st, order@),
        },
{
    let biz = biz_info(order.biz_id);
    if biz.allow_trade {
        return fills::make_fills(st, biz.allow_partial, order_terms(order), Units { share: QTY_UNIT, price: 1 });
    }
    let none: Vec<(i64, i64)> = Vec::new();
    proof {
        fills::lemma_no_fills(order.order_qty, none@);
    }
    Some(none)
}

/// Reports that the settings allow for an order, with the numbers that they use and the time
/// that they carry.
#[verifier::opaque]
pub open spec fn may_plan(
    st: StrategyConfig,
    partition_no: i32,
    o: NewOrderView,
    pbu: Seq<char>,
    before: PlatformStats,
    after: PlatformStats,
    plans: Seq<PlannedReportView>,
    fs: Seq<(i64, i64)>,
    delays: Seq<u64>,
    at: clock::LocalTime,
) -> bool {
    let biz = business(o.biz_id);
    &&& at.wf()
    &&& are_executions(st, o, fs)
    &&& delays_ok(st, delays, fs.len())
    &&& plans == planned(
        st,
        partition_no,
        o,
        biz,
        pbu,
        before.order_seq as int,
        before.exec_seq as int,
        fs,
        delays,
        clock::date_of(at) as u32,
        clock::ntime_of(at) as u64,
    )
    &&& after.order_seq == before.order_seq + 1
    &&& after.exec_seq == before.exec_seq + exec_ids_used(st, biz, fs.len() as int)
    &&& after.counters() == before.counters()
    &&& after.partition_report_index@ == before.partition_report_index@
}

/// The reports on an order with the given executions. `pbu` is the trading unit that is
/// reported to.
pub fn plan_fills(
    st: &StrategyConfig,
    partition_no: i32,
    order: &NewOrder,
    stats: &mut PlatformStats,
    pbu: &str,
    fs: &Vec<(i64, i64)>,
) -> (r: Vec<PlannedReport>)
    requires
        ids_left(*old(stats)),
        are_executions(*st, order@, fs@),
        sums_fit(order.order_qty, fs@),
        fs@.len() <= 0x7fff_ffff_ffff_ffff,
    ensures
        exists|delays: Seq<u64>, at: clock::LocalTime|
            may_plan(
                *st,
                partition_no,
                order@,
                pbu@,
                *old(stats),
                *final(stats),
                report::plan_views(r@),
                fs@,
                delays,
                at,
            ),
{
    let biz = biz_info(order.biz_id);
    let delays = sample_delays(st, fs.len());
    let now = clock::local_now();
    let date: u32 = clock::date(&now);
    let time: u64 = clock::ntime(&now);
    let r = plan_with(st, partition_no, order, &biz, pbu, stats, fs, &delays, date, time);
    proof {
        reveal(may_plan);
    }
    assert(may_plan(
        *st,
        partition_no,
        order@,
        pbu@,
        *old(stats),
        *stats,
        report::plan_views(r@),
        fs@,
        delays@,
        now,
    ));
    r
}

/// Plans the reports on an order. `pbu` is the trading unit that is reported to.
pub fn plan_reports(
    st: &StrategyConfig,
    partition_no: i32,
    order: &NewOrder,
    stats: &mut PlatformStats,
    pbu: &str,
) -> (r: Vec<PlannedReport>)
    requires
        ids_left(*old(stats)),
        fits(*st, order@),
    ensures
        exists|fs: Seq<(i64, i64)>, delays: Seq<u64>, at: clock::LocalTime|
            may_plan(
                *st,
                partition_no,
                order@,
                pbu@,
                *old(stats),
                *final(stats),
                report::plan_views(r@),
                fs,
                delays,
                at,
            ),
{
    proof {
        law_fits(*st, order@);
    }
    match draw_fills(st, order) {
        Some(fs) => plan_fills(st, partition_no, order, stats, pbu, &fs),
        // Whatever is drawn, the order stays in the range of numbers.
        None => Vec::new(),
    }
}

/// How many reports an order gets: none without automatic replies; one if it is rejected or
/// only acknowledged, or if its business reports no executions; two if it is filled at once.
pub proof fn law_report_count(
    st: StrategyConfig,
    partition_no: i32,
    o: NewOrderView,
    pbu: Seq<char>,
    before: PlatformStats,
    after: PlatformStats,
    plans: Seq<PlannedReportView>,
    fs: Seq<(i64, i64)>,
    delays: Seq<u64>,
    at: clock::LocalTime,
)
    requires
        may_plan(st, partition_no, o, pbu, before, after, plans, fs, delays, at),
    ensures
        st.mode == StrategyMode::NoAutoReply ==> plans.len() == 0,
        st.mode == StrategyMode::Reject || st.mode == StrategyMode::AckOnly ==> plans.len() == 1,
        st.mode != StrategyMode::NoAutoReply && !business(o.biz_id).allow_trade ==> plans.len()
            == 1,
        fills::effective(st.mode, business(o.biz_id).allow_partial) == StrategyMode::FullSingle
            && business(o.biz_id).allow_trade ==> plans.len() == 2,
        st.mode != StrategyMode::NoAutoReply && st.mode != StrategyMode::Reject ==> plans.len() >= 1
            && plans[0].kind == ReportKind::Ack && forall|i: int|
            1 <= i < plans.len() ==> (#[trigger] plans[i]).kind == ReportKind::Trade,
{
    reveal(may_plan);
    reveal(trade_plan);
}

/// At every execution, what is filled and what is open make up the order, where no more was
/// filled than ordered; the order counts as filled exactly where nothing is open.
pub proof fn law_trade_quantities(
    set_id: u32,
    o: NewOrderView,
    pbu: Seq<char>,
    ord_cnfm_id: Seq<char>,
    trd_cnfm_id: Seq<char>,
    fs: Seq<(i64, i64)>,
    i: int,
    delay_ms: u64,
    date: u32,
    time: u64,
)
    requires
        sums_fit(o.order_qty, fs),
        0 <= i < fs.len(),
    ensures
        trade_plan(
            set_id,
            o,
            pbu,
            ord_cnfm_id,
            trd_cnfm_id,
            fs,
            i,
            delay_ms,
            date,
            time,
        ).order_update matches Some(u) && {
            &&& u.cum_qty == cum_after(fs, i + 1)
            &&& u.cum_qty <= o.order_qty ==> u.cum_qty + u.leaves_qty == o.order_qty
            &&& u.leaves_qty >= 0
            &&& u.status == OrderStatus::Filled <==> u.leaves_qty == 0
        },
{
    reveal(trade_plan);
    assert(fills::sum_fits(o.order_qty, cum_after(fs, i + 1)));
}

} // verus!
