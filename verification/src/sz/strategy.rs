//! What the Shenzhen gateway answers an order with.
use vstd::prelude::*;

use super::protocol::{
    exec_type, msg_type, now_timestamp, ord_status, BusinessReject, BusinessRejectView, ExecRptAck,
    ExecRptAckView, ExecRptTrade, ExecRptTradeView, NewOrder, NewOrderView,
};
use crate::clock;
use crate::clock::LocalTime;
use crate::config::{RejectVia, StrategyConfig, StrategyMode};
use crate::fills;
use crate::fills::{
    cum_after, delays_ok, leaves_after, sample_delays, sums_fit, Terms, Units,
};
use crate::orderbook::{OrderStatus, OrderUpdate, OrderUpdateView};
use crate::report;
use crate::stats;
use crate::stats::{ids_left, PlatformStats};
use crate::text;

pub use crate::fills::{partial_shares, sample_split_count, split_shares, LOT};
pub use crate::report::{PlannedReport, PlannedReportView, ReportKind};

verus! {

/// A share in the units of the interface.
pub const QTY_UNIT: i64 = 100;

/// A yuan in the units of the interface.
pub const PX_UNIT: i64 = 10_000;

/// What is particular to a business.
#[derive(Debug, Clone, Copy)]
pub struct BizInfo {
    pub name: &'static str,
    /// The business code that reports carry where the order has none.
    pub appl_id: &'static str,
    /// The type of order responses.
    pub ack_msg_type: u32,
    /// The type of executions; none where the business reports none.
    pub trade_msg_type: Option<u32>,
    /// Whether orders can be filled in part.
    pub allow_partial: bool,
}

/// The business of a type of new orders; other types are treated as the cash auction
/// without partial fills.
#[verifier::opaque]
pub open spec fn business(mt: u32) -> BizInfo {
    if mt == msg_type::NEW_ORDER_CASH {
        BizInfo {
            name: "现货集中竞价",
            appl_id: "010",
            ack_msg_type: msg_type::EXEC_RPT_CASH_ACK,
            trade_msg_type: Some(msg_type::EXEC_RPT_CASH_TRADE),
            allow_partial: true,
        }
    } else if mt == msg_type::NEW_ORDER_BOND_REPO {
        BizInfo {
            name: "债券通用质押式回购",
            appl_id: "020",
            ack_msg_type: msg_type::EXEC_RPT_BOND_REPO_ACK,
            trade_msg_type: Some(msg_type::EXEC_RPT_BOND_REPO_TRADE),
            allow_partial: false,
        }
    } else if mt == msg_type::NEW_ORDER_BOND_DIST {
        BizInfo {
            name: "债券分销",
            appl_id: "030",
            ack_msg_type: msg_type::EXEC_RPT_BOND_DIST_ACK,
            trade_msg_type: Some(msg_type::EXEC_RPT_BOND_DIST_TRADE),
            allow_partial: false,
        }
    } else if mt == msg_type::NEW_ORDER_OPTION_AUCTION {
        BizInfo {
            name: "期权集中竞价",
            appl_id: "040",
            ack_msg_type: msg_type::EXEC_RPT_OPTION_ACK,
            trade_msg_type: Some(msg_type::EXEC_RPT_OPTION_TRADE),
            allow_partial: false,
        }
    } else if mt == msg_type::NEW_ORDER_AGREEMENT_TRADE {
        BizInfo {
            name: "协议交易",
            appl_id: "051",
            ack_msg_type: msg_type::EXEC_RPT_AGREEMENT_ACK,
            trade_msg_type: Some(msg_type::EXEC_RPT_AGREEMENT_TRADE),
            allow_partial: false,
        }
    } else if mt == msg_type::NEW_ORDER_BLOCK_TRADE {
        BizInfo {
            name: "盘后定价大宗交易",
            appl_id: "060",
            ack_msg_type: msg_type::EXEC_RPT_BLOCK_ACK,
            trade_msg_type: Some(msg_type::EXEC_RPT_BLOCK_TRADE),
            allow_partial: false,
        }
    } else if mt == msg_type::NEW_ORDER_SEC_LENDING {
        BizInfo {
            name: "转融通证券出借",
            appl_id: "070",
            ack_msg_type: msg_type::EXEC_RPT_SEC_LENDING_ACK,
            trade_msg_type: Some(msg_type::EXEC_RPT_SEC_LENDING_TRADE),
            allow_partial: false,
        }
    } else if mt == msg_type::NEW_ORDER_ETF_SUB_RED {
        BizInfo {
            name: "ETF实时申购赎回",
            appl_id: "120",
            ack_msg_type: msg_type::EXEC_RPT_ETF_ACK,
            trade_msg_type: None,
            allow_partial: false,
        }
    } else if mt == msg_type::NEW_ORDER_ISSUE {
        BizInfo {
            name: "网上发行认购",
            appl_id: "130",
            ack_msg_type: msg_type::EXEC_RPT_ISSUE_ACK,
            trade_msg_type: None,
            allow_partial: false,
        }
    } else if mt == msg_type::NEW_ORDER_RIGHTS {
        BizInfo {
            name: "配股认购",
            appl_id: "140",
            ack_msg_type: msg_type::EXEC_RPT_RIGHTS_ACK,
            trade_msg_type: None,
            allow_partial: false,
        }
    } else if mt == msg_type::NEW_ORDER_BOND_CONVERT {
        BizInfo {
            name: "债券转股回售",
            appl_id: "150",
            ack_msg_type: msg_type::EXEC_RPT_BOND_CONVERT_ACK,
            trade_msg_type: None,
            allow_partial: false,
        }
    } else if mt == msg_type::NEW_ORDER_OPTION_EXERCISE {
        BizInfo {
            name: "期权行权",
            appl_id: "160",
            ack_msg_type: msg_type::EXEC_RPT_OPTION_EXERCISE_ACK,
            trade_msg_type: None,
            allow_partial: false,
        }
    } else if mt == msg_type::NEW_ORDER_FUND_SUB_RED {
        BizInfo {
            name: "开放式基金申购赎回",
            appl_id: "170",
            ack_msg_type: msg_type::EXEC_RPT_FUND_ACK,
            trade_msg_type: None,
            allow_partial: false,
        }
    } else if mt == msg_type::NEW_ORDER_TENDER_OFFER {
        BizInfo {
            name: "要约收购",
            appl_id: "180",
            ack_msg_type: msg_type::EXEC_RPT_TENDER_ACK,
            trade_msg_type: None,
            allow_partial: false,
        }
    } else if mt == msg_type::NEW_ORDER_REPO_PLEDGE {
        BizInfo {
            name: "回购质押解押",
            appl_id: "190",
            ack_msg_type: msg_type::EXEC_RPT_REPO_PLEDGE_ACK,
            trade_msg_type: None,
            allow_partial: false,
        }
    } else if mt == msg_type::NEW_ORDER_GOLD_ETF {
        BizInfo {
            name: "黄金ETF实物申购赎回",
            appl_id: "220",
            ack_msg_type: msg_type::EXEC_RPT_GOLD_ETF_ACK,
            trade_msg_type: None,
            allow_partial: false,
        }
    } else if mt == msg_type::NEW_ORDER_WARRANT {
        BizInfo {
            name: "权证行权",
            appl_id: "230",
            ack_msg_type: msg_type::EXEC_RPT_WARRANT_ACK,
            trade_msg_type: None,
            allow_partial: false,
        }
    } else if mt == msg_type::NEW_ORDER_DISPOSAL {
        BizInfo {
            name: "转处置",
            appl_id: "270",
            ack_msg_type: msg_type::EXEC_RPT_DISPOSAL_ACK,
            trade_msg_type: None,
            allow_partial: false,
        }
    } else if mt == msg_type::NEW_ORDER_LEND_RETURN {
        BizInfo {
            name: "垫券还券",
            appl_id: "280",
            ack_msg_type: msg_type::EXEC_RPT_LEND_RETURN_ACK,
            trade_msg_type: None,
            allow_partial: false,
        }
    } else if mt == msg_type::NEW_ORDER_DEDUCTION {
        BizInfo {
            name: "待清偿扣划",
            appl_id: "290",
            ack_msg_type: msg_type::EXEC_RPT_DEDUCTION_ACK,
            trade_msg_type: None,
            allow_partial: false,
        }
    } else if mt == msg_type::NEW_ORDER_SPLIT_MERGE {
        BizInfo {
            name: "分级基金实时分拆合并",
            appl_id: "310",
            ack_msg_type: msg_type::EXEC_RPT_SPLIT_ACK,
            trade_msg_type: None,
            allow_partial: false,
        }
    } else if mt == msg_type::NEW_ORDER_3P_REPO {
        BizInfo {
            name: "债券质押式三方回购入库出库",
            appl_id: "330",
            ack_msg_type: msg_type::EXEC_RPT_3P_REPO_ACK,
            trade_msg_type: None,
            allow_partial: false,
        }
    } else if mt == msg_type::NEW_ORDER_OPTION_CONVERT {
        BizInfo {
            name: "期权普通与备兑仓互转",
            appl_id: "350",
            ack_msg_type: msg_type::EXEC_RPT_OPTION_CONVERT_ACK,
            trade_msg_type: None,
            allow_partial: false,
        }
    } else if mt == msg_type::NEW_ORDER_AFTER_HOURS {
        BizInfo {
            name: "盘后定价交易",
            appl_id: "370",
            ack_msg_type: msg_type::EXEC_RPT_AFTER_HOURS_ACK,
            trade_msg_type: Some(msg_type::EXEC_RPT_AFTER_HOURS_TRADE),
            allow_partial: false,
        }
    } else if mt == msg_type::NEW_ORDER_BOND_CASH {
        BizInfo {
            name: "债券现券匹配成交",
            appl_id: "410",
            ack_msg_type: msg_type::EXEC_RPT_BOND_CASH_ACK,
            trade_msg_type: Some(msg_type::EXEC_RPT_BOND_CASH_TRADE),
            allow_partial: false,
        }
    } else if mt == msg_type::NEW_ORDER_BOND_BID {
        BizInfo {
            name: "债券现券竞买成交",
            appl_id: "417",
            ack_msg_type: msg_type::EXEC_RPT_BOND_BID_ACK,
            trade_msg_type: Some(msg_type::EXEC_RPT_BOND_BID_TRADE),
            allow_partial: false,
        }
    } else if mt == msg_type::NEW_ORDER_INTERBANK_ETF {
        BizInfo {
            name: "跨银行间ETF实物申购赎回",
            appl_id: "470",
            ack_msg_type: msg_type::EXEC_RPT_INTERBANK_ETF_ACK,
            trade_msg_type: None,
            allow_partial: false,
        }
    } else if mt == msg_type::NEW_ORDER_HK_CONNECT {
        BizInfo {
            name: "港股通",
            appl_id: "630",
            ack_msg_type: msg_type::EXEC_RPT_HK_ACK,
            trade_msg_type: Some(msg_type::EXEC_RPT_HK_TRADE),
            allow_partial: false,
        }
    } else {
        BizInfo {
            name: "未知业务",
            appl_id: "010",
            ack_msg_type: msg_type::EXEC_RPT_CASH_ACK,
            trade_msg_type: Some(msg_type::EXEC_RPT_CASH_TRADE),
            allow_partial: false,
        }
    }
}

/// The business of a type of new orders.
pub fn biz_info(mt: u32) -> (r: BizInfo)
    ensures
        r == business(mt),
{
    proof {
        reveal(business);
    }
    if mt == msg_type::NEW_ORDER_CASH {
        BizInfo {
            name: "现货集中竞价",
            appl_id: "010",
            ack_msg_type: msg_type::EXEC_RPT_CASH_ACK,
            trade_msg_type: Some(msg_type::EXEC_RPT_CASH_TRADE),
            allow_partial: true,
        }
    } else if mt == msg_type::NEW_ORDER_BOND_REPO {
        BizInfo {
            name: "债券通用质押式回购",
            appl_id: "020",
            ack_msg_type: msg_type::EXEC_RPT_BOND_REPO_ACK,
            trade_msg_type: Some(msg_type::EXEC_RPT_BOND_REPO_TRADE),
            allow_partial: false,
        }
    } else if mt == msg_type::NEW_ORDER_BOND_DIST {
        BizInfo {
            name: "债券分销",
            appl_id: "030",
            ack_msg_type: msg_type::EXEC_RPT_BOND_DIST_ACK,
            trade_msg_type: Some(msg_type::EXEC_RPT_BOND_DIST_TRADE),
            allow_partial: false,
        }
    } else if mt == msg_type::NEW_ORDER_OPTION_AUCTION {
        BizInfo {
            name: "期权集中竞价",
            appl_id: "040",
            ack_msg_type: msg_type::EXEC_RPT_OPTION_ACK,
            trade_msg_type: Some(msg_type::EXEC_RPT_OPTION_TRADE),
            allow_partial: false,
        }
    } else if mt == msg_type::NEW_ORDER_AGREEMENT_TRADE {
        BizInfo {
            name: "协议交易",
            appl_id: "051",
            ack_msg_type: msg_type::EXEC_RPT_AGREEMENT_ACK,
            trade_msg_type: Some(msg_type::EXEC_RPT_AGREEMENT_TRADE),
            allow_partial: false,
        }
    } else if mt == msg_type::NEW_ORDER_BLOCK_TRADE {
        BizInfo {
            name: "盘后定价大宗交易",
            appl_id: "060",
            ack_msg_type: msg_type::EXEC_RPT_BLOCK_ACK,
            trade_msg_type: Some(msg_type::EXEC_RPT_BLOCK_TRADE),
            allow_partial: false,
        }
    } else if mt == msg_type::NEW_ORDER_SEC_LENDING {
        BizInfo {
            name: "转融通证券出借",
            appl_id: "070",
            ack_msg_type: msg_type::EXEC_RPT_SEC_LENDING_ACK,
            trade_msg_type: Some(msg_type::EXEC_RPT_SEC_LENDING_TRADE),
            allow_partial: false,
        }
    } else if mt == msg_type::NEW_ORDER_ETF_SUB_RED {
        BizInfo {
            name: "ETF实时申购赎回",
            appl_id: "120",
            ack_msg_type: msg_type::EXEC_RPT_ETF_ACK,
            trade_msg_type: None,
            allow_partial: false,
        }
    } else if mt == msg_type::NEW_ORDER_ISSUE {
        BizInfo {
            name: "网上发行认购",
            appl_id: "130",
            ack_msg_type: msg_type::EXEC_RPT_ISSUE_ACK,
            trade_msg_type: None,
            allow_partial: false,
        }
    } else if mt == msg_type::NEW_ORDER_RIGHTS {
        BizInfo {
            name: "配股认购",
            appl_id: "140",
            ack_msg_type: msg_type::EXEC_RPT_RIGHTS_ACK,
            trade_msg_type: None,
            allow_partial: false,
        }
    } else if mt == msg_type::NEW_ORDER_BOND_CONVERT {
        BizInfo {
            name: "债券转股回售",
            appl_id: "150",
            ack_msg_type: msg_type::EXEC_RPT_BOND_CONVERT_ACK,
            trade_msg_type: None,
            allow_partial: false,
        }
    } else if mt == msg_type::NEW_ORDER_OPTION_EXERCISE {
        BizInfo {
            name: "期权行权",
            appl_id: "160",
            ack_msg_type: msg_type::EXEC_RPT_OPTION_EXERCISE_ACK,
            trade_msg_type: None,
            allow_partial: false,
        }
    } else if mt == msg_type::NEW_ORDER_FUND_SUB_RED {
        BizInfo {
            name: "开放式基金申购赎回",
            appl_id: "170",
            ack_msg_type: msg_type::EXEC_RPT_FUND_ACK,
            trade_msg_type: None,
            allow_partial: false,
        }
    } else if mt == msg_type::NEW_ORDER_TENDER_OFFER {
        BizInfo {
            name: "要约收购",
            appl_id: "180",
            ack_msg_type: msg_type::EXEC_RPT_TENDER_ACK,
            trade_msg_type: None,
            allow_partial: false,
        }
    } else if mt == msg_type::NEW_ORDER_REPO_PLEDGE {
        BizInfo {
            name: "回购质押解押",
            appl_id: "190",
            ack_msg_type: msg_type::EXEC_RPT_REPO_PLEDGE_ACK,
            trade_msg_type: None,
            allow_partial: false,
        }
    } else if mt == msg_type::NEW_ORDER_GOLD_ETF {
        BizInfo {
            name: "黄金ETF实物申购赎回",
            appl_id: "220",
            ack_msg_type: msg_type::EXEC_RPT_GOLD_ETF_ACK,
            trade_msg_type: None,
            allow_partial: false,
        }
    } else if mt == msg_type::NEW_ORDER_WARRANT {
        BizInfo {
            name: "权证行权",
            appl_id: "230",
            ack_msg_type: msg_type::EXEC_RPT_WARRANT_ACK,
            trade_msg_type: None,
            allow_partial: false,
        }
    } else if mt == msg_type::NEW_ORDER_DISPOSAL {
        BizInfo {
            name: "转处置",
            appl_id: "270",
            ack_msg_type: msg_type::EXEC_RPT_DISPOSAL_ACK,
            trade_msg_type: None,
            allow_partial: false,
        }
    } else if mt == msg_type::NEW_ORDER_LEND_RETURN {
        BizInfo {
            name: "垫券还券",
            appl_id: "280",
            ack_msg_type: msg_type::EXEC_RPT_LEND_RETURN_ACK,
            trade_msg_type: None,
            allow_partial: false,
        }
    } else if mt == msg_type::NEW_ORDER_DEDUCTION {
        BizInfo {
            name: "待清偿扣划",
            appl_id: "290",
            ack_msg_type: msg_type::EXEC_RPT_DEDUCTION_ACK,
            trade_msg_type: None,
            allow_partial: false,
        }
    } else if mt == msg_type::NEW_ORDER_SPLIT_MERGE {
        BizInfo {
            name: "分级基金实时分拆合并",
            appl_id: "310",
            ack_msg_type: msg_type::EXEC_RPT_SPLIT_ACK,
            trade_msg_type: None,
            allow_partial: false,
        }
    } else if mt == msg_type::NEW_ORDER_3P_REPO {
        BizInfo {
            name: "债券质押式三方回购入库出库",
            appl_id: "330",
            ack_msg_type: msg_type::EXEC_RPT_3P_REPO_ACK,
            trade_msg_type: None,
            allow_partial: false,
        }
    } else if mt == msg_type::NEW_ORDER_OPTION_CONVERT {
        BizInfo {
            name: "期权普通与备兑仓互转",
            appl_id: "350",
            ack_msg_type: msg_type::EXEC_RPT_OPTION_CONVERT_ACK,
            trade_msg_type: None,
            allow_partial: false,
        }
    } else if mt == msg_type::NEW_ORDER_AFTER_HOURS {
        BizInfo {
            name: "盘后定价交易",
            appl_id: "370",
            ack_msg_type: msg_type::EXEC_RPT_AFTER_HOURS_ACK,
            trade_msg_type: Some(msg_type::EXEC_RPT_AFTER_HOURS_TRADE),
            allow_partial: false,
        }
    } else if mt == msg_type::NEW_ORDER_BOND_CASH {
        BizInfo {
            name: "债券现券匹配成交",
            appl_id: "410",
            ack_msg_type: msg_type::EXEC_RPT_BOND_CASH_ACK,
            trade_msg_type: Some(msg_type::EXEC_RPT_BOND_CASH_TRADE),
            allow_partial: false,
        }
    } else if mt == msg_type::NEW_ORDER_BOND_BID {
        BizInfo {
            name: "债券现券竞买成交",
            appl_id: "417",
            ack_msg_type: msg_type::EXEC_RPT_BOND_BID_ACK,
            trade_msg_type: Some(msg_type::EXEC_RPT_BOND_BID_TRADE),
            allow_partial: false,
        }
    } else if mt == msg_type::NEW_ORDER_INTERBANK_ETF {
        BizInfo {
            name: "跨银行间ETF实物申购赎回",
            appl_id: "470",
            ack_msg_type: msg_type::EXEC_RPT_INTERBANK_ETF_ACK,
            trade_msg_type: None,
            allow_partial: false,
        }
    } else if mt == msg_type::NEW_ORDER_HK_CONNECT {
        BizInfo {
            name: "港股通",
            appl_id: "630",
            ack_msg_type: msg_type::EXEC_RPT_HK_ACK,
            trade_msg_type: Some(msg_type::EXEC_RPT_HK_TRADE),
            allow_partial: false,
        }
    } else {
        BizInfo {
            name: "未知业务",
            appl_id: "010",
            ack_msg_type: msg_type::EXEC_RPT_CASH_ACK,
            trade_msg_type: Some(msg_type::EXEC_RPT_CASH_TRADE),
            allow_partial: false,
        }
    }
}

/// The type of new orders that a business code belongs to.
#[verifier::opaque]
pub open spec fn order_type(appl_id: Seq<char>) -> Option<u32> {
    if appl_id == "010"@ {
        Some(msg_type::NEW_ORDER_CASH)
    } else if appl_id == "020"@ {
        Some(msg_type::NEW_ORDER_BOND_REPO)
    } else if appl_id == "030"@ {
        Some(msg_type::NEW_ORDER_BOND_DIST)
    } else if appl_id == "040"@ {
        Some(msg_type::NEW_ORDER_OPTION_AUCTION)
    } else if appl_id == "051"@ || appl_id == "052"@ {
        Some(msg_type::NEW_ORDER_AGREEMENT_TRADE)
    } else if appl_id == "060"@ || appl_id == "061"@ {
        Some(msg_type::NEW_ORDER_BLOCK_TRADE)
    } else if appl_id == "070"@ {
        Some(msg_type::NEW_ORDER_SEC_LENDING)
    } else if appl_id == "120"@ {
        Some(msg_type::NEW_ORDER_ETF_SUB_RED)
    } else if appl_id == "130"@ || appl_id == "131"@ || appl_id == "132"@ {
        Some(msg_type::NEW_ORDER_ISSUE)
    } else if appl_id == "140"@ {
        Some(msg_type::NEW_ORDER_RIGHTS)
    } else if appl_id == "150"@ || appl_id == "151"@ || appl_id == "152"@ {
        Some(msg_type::NEW_ORDER_BOND_CONVERT)
    } else if appl_id == "160"@ {
        Some(msg_type::NEW_ORDER_OPTION_EXERCISE)
    } else if appl_id == "170"@ {
        Some(msg_type::NEW_ORDER_FUND_SUB_RED)
    } else if appl_id == "180"@ || appl_id == "181"@ {
        Some(msg_type::NEW_ORDER_TENDER_OFFER)
    } else if appl_id == "190"@ || appl_id == "191"@ {
        Some(msg_type::NEW_ORDER_REPO_PLEDGE)
    } else if appl_id == "220"@ {
        Some(msg_type::NEW_ORDER_GOLD_ETF)
    } else if appl_id == "230"@ {
        Some(msg_type::NEW_ORDER_WARRANT)
    } else if appl_id == "270"@ || appl_id == "271"@ {
        Some(msg_type::NEW_ORDER_DISPOSAL)
    } else if appl_id == "280"@ || appl_id == "281"@ {
        Some(msg_type::NEW_ORDER_LEND_RETURN)
    } else if appl_id == "290"@ || appl_id == "291"@ {
        Some(msg_type::NEW_ORDER_DEDUCTION)
    } else if appl_id == "310"@ || appl_id == "311"@ {
        Some(msg_type::NEW_ORDER_SPLIT_MERGE)
    } else if appl_id == "330"@ || appl_id == "331"@ {
        Some(msg_type::NEW_ORDER_3P_REPO)
    } else if appl_id == "350"@ || appl_id == "351"@ {
        Some(msg_type::NEW_ORDER_OPTION_CONVERT)
    } else if appl_id == "370"@ {
        Some(msg_type::NEW_ORDER_AFTER_HOURS)
    } else if appl_id == "410"@ {
        Some(msg_type::NEW_ORDER_BOND_CASH)
    } else if appl_id == "417"@ {
        Some(msg_type::NEW_ORDER_BOND_BID)
    } else if appl_id == "470"@ {
        Some(msg_type::NEW_ORDER_INTERBANK_ETF)
    } else if appl_id == "630"@ {
        Some(msg_type::NEW_ORDER_HK_CONNECT)
    } else {
        None
    }
}

/// The type of new orders that a business code belongs to.
pub fn order_msg_type_by_appl_id(appl_id: &str) -> (r: Option<u32>)
    ensures
        r == order_type(appl_id@),
{
    proof {
        reveal(order_type);
    }
    if text::same_text(appl_id, "010") {
        Some(msg_type::NEW_ORDER_CASH)
    } else if text::same_text(appl_id, "020") {
        Some(msg_type::NEW_ORDER_BOND_REPO)
    } else if text::same_text(appl_id, "030") {
        Some(msg_type::NEW_ORDER_BOND_DIST)
    } else if text::same_text(appl_id, "040") {
        Some(msg_type::NEW_ORDER_OPTION_AUCTION)
    } else if text::same_text(appl_id, "051") || text::same_text(appl_id, "052") {
        Some(msg_type::NEW_ORDER_AGREEMENT_TRADE)
    } else if text::same_text(appl_id, "060") || text::same_text(appl_id, "061") {
        Some(msg_type::NEW_ORDER_BLOCK_TRADE)
    } else if text::same_text(appl_id, "070") {
        Some(msg_type::NEW_ORDER_SEC_LENDING)
    } else if text::same_text(appl_id, "120") {
        Some(msg_type::NEW_ORDER_ETF_SUB_RED)
    } else if text::same_text(appl_id, "130") || text::same_text(appl_id, "131") || text::same_text(appl_id, "132") {
        Some(msg_type::NEW_ORDER_ISSUE)
    } else if text::same_text(appl_id, "140") {
        Some(msg_type::NEW_ORDER_RIGHTS)
    } else if text::same_text(appl_id, "150") || text::same_text(appl_id, "151") || text::same_text(appl_id, "152") {
        Some(msg_type::NEW_ORDER_BOND_CONVERT)
    } else if text::same_text(appl_id, "160") {
        Some(msg_type::NEW_ORDER_OPTION_EXERCISE)
    } else if text::same_text(appl_id, "170") {
        Some(msg_type::NEW_ORDER_FUND_SUB_RED)
    } else if text::same_text(appl_id, "180") || text::same_text(appl_id, "181") {
        Some(msg_type::NEW_ORDER_TENDER_OFFER)
    } else if text::same_text(appl_id, "190") || text::same_text(appl_id, "191") {
        Some(msg_type::NEW_ORDER_REPO_PLEDGE)
    } else if text::same_text(appl_id, "220") {
        Some(msg_type::NEW_ORDER_GOLD_ETF)
    } else if text::same_text(appl_id, "230") {
        Some(msg_type::NEW_ORDER_WARRANT)
    } else if text::same_text(appl_id, "270") || text::same_text(appl_id, "271") {
        Some(msg_type::NEW_ORDER_DISPOSAL)
    } else if text::same_text(appl_id, "280") || text::same_text(appl_id, "281") {
        Some(msg_type::NEW_ORDER_LEND_RETURN)
    } else if text::same_text(appl_id, "290") || text::same_text(appl_id, "291") {
        Some(msg_type::NEW_ORDER_DEDUCTION)
    } else if text::same_text(appl_id, "310") || text::same_text(appl_id, "311") {
        Some(msg_type::NEW_ORDER_SPLIT_MERGE)
    } else if text::same_text(appl_id, "330") || text::same_text(appl_id, "331") {
        Some(msg_type::NEW_ORDER_3P_REPO)
    } else if text::same_text(appl_id, "350") || text::same_text(appl_id, "351") {
        Some(msg_type::NEW_ORDER_OPTION_CONVERT)
    } else if text::same_text(appl_id, "370") {
        Some(msg_type::NEW_ORDER_AFTER_HOURS)
    } else if text::same_text(appl_id, "410") {
        Some(msg_type::NEW_ORDER_BOND_CASH)
    } else if text::same_text(appl_id, "417") {
        Some(msg_type::NEW_ORDER_BOND_BID)
    } else if text::same_text(appl_id, "470") {
        Some(msg_type::NEW_ORDER_INTERBANK_ETF)
    } else if text::same_text(appl_id, "630") {
        Some(msg_type::NEW_ORDER_HK_CONNECT)
    } else {
        None
    }
}

/// The business of a business code.
pub open spec fn business_of(appl_id: Seq<char>) -> Option<BizInfo> {
    match order_type(appl_id) {
        Some(mt) => Some(business(mt)),
        None => None,
    }
}

/// The business of a business code.
pub fn biz_info_by_appl_id(appl_id: &str) -> (r: Option<BizInfo>)
    ensures
        r == business_of(appl_id@),
{
    match order_msg_type_by_appl_id(appl_id) {
        Some(mt) => Some(biz_info(mt)),
        None => None,
    }
}

/// The platform that a business code belongs to.
#[verifier::opaque]
pub open spec fn platform_of(code: Seq<char>) -> Option<u16> {
    if code == "010"@ {
        Some(1)
    } else if code == "050"@
        || code == "051"@
        || code == "052"@
        || code == "053"@
        || code == "055"@
        || code == "056"@
        || code == "057"@
        || code == "060"@
        || code == "061"@
        || code == "070"@
        || code == "071"@
        || code == "080"@
        || code == "090"@
        || code == "100"@
        || code == "110"@
        || code == "370"@ {
        Some(2)
    } else if code == "120"@
        || code == "130"@
        || code == "131"@
        || code == "132"@
        || code == "140"@
        || code == "150"@
        || code == "151"@
        || code == "152"@
        || code == "160"@
        || code == "161"@
        || code == "170"@
        || code == "180"@
        || code == "181"@
        || code == "200"@
        || code == "210"@
        || code == "220"@
        || code == "230"@
        || code == "240"@
        || code == "241"@
        || code == "250"@
        || code == "270"@
        || code == "271"@
        || code == "280"@
        || code == "281"@
        || code == "290"@
        || code == "291"@
        || code == "310"@
        || code == "311"@
        || code == "470"@ {
        Some(3)
    } else if code == "040"@
        || code == "041"@
        || code == "042"@
        || code == "340"@
        || code == "341"@
        || code == "350"@
        || code == "351"@ {
        Some(4)
    } else if code == "630"@ {
        Some(5)
    } else if code == "020"@
        || code == "030"@
        || code == "190"@
        || code == "191"@
        || code == "300"@
        || code == "320"@
        || code == "330"@
        || code == "331"@
        || code == "410"@
        || code == "411"@
        || code == "412"@
        || code == "413"@
        || code == "414"@
        || code == "415"@
        || code == "416"@
        || code == "417"@
        || code == "419"@
        || code == "41A"@
        || code == "420"@
        || code == "430"@ {
        Some(6)
    } else {
        None
    }
}

/// The platform that a business code belongs to; white space behind the code is ignored.
pub fn platform_of_appl_id(appl_id: &str) -> (r: Option<u16>)
    ensures
        r == platform_of(text::trimmed(appl_id@)),
{
    proof {
        reveal(platform_of);
    }
    let code = text::trim_end(appl_id);
    if text::same_text(code, "010") {
        Some(1)
    } else if text::same_text(code, "050")
        || text::same_text(code, "051")
        || text::same_text(code, "052")
        || text::same_text(code, "053")
        || text::same_text(code, "055")
        || text::same_text(code, "056")
        || text::same_text(code, "057")
        || text::same_text(code, "060")
        || text::same_text(code, "061")
        || text::same_text(code, "070")
        || text::same_text(code, "071")
        || text::same_text(code, "080")
        || text::same_text(code, "090")
        || text::same_text(code, "100")
        || text::same_text(code, "110")
        || text::same_text(code, "370") {
        Some(2)
    } else if text::same_text(code, "120")
        || text::same_text(code, "130")
        || text::same_text(code, "131")
        || text::same_text(code, "132")
        || text::same_text(code, "140")
        || text::same_text(code, "150")
        || text::same_text(code, "151")
        || text::same_text(code, "152")
        || text::same_text(code, "160")
        || text::same_text(code, "161")
        || text::same_text(code, "170")
        || text::same_text(code, "180")
        || text::same_text(code, "181")
        || text::same_text(code, "200")
        || text::same_text(code, "210")
        || text::same_text(code, "220")
        || text::same_text(code, "230")
        || text::same_text(code, "240")
        || text::same_text(code, "241")
        || text::same_text(code, "250")
        || text::same_text(code, "270")
        || text::same_text(code, "271")
        || text::same_text(code, "280")
        || text::same_text(code, "281")
        || text::same_text(code, "290")
        || text::same_text(code, "291")
        || text::same_text(code, "310")
        || text::same_text(code, "311")
        || text::same_text(code, "470") {
        Some(3)
    } else if text::same_text(code, "040")
        || text::same_text(code, "041")
        || text::same_text(code, "042")
        || text::same_text(code, "340")
        || text::same_text(code, "341")
        || text::same_text(code, "350")
        || text::same_text(code, "351") {
        Some(4)
    } else if text::same_text(code, "630") {
        Some(5)
    } else if text::same_text(code, "020")
        || text::same_text(code, "030")
        || text::same_text(code, "190")
        || text::same_text(code, "191")
        || text::same_text(code, "300")
        || text::same_text(code, "320")
        || text::same_text(code, "330")
        || text::same_text(code, "331")
        || text::same_text(code, "410")
        || text::same_text(code, "411")
        || text::same_text(code, "412")
        || text::same_text(code, "413")
        || text::same_text(code, "414")
        || text::same_text(code, "415")
        || text::same_text(code, "416")
        || text::same_text(code, "417")
        || text::same_text(code, "419")
        || text::same_text(code, "41A")
        || text::same_text(code, "420")
        || text::same_text(code, "430") {
        Some(6)
    } else {
        None
    }
}

/// Every business code that orders can carry belongs to exactly one platform.
pub proof fn law_businesses_have_platforms(appl_id: Seq<char>)
    requires
        order_type(appl_id) is Some,
    ensures
        platform_of(appl_id) is Some,
{
    reveal(order_type);
    reveal(platform_of);
}

/// The platforms are numbered from one to six, white space behind a business code changes
/// nothing, and every business code that orders can carry has a platform.
pub proof fn law_platforms(code: Seq<char>, blanks: Seq<char>)
    requires
        text::is_blank(blanks),
    ensures
        platform_of(code) matches Some(p) ==> 1 <= p <= 6,
        platform_of(text::trimmed(code + blanks)) == platform_of(text::trimmed(code)),
        business_of(code) is Some ==> text::trimmed(code) == code && platform_of(code) is Some,
{
    reveal(platform_of);
    text::lemma_trim_behind(code, blanks);
    if order_type(code) is Some {
        law_businesses_have_platforms(code);
        lemma_codes_are_short(code);
    }
}

/// A text of three digits, and the number that they make.
spec fn is_code(s: Seq<char>, n: int) -> bool {
    &&& s.len() == 3
    &&& '0' <= s[2] <= '9'
    &&& n == (s[0] as int - 48) * 100 + (s[1] as int - 48) * 10 + (s[2] as int - 48)
}

/// The numbers of the business codes that orders can carry.
proof fn lemma_code_numbers()
    ensures
        is_code("010"@, 10),
        is_code("020"@, 20),
        is_code("030"@, 30),
        is_code("040"@, 40),
        is_code("051"@, 51),
        is_code("052"@, 52),
        is_code("060"@, 60),
        is_code("061"@, 61),
        is_code("070"@, 70),
        is_code("120"@, 120),
        is_code("130"@, 130),
        is_code("131"@, 131),
        is_code("132"@, 132),
        is_code("140"@, 140),
        is_code("150"@, 150),
        is_code("151"@, 151),
        is_code("152"@, 152),
        is_code("160"@, 160),
        is_code("170"@, 170),
        is_code("180"@, 180),
        is_code("181"@, 181),
        is_code("190"@, 190),
        is_code("191"@, 191),
        is_code("220"@, 220),
        is_code("230"@, 230),
        is_code("270"@, 270),
        is_code("271"@, 271),
        is_code("280"@, 280),
        is_code("281"@, 281),
        is_code("290"@, 290),
        is_code("291"@, 291),
        is_code("310"@, 310),
        is_code("311"@, 311),
        is_code("330"@, 330),
        is_code("331"@, 331),
        is_code("350"@, 350),
        is_code("351"@, 351),
        is_code("370"@, 370),
        is_code("410"@, 410),
        is_code("417"@, 417),
        is_code("470"@, 470),
        is_code("630"@, 630),
{
    reveal_strlit("010");
    reveal_strlit("020");
    reveal_strlit("030");
    reveal_strlit("040");
    reveal_strlit("051");
    reveal_strlit("052");
    reveal_strlit("060");
    reveal_strlit("061");
    reveal_strlit("070");
    reveal_strlit("120");
    reveal_strlit("130");
    reveal_strlit("131");
    reveal_strlit("132");
    reveal_strlit("140");
    reveal_strlit("150");
    reveal_strlit("151");
    reveal_strlit("152");
    reveal_strlit("160");
    reveal_strlit("170");
    reveal_strlit("180");
    reveal_strlit("181");
    reveal_strlit("190");
    reveal_strlit("191");
    reveal_strlit("220");
    reveal_strlit("230");
    reveal_strlit("270");
    reveal_strlit("271");
    reveal_strlit("280");
    reveal_strlit("281");
    reveal_strlit("290");
    reveal_strlit("291");
    reveal_strlit("310");
    reveal_strlit("311");
    reveal_strlit("330");
    reveal_strlit("331");
    reveal_strlit("350");
    reveal_strlit("351");
    reveal_strlit("370");
    reveal_strlit("410");
    reveal_strlit("417");
    reveal_strlit("470");
    reveal_strlit("630");
}

/// A business code that orders can carry has three characters, and no white space at its end.
proof fn lemma_codes_are_short(code: Seq<char>)
    requires
        order_type(code) is Some,
    ensures
        code.len() == 3,
        text::trimmed(code) == code,
{
    reveal(order_type);
    lemma_code_numbers();
}

/// The code that a business names belongs to the type of new orders of that business.
proof fn lemma_business_names_itself(code: Seq<char>)
    requires
        order_type(code) is Some,
    ensures
        order_type(business(order_type(code)->0).appl_id@) == order_type(code),
{
    reveal(order_type);
    lemma_code_numbers();
    assert(order_type("010"@) == Some(msg_type::NEW_ORDER_CASH));
    assert(order_type("020"@) == Some(msg_type::NEW_ORDER_BOND_REPO));
    assert(order_type("030"@) == Some(msg_type::NEW_ORDER_BOND_DIST));
    assert(order_type("040"@) == Some(msg_type::NEW_ORDER_OPTION_AUCTION));
    assert(order_type("051"@) == Some(msg_type::NEW_ORDER_AGREEMENT_TRADE));
    assert(order_type("060"@) == Some(msg_type::NEW_ORDER_BLOCK_TRADE));
    assert(order_type("070"@) == Some(msg_type::NEW_ORDER_SEC_LENDING));
    assert(order_type("120"@) == Some(msg_type::NEW_ORDER_ETF_SUB_RED));
    assert(order_type("130"@) == Some(msg_type::NEW_ORDER_ISSUE));
    assert(order_type("140"@) == Some(msg_type::NEW_ORDER_RIGHTS));
    assert(order_type("150"@) == Some(msg_type::NEW_ORDER_BOND_CONVERT));
    assert(order_type("160"@) == Some(msg_type::NEW_ORDER_OPTION_EXERCISE));
    assert(order_type("170"@) == Some(msg_type::NEW_ORDER_FUND_SUB_RED));
    assert(order_type("180"@) == Some(msg_type::NEW_ORDER_TENDER_OFFER));
    assert(order_type("190"@) == Some(msg_type::NEW_ORDER_REPO_PLEDGE));
    assert(order_type("220"@) == Some(msg_type::NEW_ORDER_GOLD_ETF));
    assert(order_type("230"@) == Some(msg_type::NEW_ORDER_WARRANT));
    assert(order_type("270"@) == Some(msg_type::NEW_ORDER_DISPOSAL));
    assert(order_type("280"@) == Some(msg_type::NEW_ORDER_LEND_RETURN));
    assert(order_type("290"@) == Some(msg_type::NEW_ORDER_DEDUCTION));
    assert(order_type("310"@) == Some(msg_type::NEW_ORDER_SPLIT_MERGE));
    assert(order_type("330"@) == Some(msg_type::NEW_ORDER_3P_REPO));
    assert(order_type("350"@) == Some(msg_type::NEW_ORDER_OPTION_CONVERT));
    assert(order_type("370"@) == Some(msg_type::NEW_ORDER_AFTER_HOURS));
    assert(order_type("410"@) == Some(msg_type::NEW_ORDER_BOND_CASH));
    assert(order_type("417"@) == Some(msg_type::NEW_ORDER_BOND_BID));
    assert(order_type("470"@) == Some(msg_type::NEW_ORDER_INTERBANK_ETF));
    assert(order_type("630"@) == Some(msg_type::NEW_ORDER_HK_CONNECT));
    reveal(business);
}

/// The business codes whose orders are executed.
pub open spec fn is_executed(code: Seq<char>) -> bool {
    ||| code == "010"@
    ||| code == "020"@
    ||| code == "030"@
    ||| code == "040"@
    ||| code == "051"@
    ||| code == "052"@
    ||| code == "060"@
    ||| code == "061"@
    ||| code == "070"@
    ||| code == "370"@
    ||| code == "410"@
    ||| code == "417"@
    ||| code == "630"@
}

/// The code that a business names is the code of that same business; orders are executed in
/// exactly the businesses of the codes listed; only the cash auction fills them in part; and
/// codes that differ in the kind of filing alone share a business.
pub proof fn law_businesses(code: Seq<char>)
    ensures
        business_of(code) matches Some(b) ==> {
            &&& business_of(b.appl_id@) == Some(b)
            &&& b.trade_msg_type is Some <==> is_executed(code)
            &&& b.allow_partial <==> code == "010"@
        },
        is_executed(code) ==> business_of(code) is Some,
        business_of("051"@) == business_of("052"@),
        business_of("060"@) == business_of("061"@),
        business_of("130"@) == business_of("131"@),
        business_of("130"@) == business_of("132"@),
        business_of("150"@) == business_of("151"@),
        business_of("150"@) == business_of("152"@),
        business_of("180"@) == business_of("181"@),
        business_of("190"@) == business_of("191"@),
        business_of("270"@) == business_of("271"@),
        business_of("280"@) == business_of("281"@),
        business_of("290"@) == business_of("291"@),
        business_of("310"@) == business_of("311"@),
        business_of("330"@) == business_of("331"@),
        business_of("350"@) == business_of("351"@),
{
    if order_type(code) is Some {
        lemma_business_names_itself(code);
    }
    lemma_code_numbers();
    reveal(order_type);
    reveal(business);
}

/// Only the cash auction fills orders in part.
pub proof fn law_partial_only_cash(mt: u32)
    ensures
        business(mt).allow_partial <==> mt == msg_type::NEW_ORDER_CASH,
{
    reveal(business);
}

/// `v`, or `d` where `v` is empty.
pub open spec fn filled_or(v: Seq<char>, d: Seq<char>) -> Seq<char> {
    if v.len() == 0 {
        d
    } else {
        v
    }
}

/// `v`, or `default` where `v` is empty.
pub fn fill_or(v: &str, default: &str) -> (r: String)
    ensures
        r@ == filled_or(v@, default@),
{
    if v.is_empty() {
        default.to_owned()
    } else {
        v.to_owned()
    }
}

/// Shares in the units of the interface.
pub fn qty_raw(shares: i64) -> (r: i64)
    requires
        i64::MIN <= shares * 100 <= i64::MAX,
    ensures
        r == shares * 100,
{
    shares * QTY_UNIT
}

/// The acknowledgement of an order.
pub open spec fn ack_of(
    partition_no: i32,
    o: NewOrderView,
    biz: BizInfo,
    order_id: Seq<char>,
    exec_id: Seq<char>,
    now: i64,
) -> ExecRptAckView {
    let c = o.common;
    ExecRptAckView {
        msg_type: biz.ack_msg_type,
        partition_no,
        report_index: 0,
        appl_id: filled_or(c.appl_id, biz.appl_id@),
        reporting_pbu_id: c.submitting_pbu_id,
        submitting_pbu_id: c.submitting_pbu_id,
        security_id: c.security_id,
        security_id_source: filled_or(c.security_id_source, "102"@),
        owner_type: c.owner_type,
        clearing_firm: c.clearing_firm,
        transact_time: now,
        user_info: c.user_info,
        order_id,
        cl_ord_id: c.cl_ord_id,
        orig_cl_ord_id: Seq::empty(),
        exec_id,
        exec_type: exec_type::NEW,
        ord_status: ord_status::NEW,
        ord_rej_reason: 0,
        leaves_qty: c.order_qty,
        cum_qty: 0,
        side: c.side,
        ord_type: c.ord_type,
        order_qty: c.order_qty,
        price: c.price,
        account_id: c.account_id,
        branch_id: c.branch_id,
        order_restrictions: c.order_restrictions,
        extend: o.extend,
    }
}

/// The acknowledgement of an order.
pub fn base_ack(
    partition_no: i32,
    order: &NewOrder,
    biz: &BizInfo,
    order_id: &str,
    exec_id: String,
    now: i64,
) -> (r: ExecRptAck)
    ensures
        r@ == ack_of(partition_no, order@, *biz, order_id@, exec_id@, now),
{
    let c = &order.common;
    ExecRptAck {
        msg_type: biz.ack_msg_type,
        partition_no,
        report_index: 0,
        appl_id: fill_or(c.appl_id.as_str(), biz.appl_id),
        reporting_pbu_id: c.submitting_pbu_id.clone(),
        submitting_pbu_id: c.submitting_pbu_id.clone(),
        security_id: c.security_id.clone(),
        security_id_source: fill_or(c.security_id_source.as_str(), "102"),
        owner_type: c.owner_type,
        clearing_firm: c.clearing_firm.clone(),
        transact_time: now,
        user_info: c.user_info.clone(),
        order_id: order_id.to_owned(),
        cl_ord_id: c.cl_ord_id.clone(),
        orig_cl_ord_id: String::new(),
        exec_id,
        exec_type: exec_type::NEW,
        ord_status: ord_status::NEW,
        ord_rej_reason: 0,
        leaves_qty: c.order_qty,
        cum_qty: 0,
        side: c.side,
        ord_type: c.ord_type,
        order_qty: c.order_qty,
        price: c.price,
        account_id: c.account_id.clone(),
        branch_id: c.branch_id.clone(),
        order_restrictions: c.order_restrictions.clone(),
        extend: order.extend,
    }
}

/// The rejection of an order by an execution report.
pub open spec fn reject_of(
    partition_no: i32,
    o: NewOrderView,
    biz: BizInfo,
    order_id: Seq<char>,
    exec_id: Seq<char>,
    reason: u16,
    now: i64,
) -> ExecRptAckView {
    ExecRptAckView {
        exec_type: exec_type::REJECT,
        ord_status: ord_status::REJECTED,
        ord_rej_reason: reason,
        leaves_qty: 0,
        cum_qty: 0,
        ..ack_of(partition_no, o, biz, order_id, exec_id, now)
    }
}

/// The rejection of an order by a message of its own.
pub open spec fn business_reject_of(
    o: NewOrderView,
    biz: BizInfo,
    reason: u16,
    reject_text: Seq<char>,
    now: i64,
) -> BusinessRejectView {
    BusinessRejectView {
        appl_id: filled_or(o.common.appl_id, biz.appl_id@),
        transact_time: now,
        submitting_pbu_id: o.common.submitting_pbu_id,
        security_id: o.common.security_id,
        security_id_source: o.common.security_id_source,
        ref_seq_num: 0,
        ref_msg_type: o.msg_type,
        business_reject_ref_id: o.common.cl_ord_id,
        business_reject_reason: reason,
        business_reject_text: reject_text,
    }
}

/// An execution of an order.
pub open spec fn trade_of(
    partition_no: i32,
    o: NewOrderView,
    biz: BizInfo,
    order_id: Seq<char>,
    exec_id: Seq<char>,
    mt: u32,
    fill: (i64, i64),
    cum: int,
    leaves: int,
    now: i64,
) -> ExecRptTradeView {
    let c = o.common;
    ExecRptTradeView {
        msg_type: mt,
        partition_no,
        report_index: 0,
        appl_id: filled_or(c.appl_id, biz.appl_id@),
        reporting_pbu_id: c.submitting_pbu_id,
        submitting_pbu_id: c.submitting_pbu_id,
        security_id: c.security_id,
        security_id_source: filled_or(c.security_id_source, "102"@),
        owner_type: c.owner_type,
        clearing_firm: c.clearing_firm,
        transact_time: now,
        user_info: c.user_info,
        order_id,
        cl_ord_id: c.cl_ord_id,
        exec_id,
        exec_type: exec_type::TRADE,
        ord_status: if leaves == 0 {
            ord_status::FILLED
        } else {
            ord_status::PARTIALLY_FILLED
        },
        last_px: fill.1,
        last_qty: fill.0,
        leaves_qty: leaves as i64,
        cum_qty: cum as i64,
        side: c.side,
        account_id: c.account_id,
        branch_id: c.branch_id,
        extend: o.extend,
    }
}

fn build_trade(
    partition_no: i32,
    order: &NewOrder,
    biz: &BizInfo,
    order_id: &str,
    exec_id: String,
    mt: u32,
    fill: (i64, i64),
    cum: i64,
    leaves: i64,
    now: i64,
) -> (r: ExecRptTrade)
    ensures
        r@ == trade_of(
            partition_no,
            order@,
            *biz,
            order_id@,
            exec_id@,
            mt,
            fill,
            cum as int,
            leaves as int,
            now,
        ),
{
    let c = &order.common;
    ExecRptTrade {
        msg_type: mt,
        partition_no,
        report_index: 0,
        appl_id: fill_or(c.appl_id.as_str(), biz.appl_id),
        reporting_pbu_id: c.submitting_pbu_id.clone(),
        submitting_pbu_id: c.submitting_pbu_id.clone(),
        security_id: c.security_id.clone(),
        security_id_source: fill_or(c.security_id_source.as_str(), "102"),
        owner_type: c.owner_type,
        clearing_firm: c.clearing_firm.clone(),
        transact_time: now,
        user_info: c.user_info.clone(),
        order_id: order_id.to_owned(),
        cl_ord_id: c.cl_ord_id.clone(),
        exec_id,
        exec_type: exec_type::TRADE,
        ord_status: if leaves == 0 {
            ord_status::FILLED
        } else {
            ord_status::PARTIALLY_FILLED
        },
        last_px: fill.1,
        last_qty: fill.0,
        leaves_qty: leaves,
        cum_qty: cum,
        side: c.side,
        account_id: c.account_id.clone(),
        branch_id: c.branch_id.clone(),
        extend: order.extend,
    }
}

/// What the log says of an acknowledgement.
pub open spec fn ack_desc(biz: BizInfo, o: NewOrderView, order_id: Seq<char>) -> Seq<char> {
    "确认回报("@ + text::dec(biz.ack_msg_type as nat) + ") ClOrdID="@ + o.common.cl_ord_id
        + " OrderID="@ + text::strip_zeros(order_id)
}

/// What the log says of a rejection by an execution report.
pub open spec fn reject_desc(biz: BizInfo, o: NewOrderView, reason: u16) -> Seq<char> {
    "拒单回报("@ + text::dec(biz.ack_msg_type as nat) + ") ClOrdID="@ + o.common.cl_ord_id
        + " 原因代码="@ + text::dec(reason as nat)
}

/// What the log says of a rejection by a message of its own.
pub open spec fn business_reject_desc(o: NewOrderView, reject_text: Seq<char>) -> Seq<char> {
    "业务拒绝(4) ClOrdID="@ + o.common.cl_ord_id + " 原因="@ + reject_text
}

/// What the log says of an execution.
pub open spec fn trade_desc(
    mt: u32,
    o: NewOrderView,
    i: int,
    n: int,
    fill: (i64, i64),
    leaves: int,
) -> Seq<char> {
    "成交回报("@ + text::dec(mt as nat) + ") ClOrdID="@ + o.common.cl_ord_id + " 第"@ + text::dec(
        (i + 1) as nat,
    ) + "/"@ + text::dec(n as nat) + "笔 价格="@ + text::fixed(fill.1 as int, 10_000) + " 数量="@
        + text::dec_int(fills::toward_zero(fill.0 as int, 100)) + " 剩余="@ + text::dec_int(
        fills::toward_zero(leaves, 100),
    )
}

/// The report on the `i`-th execution.
#[verifier::opaque]
pub open spec fn trade_plan(
    partition_no: i32,
    o: NewOrderView,
    biz: BizInfo,
    order_id: Seq<char>,
    exec_id: Seq<char>,
    mt: u32,
    fs: Seq<(i64, i64)>,
    i: int,
    delay_ms: u64,
    now: i64,
) -> PlannedReportView {
    let cum = cum_after(fs, i + 1);
    let leaves = leaves_after(o.common.order_qty, fs, i + 1);
    PlannedReportView {
        delay_ms,
        kind: ReportKind::Trade,
        frame: trade_of(
            partition_no,
            o,
            biz,
            order_id,
            exec_id,
            mt,
            fs[i],
            cum,
            leaves,
            now,
        ).frame(),
        desc: trade_desc(mt, o, i, fs.len() as int, fs[i], leaves),
        cl_ord_id: o.common.cl_ord_id,
        order_update: Some(
            OrderUpdateView {
                order_id,
                cum_qty: cum as i64,
                leaves_qty: leaves as i64,
                status: if leaves == 0 {
                    OrderStatus::Filled
                } else {
                    OrderStatus::Partial
                },
            },
        ),
    }
}

/// The reports on the executions. `exec_no` is the last number that was handed out.
pub open spec fn trade_plans(
    partition_no: i32,
    o: NewOrderView,
    biz: BizInfo,
    order_id: Seq<char>,
    exec_no: int,
    mt: u32,
    fs: Seq<(i64, i64)>,
    delays: Seq<u64>,
    now: i64,
) -> Seq<PlannedReportView> {
    Seq::new(
        fs.len(),
        |i: int|
            trade_plan(
                partition_no,
                o,
                biz,
                order_id,
                stats::id_text(exec_no + 1 + i),
                mt,
                fs,
                i,
                delays[i + 1],
                now,
            ),
    )
}

/// The report that rejects an order by an execution report.
pub open spec fn reject_plan(
    st: StrategyConfig,
    partition_no: i32,
    o: NewOrderView,
    biz: BizInfo,
    order_id: Seq<char>,
    exec_id: Seq<char>,
    delay_ms: u64,
    now: i64,
) -> PlannedReportView {
    PlannedReportView {
        delay_ms,
        kind: ReportKind::Reject,
        frame: reject_of(partition_no, o, biz, order_id, exec_id, st.reject_reason, now).frame(),
        desc: reject_desc(biz, o, st.reject_reason),
        cl_ord_id: o.common.cl_ord_id,
        order_update: Some(
            OrderUpdateView {
                order_id,
                cum_qty: 0,
                leaves_qty: 0,
                status: OrderStatus::Rejected,
            },
        ),
    }
}

/// The report that rejects an order by a message of its own; it carries no order number.
pub open spec fn business_reject_plan(
    st: StrategyConfig,
    o: NewOrderView,
    biz: BizInfo,
    delay_ms: u64,
    now: i64,
) -> PlannedReportView {
    PlannedReportView {
        delay_ms,
        kind: ReportKind::BusinessReject,
        frame: super::protocol::framed(
            msg_type::BUSINESS_REJECT,
            business_reject_of(o, biz, st.reject_reason, st.reject_text@, now).body(),
        ),
        desc: business_reject_desc(o, st.reject_text@),
        cl_ord_id: o.common.cl_ord_id,
        order_update: Some(
            OrderUpdateView {
                order_id: Seq::empty(),
                cum_qty: 0,
                leaves_qty: 0,
                status: OrderStatus::Rejected,
            },
        ),
    }
}

/// The report that acknowledges an order.
pub open spec fn ack_plan(
    partition_no: i32,
    o: NewOrderView,
    biz: BizInfo,
    order_id: Seq<char>,
    exec_id: Seq<char>,
    delay_ms: u64,
    now: i64,
) -> PlannedReportView {
    PlannedReportView {
        delay_ms,
        kind: ReportKind::Ack,
        frame: ack_of(partition_no, o, biz, order_id, exec_id, now).frame(),
        desc: ack_desc(biz, o, order_id),
        cl_ord_id: o.common.cl_ord_id,
        order_update: Some(
            OrderUpdateView {
                order_id,
                cum_qty: 0,
                leaves_qty: o.common.order_qty,
                status: OrderStatus::New,
            },
        ),
    }
}

/// The reports on an order. `order_no` and `exec_no` are the last numbers that were handed
/// out, `fs` the executions, `delays` the delays of the reports.
pub open spec fn planned(
    st: StrategyConfig,
    partition_no: i32,
    o: NewOrderView,
    biz: BizInfo,
    order_no: int,
    exec_no: int,
    fs: Seq<(i64, i64)>,
    delays: Seq<u64>,
    now: i64,
) -> Seq<PlannedReportView> {
    let order_id = stats::id_text(order_no + 1);
    let exec_id = stats::id_text(exec_no + 1);
    match st.mode {
        StrategyMode::NoAutoReply => Seq::empty(),
        StrategyMode::Reject => match st.reject_via {
            RejectVia::ExecutionReport => seq![
                reject_plan(st, partition_no, o, biz, order_id, exec_id, delays[0], now),
            ],
            RejectVia::BusinessReject => seq![business_reject_plan(st, o, biz, delays[0], now)],
        },
        _ => {
            let ack = seq![ack_plan(partition_no, o, biz, order_id, exec_id, delays[0], now)];
            match biz.trade_msg_type {
                None => ack,
                Some(mt) => ack + trade_plans(
                    partition_no,
                    o,
                    biz,
                    order_id,
                    exec_no + 1,
                    mt,
                    fs,
                    delays,
                    now,
                ),
            }
        },
    }
}

/// How many execution numbers the reports on an order use.
pub open spec fn exec_ids_used(st: StrategyConfig, biz: BizInfo, n: int) -> int {
    match st.mode {
        StrategyMode::NoAutoReply => 0,
        StrategyMode::Reject => match st.reject_via {
            RejectVia::ExecutionReport => 1,
            RejectVia::BusinessReject => 0,
        },
        _ => if biz.trade_msg_type is Some {
            1 + n
        } else {
            1
        },
    }
}

/// The units of the interface.
pub open spec fn units() -> Units {
    Units { share: 100, price: 10 }
}

/// What of an order decides its executions.
pub open spec fn terms(o: NewOrderView) -> Terms {
    Terms { qty: o.common.order_qty, price: o.common.price, side: o.common.side }
}

fn order_terms(order: &NewOrder) -> (r: Terms)
    ensures
        r == terms(order@),
{
    Terms { qty: order.common.order_qty, price: order.common.price, side: order.common.side }
}

/// The business of an order reports executions.
pub open spec fn trades(o: NewOrderView) -> bool {
    business(o.msg_type).trade_msg_type is Some
}

/// Whatever is drawn, the reports on an order stay in the range of numbers.
pub open spec fn fits(st: StrategyConfig, o: NewOrderView) -> bool {
    trades(o) ==> fills::fits(st, business(o.msg_type).allow_partial, terms(o), units())
}

/// Whether the reports on an order stay in the range of numbers, whatever is drawn.
pub fn check_fits(st: &StrategyConfig, order: &NewOrder) -> (r: bool)
    ensures
        r == fits(*st, order@),
{
    let biz = biz_info(order.msg_type);
    biz.trade_msg_type.is_none() || fills::check_fits(st, biz.allow_partial, order_terms(order), Units { share: QTY_UNIT, price: 10 })
}

/// Some draw takes the reports on an order out of the range of numbers.
pub open spec fn may_leave(st: StrategyConfig, o: NewOrderView) -> bool {
    trades(o) && fills::may_leave(st, business(o.msg_type).allow_partial, terms(o), units())
}

/// Some draw takes the reports on an order out of the range of numbers, unless they stay in it
/// whatever is drawn.
pub proof fn law_fits(st: StrategyConfig, o: NewOrderView)
    ensures
        may_leave(st, o) <==> !fits(st, o),
{
    fills::law_fits(st, business(o.msg_type).allow_partial, terms(o), units());
}

/// The executions that the settings allow for an order: none where its business reports none.
pub open spec fn are_executions(st: StrategyConfig, o: NewOrderView, fs: Seq<(i64, i64)>) -> bool {
    if trades(o) {
        fills::is_fills(st, business(o.msg_type).allow_partial, terms(o), units(), fs)
    } else {
        fs.len() == 0
    }
}

fn plan_reject(
    st: &StrategyConfig,
    partition_no: i32,
    order: &NewOrder,
    biz: &BizInfo,
    order_id: String,
    exec_id: String,
    delay_ms: u64,
    now: i64,
) -> (r: PlannedReport)
    ensures
        r@ == reject_plan(*st, partition_no, order@, *biz, order_id@, exec_id@, delay_ms, now),
{
    let mut rpt = base_ack(partition_no, order, biz, order_id.as_str(), exec_id, now);
    rpt.exec_type = exec_type::REJECT;
    rpt.ord_status = ord_status::REJECTED;
    rpt.ord_rej_reason = st.reject_reason;
    rpt.leaves_qty = 0;
    rpt.cum_qty = 0;
    let mut desc = "拒单回报(".to_owned();
    text::push_dec(&mut desc, biz.ack_msg_type as u64);
    desc.push_str(") ClOrdID=");
    desc.push_str(order.common.cl_ord_id.as_str());
    desc.push_str(" 原因代码=");
    text::push_dec(&mut desc, st.reject_reason as u64);
    PlannedReport {
        delay_ms,
        kind: ReportKind::Reject,
        frame: rpt.encode(),
        desc,
        cl_ord_id: order.common.cl_ord_id.clone(),
        order_update: Some(
            OrderUpdate { order_id, cum_qty: 0, leaves_qty: 0, status: OrderStatus::Rejected },
        ),
    }
}

fn plan_business_reject(
    st: &StrategyConfig,
    order: &NewOrder,
    biz: &BizInfo,
    delay_ms: u64,
    now: i64,
) -> (r: PlannedReport)
    ensures
        r@ == business_reject_plan(*st, order@, *biz, delay_ms, now),
{
    let rej = BusinessReject {
        appl_id: fill_or(order.common.appl_id.as_str(), biz.appl_id),
        transact_time: now,
        submitting_pbu_id: order.common.submitting_pbu_id.clone(),
        security_id: order.common.security_id.clone(),
        security_id_source: order.common.security_id_source.clone(),
        ref_seq_num: 0,
        ref_msg_type: order.msg_type,
        business_reject_ref_id: order.common.cl_ord_id.clone(),
        business_reject_reason: st.reject_reason,
        business_reject_text: st.reject_text.clone(),
    };
    let mut desc = "业务拒绝(4) ClOrdID=".to_owned();
    desc.push_str(order.common.cl_ord_id.as_str());
    desc.push_str(" 原因=");
    desc.push_str(st.reject_text.as_str());
    PlannedReport {
        delay_ms,
        kind: ReportKind::BusinessReject,
        frame: rej.encode(),
        desc,
        cl_ord_id: order.common.cl_ord_id.clone(),
        order_update: Some(
            OrderUpdate {
                order_id: String::new(),
                cum_qty: 0,
                leaves_qty: 0,
                status: OrderStatus::Rejected,
            },
        ),
    }
}

fn plan_ack(
    partition_no: i32,
    order: &NewOrder,
    biz: &BizInfo,
    order_id: &str,
    exec_id: String,
    delay_ms: u64,
    now: i64,
) -> (r: PlannedReport)
    ensures
        r@ == ack_plan(partition_no, order@, *biz, order_id@, exec_id@, delay_ms, now),
{
    let ack = base_ack(partition_no, order, biz, order_id, exec_id, now);
    let mut desc = "确认回报(".to_owned();
    text::push_dec(&mut desc, biz.ack_msg_type as u64);
    desc.push_str(") ClOrdID=");
    desc.push_str(order.common.cl_ord_id.as_str());
    desc.push_str(" OrderID=");
    desc.push_str(text::without_zeros(order_id).as_str());
    PlannedReport {
        delay_ms,
        kind: ReportKind::Ack,
        frame: ack.encode(),
        desc,
        cl_ord_id: order.common.cl_ord_id.clone(),
        order_update: Some(
            OrderUpdate {
                order_id: order_id.to_owned(),
                cum_qty: 0,
                leaves_qty: order.common.order_qty,
                status: OrderStatus::New,
            },
        ),
    }
}

/// The reports on an order, from the executions, the delays and the time.
pub fn plan_with(
    st: &StrategyConfig,
    partition_no: i32,
    order: &NewOrder,
    biz: &BizInfo,
    stats: &mut PlatformStats,
    fs: &Vec<(i64, i64)>,
    delays: &Vec<u64>,
    now: i64,
) -> (r: Vec<PlannedReport>)
    requires
        ids_left(*old(stats)),
        sums_fit(order.common.order_qty, fs@),
        fs@.len() <= 0x7fff_ffff_ffff_ffff,
        delays@.len() > fs@.len(),
    ensures
        report::plan_views(r@) == planned(
            *st,
            partition_no,
            order@,
            *biz,
            old(stats).order_seq as int,
            old(stats).exec_seq as int,
            fs@,
            delays@,
            now,
        ),
        final(stats).order_seq == old(stats).order_seq + 1,
        final(stats).exec_seq == old(stats).exec_seq + exec_ids_used(
            *st,
            *biz,
            fs@.len() as int,
        ),
        final(stats).counters() == old(stats).counters(),
        final(stats).partition_report_index@ == old(stats).partition_report_index@,
{
    let order_id = stats.next_order_id();
    let mut plans: Vec<PlannedReport> = Vec::new();
    match st.mode {
        StrategyMode::NoAutoReply => {
            assert(report::plan_views(plans@) =~= Seq::<PlannedReportView>::empty());
        },
        StrategyMode::Reject => match st.reject_via {
            RejectVia::ExecutionReport => {
                let exec_id = stats.next_exec_id();
                let p = plan_reject(st, partition_no, order, biz, order_id, exec_id, delays[0], now);
                plans.push(p);
                assert(report::plan_views(plans@) =~= seq![p@]);
            },
            RejectVia::BusinessReject => {
                let p = plan_business_reject(st, order, biz, delays[0], now);
                plans.push(p);
                assert(report::plan_views(plans@) =~= seq![p@]);
            },
        },
        _ => {
            let exec_id = stats.next_exec_id();
            let p = plan_ack(partition_no, order, biz, order_id.as_str(), exec_id, delays[0], now);
            plans.push(p);
            assert(report::plan_views(plans@) =~= seq![p@]);
            if let Some(mt) = biz.trade_msg_type {
                plan_trades(
                    partition_no,
                    order,
                    biz,
                    order_id.as_str(),
                    mt,
                    fs,
                    delays,
                    now,
                    stats,
                    &mut plans,
                );
            }
        },
    }
    plans
}

/// Appends the reports on the executions.
fn plan_trades(
    partition_no: i32,
    order: &NewOrder,
    biz: &BizInfo,
    order_id: &str,
    mt: u32,
    fs: &Vec<(i64, i64)>,
    delays: &Vec<u64>,
    now: i64,
    stats: &mut PlatformStats,
    plans: &mut Vec<PlannedReport>,
)
    requires
        old(stats).exec_seq <= 0x7fff_ffff_ffff_ffff,
        sums_fit(order.common.order_qty, fs@),
        fs@.len() <= 0x7fff_ffff_ffff_ffff,
        delays@.len() > fs@.len(),
    ensures
        report::plan_views(final(plans)@) == report::plan_views(old(plans)@) + trade_plans(
            partition_no,
            order@,
            *biz,
            order_id@,
            old(stats).exec_seq as int,
            mt,
            fs@,
            delays@,
            now,
        ),
        final(stats).exec_seq == old(stats).exec_seq + fs@.len(),
        final(stats).order_seq == old(stats).order_seq,
        final(stats).counters() == old(stats).counters(),
        final(stats).partition_report_index@ == old(stats).partition_report_index@,
{
    let ghost head = report::plan_views(plans@);
    let ghost trades = trade_plans(
        partition_no,
        order@,
        *biz,
        order_id@,
        old(stats).exec_seq as int,
        mt,
        fs@,
        delays@,
        now,
    );
    let n: usize = fs.len();
    let mut cum: i64 = 0;
    let mut i: usize = 0;
    assert(fs@.take(0) =~= Seq::<(i64, i64)>::empty());
    assert(trades.take(0) =~= Seq::<PlannedReportView>::empty());
    assert(head + trades.take(0) =~= head);
    while i < n
        invariant
            i <= n,
            n == fs@.len(),
            n <= 0x7fff_ffff_ffff_ffff,
            delays@.len() > n,
            sums_fit(order.common.order_qty, fs@),
            cum == cum_after(fs@, i as int),
            old(stats).exec_seq <= 0x7fff_ffff_ffff_ffff,
            stats.exec_seq == old(stats).exec_seq + i,
            stats.order_seq == old(stats).order_seq,
            stats.counters() == old(stats).counters(),
            stats.partition_report_index@ == old(stats).partition_report_index@,
            trades == trade_plans(
                partition_no,
                order@,
                *biz,
                order_id@,
                old(stats).exec_seq as int,
                mt,
                fs@,
                delays@,
                now,
            ),
            report::plan_views(plans@) == head + trades.take(i as int),
        decreases n - i,
    {
        proof {
            let t = fs@.take(i + 1);
            assert(t.drop_last() =~= fs@.take(i as int));
            assert(t.last() == fs@[i as int]);
            assert(cum_after(fs@, i + 1) == cum_after(fs@, i as int) + fs@[i as int].0);
            assert(fills::sum_fits(order.common.order_qty, cum_after(fs@, i + 1)));
        }
        cum = cum + fs[i].0;
        let exec_id = stats.next_exec_id();
        let ghost before = plans@;
        let p = plan_trade(partition_no, order, biz, order_id, exec_id, mt, fs, i, cum, delays[i + 1], now);
        plans.push(p);
        proof {
            assert(p@ == trades[i as int]);
            assert(report::plan_views(plans@) =~= report::plan_views(before).push(p@));
            assert(trades.take(i + 1) =~= trades.take(i as int).push(trades[i as int]));
            assert(head + trades.take(i + 1) =~= (head + trades.take(i as int)).push(
                trades[i as int],
            ));
        }
        i += 1;
    }
    assert(trades.take(i as int) =~= trades);
}

/// The report on one execution.
fn plan_trade(
    partition_no: i32,
    order: &NewOrder,
    biz: &BizInfo,
    order_id: &str,
    exec_id: String,
    mt: u32,
    fs: &Vec<(i64, i64)>,
    i: usize,
    cum: i64,
    delay_ms: u64,
    now: i64,
) -> (r: PlannedReport)
    requires
        i < fs@.len(),
        sums_fit(order.common.order_qty, fs@),
        cum == cum_after(fs@, i + 1),
    ensures
        r@ == trade_plan(
            partition_no,
            order@,
            *biz,
            order_id@,
            exec_id@,
            mt,
            fs@,
            i as int,
            delay_ms,
            now,
        ),
{
    let fill = fs[i];
    proof {
        reveal(trade_plan);
        assert(fills::sum_fits(order.common.order_qty, cum_after(fs@, i + 1)));
    }
    let rest: i64 = order.common.order_qty - cum;
    let leaves: i64 = if rest < 0 {
        0
    } else {
        rest
    };
    let trade = build_trade(
        partition_no,
        order,
        biz,
        order_id,
        exec_id,
        mt,
        fill,
        cum,
        leaves,
        now,
    );
    PlannedReport {
        delay_ms,
        kind: ReportKind::Trade,
        frame: trade.encode(),
        desc: trade_text(mt, order, i, fs.len(), fill, leaves),
        cl_ord_id: order.common.cl_ord_id.clone(),
        order_update: Some(
            OrderUpdate {
                order_id: order_id.to_owned(),
                cum_qty: cum,
                leaves_qty: leaves,
                status: if leaves == 0 {
                    OrderStatus::Filled
                } else {
                    OrderStatus::Partial
                },
            },
        ),
    }
}

fn trade_text(mt: u32, order: &NewOrder, i: usize, n: usize, fill: (i64, i64), leaves: i64) -> (r: String)
    requires
        i < n,
        leaves >= 0,
    ensures
        r@ == trade_desc(mt, order@, i as int, n as int, fill, leaves as int),
{
    let mut desc = "成交回报(".to_owned();
    text::push_dec(&mut desc, mt as u64);
    desc.push_str(") ClOrdID=");
    desc.push_str(order.common.cl_ord_id.as_str());
    desc.push_str(" 第");
    text::push_dec(&mut desc, i as u64 + 1);
    desc.push_str("/");
    text::push_dec(&mut desc, n as u64);
    desc.push_str("笔 价格=");
    desc.push_str(text::fmt_fixed(fill.1, PX_UNIT).as_str());
    desc.push_str(" 数量=");
    text::push_int(&mut desc, fills::div_toward_zero(fill.0, QTY_UNIT));
    desc.push_str(" 剩余=");
    text::push_int(&mut desc, fills::div_toward_zero(leaves, QTY_UNIT));
    desc
}

/// Pairs the shares of a split with prices that climb or descend to the limit.
pub fn with_ladder_prices(st: &StrategyConfig, order: &NewOrder, qtys: &[i64]) -> (r: Vec<(i64, i64)>)
    requires
        qtys@.len() <= 0xffff_ffff,
        qtys@.len() > 0 ==> fills::ladder_range(
            terms(order@).price as int,
            terms(order@).side == 0x32,
            fills::tick_of(st.price_tick, units()),
            qtys@.len() - 1,
        ),
        forall|i: int| 0 <= i < qtys@.len() ==> i64::MIN <= #[trigger] qtys@[i] * 100 <= i64::MAX,
    ensures
        r@ == fills::laddered(
            qtys@,
            terms(order@),
            fills::tick_of(st.price_tick, units()),
            units(),
        ),
{
    fills::ladder_fills(st, order_terms(order), Units { share: QTY_UNIT, price: 10 }, qtys)
}

/// Makes up the executions of an order in a business.
pub fn gen_fills(st: &StrategyConfig, order: &NewOrder, biz: &BizInfo) -> (r: Vec<(i64, i64)>)
    requires
        fills::fits(*st, biz.allow_partial, terms(order@), units()),
    ensures
        fills::is_fills(*st, biz.allow_partial, terms(order@), units(), r@),
        sums_fit(order.common.order_qty, r@),
{
    proof {
        fills::law_fits(*st, biz.allow_partial, terms(order@), units());
    }
    match fills::make_fills(st, biz.allow_partial, order_terms(order), Units { share: QTY_UNIT, price: 10 }) {
        Some(fs) => fs,
        // Whatever is drawn, the order stays in the range of numbers.
        None => Vec::new(),
    }
}

/// Draws the executions of an order; nothing where what was drawn leads out of the range of
/// numbers.
pub fn draw_fills(st: &StrategyConfig, order: &NewOrder) -> (r: Option<Vec<(i64, i64)>>)
    ensures
        match r {
            Some(fs) => {
                &&& are_executions(*st, order@, fs@)
                &&& sums_fit(order.common.order_qty, fs@)
                &&& fs@.len() <= 0x7fff_ffff_ffff_ffff
            },
            None => may_leave(*st, order@),
        },
{
    let biz = biz_info(order.msg_type);
    if biz.trade_msg_type.is_some() {
        return fills::make_fills(st, biz.allow_partial, order_terms(order), Units { share: QTY_UNIT, price: 10 });
    }
    let none: Vec<(i64, i64)> = Vec::new();
    proof {
        fills::lemma_no_fills(order.common.order_qty, none@);
    }
    Some(none)
}

/// Reports that the settings allow for an order, with the numbers that they use and the time
/// that they carry.
#[verifier::opaque]
pub open spec fn may_plan(
    st: StrategyConfig,
    partition_no: i32,
    o: NewOrderView,
    before: PlatformStats,
    after: PlatformStats,
    plans: Seq<PlannedReportView>,
    fs: Seq<(i64, i64)>,
    delays: Seq<u64>,
    at: LocalTime,
) -> bool {
    let biz = business(o.msg_type);
    &&& at.wf()
    &&& are_executions(st, o, fs)
    &&& delays_ok(st, delays, fs.len())
    &&& plans == planned(
        st,
        partition_no,
        o,
        biz,
        before.order_seq as int,
        before.exec_seq as int,
        fs,
        delays,
        clock::timestamp_of(at) as i64,
    )
    &&& after.order_seq == before.order_seq + 1
    &&& after.exec_seq == before.exec_seq + exec_ids_used(st, biz, fs.len() as int)
    &&& after.counters() == before.counters()
    &&& after.partition_report_index@ == before.partition_report_index@
}

/// The reports on an order with the given executions.
pub fn plan_fills(
    st: &StrategyConfig,
    partition_no: i32,
    order: &NewOrder,
    stats: &mut PlatformStats,
    fs: &Vec<(i64, i64)>,
) -> (r: Vec<PlannedReport>)
    requires
        ids_left(*old(stats)),
        are_executions(*st, order@, fs@),
        sums_fit(order.common.order_qty, fs@),
        fs@.len() <= 0x7fff_ffff_ffff_ffff,
    ensures
        exists|delays: Seq<u64>, at: LocalTime|
            may_plan(
                *st,
                partition_no,
                order@,
                *old(stats),
                *final(stats),
                report::plan_views(r@),
                fs@,
                delays,
                at,
            ),
{
    let biz = biz_info(order.msg_type);
    let delays = sample_delays(st, fs.len());
    let now: i64 = now_timestamp();
    let ghost at = choose|t: LocalTime| t.wf() && now == #[trigger] clock::timestamp_of(t);
    let r = plan_with(st, partition_no, order, &biz, stats, fs, &delays, now);
    proof {
        reveal(may_plan);
    }
    assert(may_plan(
        *st,
        partition_no,
        order@,
        *old(stats),
        *stats,
        report::plan_views(r@),
        fs@,
        delays@,
        at,
    ));
    r
}

/// Plans the reports on an order.
pub fn plan_reports(
    st: &StrategyConfig,
    partition_no: i32,
    order: &NewOrder,
    stats: &mut PlatformStats,
) -> (r: Vec<PlannedReport>)
    requires
        ids_left(*old(stats)),
        fits(*st, order@),
    ensures
        exists|fs: Seq<(i64, i64)>, delays: Seq<u64>, at: LocalTime|
            may_plan(
                *st,
                partition_no,
                order@,
                *old(stats),
                *final(stats),
                report::plan_views(r@),
                fs,
                delays,
                at,
            ),
{
    proof {
        law_fits(*st, order@);
    }
    match draw_fills(st, order) {
        Some(fs) => plan_fills(st, partition_no, order, stats, &fs),
        // Whatever is drawn, the order stays in the range of numbers.
        None => Vec::new(),
    }
}

/// How many reports an order gets: none without automatic replies; one if it is rejected or
/// only acknowledged, or if its business reports no executions; two if it is filled at once.
pub proof fn law_report_count(
    st: StrategyConfig,
    partition_no: i32,
    o: NewOrderView,
    before: PlatformStats,
    after: PlatformStats,
    plans: Seq<PlannedReportView>,
    fs: Seq<(i64, i64)>,
    delays: Seq<u64>,
    at: LocalTime,
)
    requires
        may_plan(st, partition_no, o, before, after, plans, fs, delays, at),
    ensures
        st.mode == StrategyMode::NoAutoReply ==> plans.len() == 0,
        st.mode == StrategyMode::Reject || st.mode == StrategyMode::AckOnly ==> plans.len() == 1,
        st.mode != StrategyMode::NoAutoReply && business(o.msg_type).trade_msg_type is None
            ==> plans.len() == 1,
        fills::effective(st.mode, business(o.msg_type).allow_partial) == StrategyMode::FullSingle
            && business(o.msg_type).trade_msg_type is Some ==> plans.len() == 2,
        st.mode != StrategyMode::NoAutoReply && st.mode != StrategyMode::Reject ==> plans.len() >= 1
            && plans[0].kind == ReportKind::Ack && forall|i: int|
            1 <= i < plans.len() ==> (#[trigger] plans[i]).kind == ReportKind::Trade,
{
    reveal(may_plan);
    reveal(trade_plan);
}

/// At every execution, what is filled and what is open make up the order, where no more was
/// filled than ordered; the order counts as filled exactly where nothing is open.
pub proof fn law_trade_quantities(
    partition_no: i32,
    o: NewOrderView,
    biz: BizInfo,
    order_id: Seq<char>,
    exec_id: Seq<char>,
    mt: u32,
    fs: Seq<(i64, i64)>,
    i: int,
    delay_ms: u64,
    now: i64,
)
    requires
        sums_fit(o.common.order_qty, fs),
        0 <= i < fs.len(),
    ensures
        trade_plan(partition_no, o, biz, order_id, exec_id, mt, fs, i, delay_ms, now).order_update
            matches Some(u) && {
            &&& u.cum_qty == cum_after(fs, i + 1)
            &&& u.cum_qty <= o.common.order_qty ==> u.cum_qty + u.leaves_qty == o.common.order_qty
            &&& u.leaves_qty >= 0
            &&& u.status == OrderStatus::Filled <==> u.leaves_qty == 0
        },
{
    reveal(trade_plan);
    assert(fills::sum_fits(o.common.order_qty, cum_after(fs, i + 1)));
}

/// The number that the first two characters of a business code make: the group of businesses.
pub open spec fn group_of(code: Seq<char>) -> int {
    (code[0] as int - 48) * 10 + (code[1] as int - 48)
}

/// Which platform a business is done on follows from its group. The cash auction has a platform
/// of its own, and so has the business with Hong Kong; on the others stand the groups listed.
pub proof fn law_platforms_by_group(code: Seq<char>)
    requires
        platform_of(code) is Some,
    ensures
        ({
            let g = group_of(code);
            let p = platform_of(code)->0;
            &&& code.len() == 3
            &&& p == 1 <==> g == 1
            &&& p == 2 <==> 5 <= g <= 11 || g == 37
            &&& p == 3 <==> 12 <= g <= 18 || 20 <= g <= 29 || g == 31 || g == 47
            &&& p == 4 <==> g == 4 || g == 34 || g == 35
            &&& p == 5 <==> g == 63
            &&& p == 6 <==> g == 2 || g == 3 || g == 19 || g == 30 || g == 32 || g == 33 || 41 <= g
                <= 43
        }),
{
    reveal(platform_of);
    lemma_code_letters();
}

/// The type of new orders follows from the group of the business: five digits more, of which
/// the group makes the middle; but for the bidding for bonds, which has a type of its own.
pub proof fn law_order_types_by_group(code: Seq<char>)
    requires
        order_type(code) is Some,
    ensures
        code.len() == 3,
        order_type(code)->0 == (if code == "417"@ {
            104_128
        } else {
            100_001 + 100 * group_of(code)
        }),
{
    reveal(order_type);
    lemma_code_letters();
}

/// A text of three letters.
spec fn spells(s: Seq<char>, a: char, b: char, c: char) -> bool {
    s.len() == 3 && s[0] == a && s[1] == b && s[2] == c
}

#[verifier::spinoff_prover]
proof fn lemma_code_letters()
    ensures
        spells("010"@, '0', '1', '0'),
        spells("020"@, '0', '2', '0'),
        spells("030"@, '0', '3', '0'),
        spells("040"@, '0', '4', '0'),
        spells("041"@, '0', '4', '1'),
        spells("042"@, '0', '4', '2'),
        spells("050"@, '0', '5', '0'),
        spells("051"@, '0', '5', '1'),
        spells("052"@, '0', '5', '2'),
        spells("053"@, '0', '5', '3'),
        spells("055"@, '0', '5', '5'),
        spells("056"@, '0', '5', '6'),
        spells("057"@, '0', '5', '7'),
        spells("060"@, '0', '6', '0'),
        spells("061"@, '0', '6', '1'),
        spells("070"@, '0', '7', '0'),
        spells("071"@, '0', '7', '1'),
        spells("080"@, '0', '8', '0'),
        spells("090"@, '0', '9', '0'),
        spells("100"@, '1', '0', '0'),
        spells("110"@, '1', '1', '0'),
        spells("120"@, '1', '2', '0'),
        spells("130"@, '1', '3', '0'),
        spells("131"@, '1', '3', '1'),
        spells("132"@, '1', '3', '2'),
        spells("140"@, '1', '4', '0'),
        spells("150"@, '1', '5', '0'),
        spells("151"@, '1', '5', '1'),
        spells("152"@, '1', '5', '2'),
        spells("160"@, '1', '6', '0'),
        spells("161"@, '1', '6', '1'),
        spells("170"@, '1', '7', '0'),
        spells("180"@, '1', '8', '0'),
        spells("181"@, '1', '8', '1'),
        spells("190"@, '1', '9', '0'),
        spells("191"@, '1', '9', '1'),
        spells("200"@, '2', '0', '0'),
        spells("210"@, '2', '1', '0'),
        spells("220"@, '2', '2', '0'),
        spells("230"@, '2', '3', '0'),
        spells("240"@, '2', '4', '0'),
        spells("241"@, '2', '4', '1'),
        spells("250"@, '2', '5', '0'),
        spells("270"@, '2', '7', '0'),
        spells("271"@, '2', '7', '1'),
        spells("280"@, '2', '8', '0'),
        spells("281"@, '2', '8', '1'),
        spells("290"@, '2', '9', '0'),
        spells("291"@, '2', '9', '1'),
        spells("300"@, '3', '0', '0'),
        spells("310"@, '3', '1', '0'),
        spells("311"@, '3', '1', '1'),
        spells("320"@, '3', '2', '0'),
        spells("330"@, '3', '3', '0'),
        spells("331"@, '3', '3', '1'),
        spells("340"@, '3', '4', '0'),
        spells("341"@, '3', '4', '1'),
        spells("350"@, '3', '5', '0'),
        spells("351"@, '3', '5', '1'),
        spells("370"@, '3', '7', '0'),
        spells("410"@, '4', '1', '0'),
        spells("411"@, '4', '1', '1'),
        spells("412"@, '4', '1', '2'),
        spells("413"@, '4', '1', '3'),
        spells("414"@, '4', '1', '4'),
        spells("415"@, '4', '1', '5'),
        spells("416"@, '4', '1', '6'),
        spells("417"@, '4', '1', '7'),
        spells("419"@, '4', '1', '9'),
        spells("41A"@, '4', '1', 'A'),
        spells("420"@, '4', '2', '0'),
        spells("430"@, '4', '3', '0'),
        spells("470"@, '4', '7', '0'),
        spells("630"@, '6', '3', '0'),
{
    reveal_strlit("010");
    reveal_strlit("020");
    reveal_strlit("030");
    reveal_strlit("040");
    reveal_strlit("041");
    reveal_strlit("042");
    reveal_strlit("050");
    reveal_strlit("051");
    reveal_strlit("052");
    reveal_strlit("053");
    reveal_strlit("055");
    reveal_strlit("056");
    reveal_strlit("057");
    reveal_strlit("060");
    reveal_strlit("061");
    reveal_strlit("070");
    reveal_strlit("071");
    reveal_strlit("080");
    reveal_strlit("090");
    reveal_strlit("100");
    reveal_strlit("110");
    reveal_strlit("120");
    reveal_strlit("130");
    reveal_strlit("131");
    reveal_strlit("132");
    reveal_strlit("140");
    reveal_strlit("150");
    reveal_strlit("151");
    reveal_strlit("152");
    reveal_strlit("160");
    reveal_strlit("161");
    reveal_strlit("170");
    reveal_strlit("180");
    reveal_strlit("181");
    reveal_strlit("190");
    reveal_strlit("191");
    reveal_strlit("200");
    reveal_strlit("210");
    reveal_strlit("220");
    reveal_strlit("230");
    reveal_strlit("240");
    reveal_strlit("241");
    reveal_strlit("250");
    reveal_strlit("270");
    reveal_strlit("271");
    reveal_strlit("280");
    reveal_strlit("281");
    reveal_strlit("290");
    reveal_strlit("291");
    reveal_strlit("300");
    reveal_strlit("310");
    reveal_strlit("311");
    reveal_strlit("320");
    reveal_strlit("330");
    reveal_strlit("331");
    reveal_strlit("340");
    reveal_strlit("341");
    reveal_strlit("350");
    reveal_strlit("351");
    reveal_strlit("370");
    reveal_strlit("410");
    reveal_strlit("411");
    reveal_strlit("412");
    reveal_strlit("413");
    reveal_strlit("414");
    reveal_strlit("415");
    reveal_strlit("416");
    reveal_strlit("417");
    reveal_strlit("419");
    reveal_strlit("41A");
    reveal_strlit("420");
    reveal_strlit("430");
    reveal_strlit("470");
    reveal_strlit("630");
}

} // verus!
