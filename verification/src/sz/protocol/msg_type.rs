//! Message types of the Shenzhen exchange. Types of one digit maintain the session;
//! types that start with 1 are requests, those that start with 2 are reports.
use vstd::prelude::*;

verus! {

pub const LOGON: u32 = 1;

pub const LOGOUT: u32 = 2;

pub const HEARTBEAT: u32 = 3;

pub const BUSINESS_REJECT: u32 = 4;

pub const REPORT_SYNC: u32 = 5;

pub const PLATFORM_STATE: u32 = 6;

pub const REPORT_FINISHED: u32 = 7;

pub const PLATFORM_INFO: u32 = 9;

pub const TRADING_SESSION_STATUS: u32 = 10;

pub const ORDER_CANCEL_REQUEST: u32 = 190_007;

pub const CANCEL_REJECT: u32 = 290_008;

pub const NEW_ORDER_CASH: u32 = 100_101;

pub const EXEC_RPT_CASH_ACK: u32 = 200_102;

pub const EXEC_RPT_CASH_TRADE: u32 = 200_115;

pub const NEW_ORDER_BOND_REPO: u32 = 100_201;

pub const EXEC_RPT_BOND_REPO_ACK: u32 = 200_202;

pub const EXEC_RPT_BOND_REPO_TRADE: u32 = 200_215;

pub const NEW_ORDER_BOND_DIST: u32 = 100_301;

pub const EXEC_RPT_BOND_DIST_ACK: u32 = 200_302;

pub const EXEC_RPT_BOND_DIST_TRADE: u32 = 200_315;

pub const NEW_ORDER_OPTION_AUCTION: u32 = 100_401;

pub const EXEC_RPT_OPTION_ACK: u32 = 200_402;

pub const EXEC_RPT_OPTION_TRADE: u32 = 200_415;

pub const NEW_ORDER_AGREEMENT_TRADE: u32 = 100_501;

pub const EXEC_RPT_AGREEMENT_ACK: u32 = 200_502;

pub const EXEC_RPT_AGREEMENT_TRADE: u32 = 200_515;

pub const NEW_ORDER_BLOCK_TRADE: u32 = 100_601;

pub const EXEC_RPT_BLOCK_ACK: u32 = 200_602;

pub const EXEC_RPT_BLOCK_TRADE: u32 = 200_615;

pub const NEW_ORDER_SEC_LENDING: u32 = 100_701;

pub const EXEC_RPT_SEC_LENDING_ACK: u32 = 200_702;

pub const EXEC_RPT_SEC_LENDING_TRADE: u32 = 200_715;

pub const NEW_ORDER_ETF_SUB_RED: u32 = 101_201;

pub const EXEC_RPT_ETF_ACK: u32 = 201_202;

pub const NEW_ORDER_ISSUE: u32 = 101_301;

pub const EXEC_RPT_ISSUE_ACK: u32 = 201_302;

pub const NEW_ORDER_RIGHTS: u32 = 101_401;

pub const EXEC_RPT_RIGHTS_ACK: u32 = 201_402;

pub const NEW_ORDER_BOND_CONVERT: u32 = 101_501;

pub const EXEC_RPT_BOND_CONVERT_ACK: u32 = 201_502;

pub const NEW_ORDER_OPTION_EXERCISE: u32 = 101_601;

pub const EXEC_RPT_OPTION_EXERCISE_ACK: u32 = 201_602;

pub const NEW_ORDER_FUND_SUB_RED: u32 = 101_701;

pub const EXEC_RPT_FUND_ACK: u32 = 201_702;

pub const NEW_ORDER_TENDER_OFFER: u32 = 101_801;

pub const EXEC_RPT_TENDER_ACK: u32 = 201_802;

pub const NEW_ORDER_REPO_PLEDGE: u32 = 101_901;

pub const EXEC_RPT_REPO_PLEDGE_ACK: u32 = 201_902;

pub const NEW_ORDER_GOLD_ETF: u32 = 102_201;

pub const EXEC_RPT_GOLD_ETF_ACK: u32 = 202_202;

pub const NEW_ORDER_WARRANT: u32 = 102_301;

pub const EXEC_RPT_WARRANT_ACK: u32 = 202_302;

pub const NEW_ORDER_DISPOSAL: u32 = 102_701;

pub const EXEC_RPT_DISPOSAL_ACK: u32 = 202_702;

pub const NEW_ORDER_LEND_RETURN: u32 = 102_801;

pub const EXEC_RPT_LEND_RETURN_ACK: u32 = 202_802;

pub const NEW_ORDER_DEDUCTION: u32 = 102_901;

pub const EXEC_RPT_DEDUCTION_ACK: u32 = 202_902;

pub const NEW_ORDER_SPLIT_MERGE: u32 = 103_101;

pub const EXEC_RPT_SPLIT_ACK: u32 = 203_102;

pub const NEW_ORDER_3P_REPO: u32 = 103_301;

pub const EXEC_RPT_3P_REPO_ACK: u32 = 203_302;

pub const NEW_ORDER_OPTION_CONVERT: u32 = 103_501;

pub const EXEC_RPT_OPTION_CONVERT_ACK: u32 = 203_502;

pub const NEW_ORDER_AFTER_HOURS: u32 = 103_701;

pub const EXEC_RPT_AFTER_HOURS_ACK: u32 = 203_702;

pub const EXEC_RPT_AFTER_HOURS_TRADE: u32 = 203_715;

pub const NEW_ORDER_BOND_CASH: u32 = 104_101;

pub const EXEC_RPT_BOND_CASH_ACK: u32 = 204_102;

pub const EXEC_RPT_BOND_CASH_TRADE: u32 = 204_115;

pub const NEW_ORDER_INTERBANK_ETF: u32 = 104_701;

pub const EXEC_RPT_INTERBANK_ETF_ACK: u32 = 204_702;

pub const NEW_ORDER_HK_CONNECT: u32 = 106_301;

pub const EXEC_RPT_HK_ACK: u32 = 206_302;

pub const EXEC_RPT_HK_TRADE: u32 = 206_315;

pub const NEW_ORDER_BOND_BID: u32 = 104_128;

pub const EXEC_RPT_BOND_BID_ACK: u32 = 204_129;

pub const EXEC_RPT_BOND_BID_TRADE: u32 = 204_130;

pub const QUOTE_AGREEMENT: u32 = 100_505;

pub const QUOTE_STATUS_AGREEMENT: u32 = 200_506;

} // verus!
