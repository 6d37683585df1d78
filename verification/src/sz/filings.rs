//! The filings on a Shenzhen platform besides orders: quotes, requests for quotes,
//! indications of interest, trade reports, transfers, votes, passwords, margins and orders
//! with several legs. Each is refused where its business is not done on the platform, and
//! accepted otherwise.
use vstd::prelude::*;

use super::protocol;
use super::protocol::{exec_type, ord_status, BodyReader, BodyWriter};
use super::session::{
    business_reject_frame, on_platform, one_more_reject, platform_reject, reject_platform, Filing,
    FilingView,
};
use crate::capture;
use crate::config::{partition_of, PlatformConfig};
use crate::stats;
use crate::stats::PlatformStats;
use crate::wire::{be, int_at, nat_at, nil, text_at, text_field, ShortBody};

verus! {

/// A quote that a response names.
#[derive(Debug)]
pub struct QuoteItem {
    pub quote_id: String,
    pub quote_price: i64,
    pub quote_qty: i64,
}

/// One leg of an order.
#[derive(Debug)]
pub struct Leg {
    pub security_id: String,
    pub side: u8,
    pub qty: i64,
}

fn copy_texts(v: &Vec<String>) -> (r: Vec<String>)
    ensures
        r@ == v@,
{
    let mut out: Vec<String> = Vec::new();
    let mut i: usize = 0;
    while i < v.len()
        invariant
            i <= v@.len(),
            out@ =~= v@.take(i as int),
        decreases v@.len() - i,
    {
        out.push(v[i].clone());
        i += 1;
    }
    assert(v@.take(i as int) =~= v@);
    out
}

fn copy_items(v: &Vec<QuoteItem>) -> (r: Vec<QuoteItem>)
    ensures
        r@ == v@,
{
    let mut out: Vec<QuoteItem> = Vec::new();
    let mut i: usize = 0;
    while i < v.len()
        invariant
            i <= v@.len(),
            out@ =~= v@.take(i as int),
        decreases v@.len() - i,
    {
        out.push(
            QuoteItem {
                quote_id: v[i].quote_id.clone(),
                quote_price: v[i].quote_price,
                quote_qty: v[i].quote_qty,
            },
        );
        i += 1;
    }
    assert(v@.take(i as int) =~= v@);
    out
}

fn copy_legs(v: &Vec<Leg>) -> (r: Vec<Leg>)
    ensures
        r@ == v@,
{
    let mut out: Vec<Leg> = Vec::new();
    let mut i: usize = 0;
    while i < v.len()
        invariant
            i <= v@.len(),
            out@ =~= v@.take(i as int),
        decreases v@.len() - i,
    {
        out.push(
            Leg { security_id: v[i].security_id.clone(), side: v[i].side, qty: v[i].qty },
        );
        i += 1;
    }
    assert(v@.take(i as int) =~= v@);
    out
}

fn copy_bytes(v: &Vec<u8>) -> (r: Vec<u8>)
    ensures
        r@ == v@,
{
    capture::bytes_of(v.as_slice())
}

/// The list with a quote alone, without price and quantity.
pub open spec fn is_single_quote(s: Seq<QuoteItem>, id: String) -> bool {
    s == seq![QuoteItem { quote_id: id, quote_price: 0, quote_qty: 0 }]
}

fn single_quote(id: &String) -> (r: Vec<QuoteItem>)
    ensures
        is_single_quote(r@, *id),
{
    let mut out: Vec<QuoteItem> = Vec::new();
    out.push(QuoteItem { quote_id: id.clone(), quote_price: 0, quote_qty: 0 });
    assert(out@ =~= seq![QuoteItem { quote_id: *id, quote_price: 0, quote_qty: 0 }]);
    out
}

/// The first quote that is named; nothing where there is none.
pub open spec fn first_quote_id(s: Seq<QuoteItem>) -> Seq<char> {
    if s.len() == 0 {
        Seq::empty()
    } else {
        s[0].quote_id@
    }
}

fn first_id(v: &Vec<QuoteItem>) -> (r: String)
    ensures
        r@ == first_quote_id(v@),
{
    if v.len() == 0 {
        String::new()
    } else {
        v[0].quote_id.clone()
    }
}

/// What the response to a quote does, in words.
pub open spec fn quote_resp_text(t: u8) -> Seq<char> {
    if t == 1 {
        "接受"@
    } else if t == 2 {
        "重报"@
    } else if t == 6 {
        "拒绝"@
    } else {
        "未知"@
    }
}

/// What the response to a quote does, in words.
pub fn quote_resp_type_name(t: u8) -> (r: &'static str)
    ensures
        r@ == quote_resp_text(t),
{
    if t == 1 {
        "接受"
    } else if t == 2 {
        "重报"
    } else if t == 6 {
        "拒绝"
    } else {
        "未知"
    }
}

/// The state of a quote.
#[derive(Debug)]
pub struct QuoteStatusReport {
    pub msg_type: u32,
    pub partition_no: i32,
    pub report_index: i64,
    pub appl_id: String,
    pub reporting_pbu_id: String,
    pub submitting_pbu_id: String,
    pub security_id: String,
    pub security_id_source: String,
    pub owner_type: u16,
    pub clearing_firm: String,
    pub transact_time: i64,
    pub user_info: String,
    pub quote_msg_id: String,
    pub account_id: String,
    pub quote_req_id: String,
    pub quote_status: u16,
    pub quote_reject_reason: u16,
    pub quote_type: u8,
    pub bid_px: i64,
    pub offer_px: i64,
    pub bid_size: i64,
    pub offer_size: i64,
    pub bid_position_effect: u8,
    pub offer_position_effect: u8,
    pub contract_account_code: String,
    pub branch_id: String,
    pub order_id: String,
    pub exec_id: String,
    pub quote_resp_id: String,
    pub private_quote: u8,
    pub side: u8,
    pub price_type: u8,
    pub valid_until_time: i64,
    pub cash_margin: u8,
    pub counterparty_pbu_id: String,
    pub memo: String,
    pub quote_reject_text: String,
    pub member_id: String,
    pub investor_type: String,
    pub investor_id: String,
    pub investor_name: String,
    pub trader_code: String,
    pub settl_type: u8,
    pub settl_period: u8,
    pub pre_trade_anonymity: u8,
    pub max_floor: i64,
    pub min_qty: i64,
    pub no_counterparty: u16,
    pub counterparties: Vec<String>,
    pub no_quote: u16,
    pub quotes: Vec<QuoteItem>,
}

/// A quote.
#[derive(Debug)]
pub struct Quote {
    pub appl_id: String,
    pub submitting_pbu_id: String,
    pub security_id: String,
    pub security_id_source: String,
    pub owner_type: u16,
    pub clearing_firm: String,
    pub user_info: String,
    pub quote_msg_id: String,
    pub account_id: String,
    pub quote_req_id: String,
    pub quote_type: u8,
    pub bid_px: i64,
    pub offer_px: i64,
    pub bid_size: i64,
    pub offer_size: i64,
    pub bid_position_effect: u8,
    pub offer_position_effect: u8,
    pub contract_account_code: String,
    pub branch_id: String,
    pub quote_resp_id: String,
    pub private_quote: u8,
    pub price_type: u8,
    pub valid_until_time: i64,
    pub cash_margin: u8,
    pub counterparty_pbu_id: String,
    pub memo: String,
    pub member_id: String,
    pub investor_type: String,
    pub investor_id: String,
    pub investor_name: String,
    pub trader_code: String,
    pub settl_type: u8,
    pub settl_period: u8,
    pub pre_trade_anonymity: u8,
    pub max_floor: i64,
    pub min_qty: i64,
    pub no_counterparty: u16,
    pub counterparties: Vec<String>,
    pub quote_id: String,
}

/// The state that accepts a quote.
pub open spec fn is_quote_accepted(
    r: QuoteStatusReport,
    q: Quote,
    mt: u32,
    partition_no: i32,
    order_id: Seq<char>,
    exec_id: Seq<char>,
    now: i64,
) -> bool {
    &&& r.msg_type == mt
    &&& r.partition_no == partition_no
    &&& r.report_index == 0
    &&& r.appl_id == q.appl_id
    &&& r.reporting_pbu_id == q.submitting_pbu_id
    &&& r.submitting_pbu_id == q.submitting_pbu_id
    &&& r.security_id == q.security_id
    &&& r.security_id_source == q.security_id_source
    &&& r.owner_type == q.owner_type
    &&& r.clearing_firm == q.clearing_firm
    &&& r.transact_time == now
    &&& r.user_info == q.user_info
    &&& r.quote_msg_id == q.quote_msg_id
    &&& r.account_id == q.account_id
    &&& r.quote_req_id == q.quote_req_id
    &&& r.quote_status == 0
    &&& r.quote_reject_reason == 0
    &&& r.quote_type == q.quote_type
    &&& r.bid_px == q.bid_px
    &&& r.offer_px == q.offer_px
    &&& r.bid_size == q.bid_size
    &&& r.offer_size == q.offer_size
    &&& r.bid_position_effect == q.bid_position_effect
    &&& r.offer_position_effect == q.offer_position_effect
    &&& r.contract_account_code == q.contract_account_code
    &&& r.branch_id == q.branch_id
    &&& r.order_id@ == order_id
    &&& r.exec_id@ == exec_id
    &&& r.quote_resp_id == q.quote_resp_id
    &&& r.private_quote == q.private_quote
    &&& r.side == 0
    &&& r.price_type == q.price_type
    &&& r.valid_until_time == q.valid_until_time
    &&& r.cash_margin == q.cash_margin
    &&& r.counterparty_pbu_id == q.counterparty_pbu_id
    &&& r.memo == q.memo
    &&& r.quote_reject_text@.len() == 0
    &&& r.member_id == q.member_id
    &&& r.investor_type == q.investor_type
    &&& r.investor_id == q.investor_id
    &&& r.investor_name == q.investor_name
    &&& r.trader_code == q.trader_code
    &&& r.settl_type == q.settl_type
    &&& r.settl_period == q.settl_period
    &&& r.pre_trade_anonymity == q.pre_trade_anonymity
    &&& r.max_floor == q.max_floor
    &&& r.min_qty == q.min_qty
    &&& r.no_counterparty == q.no_counterparty
    &&& r.counterparties@ == q.counterparties@
    &&& r.no_quote == 1
    &&& is_single_quote(r.quotes@, q.quote_id)
}

fn accept_quote(
    q: &Quote,
    mt: u32,
    partition_no: i32,
    order_id: String,
    exec_id: String,
    now: i64,
) -> (r: QuoteStatusReport)
    ensures
        is_quote_accepted(r, *q, mt, partition_no, order_id@, exec_id@, now),
{
    QuoteStatusReport {
        msg_type: mt,
        partition_no,
        report_index: 0,
        appl_id: q.appl_id.clone(),
        reporting_pbu_id: q.submitting_pbu_id.clone(),
        submitting_pbu_id: q.submitting_pbu_id.clone(),
        security_id: q.security_id.clone(),
        security_id_source: q.security_id_source.clone(),
        owner_type: q.owner_type,
        clearing_firm: q.clearing_firm.clone(),
        transact_time: now,
        user_info: q.user_info.clone(),
        quote_msg_id: q.quote_msg_id.clone(),
        account_id: q.account_id.clone(),
        quote_req_id: q.quote_req_id.clone(),
        quote_status: 0,
        quote_reject_reason: 0,
        quote_type: q.quote_type,
        bid_px: q.bid_px,
        offer_px: q.offer_px,
        bid_size: q.bid_size,
        offer_size: q.offer_size,
        bid_position_effect: q.bid_position_effect,
        offer_position_effect: q.offer_position_effect,
        contract_account_code: q.contract_account_code.clone(),
        branch_id: q.branch_id.clone(),
        order_id,
        exec_id,
        quote_resp_id: q.quote_resp_id.clone(),
        private_quote: q.private_quote,
        side: 0,
        price_type: q.price_type,
        valid_until_time: q.valid_until_time,
        cash_margin: q.cash_margin,
        counterparty_pbu_id: q.counterparty_pbu_id.clone(),
        memo: q.memo.clone(),
        quote_reject_text: String::new(),
        member_id: q.member_id.clone(),
        investor_type: q.investor_type.clone(),
        investor_id: q.investor_id.clone(),
        investor_name: q.investor_name.clone(),
        trader_code: q.trader_code.clone(),
        settl_type: q.settl_type,
        settl_period: q.settl_period,
        pre_trade_anonymity: q.pre_trade_anonymity,
        max_floor: q.max_floor,
        min_qty: q.min_qty,
        no_counterparty: q.no_counterparty,
        counterparties: copy_texts(&q.counterparties),
        no_quote: 1,
        quotes: single_quote(&q.quote_id),
    }
}

/// Answers a quote: a business rejection where its business is not done on the platform, and
/// otherwise it is accepted. The answer has the type `answer_mt`.
pub fn handle_quote(
    mt: u32,
    answer_mt: u32,
    cfg: &PlatformConfig,
    stats: &mut PlatformStats,
    q: &Quote,
    now: i64,
) -> (r: Result<QuoteStatusReport, Vec<u8>>)
    requires
        stats::ids_left(*old(stats)),
    ensures
        r is Ok <==> on_platform(q.appl_id@, cfg.platform_type),
        r matches Ok(rpt) ==> {
            &&& is_quote_accepted(
                rpt,
                *q,
                answer_mt,
                partition_of(cfg.partition_list(), q.security_id@) as i32,
                stats::id_text(old(stats).order_seq + 1),
                stats::id_text(old(stats).exec_seq + 1),
                now,
            )
            &&& final(stats).counters() == old(stats).counters()
            &&& final(stats).order_seq == old(stats).order_seq + 1
            &&& final(stats).exec_seq == old(stats).exec_seq + 1
        },
        r matches Err(frame) ==> {
            &&& frame@ == business_reject_frame(
                platform_reject(
                    FilingView {
                        msg_type: mt,
                        appl_id: q.appl_id@,
                        ref_id: q.quote_msg_id@,
                        submitting_pbu_id: q.submitting_pbu_id@,
                        security_id: q.security_id@,
                        security_id_source: q.security_id_source@,
                    },
                    now,
                ),
            )
            &&& final(stats).counters() == one_more_reject(old(stats).counters())
            &&& final(stats).sequences() == old(stats).sequences()
        },
        final(stats).partition_report_index@ == old(stats).partition_report_index@,
{
    let filing = Filing {
        msg_type: mt,
        appl_id: q.appl_id.clone(),
        ref_id: q.quote_msg_id.clone(),
        submitting_pbu_id: q.submitting_pbu_id.clone(),
        security_id: q.security_id.clone(),
        security_id_source: q.security_id_source.clone(),
    };
    if let Some(rej) = reject_platform(cfg, stats, &filing, now) {
        return Err(rej);
    }
    let partition_no: i32 = cfg.partition_for(q.security_id.as_str());
    let order_id = stats.next_order_id();
    let exec_id = stats.next_exec_id();
    Ok(accept_quote(q, answer_mt, partition_no, order_id, exec_id, now))
}

/// The response to a quote.
#[derive(Debug)]
pub struct QuoteResponse {
    pub appl_id: String,
    pub submitting_pbu_id: String,
    pub security_id: String,
    pub security_id_source: String,
    pub owner_type: u16,
    pub clearing_firm: String,
    pub user_info: String,
    pub quotes: Vec<QuoteItem>,
    pub account_id: String,
    pub quote_type: u8,
    pub branch_id: String,
    pub quote_resp_id: String,
    pub side: u8,
    pub price_type: u8,
    pub valid_until_time: i64,
    pub cash_margin: u8,
    pub member_id: String,
    pub investor_type: String,
    pub investor_id: String,
    pub investor_name: String,
    pub trader_code: String,
    pub settl_type: u8,
    pub settl_period: u8,
    pub no_quote: u16,
    pub cl_ord_id: String,
    pub quote_resp_type: u8,
}

/// The state that accepts the response to a quote.
pub open spec fn is_quote_response_accepted(
    r: QuoteStatusReport,
    q: QuoteResponse,
    mt: u32,
    partition_no: i32,
    order_id: Seq<char>,
    exec_id: Seq<char>,
    now: i64,
) -> bool {
    &&& r.msg_type == mt
    &&& r.partition_no == partition_no
    &&& r.report_index == 0
    &&& r.appl_id == q.appl_id
    &&& r.reporting_pbu_id == q.submitting_pbu_id
    &&& r.submitting_pbu_id == q.submitting_pbu_id
    &&& r.security_id == q.security_id
    &&& r.security_id_source == q.security_id_source
    &&& r.owner_type == q.owner_type
    &&& r.clearing_firm == q.clearing_firm
    &&& r.transact_time == now
    &&& r.user_info == q.user_info
    &&& r.quote_msg_id@ == first_quote_id(q.quotes@)
    &&& r.account_id == q.account_id
    &&& r.quote_req_id@.len() == 0
    &&& r.quote_status == 0
    &&& r.quote_reject_reason == 0
    &&& r.quote_type == q.quote_type
    &&& r.bid_px == 0
    &&& r.offer_px == 0
    &&& r.bid_size == 0
    &&& r.offer_size == 0
    &&& r.branch_id == q.branch_id
    &&& r.order_id@ == order_id
    &&& r.exec_id@ == exec_id
    &&& r.quote_resp_id == q.quote_resp_id
    &&& r.private_quote == 0
    &&& r.side == q.side
    &&& r.price_type == q.price_type
    &&& r.valid_until_time == q.valid_until_time
    &&& r.cash_margin == q.cash_margin
    &&& r.memo@.len() == 0
    &&& r.member_id == q.member_id
    &&& r.investor_type == q.investor_type
    &&& r.investor_id == q.investor_id
    &&& r.investor_name == q.investor_name
    &&& r.trader_code == q.trader_code
    &&& r.settl_type == q.settl_type
    &&& r.settl_period == q.settl_period
    &&& r.no_quote == q.no_quote
    &&& r.quotes@ == q.quotes@
    &&& r.bid_position_effect == 0
    &&& r.offer_position_effect == 0
    &&& r.contract_account_code@.len() == 0
    &&& r.counterparty_pbu_id@.len() == 0
    &&& r.quote_reject_text@.len() == 0
    &&& r.pre_trade_anonymity == 0
    &&& r.max_floor == 0
    &&& r.min_qty == 0
    &&& r.no_counterparty == 0
    &&& r.counterparties@.len() == 0
}

fn accept_quote_response(
    q: &QuoteResponse,
    mt: u32,
    partition_no: i32,
    order_id: String,
    exec_id: String,
    now: i64,
) -> (r: QuoteStatusReport)
    ensures
        is_quote_response_accepted(r, *q, mt, partition_no, order_id@, exec_id@, now),
{
    QuoteStatusReport {
        msg_type: mt,
        partition_no,
        report_index: 0,
        appl_id: q.appl_id.clone(),
        reporting_pbu_id: q.submitting_pbu_id.clone(),
        submitting_pbu_id: q.submitting_pbu_id.clone(),
        security_id: q.security_id.clone(),
        security_id_source: q.security_id_source.clone(),
        owner_type: q.owner_type,
        clearing_firm: q.clearing_firm.clone(),
        transact_time: now,
        user_info: q.user_info.clone(),
        quote_msg_id: first_id(&q.quotes),
        account_id: q.account_id.clone(),
        quote_req_id: String::new(),
        quote_status: 0,
        quote_reject_reason: 0,
        quote_type: q.quote_type,
        bid_px: 0,
        offer_px: 0,
        bid_size: 0,
        offer_size: 0,
        branch_id: q.branch_id.clone(),
        order_id,
        exec_id,
        quote_resp_id: q.quote_resp_id.clone(),
        private_quote: 0,
        side: q.side,
        price_type: q.price_type,
        valid_until_time: q.valid_until_time,
        cash_margin: q.cash_margin,
        memo: String::new(),
        member_id: q.member_id.clone(),
        investor_type: q.investor_type.clone(),
        investor_id: q.investor_id.clone(),
        investor_name: q.investor_name.clone(),
        trader_code: q.trader_code.clone(),
        settl_type: q.settl_type,
        settl_period: q.settl_period,
        no_quote: q.no_quote,
        quotes: copy_items(&q.quotes),
        bid_position_effect: 0,
        offer_position_effect: 0,
        contract_account_code: String::new(),
        counterparty_pbu_id: String::new(),
        quote_reject_text: String::new(),
        pre_trade_anonymity: 0,
        max_floor: 0,
        min_qty: 0,
        no_counterparty: 0,
        counterparties: Vec::new(),
    }
}

/// Answers the response to a quote: a business rejection where its business is not done on the platform, and
/// otherwise it is accepted. The answer has the type `answer_mt`.
pub fn handle_quote_response(
    mt: u32,
    answer_mt: u32,
    cfg: &PlatformConfig,
    stats: &mut PlatformStats,
    q: &QuoteResponse,
    now: i64,
) -> (r: Result<QuoteStatusReport, Vec<u8>>)
    requires
        stats::ids_left(*old(stats)),
    ensures
        r is Ok <==> on_platform(q.appl_id@, cfg.platform_type),
        r matches Ok(rpt) ==> {
            &&& is_quote_response_accepted(
                rpt,
                *q,
                answer_mt,
                partition_of(cfg.partition_list(), q.security_id@) as i32,
                stats::id_text(old(stats).order_seq + 1),
                stats::id_text(old(stats).exec_seq + 1),
                now,
            )
            &&& final(stats).counters() == old(stats).counters()
            &&& final(stats).order_seq == old(stats).order_seq + 1
            &&& final(stats).exec_seq == old(stats).exec_seq + 1
        },
        r matches Err(frame) ==> {
            &&& frame@ == business_reject_frame(
                platform_reject(
                    FilingView {
                        msg_type: mt,
                        appl_id: q.appl_id@,
                        ref_id: q.cl_ord_id@,
                        submitting_pbu_id: q.submitting_pbu_id@,
                        security_id: q.security_id@,
                        security_id_source: q.security_id_source@,
                    },
                    now,
                ),
            )
            &&& final(stats).counters() == one_more_reject(old(stats).counters())
            &&& final(stats).sequences() == old(stats).sequences()
        },
        final(stats).partition_report_index@ == old(stats).partition_report_index@,
{
    let filing = Filing {
        msg_type: mt,
        appl_id: q.appl_id.clone(),
        ref_id: q.cl_ord_id.clone(),
        submitting_pbu_id: q.submitting_pbu_id.clone(),
        security_id: q.security_id.clone(),
        security_id_source: q.security_id_source.clone(),
    };
    if let Some(rej) = reject_platform(cfg, stats, &filing, now) {
        return Err(rej);
    }
    let partition_no: i32 = cfg.partition_for(q.security_id.as_str());
    let order_id = stats.next_order_id();
    let exec_id = stats.next_exec_id();
    Ok(accept_quote_response(q, answer_mt, partition_no, order_id, exec_id, now))
}

/// The quote of an agreed trade that a body holds; what such a quote does not carry is empty.
pub open spec fn is_agreement_quote(v: Quote, body: Seq<u8>) -> bool {
    &&& v.appl_id@ == text_at(body, 0, 3)
    &&& v.submitting_pbu_id@ == text_at(body, 3, 6)
    &&& v.security_id@ == text_at(body, 9, 8)
    &&& v.security_id_source@ == text_at(body, 17, 4)
    &&& v.owner_type == nat_at(body, 21, 2)
    &&& v.clearing_firm@ == text_at(body, 23, 2)
    &&& v.user_info@ == text_at(body, 33, 8)
    &&& v.quote_msg_id@ == text_at(body, 41, 10)
    &&& v.account_id@ == text_at(body, 51, 12)
    &&& v.quote_req_id@ == text_at(body, 63, 10)
    &&& v.quote_type == nat_at(body, 73, 1)
    &&& v.bid_px == int_at(body, 74, 8)
    &&& v.offer_px == int_at(body, 82, 8)
    &&& v.bid_size == int_at(body, 90, 8)
    &&& v.offer_size == int_at(body, 98, 8)
    &&& v.branch_id@ == text_at(body, 106, 4)
    &&& v.quote_id@ == text_at(body, 110, 10)
    &&& v.quote_resp_id@ == text_at(body, 120, 16)
    &&& v.private_quote == nat_at(body, 136, 1)
    &&& v.valid_until_time == int_at(body, 137, 8)
    &&& v.price_type == nat_at(body, 145, 1)
    &&& v.cash_margin == nat_at(body, 146, 1)
    &&& v.counterparty_pbu_id@ == text_at(body, 147, 6)
    &&& v.memo@ == text_at(body, 153, 160)
    &&& v.bid_position_effect == 0
    &&& v.offer_position_effect == 0
    &&& v.contract_account_code@.len() == 0
    &&& v.member_id@.len() == 0
    &&& v.investor_type@.len() == 0
    &&& v.investor_id@.len() == 0
    &&& v.investor_name@.len() == 0
    &&& v.trader_code@.len() == 0
    &&& v.settl_type == 0
    &&& v.settl_period == 0
    &&& v.pre_trade_anonymity == 0
    &&& v.max_floor == 0
    &&& v.min_qty == 0
    &&& v.no_counterparty == 0
    &&& v.counterparties@.len() == 0
}

impl Quote {
    /// Reads the quote of an agreed trade.
    pub fn decode_agreement(body: &[u8]) -> (r: Result<Self, ShortBody>)
        ensures
            r is Ok <==> body@.len() >= 313,
            r matches Ok(v) ==> is_agreement_quote(v, body@),
    {
        let mut r = BodyReader::new(body);
        let appl_id: String = r.str(3)?;
        let submitting_pbu_id: String = r.str(6)?;
        let security_id: String = r.str(8)?;
        let security_id_source: String = r.str(4)?;
        let owner_type: u16 = r.u16()?;
        let clearing_firm: String = r.str(2)?;
        let _transact_time: i64 = r.i64()?;
        let user_info: String = r.str(8)?;
        let quote_msg_id: String = r.str(10)?;
        let account_id: String = r.str(12)?;
        let quote_req_id: String = r.str(10)?;
        let quote_type: u8 = r.ch()?;
        let bid_px: i64 = r.i64()?;
        let offer_px: i64 = r.i64()?;
        let bid_size: i64 = r.i64()?;
        let offer_size: i64 = r.i64()?;
        let branch_id: String = r.str(4)?;
        let quote_id: String = r.str(10)?;
        let quote_resp_id: String = r.str(16)?;
        let private_quote: u8 = r.ch()?;
        let valid_until_time: i64 = r.i64()?;
        let price_type: u8 = r.ch()?;
        let cash_margin: u8 = r.ch()?;
        let counterparty_pbu_id: String = r.str(6)?;
        let memo: String = r.str(160)?;
        Ok(
            Quote {
                appl_id,
                submitting_pbu_id,
                security_id,
                security_id_source,
                owner_type,
                clearing_firm,
                user_info,
                quote_msg_id,
                account_id,
                quote_req_id,
                quote_type,
                bid_px,
                offer_px,
                bid_size,
                offer_size,
                bid_position_effect: 0,
                offer_position_effect: 0,
                contract_account_code: String::new(),
                branch_id,
                quote_resp_id,
                private_quote,
                price_type,
                valid_until_time,
                cash_margin,
                counterparty_pbu_id,
                memo,
                member_id: String::new(),
                investor_type: String::new(),
                investor_id: String::new(),
                investor_name: String::new(),
                trader_code: String::new(),
                settl_type: 0,
                settl_period: 0,
                pre_trade_anonymity: 0,
                max_floor: 0,
                min_qty: 0,
                no_counterparty: 0,
                counterparties: Vec::new(),
                quote_id,
            },
        )
    }
}

/// The fields that the states of quotes of all businesses start with.
#[verifier::opaque]
pub open spec fn quote_status_body(r: QuoteStatusReport) -> Seq<u8> {
    nil()
        + be(r.partition_no as int, 4)
        + be(r.report_index as int, 8)
        + text_field(r.appl_id@, 3)
        + text_field(r.reporting_pbu_id@, 6)
        + text_field(r.submitting_pbu_id@, 6)
        + text_field(r.security_id@, 8)
        + text_field(r.security_id_source@, 4)
        + be(r.owner_type as int, 2)
        + text_field(r.clearing_firm@, 2)
        + be(r.transact_time as int, 8)
        + text_field(r.user_info@, 8)
        + text_field(r.quote_msg_id@, 10)
        + text_field(r.account_id@, 12)
        + text_field(r.quote_req_id@, 10)
        + be(r.quote_status as int, 2)
        + be(r.quote_reject_reason as int, 2)
        + be(r.quote_type as int, 1)
        + be(r.bid_px as int, 8)
        + be(r.offer_px as int, 8)
        + be(r.bid_size as int, 8)
        + be(r.offer_size as int, 8)
}

impl QuoteStatusReport {
    /// The message with the fields that all businesses share.
    pub fn encode(&self) -> (r: Vec<u8>)
        ensures
            r@ == protocol::framed(self.msg_type, quote_status_body(*self)),
    {
        proof {
            reveal(quote_status_body);
        }
        let mut w = BodyWriter::new();
        w.i32(self.partition_no);
        w.i64(self.report_index);
        w.str(self.appl_id.as_str(), 3);
        w.str(self.reporting_pbu_id.as_str(), 6);
        w.str(self.submitting_pbu_id.as_str(), 6);
        w.str(self.security_id.as_str(), 8);
        w.str(self.security_id_source.as_str(), 4);
        w.u16(self.owner_type);
        w.str(self.clearing_firm.as_str(), 2);
        w.i64(self.transact_time);
        w.str(self.user_info.as_str(), 8);
        w.str(self.quote_msg_id.as_str(), 10);
        w.str(self.account_id.as_str(), 12);
        w.str(self.quote_req_id.as_str(), 10);
        w.u16(self.quote_status);
        w.u16(self.quote_reject_reason);
        w.ch(self.quote_type);
        w.i64(self.bid_px);
        w.i64(self.offer_px);
        w.i64(self.bid_size);
        w.i64(self.offer_size);
        protocol::frame(self.msg_type, w.into_inner().as_slice())
    }
}

/// A request for quotes.
#[derive(Debug)]
pub struct QuoteRequest {
    pub appl_id: String,
    pub submitting_pbu_id: String,
    pub security_id: String,
    pub security_id_source: String,
    pub owner_type: u16,
    pub clearing_firm: String,
    pub user_info: String,
    pub cl_ord_id: String,
    pub account_id: String,
    pub branch_id: String,
    pub quote_req_id: String,
    pub quote_request_trans_type: u8,
    pub private_quote: u8,
    pub order_qty: i64,
    pub price: i64,
    pub side: u8,
    pub expire_time: i64,
    pub quote_type: u8,
    pub quote_price_type: u8,
    pub memo: String,
    pub cash_margin: u8,
    pub no_counterparty_pbu: u16,
    pub counterparty_pbus: Vec<String>,
    pub member_id: String,
    pub investor_type: String,
    pub investor_id: String,
    pub investor_name: String,
    pub trader_code: String,
    pub settl_type: u8,
    pub settl_period: u8,
    pub pre_trade_anonymity: u8,
    pub no_counterparty: u16,
    pub counterparties: Vec<String>,
}

/// The answer to a request for quotes.
#[derive(Debug)]
pub struct QuoteRequestAck {
    pub partition_no: i32,
    pub report_index: i64,
    pub appl_id: String,
    pub reporting_pbu_id: String,
    pub submitting_pbu_id: String,
    pub security_id: String,
    pub security_id_source: String,
    pub owner_type: u16,
    pub clearing_firm: String,
    pub transact_time: i64,
    pub user_info: String,
    pub order_id: String,
    pub exec_id: String,
    pub cl_ord_id: String,
    pub account_id: String,
    pub branch_id: String,
    pub quote_req_id: String,
    pub quote_request_trans_type: u8,
    pub quote_request_type: u16,
    pub private_quote: u8,
    pub quote_request_status: u16,
    pub quote_request_reject_reason: u16,
    pub order_qty: i64,
    pub price: i64,
    pub side: u8,
    pub expire_time: i64,
    pub quote_type: u8,
    pub quote_price_type: u8,
    pub memo: String,
    pub cash_margin: u8,
    pub no_counterparty_pbu: u16,
    pub counterparty_pbus: Vec<String>,
    pub member_id: String,
    pub investor_type: String,
    pub investor_id: String,
    pub investor_name: String,
    pub trader_code: String,
    pub settl_type: u8,
    pub settl_period: u8,
    pub pre_trade_anonymity: u8,
    pub quote_request_reject_text: String,
    pub no_counterparty: u16,
    pub counterparties: Vec<String>,
}

/// The answer to a request for quotes that accepts the message.
pub open spec fn is_quote_request_accepted(
    r: QuoteRequestAck,
    q: QuoteRequest,
    partition_no: i32,
    order_id: Seq<char>,
    exec_id: Seq<char>,
    now: i64,
) -> bool {
    &&& r.partition_no == partition_no
    &&& r.report_index == 0
    &&& r.appl_id == q.appl_id
    &&& r.reporting_pbu_id == q.submitting_pbu_id
    &&& r.submitting_pbu_id == q.submitting_pbu_id
    &&& r.security_id == q.security_id
    &&& r.security_id_source == q.security_id_source
    &&& r.owner_type == q.owner_type
    &&& r.clearing_firm == q.clearing_firm
    &&& r.transact_time == now
    &&& r.user_info == q.user_info
    &&& r.order_id@ == order_id
    &&& r.exec_id@ == exec_id
    &&& r.cl_ord_id == q.cl_ord_id
    &&& r.account_id == q.account_id
    &&& r.branch_id == q.branch_id
    &&& r.quote_req_id == q.quote_req_id
    &&& r.quote_request_trans_type == q.quote_request_trans_type
    &&& r.quote_request_type == 101
    &&& r.private_quote == q.private_quote
    &&& r.quote_request_status == 0
    &&& r.quote_request_reject_reason == 0
    &&& r.order_qty == q.order_qty
    &&& r.price == q.price
    &&& r.side == q.side
    &&& r.expire_time == q.expire_time
    &&& r.quote_type == q.quote_type
    &&& r.quote_price_type == q.quote_price_type
    &&& r.memo == q.memo
    &&& r.cash_margin == q.cash_margin
    &&& r.no_counterparty_pbu == q.no_counterparty_pbu
    &&& r.counterparty_pbus@ == q.counterparty_pbus@
    &&& r.member_id == q.member_id
    &&& r.investor_type == q.investor_type
    &&& r.investor_id == q.investor_id
    &&& r.investor_name == q.investor_name
    &&& r.trader_code == q.trader_code
    &&& r.settl_type == q.settl_type
    &&& r.settl_period == q.settl_period
    &&& r.pre_trade_anonymity == q.pre_trade_anonymity
    &&& r.quote_request_reject_text@.len() == 0
    &&& r.no_counterparty == q.no_counterparty
    &&& r.counterparties@ == q.counterparties@
}

fn accept_quote_request(
    q: &QuoteRequest,
    partition_no: i32,
    order_id: String,
    exec_id: String,
    now: i64,
) -> (r: QuoteRequestAck)
    ensures
        is_quote_request_accepted(r, *q, partition_no, order_id@, exec_id@, now),
{
    QuoteRequestAck {
        partition_no,
        report_index: 0,
        appl_id: q.appl_id.clone(),
        reporting_pbu_id: q.submitting_pbu_id.clone(),
        submitting_pbu_id: q.submitting_pbu_id.clone(),
        security_id: q.security_id.clone(),
        security_id_source: q.security_id_source.clone(),
        owner_type: q.owner_type,
        clearing_firm: q.clearing_firm.clone(),
        transact_time: now,
        user_info: q.user_info.clone(),
        order_id,
        exec_id,
        cl_ord_id: q.cl_ord_id.clone(),
        account_id: q.account_id.clone(),
        branch_id: q.branch_id.clone(),
        quote_req_id: q.quote_req_id.clone(),
        quote_request_trans_type: q.quote_request_trans_type,
        quote_request_type: 101,
        private_quote: q.private_quote,
        quote_request_status: 0,
        quote_request_reject_reason: 0,
        order_qty: q.order_qty,
        price: q.price,
        side: q.side,
        expire_time: q.expire_time,
        quote_type: q.quote_type,
        quote_price_type: q.quote_price_type,
        memo: q.memo.clone(),
        cash_margin: q.cash_margin,
        no_counterparty_pbu: q.no_counterparty_pbu,
        counterparty_pbus: copy_texts(&q.counterparty_pbus),
        member_id: q.member_id.clone(),
        investor_type: q.investor_type.clone(),
        investor_id: q.investor_id.clone(),
        investor_name: q.investor_name.clone(),
        trader_code: q.trader_code.clone(),
        settl_type: q.settl_type,
        settl_period: q.settl_period,
        pre_trade_anonymity: q.pre_trade_anonymity,
        quote_request_reject_text: String::new(),
        no_counterparty: q.no_counterparty,
        counterparties: copy_texts(&q.counterparties),
    }
}

/// Answers a request for quotes: a business rejection where its business is not done on the platform,
/// and otherwise it is accepted.
pub fn handle_quote_request(mt: u32, cfg: &PlatformConfig, stats: &mut PlatformStats, q: &QuoteRequest, now: i64) -> (r:
    Result<QuoteRequestAck, Vec<u8>>)
    requires
        stats::ids_left(*old(stats)),
    ensures
        r is Ok <==> on_platform(q.appl_id@, cfg.platform_type),
        r matches Ok(rpt) ==> {
            &&& is_quote_request_accepted(
                rpt,
                *q,
                partition_of(cfg.partition_list(), q.security_id@) as i32,
                stats::id_text(old(stats).order_seq + 1),
                stats::id_text(old(stats).exec_seq + 1),
                now,
            )
            &&& final(stats).counters() == old(stats).counters()
            &&& final(stats).order_seq == old(stats).order_seq + 1
            &&& final(stats).exec_seq == old(stats).exec_seq + 1
        },
        r matches Err(frame) ==> {
            &&& frame@ == business_reject_frame(
                platform_reject(
                    FilingView {
                        msg_type: mt,
                        appl_id: q.appl_id@,
                        ref_id: q.cl_ord_id@,
                        submitting_pbu_id: q.submitting_pbu_id@,
                        security_id: q.security_id@,
                        security_id_source: q.security_id_source@,
                    },
                    now,
                ),
            )
            &&& final(stats).counters() == one_more_reject(old(stats).counters())
            &&& final(stats).sequences() == old(stats).sequences()
        },
        final(stats).partition_report_index@ == old(stats).partition_report_index@,
{
    let filing = Filing {
        msg_type: mt,
        appl_id: q.appl_id.clone(),
        ref_id: q.cl_ord_id.clone(),
        submitting_pbu_id: q.submitting_pbu_id.clone(),
        security_id: q.security_id.clone(),
        security_id_source: q.security_id_source.clone(),
    };
    if let Some(rej) = reject_platform(cfg, stats, &filing, now) {
        return Err(rej);
    }
    let partition_no: i32 = cfg.partition_for(q.security_id.as_str());
    let order_id = stats.next_order_id();
    let exec_id = stats.next_exec_id();
    Ok(accept_quote_request(q, partition_no, order_id, exec_id, now))
}

/// An indication of interest.
#[derive(Debug)]
pub struct IndicationOfInterest {
    pub appl_id: String,
    pub submitting_pbu_id: String,
    pub security_id: String,
    pub security_id_source: String,
    pub owner_type: u16,
    pub clearing_firm: String,
    pub user_info: String,
    pub ioi_id: String,
    pub ioi_ref_id: String,
    pub ioi_trans_type: u8,
    pub side: u8,
    pub account_id: String,
    pub branch_id: String,
    pub ioi_qty: i64,
    pub price: i64,
    pub contactor: String,
    pub contact_info: String,
}

/// The answer to an indication of interest.
#[derive(Debug)]
pub struct IOIResponse {
    pub partition_no: i32,
    pub report_index: i64,
    pub appl_id: String,
    pub reporting_pbu_id: String,
    pub submitting_pbu_id: String,
    pub security_id: String,
    pub security_id_source: String,
    pub owner_type: u16,
    pub clearing_firm: String,
    pub transact_time: i64,
    pub user_info: String,
    pub quote_resp_id: String,
    pub quote_resp_type: u8,
    pub exec_type: u8,
    pub quote_reject_reason: u16,
    pub ioi_id: String,
    pub ioi_ref_id: String,
    pub ioi_trans_type: u8,
    pub side: u8,
    pub account_id: String,
    pub branch_id: String,
    pub ioi_qty: i64,
    pub price: i64,
    pub contactor: String,
    pub contact_info: String,
}

/// The answer to an indication of interest that accepts the message.
pub open spec fn is_ioi_accepted(
    r: IOIResponse,
    q: IndicationOfInterest,
    partition_no: i32,
    exec_id: Seq<char>,
    now: i64,
) -> bool {
    &&& r.partition_no == partition_no
    &&& r.report_index == 0
    &&& r.appl_id == q.appl_id
    &&& r.reporting_pbu_id == q.submitting_pbu_id
    &&& r.submitting_pbu_id == q.submitting_pbu_id
    &&& r.security_id == q.security_id
    &&& r.security_id_source == q.security_id_source
    &&& r.owner_type == q.owner_type
    &&& r.clearing_firm == q.clearing_firm
    &&& r.transact_time == now
    &&& r.user_info == q.user_info
    &&& r.quote_resp_id@ == exec_id
    &&& r.quote_resp_type == 2
    &&& r.exec_type == 0
    &&& r.quote_reject_reason == 0
    &&& r.ioi_id == q.ioi_id
    &&& r.ioi_ref_id == q.ioi_ref_id
    &&& r.ioi_trans_type == q.ioi_trans_type
    &&& r.side == q.side
    &&& r.account_id == q.account_id
    &&& r.branch_id == q.branch_id
    &&& r.ioi_qty == q.ioi_qty
    &&& r.price == q.price
    &&& r.contactor == q.contactor
    &&& r.contact_info == q.contact_info
}

fn accept_ioi(
    q: &IndicationOfInterest,
    partition_no: i32,
    exec_id: String,
    now: i64,
) -> (r: IOIResponse)
    ensures
        is_ioi_accepted(r, *q, partition_no, exec_id@, now),
{
    IOIResponse {
        partition_no,
        report_index: 0,
        appl_id: q.appl_id.clone(),
        reporting_pbu_id: q.submitting_pbu_id.clone(),
        submitting_pbu_id: q.submitting_pbu_id.clone(),
        security_id: q.security_id.clone(),
        security_id_source: q.security_id_source.clone(),
        owner_type: q.owner_type,
        clearing_firm: q.clearing_firm.clone(),
        transact_time: now,
        user_info: q.user_info.clone(),
        quote_resp_id: exec_id,
        quote_resp_type: 2,
        exec_type: 0,
        quote_reject_reason: 0,
        ioi_id: q.ioi_id.clone(),
        ioi_ref_id: q.ioi_ref_id.clone(),
        ioi_trans_type: q.ioi_trans_type,
        side: q.side,
        account_id: q.account_id.clone(),
        branch_id: q.branch_id.clone(),
        ioi_qty: q.ioi_qty,
        price: q.price,
        contactor: q.contactor.clone(),
        contact_info: q.contact_info.clone(),
    }
}

/// Answers an indication of interest: a business rejection where its business is not done on the platform,
/// and otherwise it is accepted.
pub fn handle_ioi(mt: u32, cfg: &PlatformConfig, stats: &mut PlatformStats, q: &IndicationOfInterest, now: i64) -> (r:
    Result<IOIResponse, Vec<u8>>)
    requires
        stats::ids_left(*old(stats)),
    ensures
        r is Ok <==> on_platform(q.appl_id@, cfg.platform_type),
        r matches Ok(rpt) ==> {
            &&& is_ioi_accepted(
                rpt,
                *q,
                partition_of(cfg.partition_list(), q.security_id@) as i32,
                stats::id_text(old(stats).exec_seq + 1),
                now,
            )
            &&& final(stats).counters() == old(stats).counters()
            &&& final(stats).order_seq == old(stats).order_seq + 0
            &&& final(stats).exec_seq == old(stats).exec_seq + 1
        },
        r matches Err(frame) ==> {
            &&& frame@ == business_reject_frame(
                platform_reject(
                    FilingView {
                        msg_type: mt,
                        appl_id: q.appl_id@,
                        ref_id: q.ioi_id@,
                        submitting_pbu_id: q.submitting_pbu_id@,
                        security_id: q.security_id@,
                        security_id_source: q.security_id_source@,
                    },
                    now,
                ),
            )
            &&& final(stats).counters() == one_more_reject(old(stats).counters())
            &&& final(stats).sequences() == old(stats).sequences()
        },
        final(stats).partition_report_index@ == old(stats).partition_report_index@,
{
    let filing = Filing {
        msg_type: mt,
        appl_id: q.appl_id.clone(),
        ref_id: q.ioi_id.clone(),
        submitting_pbu_id: q.submitting_pbu_id.clone(),
        security_id: q.security_id.clone(),
        security_id_source: q.security_id_source.clone(),
    };
    if let Some(rej) = reject_platform(cfg, stats, &filing, now) {
        return Err(rej);
    }
    let partition_no: i32 = cfg.partition_for(q.security_id.as_str());
    let exec_id = stats.next_exec_id();
    Ok(accept_ioi(q, partition_no, exec_id, now))
}

/// The report of a trade that was agreed.
#[derive(Debug)]
pub struct TradeCaptureReport {
    pub appl_id: String,
    pub submitting_pbu_id: String,
    pub security_id: String,
    pub security_id_source: String,
    pub owner_type: u16,
    pub clearing_firm: String,
    pub user_info: String,
    pub trade_report_id: String,
    pub trade_report_type: u8,
    pub trade_report_trans_type: u8,
    pub trade_handling_instr: u8,
    pub trade_report_ref_id: String,
    pub last_px: i64,
    pub last_qty: i64,
    pub trd_type: u16,
    pub trd_sub_type: u16,
    pub confirm_id: String,
    pub side: u8,
    pub pbu_id: String,
    pub account_id: String,
    pub branch_id: String,
    pub counterparty_pbu_id: String,
    pub counterparty_account_id: String,
    pub counterparty_branch_id: String,
    pub extend: Vec<u8>,
}

/// The answer to the report of a trade.
#[derive(Debug)]
pub struct TcrAck {
    pub partition_no: i32,
    pub report_index: i64,
    pub appl_id: String,
    pub reporting_pbu_id: String,
    pub submitting_pbu_id: String,
    pub security_id: String,
    pub security_id_source: String,
    pub owner_type: u16,
    pub clearing_firm: String,
    pub transact_time: i64,
    pub user_info: String,
    pub trade_id: String,
    pub trade_report_id: String,
    pub trade_report_type: u8,
    pub trade_report_trans_type: u8,
    pub trade_handling_instr: u8,
    pub trade_report_ref_id: String,
    pub trd_ack_status: u8,
    pub trd_rpt_status: u8,
    pub trade_report_reject_reason: u16,
    pub last_px: i64,
    pub last_qty: i64,
    pub trd_type: u16,
    pub trd_sub_type: u16,
    pub confirm_id: String,
    pub exec_id: String,
    pub side: u8,
    pub pbu_id: String,
    pub account_id: String,
    pub branch_id: String,
    pub counterparty_pbu_id: String,
    pub counterparty_account_id: String,
    pub counterparty_branch_id: String,
    pub trade_report_reject_text: String,
    pub extend: Vec<u8>,
}

/// The answer to the report of a trade that accepts the message.
pub open spec fn is_tcr_accepted(
    r: TcrAck,
    q: TradeCaptureReport,
    partition_no: i32,
    order_id: Seq<char>,
    exec_id: Seq<char>,
    now: i64,
) -> bool {
    &&& r.partition_no == partition_no
    &&& r.report_index == 0
    &&& r.appl_id == q.appl_id
    &&& r.reporting_pbu_id == q.submitting_pbu_id
    &&& r.submitting_pbu_id == q.submitting_pbu_id
    &&& r.security_id == q.security_id
    &&& r.security_id_source == q.security_id_source
    &&& r.owner_type == q.owner_type
    &&& r.clearing_firm == q.clearing_firm
    &&& r.transact_time == now
    &&& r.user_info == q.user_info
    &&& r.trade_id@ == order_id
    &&& r.trade_report_id == q.trade_report_id
    &&& r.trade_report_type == q.trade_report_type
    &&& r.trade_report_trans_type == q.trade_report_trans_type
    &&& r.trade_handling_instr == q.trade_handling_instr
    &&& r.trade_report_ref_id == q.trade_report_ref_id
    &&& r.trd_ack_status == 0
    &&& r.trd_rpt_status == 0
    &&& r.trade_report_reject_reason == 0
    &&& r.last_px == q.last_px
    &&& r.last_qty == q.last_qty
    &&& r.trd_type == q.trd_type
    &&& r.trd_sub_type == q.trd_sub_type
    &&& r.confirm_id == q.confirm_id
    &&& r.exec_id@ == exec_id
    &&& r.side == q.side
    &&& r.pbu_id == q.pbu_id
    &&& r.account_id == q.account_id
    &&& r.branch_id == q.branch_id
    &&& r.counterparty_pbu_id == q.counterparty_pbu_id
    &&& r.counterparty_account_id == q.counterparty_account_id
    &&& r.counterparty_branch_id == q.counterparty_branch_id
    &&& r.trade_report_reject_text@.len() == 0
    &&& r.extend@ == q.extend@
}

fn accept_tcr(
    q: &TradeCaptureReport,
    partition_no: i32,
    order_id: String,
    exec_id: String,
    now: i64,
) -> (r: TcrAck)
    ensures
        is_tcr_accepted(r, *q, partition_no, order_id@, exec_id@, now),
{
    TcrAck {
        partition_no,
        report_index: 0,
        appl_id: q.appl_id.clone(),
        reporting_pbu_id: q.submitting_pbu_id.clone(),
        submitting_pbu_id: q.submitting_pbu_id.clone(),
        security_id: q.security_id.clone(),
        security_id_source: q.security_id_source.clone(),
        owner_type: q.owner_type,
        clearing_firm: q.clearing_firm.clone(),
        transact_time: now,
        user_info: q.user_info.clone(),
        trade_id: order_id,
        trade_report_id: q.trade_report_id.clone(),
        trade_report_type: q.trade_report_type,
        trade_report_trans_type: q.trade_report_trans_type,
        trade_handling_instr: q.trade_handling_instr,
        trade_report_ref_id: q.trade_report_ref_id.clone(),
        trd_ack_status: 0,
        trd_rpt_status: 0,
        trade_report_reject_reason: 0,
        last_px: q.last_px,
        last_qty: q.last_qty,
        trd_type: q.trd_type,
        trd_sub_type: q.trd_sub_type,
        confirm_id: q.confirm_id.clone(),
        exec_id,
        side: q.side,
        pbu_id: q.pbu_id.clone(),
        account_id: q.account_id.clone(),
        branch_id: q.branch_id.clone(),
        counterparty_pbu_id: q.counterparty_pbu_id.clone(),
        counterparty_account_id: q.counterparty_account_id.clone(),
        counterparty_branch_id: q.counterparty_branch_id.clone(),
        trade_report_reject_text: String::new(),
        extend: copy_bytes(&q.extend),
    }
}

/// Answers the report of a trade that was agreed: a business rejection where its business is not done on the platform,
/// and otherwise it is accepted.
pub fn handle_tcr(mt: u32, cfg: &PlatformConfig, stats: &mut PlatformStats, q: &TradeCaptureReport, now: i64) -> (r:
    Result<TcrAck, Vec<u8>>)
    requires
        stats::ids_left(*old(stats)),
    ensures
        r is Ok <==> on_platform(q.appl_id@, cfg.platform_type),
        r matches Ok(rpt) ==> {
            &&& is_tcr_accepted(
                rpt,
                *q,
                partition_of(cfg.partition_list(), q.security_id@) as i32,
                stats::id_text(old(stats).order_seq + 1),
                stats::id_text(old(stats).exec_seq + 1),
                now,
            )
            &&& final(stats).counters() == old(stats).counters()
            &&& final(stats).order_seq == old(stats).order_seq + 1
            &&& final(stats).exec_seq == old(stats).exec_seq + 1
        },
        r matches Err(frame) ==> {
            &&& frame@ == business_reject_frame(
                platform_reject(
                    FilingView {
                        msg_type: mt,
                        appl_id: q.appl_id@,
                        ref_id: q.trade_report_id@,
                        submitting_pbu_id: q.submitting_pbu_id@,
                        security_id: q.security_id@,
                        security_id_source: q.security_id_source@,
                    },
                    now,
                ),
            )
            &&& final(stats).counters() == one_more_reject(old(stats).counters())
            &&& final(stats).sequences() == old(stats).sequences()
        },
        final(stats).partition_report_index@ == old(stats).partition_report_index@,
{
    let filing = Filing {
        msg_type: mt,
        appl_id: q.appl_id.clone(),
        ref_id: q.trade_report_id.clone(),
        submitting_pbu_id: q.submitting_pbu_id.clone(),
        security_id: q.security_id.clone(),
        security_id_source: q.security_id_source.clone(),
    };
    if let Some(rej) = reject_platform(cfg, stats, &filing, now) {
        return Err(rej);
    }
    let partition_no: i32 = cfg.partition_for(q.security_id.as_str());
    let order_id = stats.next_order_id();
    let exec_id = stats.next_exec_id();
    Ok(accept_tcr(q, partition_no, order_id, exec_id, now))
}

/// A transfer of custody.
#[derive(Debug)]
pub struct Designation {
    pub appl_id: String,
    pub submitting_pbu_id: String,
    pub security_id: String,
    pub security_id_source: String,
    pub owner_type: u16,
    pub clearing_firm: String,
    pub user_info: String,
    pub cl_ord_id: String,
    pub orig_cl_ord_id: String,
    pub designation_instruction: u8,
    pub designation_trans_type: u8,
    pub account_id: String,
    pub branch_id: String,
    pub order_qty: i64,
    pub transferee_pbu_id: String,
}

/// The report on a transfer of custody.
#[derive(Debug)]
pub struct DesignationReport {
    pub partition_no: i32,
    pub report_index: i64,
    pub appl_id: String,
    pub reporting_pbu_id: String,
    pub submitting_pbu_id: String,
    pub security_id: String,
    pub security_id_source: String,
    pub owner_type: u16,
    pub clearing_firm: String,
    pub transact_time: i64,
    pub user_info: String,
    pub order_id: String,
    pub cl_ord_id: String,
    pub orig_cl_ord_id: String,
    pub exec_id: String,
    pub exec_type: u8,
    pub ord_rej_reason: u16,
    pub designation_instruction: u8,
    pub designation_trans_type: u8,
    pub account_id: String,
    pub branch_id: String,
    pub order_qty: i64,
    pub transferee_pbu_id: String,
}

/// The report on a transfer of custody that accepts the message.
pub open spec fn is_designation_accepted(
    r: DesignationReport,
    q: Designation,
    partition_no: i32,
    order_id: Seq<char>,
    exec_id: Seq<char>,
    now: i64,
) -> bool {
    &&& r.partition_no == partition_no
    &&& r.report_index == 0
    &&& r.appl_id == q.appl_id
    &&& r.reporting_pbu_id == q.submitting_pbu_id
    &&& r.submitting_pbu_id == q.submitting_pbu_id
    &&& r.security_id == q.security_id
    &&& r.security_id_source == q.security_id_source
    &&& r.owner_type == q.owner_type
    &&& r.clearing_firm == q.clearing_firm
    &&& r.transact_time == now
    &&& r.user_info == q.user_info
    &&& r.order_id@ == order_id
    &&& r.cl_ord_id == q.cl_ord_id
    &&& r.orig_cl_ord_id == q.orig_cl_ord_id
    &&& r.exec_id@ == exec_id
    &&& r.exec_type == 0
    &&& r.ord_rej_reason == 0
    &&& r.designation_instruction == q.designation_instruction
    &&& r.designation_trans_type == q.designation_trans_type
    &&& r.account_id == q.account_id
    &&& r.branch_id == q.branch_id
    &&& r.order_qty == q.order_qty
    &&& r.transferee_pbu_id == q.transferee_pbu_id
}

fn accept_designation(
    q: &Designation,
    partition_no: i32,
    order_id: String,
    exec_id: String,
    now: i64,
) -> (r: DesignationReport)
    ensures
        is_designation_accepted(r, *q, partition_no, order_id@, exec_id@, now),
{
    DesignationReport {
        partition_no,
        report_index: 0,
        appl_id: q.appl_id.clone(),
        reporting_pbu_id: q.submitting_pbu_id.clone(),
        submitting_pbu_id: q.submitting_pbu_id.clone(),
        security_id: q.security_id.clone(),
        security_id_source: q.security_id_source.clone(),
        owner_type: q.owner_type,
        clearing_firm: q.clearing_firm.clone(),
        transact_time: now,
        user_info: q.user_info.clone(),
        order_id,
        cl_ord_id: q.cl_ord_id.clone(),
        orig_cl_ord_id: q.orig_cl_ord_id.clone(),
        exec_id,
        exec_type: 0,
        ord_rej_reason: 0,
        designation_instruction: q.designation_instruction,
        designation_trans_type: q.designation_trans_type,
        account_id: q.account_id.clone(),
        branch_id: q.branch_id.clone(),
        order_qty: q.order_qty,
        transferee_pbu_id: q.transferee_pbu_id.clone(),
    }
}

/// Answers a transfer of custody: a business rejection where its business is not done on the platform,
/// and otherwise it is accepted.
pub fn handle_designation(mt: u32, cfg: &PlatformConfig, stats: &mut PlatformStats, q: &Designation, now: i64) -> (r:
    Result<DesignationReport, Vec<u8>>)
    requires
        stats::ids_left(*old(stats)),
    ensures
        r is Ok <==> on_platform(q.appl_id@, cfg.platform_type),
        r matches Ok(rpt) ==> {
            &&& is_designation_accepted(
                rpt,
                *q,
                partition_of(cfg.partition_list(), q.security_id@) as i32,
                stats::id_text(old(stats).order_seq + 1),
                stats::id_text(old(stats).exec_seq + 1),
                now,
            )
            &&& final(stats).counters() == old(stats).counters()
            &&& final(stats).order_seq == old(stats).order_seq + 1
            &&& final(stats).exec_seq == old(stats).exec_seq + 1
        },
        r matches Err(frame) ==> {
            &&& frame@ == business_reject_frame(
                platform_reject(
                    FilingView {
                        msg_type: mt,
                        appl_id: q.appl_id@,
                        ref_id: q.cl_ord_id@,
                        submitting_pbu_id: q.submitting_pbu_id@,
                        security_id: q.security_id@,
                        security_id_source: q.security_id_source@,
                    },
                    now,
                ),
            )
            &&& final(stats).counters() == one_more_reject(old(stats).counters())
            &&& final(stats).sequences() == old(stats).sequences()
        },
        final(stats).partition_report_index@ == old(stats).partition_report_index@,
{
    let filing = Filing {
        msg_type: mt,
        appl_id: q.appl_id.clone(),
        ref_id: q.cl_ord_id.clone(),
        submitting_pbu_id: q.submitting_pbu_id.clone(),
        security_id: q.security_id.clone(),
        security_id_source: q.security_id_source.clone(),
    };
    if let Some(rej) = reject_platform(cfg, stats, &filing, now) {
        return Err(rej);
    }
    let partition_no: i32 = cfg.partition_for(q.security_id.as_str());
    let order_id = stats.next_order_id();
    let exec_id = stats.next_exec_id();
    Ok(accept_designation(q, partition_no, order_id, exec_id, now))
}

/// A vote.
#[derive(Debug)]
pub struct Evote {
    pub appl_id: String,
    pub submitting_pbu_id: String,
    pub security_id: String,
    pub security_id_source: String,
    pub owner_type: u16,
    pub clearing_firm: String,
    pub user_info: String,
    pub cl_ord_id: String,
    pub account_id: String,
    pub branch_id: String,
    pub voting_proposal: u16,
    pub voting_sub_proposal: u16,
    pub voting_preference: u8,
    pub order_qty: i64,
}

/// The report on a vote.
#[derive(Debug)]
pub struct EvoteReport {
    pub partition_no: i32,
    pub report_index: i64,
    pub appl_id: String,
    pub reporting_pbu_id: String,
    pub submitting_pbu_id: String,
    pub security_id: String,
    pub security_id_source: String,
    pub owner_type: u16,
    pub clearing_firm: String,
    pub transact_time: i64,
    pub user_info: String,
    pub order_id: String,
    pub cl_ord_id: String,
    pub exec_id: String,
    pub exec_type: u8,
    pub ord_rej_reason: u16,
    pub account_id: String,
    pub branch_id: String,
    pub voting_proposal: u16,
    pub voting_sub_proposal: u16,
    pub voting_preference: u8,
    pub order_qty: i64,
}

/// The report on a vote that accepts the message.
pub open spec fn is_evote_accepted(
    r: EvoteReport,
    q: Evote,
    partition_no: i32,
    order_id: Seq<char>,
    exec_id: Seq<char>,
    now: i64,
) -> bool {
    &&& r.partition_no == partition_no
    &&& r.report_index == 0
    &&& r.appl_id == q.appl_id
    &&& r.reporting_pbu_id == q.submitting_pbu_id
    &&& r.submitting_pbu_id == q.submitting_pbu_id
    &&& r.security_id == q.security_id
    &&& r.security_id_source == q.security_id_source
    &&& r.owner_type == q.owner_type
    &&& r.clearing_firm == q.clearing_firm
    &&& r.transact_time == now
    &&& r.user_info == q.user_info
    &&& r.order_id@ == order_id
    &&& r.cl_ord_id == q.cl_ord_id
    &&& r.exec_id@ == exec_id
    &&& r.exec_type == 0
    &&& r.ord_rej_reason == 0
    &&& r.account_id == q.account_id
    &&& r.branch_id == q.branch_id
    &&& r.voting_proposal == q.voting_proposal
    &&& r.voting_sub_proposal == q.voting_sub_proposal
    &&& r.voting_preference == q.voting_preference
    &&& r.order_qty == q.order_qty
}

fn accept_evote(
    q: &Evote,
    partition_no: i32,
    order_id: String,
    exec_id: String,
    now: i64,
) -> (r: EvoteReport)
    ensures
        is_evote_accepted(r, *q, partition_no, order_id@, exec_id@, now),
{
    EvoteReport {
        partition_no,
        report_index: 0,
        appl_id: q.appl_id.clone(),
        reporting_pbu_id: q.submitting_pbu_id.clone(),
        submitting_pbu_id: q.submitting_pbu_id.clone(),
        security_id: q.security_id.clone(),
        security_id_source: q.security_id_source.clone(),
        owner_type: q.owner_type,
        clearing_firm: q.clearing_firm.clone(),
        transact_time: now,
        user_info: q.user_info.clone(),
        order_id,
        cl_ord_id: q.cl_ord_id.clone(),
        exec_id,
        exec_type: 0,
        ord_rej_reason: 0,
        account_id: q.account_id.clone(),
        branch_id: q.branch_id.clone(),
        voting_proposal: q.voting_proposal,
        voting_sub_proposal: q.voting_sub_proposal,
        voting_preference: q.voting_preference,
        order_qty: q.order_qty,
    }
}

/// Answers a vote: a business rejection where its business is not done on the platform,
/// and otherwise it is accepted.
pub fn handle_evote(mt: u32, cfg: &PlatformConfig, stats: &mut PlatformStats, q: &Evote, now: i64) -> (r:
    Result<EvoteReport, Vec<u8>>)
    requires
        stats::ids_left(*old(stats)),
    ensures
        r is Ok <==> on_platform(q.appl_id@, cfg.platform_type),
        r matches Ok(rpt) ==> {
            &&& is_evote_accepted(
                rpt,
                *q,
                partition_of(cfg.partition_list(), q.security_id@) as i32,
                stats::id_text(old(stats).order_seq + 1),
                stats::id_text(old(stats).exec_seq + 1),
                now,
            )
            &&& final(stats).counters() == old(stats).counters()
            &&& final(stats).order_seq == old(stats).order_seq + 1
            &&& final(stats).exec_seq == old(stats).exec_seq + 1
        },
        r matches Err(frame) ==> {
            &&& frame@ == business_reject_frame(
                platform_reject(
                    FilingView {
                        msg_type: mt,
                        appl_id: q.appl_id@,
                        ref_id: q.cl_ord_id@,
                        submitting_pbu_id: q.submitting_pbu_id@,
                        security_id: q.security_id@,
                        security_id_source: q.security_id_source@,
                    },
                    now,
                ),
            )
            &&& final(stats).counters() == one_more_reject(old(stats).counters())
            &&& final(stats).sequences() == old(stats).sequences()
        },
        final(stats).partition_report_index@ == old(stats).partition_report_index@,
{
    let filing = Filing {
        msg_type: mt,
        appl_id: q.appl_id.clone(),
        ref_id: q.cl_ord_id.clone(),
        submitting_pbu_id: q.submitting_pbu_id.clone(),
        security_id: q.security_id.clone(),
        security_id_source: q.security_id_source.clone(),
    };
    if let Some(rej) = reject_platform(cfg, stats, &filing, now) {
        return Err(rej);
    }
    let partition_no: i32 = cfg.partition_for(q.security_id.as_str());
    let order_id = stats.next_order_id();
    let exec_id = stats.next_exec_id();
    Ok(accept_evote(q, partition_no, order_id, exec_id, now))
}

/// A request to the password service.
#[derive(Debug)]
pub struct PasswordService {
    pub appl_id: String,
    pub submitting_pbu_id: String,
    pub security_id: String,
    pub security_id_source: String,
    pub owner_type: u16,
    pub clearing_firm: String,
    pub user_info: String,
    pub cl_ord_id: String,
    pub account_id: String,
    pub branch_id: String,
    pub validation_code: u32,
}

/// The report on a request to the password service.
#[derive(Debug)]
pub struct PasswordServiceReport {
    pub partition_no: i32,
    pub report_index: i64,
    pub appl_id: String,
    pub reporting_pbu_id: String,
    pub submitting_pbu_id: String,
    pub security_id: String,
    pub security_id_source: String,
    pub owner_type: u16,
    pub clearing_firm: String,
    pub transact_time: i64,
    pub user_info: String,
    pub order_id: String,
    pub cl_ord_id: String,
    pub exec_id: String,
    pub exec_type: u8,
    pub ord_rej_reason: u16,
    pub account_id: String,
    pub branch_id: String,
    pub validation_code: u32,
}

/// The report on a request to the password service that accepts the message.
pub open spec fn is_password_service_accepted(
    r: PasswordServiceReport,
    q: PasswordService,
    partition_no: i32,
    order_id: Seq<char>,
    exec_id: Seq<char>,
    now: i64,
) -> bool {
    &&& r.partition_no == partition_no
    &&& r.report_index == 0
    &&& r.appl_id == q.appl_id
    &&& r.reporting_pbu_id == q.submitting_pbu_id
    &&& r.submitting_pbu_id == q.submitting_pbu_id
    &&& r.security_id == q.security_id
    &&& r.security_id_source == q.security_id_source
    &&& r.owner_type == q.owner_type
    &&& r.clearing_firm == q.clearing_firm
    &&& r.transact_time == now
    &&& r.user_info == q.user_info
    &&& r.order_id@ == order_id
    &&& r.cl_ord_id == q.cl_ord_id
    &&& r.exec_id@ == exec_id
    &&& r.exec_type == 0
    &&& r.ord_rej_reason == 0
    &&& r.account_id == q.account_id
    &&& r.branch_id == q.branch_id
    &&& r.validation_code == q.validation_code
}

fn accept_password_service(
    q: &PasswordService,
    partition_no: i32,
    order_id: String,
    exec_id: String,
    now: i64,
) -> (r: PasswordServiceReport)
    ensures
        is_password_service_accepted(r, *q, partition_no, order_id@, exec_id@, now),
{
    PasswordServiceReport {
        partition_no,
        report_index: 0,
        appl_id: q.appl_id.clone(),
        reporting_pbu_id: q.submitting_pbu_id.clone(),
        submitting_pbu_id: q.submitting_pbu_id.clone(),
        security_id: q.security_id.clone(),
        security_id_source: q.security_id_source.clone(),
        owner_type: q.owner_type,
        clearing_firm: q.clearing_firm.clone(),
        transact_time: now,
        user_info: q.user_info.clone(),
        order_id,
        cl_ord_id: q.cl_ord_id.clone(),
        exec_id,
        exec_type: 0,
        ord_rej_reason: 0,
        account_id: q.account_id.clone(),
        branch_id: q.branch_id.clone(),
        validation_code: q.validation_code,
    }
}

/// Answers a request to the password service: a business rejection where its business is not done on the platform,
/// and otherwise it is accepted.
pub fn handle_password_service(mt: u32, cfg: &PlatformConfig, stats: &mut PlatformStats, q: &PasswordService, now: i64) -> (r:
    Result<PasswordServiceReport, Vec<u8>>)
    requires
        stats::ids_left(*old(stats)),
    ensures
        r is Ok <==> on_platform(q.appl_id@, cfg.platform_type),
        r matches Ok(rpt) ==> {
            &&& is_password_service_accepted(
                rpt,
                *q,
                partition_of(cfg.partition_list(), q.security_id@) as i32,
                stats::id_text(old(stats).order_seq + 1),
                stats::id_text(old(stats).exec_seq + 1),
                now,
            )
            &&& final(stats).counters() == old(stats).counters()
            &&& final(stats).order_seq == old(stats).order_seq + 1
            &&& final(stats).exec_seq == old(stats).exec_seq + 1
        },
        r matches Err(frame) ==> {
            &&& frame@ == business_reject_frame(
                platform_reject(
                    FilingView {
                        msg_type: mt,
                        appl_id: q.appl_id@,
                        ref_id: q.cl_ord_id@,
                        submitting_pbu_id: q.submitting_pbu_id@,
                        security_id: q.security_id@,
                        security_id_source: q.security_id_source@,
                    },
                    now,
                ),
            )
            &&& final(stats).counters() == one_more_reject(old(stats).counters())
            &&& final(stats).sequences() == old(stats).sequences()
        },
        final(stats).partition_report_index@ == old(stats).partition_report_index@,
{
    let filing = Filing {
        msg_type: mt,
        appl_id: q.appl_id.clone(),
        ref_id: q.cl_ord_id.clone(),
        submitting_pbu_id: q.submitting_pbu_id.clone(),
        security_id: q.security_id.clone(),
        security_id_source: q.security_id_source.clone(),
    };
    if let Some(rej) = reject_platform(cfg, stats, &filing, now) {
        return Err(rej);
    }
    let partition_no: i32 = cfg.partition_for(q.security_id.as_str());
    let order_id = stats.next_order_id();
    let exec_id = stats.next_exec_id();
    Ok(accept_password_service(q, partition_no, order_id, exec_id, now))
}

/// A query of margins.
#[derive(Debug)]
pub struct MarginQuery {
    pub appl_id: String,
    pub submitting_pbu_id: String,
    pub security_id: String,
    pub security_id_source: String,
    pub owner_type: u16,
    pub clearing_firm: String,
    pub user_info: String,
    pub cl_ord_id: String,
    pub fund_pbu_id: String,
}

/// The result of a query of margins.
#[derive(Debug)]
pub struct MarginQueryResult {
    pub partition_no: i32,
    pub report_index: i64,
    pub appl_id: String,
    pub reporting_pbu_id: String,
    pub submitting_pbu_id: String,
    pub security_id: String,
    pub security_id_source: String,
    pub owner_type: u16,
    pub clearing_firm: String,
    pub transact_time: i64,
    pub user_info: String,
    pub cl_ord_id: String,
    pub exec_id: String,
    pub exec_type: u8,
    pub ord_rej_reason: u16,
    pub fund_pbu_id: String,
    pub no_margin_items: u16,
    pub margin_items: Vec<(u16, i64)>,
}

/// The result of a query of margins that accepts the message.
pub open spec fn is_margin_query_accepted(
    r: MarginQueryResult,
    q: MarginQuery,
    partition_no: i32,
    exec_id: Seq<char>,
    now: i64,
) -> bool {
    &&& r.partition_no == partition_no
    &&& r.report_index == 0
    &&& r.appl_id == q.appl_id
    &&& r.reporting_pbu_id == q.submitting_pbu_id
    &&& r.submitting_pbu_id == q.submitting_pbu_id
    &&& r.security_id == q.security_id
    &&& r.security_id_source == q.security_id_source
    &&& r.owner_type == q.owner_type
    &&& r.clearing_firm == q.clearing_firm
    &&& r.transact_time == now
    &&& r.user_info == q.user_info
    &&& r.cl_ord_id == q.cl_ord_id
    &&& r.exec_id@ == exec_id
    &&& r.exec_type == 0
    &&& r.ord_rej_reason == 0
    &&& r.fund_pbu_id == q.fund_pbu_id
    &&& r.no_margin_items == 4
    &&& r.margin_items@ == seq![(1u16, 0i64), (2u16, 0i64), (3u16, 0i64), (4u16, 0i64)]
}

fn accept_margin_query(
    q: &MarginQuery,
    partition_no: i32,
    exec_id: String,
    now: i64,
) -> (r: MarginQueryResult)
    ensures
        is_margin_query_accepted(r, *q, partition_no, exec_id@, now),
{
    MarginQueryResult {
        partition_no,
        report_index: 0,
        appl_id: q.appl_id.clone(),
        reporting_pbu_id: q.submitting_pbu_id.clone(),
        submitting_pbu_id: q.submitting_pbu_id.clone(),
        security_id: q.security_id.clone(),
        security_id_source: q.security_id_source.clone(),
        owner_type: q.owner_type,
        clearing_firm: q.clearing_firm.clone(),
        transact_time: now,
        user_info: q.user_info.clone(),
        cl_ord_id: q.cl_ord_id.clone(),
        exec_id,
        exec_type: 0,
        ord_rej_reason: 0,
        fund_pbu_id: q.fund_pbu_id.clone(),
        no_margin_items: 4,
        margin_items: vec![(1u16, 0i64), (2u16, 0i64), (3u16, 0i64), (4u16, 0i64)],
    }
}

/// Answers a query of margins: a business rejection where its business is not done on the platform,
/// and otherwise it is accepted.
pub fn handle_margin_query(mt: u32, cfg: &PlatformConfig, stats: &mut PlatformStats, q: &MarginQuery, now: i64) -> (r:
    Result<MarginQueryResult, Vec<u8>>)
    requires
        stats::ids_left(*old(stats)),
    ensures
        r is Ok <==> on_platform(q.appl_id@, cfg.platform_type),
        r matches Ok(rpt) ==> {
            &&& is_margin_query_accepted(
                rpt,
                *q,
                partition_of(cfg.partition_list(), q.security_id@) as i32,
                stats::id_text(old(stats).exec_seq + 1),
                now,
            )
            &&& final(stats).counters() == old(stats).counters()
            &&& final(stats).order_seq == old(stats).order_seq + 0
            &&& final(stats).exec_seq == old(stats).exec_seq + 1
        },
        r matches Err(frame) ==> {
            &&& frame@ == business_reject_frame(
                platform_reject(
                    FilingView {
                        msg_type: mt,
                        appl_id: q.appl_id@,
                        ref_id: q.cl_ord_id@,
                        submitting_pbu_id: q.submitting_pbu_id@,
                        security_id: q.security_id@,
                        security_id_source: q.security_id_source@,
                    },
                    now,
                ),
            )
            &&& final(stats).counters() == one_more_reject(old(stats).counters())
            &&& final(stats).sequences() == old(stats).sequences()
        },
        final(stats).partition_report_index@ == old(stats).partition_report_index@,
{
    let filing = Filing {
        msg_type: mt,
        appl_id: q.appl_id.clone(),
        ref_id: q.cl_ord_id.clone(),
        submitting_pbu_id: q.submitting_pbu_id.clone(),
        security_id: q.security_id.clone(),
        security_id_source: q.security_id_source.clone(),
    };
    if let Some(rej) = reject_platform(cfg, stats, &filing, now) {
        return Err(rej);
    }
    let partition_no: i32 = cfg.partition_for(q.security_id.as_str());
    let exec_id = stats.next_exec_id();
    Ok(accept_margin_query(q, partition_no, exec_id, now))
}

/// An order with several legs.
#[derive(Debug)]
pub struct MultilegOrder {
    pub appl_id: String,
    pub submitting_pbu_id: String,
    pub security_id: String,
    pub security_id_source: String,
    pub owner_type: u16,
    pub clearing_firm: String,
    pub user_info: String,
    pub cl_ord_id: String,
    pub order_qty: i64,
    pub side: u8,
    pub ord_type: u8,
    pub price: i64,
    pub account_id: String,
    pub branch_id: String,
    pub order_restrictions: String,
    pub contract_account_code: String,
    pub secondary_order_id: String,
    pub security_type: String,
    pub security_sub_type: String,
    pub no_legs: u16,
    pub legs: Vec<Leg>,
}

/// The response to an order with several legs.
#[derive(Debug)]
pub struct MultilegExecRpt {
    pub partition_no: i32,
    pub report_index: i64,
    pub appl_id: String,
    pub reporting_pbu_id: String,
    pub submitting_pbu_id: String,
    pub security_id: String,
    pub security_id_source: String,
    pub owner_type: u16,
    pub clearing_firm: String,
    pub transact_time: i64,
    pub user_info: String,
    pub order_id: String,
    pub cl_ord_id: String,
    pub orig_cl_ord_id: String,
    pub exec_id: String,
    pub exec_type: u8,
    pub ord_status: u8,
    pub ord_rej_reason: u16,
    pub leaves_qty: i64,
    pub cum_qty: i64,
    pub side: u8,
    pub ord_type: u8,
    pub order_qty: i64,
    pub price: i64,
    pub account_id: String,
    pub branch_id: String,
    pub order_restrictions: String,
    pub contract_account_code: String,
    pub secondary_order_id: String,
    pub security_type: String,
    pub security_sub_type: String,
    pub no_legs: u16,
    pub legs: Vec<Leg>,
}

/// The response to an order with several legs that accepts the message.
pub open spec fn is_multileg_accepted(
    r: MultilegExecRpt,
    q: MultilegOrder,
    partition_no: i32,
    order_id: Seq<char>,
    exec_id: Seq<char>,
    now: i64,
) -> bool {
    &&& r.partition_no == partition_no
    &&& r.report_index == 0
    &&& r.appl_id == q.appl_id
    &&& r.reporting_pbu_id == q.submitting_pbu_id
    &&& r.submitting_pbu_id == q.submitting_pbu_id
    &&& r.security_id == q.security_id
    &&& r.security_id_source == q.security_id_source
    &&& r.owner_type == q.owner_type
    &&& r.clearing_firm == q.clearing_firm
    &&& r.transact_time == now
    &&& r.user_info == q.user_info
    &&& r.order_id@ == order_id
    &&& r.cl_ord_id == q.cl_ord_id
    &&& r.orig_cl_ord_id@.len() == 0
    &&& r.exec_id@ == exec_id
    &&& r.exec_type == exec_type::NEW
    &&& r.ord_status == ord_status::NEW
    &&& r.ord_rej_reason == 0
    &&& r.leaves_qty == q.order_qty
    &&& r.cum_qty == 0
    &&& r.side == q.side
    &&& r.ord_type == q.ord_type
    &&& r.order_qty == q.order_qty
    &&& r.price == q.price
    &&& r.account_id == q.account_id
    &&& r.branch_id == q.branch_id
    &&& r.order_restrictions == q.order_restrictions
    &&& r.contract_account_code == q.contract_account_code
    &&& r.secondary_order_id == q.secondary_order_id
    &&& r.security_type == q.security_type
    &&& r.security_sub_type == q.security_sub_type
    &&& r.no_legs == q.no_legs
    &&& r.legs@ == q.legs@
}

fn accept_multileg(
    q: &MultilegOrder,
    partition_no: i32,
    order_id: String,
    exec_id: String,
    now: i64,
) -> (r: MultilegExecRpt)
    ensures
        is_multileg_accepted(r, *q, partition_no, order_id@, exec_id@, now),
{
    MultilegExecRpt {
        partition_no,
        report_index: 0,
        appl_id: q.appl_id.clone(),
        reporting_pbu_id: q.submitting_pbu_id.clone(),
        submitting_pbu_id: q.submitting_pbu_id.clone(),
        security_id: q.security_id.clone(),
        security_id_source: q.security_id_source.clone(),
        owner_type: q.owner_type,
        clearing_firm: q.clearing_firm.clone(),
        transact_time: now,
        user_info: q.user_info.clone(),
        order_id,
        cl_ord_id: q.cl_ord_id.clone(),
        orig_cl_ord_id: String::new(),
        exec_id,
        exec_type: exec_type::NEW,
        ord_status: ord_status::NEW,
        ord_rej_reason: 0,
        leaves_qty: q.order_qty,
        cum_qty: 0,
        side: q.side,
        ord_type: q.ord_type,
        order_qty: q.order_qty,
        price: q.price,
        account_id: q.account_id.clone(),
        branch_id: q.branch_id.clone(),
        order_restrictions: q.order_restrictions.clone(),
        contract_account_code: q.contract_account_code.clone(),
        secondary_order_id: q.secondary_order_id.clone(),
        security_type: q.security_type.clone(),
        security_sub_type: q.security_sub_type.clone(),
        no_legs: q.no_legs,
        legs: copy_legs(&q.legs),
    }
}

/// Answers an order with several legs: a business rejection where its business is not done on the platform,
/// and otherwise it is accepted.
pub fn handle_multileg(mt: u32, cfg: &PlatformConfig, stats: &mut PlatformStats, q: &MultilegOrder, now: i64) -> (r:
    Result<MultilegExecRpt, Vec<u8>>)
    requires
        stats::ids_left(*old(stats)),
    ensures
        r is Ok <==> on_platform(q.appl_id@, cfg.platform_type),
        r matches Ok(rpt) ==> {
            &&& is_multileg_accepted(
                rpt,
                *q,
                partition_of(cfg.partition_list(), q.security_id@) as i32,
                stats::id_text(old(stats).order_seq + 1),
                stats::id_text(old(stats).exec_seq + 1),
                now,
            )
            &&& final(stats).counters() == old(stats).counters()
            &&& final(stats).order_seq == old(stats).order_seq + 1
            &&& final(stats).exec_seq == old(stats).exec_seq + 1
        },
        r matches Err(frame) ==> {
            &&& frame@ == business_reject_frame(
                platform_reject(
                    FilingView {
                        msg_type: mt,
                        appl_id: q.appl_id@,
                        ref_id: q.cl_ord_id@,
                        submitting_pbu_id: q.submitting_pbu_id@,
                        security_id: q.security_id@,
                        security_id_source: q.security_id_source@,
                    },
                    now,
                ),
            )
            &&& final(stats).counters() == one_more_reject(old(stats).counters())
            &&& final(stats).sequences() == old(stats).sequences()
        },
        final(stats).partition_report_index@ == old(stats).partition_report_index@,
{
    let filing = Filing {
        msg_type: mt,
        appl_id: q.appl_id.clone(),
        ref_id: q.cl_ord_id.clone(),
        submitting_pbu_id: q.submitting_pbu_id.clone(),
        security_id: q.security_id.clone(),
        security_id_source: q.security_id_source.clone(),
    };
    if let Some(rej) = reject_platform(cfg, stats, &filing, now) {
        return Err(rej);
    }
    let partition_no: i32 = cfg.partition_for(q.security_id.as_str());
    let order_id = stats.next_order_id();
    let exec_id = stats.next_exec_id();
    Ok(accept_multileg(q, partition_no, order_id, exec_id, now))
}

} // verus!
