//! Where the fields of the messages of the Shenzhen exchange stand: what a client reads out of
//! a message that is sent, and what is read out of a message that a client writes.
use vstd::prelude::*;

use super::filings;
use super::filings::QuoteStatusReport;
use super::protocol;
use super::protocol::{
    BusinessRejectView, CancelRejectView, ExecRptAckView, ExecRptTradeView, LogonView, LogoutView,
    NewOrderView, OrderCancelRequestView, OrderCommonView, OrderExtend, TradingSessionStatusView,
};
use crate::wire;
use crate::wire::{
    be, fits, int_at, nat_at, nil, text_field, text_held, with_int, with_nat, with_text,
};

verus! {

/// The body of a message: what stands between the head of 8 bytes and the check value of 4.
pub open spec fn body_of(f: Seq<u8>) -> Seq<u8> {
    f.subrange(8, f.len() - 4)
}

/// A message of type `mt` whose length and check value are right, with a body of `n` bytes.
pub open spec fn is_message(f: Seq<u8>, mt: u32, n: int) -> bool {
    &&& f.len() == n + 12
    &&& nat_at(f, 0, 4) == mt
    &&& nat_at(f, 4, 4) == n
    &&& nat_at(f, n + 8, 4) == wire::byte_sum(f.subrange(0, n + 8)) % 256
}

/// A framed body is a message with that body.
pub proof fn law_framed_body(mt: u32, body: Seq<u8>)
    requires
        body.len() < 0x1_0000_0000,
    ensures
        is_message(protocol::framed(mt, body), mt, body.len() as int),
        body_of(protocol::framed(mt, body)) == body,
{
    protocol::law_framed(mt, body);
}

/// The fields that a response starts with, up to the execution number.
proof fn response_head(v: ExecRptAckView) -> (r: Seq<u8>)
    ensures
        r == nil()
            + be(v.partition_no as int, 4)
            + be(v.report_index as int, 8)
            + text_field(v.appl_id, 3)
            + text_field(v.reporting_pbu_id, 6)
            + text_field(v.submitting_pbu_id, 6)
            + text_field(v.security_id, 8)
            + text_field(v.security_id_source, 4)
            + be(v.owner_type as int, 2)
            + text_field(v.clearing_firm, 2)
            + be(v.transact_time as int, 8)
            + text_field(v.user_info, 8)
            + text_field(v.order_id, 16)
            + text_field(v.cl_ord_id, 10)
            + text_field(v.orig_cl_ord_id, 10)
            + text_field(v.exec_id, 16),
        r.len() == 111,
        int_at(r, 0, 4) == v.partition_no,
        int_at(r, 4, 8) == v.report_index,
        text_held(r, 12, 3, v.appl_id),
        text_held(r, 15, 6, v.reporting_pbu_id),
        text_held(r, 21, 6, v.submitting_pbu_id),
        text_held(r, 27, 8, v.security_id),
        text_held(r, 35, 4, v.security_id_source),
        nat_at(r, 39, 2) == v.owner_type,
        text_held(r, 41, 2, v.clearing_firm),
        int_at(r, 43, 8) == v.transact_time,
        text_held(r, 51, 8, v.user_info),
        text_held(r, 59, 16, v.order_id),
        text_held(r, 75, 10, v.cl_ord_id),
        text_held(r, 85, 10, v.orig_cl_ord_id),
        text_held(r, 95, 16, v.exec_id),
{
    wire::lemma_pow256_values();
    let b = nil();
    let b = with_int(b, v.partition_no as int, 4);
    let b = with_int(b, v.report_index as int, 8);
    let b = with_text(b, v.appl_id, 3);
    let b = with_text(b, v.reporting_pbu_id, 6);
    let b = with_text(b, v.submitting_pbu_id, 6);
    let b = with_text(b, v.security_id, 8);
    let b = with_text(b, v.security_id_source, 4);
    let b = with_nat(b, v.owner_type as int, 2);
    let b = with_text(b, v.clearing_firm, 2);
    let b = with_int(b, v.transact_time as int, 8);
    let b = with_text(b, v.user_info, 8);
    let b = with_text(b, v.order_id, 16);
    let b = with_text(b, v.cl_ord_id, 10);
    let b = with_text(b, v.orig_cl_ord_id, 10);
    let b = with_text(b, v.exec_id, 16);
    b
}

/// The response to an order, as a client reads it.
#[verifier::spinoff_prover]
#[verifier::rlimit(40)]
pub proof fn law_response_fields(v: ExecRptAckView)
    ensures
        ({
            let f = v.frame();
            let b = body_of(f);
            &&& is_message(f, v.msg_type, response_len(v.msg_type))
            &&& int_at(b, 0, 4) == v.partition_no
            &&& int_at(b, 4, 8) == v.report_index
            &&& text_held(b, 12, 3, v.appl_id)
            &&& text_held(b, 15, 6, v.reporting_pbu_id)
            &&& text_held(b, 21, 6, v.submitting_pbu_id)
            &&& text_held(b, 27, 8, v.security_id)
            &&& text_held(b, 35, 4, v.security_id_source)
            &&& nat_at(b, 39, 2) == v.owner_type
            &&& text_held(b, 41, 2, v.clearing_firm)
            &&& int_at(b, 43, 8) == v.transact_time
            &&& text_held(b, 51, 8, v.user_info)
            &&& text_held(b, 59, 16, v.order_id)
            &&& text_held(b, 75, 10, v.cl_ord_id)
            &&& text_held(b, 85, 10, v.orig_cl_ord_id)
            &&& text_held(b, 95, 16, v.exec_id)
            &&& nat_at(b, 111, 1) == v.exec_type
            &&& nat_at(b, 112, 1) == v.ord_status
            &&& nat_at(b, 113, 2) == v.ord_rej_reason
            &&& int_at(b, 115, 8) == v.leaves_qty
            &&& int_at(b, 123, 8) == v.cum_qty
            &&& nat_at(b, 131, 1) == v.side
            &&& nat_at(b, 132, 1) == v.ord_type
            &&& int_at(b, 133, 8) == v.order_qty
            &&& int_at(b, 141, 8) == v.price
            &&& text_held(b, 149, 12, v.account_id)
            &&& text_held(b, 161, 4, v.branch_id)
            &&& text_held(b, 165, 4, v.order_restrictions)
            &&& v.msg_type == 200_102 || v.msg_type == 200_202 ==> {
                &&& int_at(b, 169, 8) == v.extend.stop_px
                &&& int_at(b, 177, 8) == v.extend.min_qty
                &&& nat_at(b, 185, 2) == v.extend.max_price_levels
                &&& nat_at(b, 187, 1) == v.extend.time_in_force
            }
            &&& v.msg_type == 200_102 ==> nat_at(b, 188, 1) == v.extend.cash_margin
        }),
{
    wire::lemma_pow256_values();
    let b = response_head(v);
    let b = with_nat(b, v.exec_type as int, 1);
    let b = with_nat(b, v.ord_status as int, 1);
    let b = with_nat(b, v.ord_rej_reason as int, 2);
    let b = with_int(b, v.leaves_qty as int, 8);
    let b = with_int(b, v.cum_qty as int, 8);
    let b = with_nat(b, v.side as int, 1);
    let b = with_nat(b, v.ord_type as int, 1);
    let b = with_int(b, v.order_qty as int, 8);
    let b = with_int(b, v.price as int, 8);
    let b = with_text(b, v.account_id, 12);
    let b = with_text(b, v.branch_id, 4);
    let b = with_text(b, v.order_restrictions, 4);
    let b = with_extension(b, v.msg_type, v.extend);
    reveal(ExecRptAckView::body);
    law_framed_body(v.msg_type, b);
}

/// A body with the extension of a response behind it.
proof fn with_extension(body: Seq<u8>, mt: u32, e: OrderExtend) -> (r: Seq<u8>)
    ensures
        r == body + protocol::ack_extend_bytes(mt, e),
        r.len() == body.len() + response_len(mt) - 169,
        mt == 200_102 || mt == 200_202 ==> {
            &&& int_at(r, body.len() as int, 8) == e.stop_px
            &&& int_at(r, body.len() + 8int, 8) == e.min_qty
            &&& nat_at(r, body.len() + 16int, 2) == e.max_price_levels
            &&& nat_at(r, body.len() + 18int, 1) == e.time_in_force
        },
        mt == 200_102 ==> nat_at(r, body.len() + 19int, 1) == e.cash_margin,
        forall|a: int, b: int|
            0 <= a <= b <= body.len() ==> #[trigger] r.subrange(a, b) == body.subrange(a, b),
{
    wire::lemma_pow256_values();
    assert(body + nil() =~= body);
    if mt == 200_102 || mt == 200_202 {
        let x = with_int(body, e.stop_px as int, 8);
        let x = with_int(x, e.min_qty as int, 8);
        let x = with_nat(x, e.max_price_levels as int, 2);
        let x = with_nat(x, e.time_in_force as int, 1);
        let x = if mt == 200_102 {
            with_nat(x, e.cash_margin as int, 1)
        } else {
            x
        };
        assert(x =~= body + protocol::ack_extend_bytes(mt, e));
        assert forall|a: int, b: int| 0 <= a <= b <= body.len() implies #[trigger] x.subrange(a, b)
            == body.subrange(a, b) by {
            assert(x.subrange(a, b) =~= body.subrange(a, b));
        }
        x
    } else {
        body
    }
}

/// An execution, as a client reads it.
#[verifier::spinoff_prover]
#[verifier::rlimit(40)]
pub proof fn law_execution_fields(v: ExecRptTradeView)
    ensures
        ({
            let f = v.frame();
            let b = body_of(f);
            &&& is_message(f, v.msg_type, execution_len(v.msg_type))
            &&& int_at(b, 0, 4) == v.partition_no
            &&& int_at(b, 4, 8) == v.report_index
            &&& text_held(b, 12, 3, v.appl_id)
            &&& text_held(b, 15, 6, v.reporting_pbu_id)
            &&& text_held(b, 21, 6, v.submitting_pbu_id)
            &&& text_held(b, 27, 8, v.security_id)
            &&& text_held(b, 35, 4, v.security_id_source)
            &&& nat_at(b, 39, 2) == v.owner_type
            &&& text_held(b, 41, 2, v.clearing_firm)
            &&& int_at(b, 43, 8) == v.transact_time
            &&& text_held(b, 51, 8, v.user_info)
            &&& text_held(b, 59, 16, v.order_id)
            &&& text_held(b, 75, 10, v.cl_ord_id)
            &&& text_held(b, 85, 16, v.exec_id)
            &&& nat_at(b, 101, 1) == v.exec_type
            &&& nat_at(b, 102, 1) == v.ord_status
            &&& int_at(b, 103, 8) == v.last_px
            &&& int_at(b, 111, 8) == v.last_qty
            &&& int_at(b, 119, 8) == v.leaves_qty
            &&& int_at(b, 127, 8) == v.cum_qty
            &&& nat_at(b, 135, 1) == v.side
            &&& text_held(b, 136, 12, v.account_id)
            &&& text_held(b, 148, 4, v.branch_id)
            &&& v.msg_type == 200_115 ==> nat_at(b, 152, 1) == v.extend.cash_margin
        }),
{
    wire::lemma_pow256_values();
    let b = nil();
    let b = with_int(b, v.partition_no as int, 4);
    let b = with_int(b, v.report_index as int, 8);
    let b = with_text(b, v.appl_id, 3);
    let b = with_text(b, v.reporting_pbu_id, 6);
    let b = with_text(b, v.submitting_pbu_id, 6);
    let b = with_text(b, v.security_id, 8);
    let b = with_text(b, v.security_id_source, 4);
    let b = with_nat(b, v.owner_type as int, 2);
    let b = with_text(b, v.clearing_firm, 2);
    let b = with_int(b, v.transact_time as int, 8);
    let b = with_text(b, v.user_info, 8);
    let b = with_text(b, v.order_id, 16);
    let b = with_text(b, v.cl_ord_id, 10);
    let b = with_text(b, v.exec_id, 16);
    let b = with_nat(b, v.exec_type as int, 1);
    let b = with_nat(b, v.ord_status as int, 1);
    let b = with_int(b, v.last_px as int, 8);
    let b = with_int(b, v.last_qty as int, 8);
    let b = with_int(b, v.leaves_qty as int, 8);
    let b = with_int(b, v.cum_qty as int, 8);
    let b = with_nat(b, v.side as int, 1);
    let b = with_text(b, v.account_id, 12);
    let b = with_text(b, v.branch_id, 4);
    assert(b + nil() =~= b);
    let b = if v.msg_type == 200_115 {
        with_nat(b, v.extend.cash_margin as int, 1)
    } else {
        b
    };
    reveal(ExecRptTradeView::body);
    law_framed_body(v.msg_type, b);
}

/// The rejection of a message for reasons of business, as a client reads it.
#[verifier::spinoff_prover]
#[verifier::rlimit(40)]
pub proof fn law_business_rejection_fields(v: BusinessRejectView)
    ensures
        ({
            let f = protocol::framed(4, v.body());
            let b = body_of(f);
            &&& is_message(f, 4, 103)
            &&& text_held(b, 0, 3, v.appl_id)
            &&& int_at(b, 3, 8) == v.transact_time
            &&& text_held(b, 11, 6, v.submitting_pbu_id)
            &&& text_held(b, 17, 8, v.security_id)
            &&& text_held(b, 25, 4, v.security_id_source)
            &&& int_at(b, 29, 8) == v.ref_seq_num
            &&& nat_at(b, 37, 4) == v.ref_msg_type
            &&& text_held(b, 41, 10, v.business_reject_ref_id)
            &&& nat_at(b, 51, 2) == v.business_reject_reason
            &&& text_held(b, 53, 50, v.business_reject_text)
        }),
{
    wire::lemma_pow256_values();
    let b = nil();
    let b = with_text(b, v.appl_id, 3);
    let b = with_int(b, v.transact_time as int, 8);
    let b = with_text(b, v.submitting_pbu_id, 6);
    let b = with_text(b, v.security_id, 8);
    let b = with_text(b, v.security_id_source, 4);
    let b = with_int(b, v.ref_seq_num as int, 8);
    let b = with_nat(b, v.ref_msg_type as int, 4);
    let b = with_text(b, v.business_reject_ref_id, 10);
    let b = with_nat(b, v.business_reject_reason as int, 2);
    let b = with_text(b, v.business_reject_text, 50);
    reveal(BusinessRejectView::body);
    law_framed_body(4, b);
}

/// The refusal of a request to cancel, as a client reads it.
#[verifier::spinoff_prover]
#[verifier::rlimit(40)]
pub proof fn law_cancel_rejection_fields(v: CancelRejectView)
    ensures
        ({
            let f = protocol::framed(290_008, v.body());
            let b = body_of(f);
            &&& is_message(f, 290_008, 115)
            &&& int_at(b, 0, 4) == v.partition_no
            &&& int_at(b, 4, 8) == v.report_index
            &&& text_held(b, 12, 3, v.appl_id)
            &&& text_held(b, 15, 6, v.reporting_pbu_id)
            &&& text_held(b, 21, 6, v.submitting_pbu_id)
            &&& text_held(b, 27, 8, v.security_id)
            &&& text_held(b, 35, 4, v.security_id_source)
            &&& nat_at(b, 39, 2) == v.owner_type
            &&& text_held(b, 41, 2, v.clearing_firm)
            &&& int_at(b, 43, 8) == v.transact_time
            &&& text_held(b, 51, 8, v.user_info)
            &&& text_held(b, 59, 10, v.cl_ord_id)
            &&& text_held(b, 69, 10, v.orig_cl_ord_id)
            &&& nat_at(b, 79, 1) == v.side
            &&& nat_at(b, 80, 1) == v.ord_status
            &&& nat_at(b, 81, 2) == v.cxl_rej_reason
            &&& text_held(b, 83, 16, v.reject_text)
            &&& text_held(b, 99, 16, v.order_id)
        }),
{
    wire::lemma_pow256_values();
    let b = nil();
    let b = with_int(b, v.partition_no as int, 4);
    let b = with_int(b, v.report_index as int, 8);
    let b = with_text(b, v.appl_id, 3);
    let b = with_text(b, v.reporting_pbu_id, 6);
    let b = with_text(b, v.submitting_pbu_id, 6);
    let b = with_text(b, v.security_id, 8);
    let b = with_text(b, v.security_id_source, 4);
    let b = with_nat(b, v.owner_type as int, 2);
    let b = with_text(b, v.clearing_firm, 2);
    let b = with_int(b, v.transact_time as int, 8);
    let b = with_text(b, v.user_info, 8);
    let b = with_text(b, v.cl_ord_id, 10);
    let b = with_text(b, v.orig_cl_ord_id, 10);
    let b = with_nat(b, v.side as int, 1);
    let b = with_nat(b, v.ord_status as int, 1);
    let b = with_nat(b, v.cxl_rej_reason as int, 2);
    let b = with_text(b, v.reject_text, 16);
    let b = with_text(b, v.order_id, 16);
    reveal(CancelRejectView::body);
    law_framed_body(290_008, b);
}

/// The state of a trading session, as a client reads it.
#[verifier::spinoff_prover]
#[verifier::rlimit(40)]
pub proof fn law_session_status_fields(v: TradingSessionStatusView)
    ensures
        ({
            let f = protocol::framed(10, v.body());
            let b = body_of(f);
            &&& is_message(f, 10, 42)
            &&& text_held(b, 0, 8, v.market_id)
            &&& text_held(b, 8, 8, v.market_segment_id)
            &&& text_held(b, 16, 4, v.trading_session_id)
            &&& text_held(b, 20, 4, v.trading_session_sub_id)
            &&& nat_at(b, 24, 2) == v.trad_ses_status
            &&& int_at(b, 26, 8) == v.trad_ses_start_time
            &&& int_at(b, 34, 8) == v.trad_ses_end_time
        }),
{
    wire::lemma_pow256_values();
    let b = nil();
    let b = with_text(b, v.market_id, 8);
    let b = with_text(b, v.market_segment_id, 8);
    let b = with_text(b, v.trading_session_id, 4);
    let b = with_text(b, v.trading_session_sub_id, 4);
    let b = with_nat(b, v.trad_ses_status as int, 2);
    let b = with_int(b, v.trad_ses_start_time as int, 8);
    let b = with_int(b, v.trad_ses_end_time as int, 8);
    reveal(TradingSessionStatusView::body);
    law_framed_body(10, b);
}

/// A logon, as the other side reads it.
#[verifier::spinoff_prover]
#[verifier::rlimit(40)]
pub proof fn law_logon_fields(v: LogonView)
    ensures
        ({
            let f = protocol::framed(1, v.body());
            let b = body_of(f);
            &&& is_message(f, 1, 92)
            &&& text_held(b, 0, 20, v.sender_comp_id)
            &&& text_held(b, 20, 20, v.target_comp_id)
            &&& int_at(b, 40, 4) == v.heart_bt_int
            &&& text_held(b, 44, 16, v.password)
            &&& text_held(b, 60, 32, v.default_appl_ver_id)
        }),
{
    wire::lemma_pow256_values();
    let b = nil();
    let b = with_text(b, v.sender_comp_id, 20);
    let b = with_text(b, v.target_comp_id, 20);
    let b = with_int(b, v.heart_bt_int as int, 4);
    let b = with_text(b, v.password, 16);
    let b = with_text(b, v.default_appl_ver_id, 32);
    reveal(LogonView::body);
    law_framed_body(1, b);
}

/// A logout, as the other side reads it.
#[verifier::spinoff_prover]
#[verifier::rlimit(40)]
pub proof fn law_logout_fields(v: LogoutView)
    ensures
        ({
            let f = protocol::framed(2, v.body());
            let b = body_of(f);
            &&& is_message(f, 2, 204)
            &&& int_at(b, 0, 4) == v.session_status
            &&& text_held(b, 4, 200, v.text)
        }),
{
    wire::lemma_pow256_values();
    let b = nil();
    let b = with_int(b, v.session_status as int, 4);
    let b = with_text(b, v.text, 200);
    reveal(LogoutView::body);
    law_framed_body(2, b);
}

/// The state of a quote, as a client reads it.
#[verifier::spinoff_prover]
#[verifier::rlimit(40)]
pub proof fn law_quote_status_fields(v: QuoteStatusReport)
    ensures
        ({
            let f = protocol::framed(v.msg_type, filings::quote_status_body(v));
            let b = body_of(f);
            &&& is_message(f, v.msg_type, 128)
            &&& int_at(b, 0, 4) == v.partition_no
            &&& int_at(b, 4, 8) == v.report_index
            &&& text_held(b, 12, 3, v.appl_id@)
            &&& text_held(b, 15, 6, v.reporting_pbu_id@)
            &&& text_held(b, 21, 6, v.submitting_pbu_id@)
            &&& text_held(b, 27, 8, v.security_id@)
            &&& text_held(b, 35, 4, v.security_id_source@)
            &&& nat_at(b, 39, 2) == v.owner_type
            &&& text_held(b, 41, 2, v.clearing_firm@)
            &&& int_at(b, 43, 8) == v.transact_time
            &&& text_held(b, 51, 8, v.user_info@)
            &&& text_held(b, 59, 10, v.quote_msg_id@)
            &&& text_held(b, 69, 12, v.account_id@)
            &&& text_held(b, 81, 10, v.quote_req_id@)
            &&& nat_at(b, 91, 2) == v.quote_status
            &&& nat_at(b, 93, 2) == v.quote_reject_reason
            &&& nat_at(b, 95, 1) == v.quote_type
            &&& int_at(b, 96, 8) == v.bid_px
            &&& int_at(b, 104, 8) == v.offer_px
            &&& int_at(b, 112, 8) == v.bid_size
            &&& int_at(b, 120, 8) == v.offer_size
        }),
{
    wire::lemma_pow256_values();
    let b = nil();
    let b = with_int(b, v.partition_no as int, 4);
    let b = with_int(b, v.report_index as int, 8);
    let b = with_text(b, v.appl_id@, 3);
    let b = with_text(b, v.reporting_pbu_id@, 6);
    let b = with_text(b, v.submitting_pbu_id@, 6);
    let b = with_text(b, v.security_id@, 8);
    let b = with_text(b, v.security_id_source@, 4);
    let b = with_nat(b, v.owner_type as int, 2);
    let b = with_text(b, v.clearing_firm@, 2);
    let b = with_int(b, v.transact_time as int, 8);
    let b = with_text(b, v.user_info@, 8);
    let b = with_text(b, v.quote_msg_id@, 10);
    let b = with_text(b, v.account_id@, 12);
    let b = with_text(b, v.quote_req_id@, 10);
    let b = with_nat(b, v.quote_status as int, 2);
    let b = with_nat(b, v.quote_reject_reason as int, 2);
    let b = with_nat(b, v.quote_type as int, 1);
    let b = with_int(b, v.bid_px as int, 8);
    let b = with_int(b, v.offer_px as int, 8);
    let b = with_int(b, v.bid_size as int, 8);
    let b = with_int(b, v.offer_size as int, 8);
    reveal(filings::quote_status_body);
    law_framed_body(v.msg_type, b);
}

/// How long the body of a response is: the extension depends on the business.
pub open spec fn response_len(mt: u32) -> int {
    if mt == 200_102 {
        189
    } else if mt == 200_202 {
        188
    } else {
        169
    }
}

/// How long the body of an execution is.
pub open spec fn execution_len(mt: u32) -> int {
    if mt == 200_115 {
        153
    } else {
        152
    }
}

/// A new order as a client writes it, without the extension of its business.
pub open spec fn order_written(v: OrderCommonView) -> Seq<u8> {
    nil()
        + text_field(v.appl_id, 3)
        + text_field(v.submitting_pbu_id, 6)
        + text_field(v.security_id, 8)
        + text_field(v.security_id_source, 4)
        + be(v.owner_type as int, 2)
        + text_field(v.clearing_firm, 2)
        + be(v.transact_time as int, 8)
        + text_field(v.user_info, 8)
        + text_field(v.cl_ord_id, 10)
        + text_field(v.account_id, 12)
        + text_field(v.branch_id, 4)
        + text_field(v.order_restrictions, 4)
        + be(v.side as int, 1)
        + be(v.ord_type as int, 1)
        + be(v.order_qty as int, 8)
        + be(v.price as int, 8)
}

/// A new order of the cash auction as a client writes it.
pub open spec fn cash_order_written(v: OrderCommonView, e: OrderExtend) -> Seq<u8> {
    order_written(v) + be(e.stop_px as int, 8) + be(e.min_qty as int, 8) + be(
        e.max_price_levels as int,
        2,
    ) + be(e.time_in_force as int, 1) + be(e.cash_margin as int, 1)
}

/// A new order of the bond repo as a client writes it.
pub open spec fn repo_order_written(v: OrderCommonView, e: OrderExtend) -> Seq<u8> {
    order_written(v) + be(e.stop_px as int, 8) + be(e.min_qty as int, 8) + be(
        e.max_price_levels as int,
        2,
    ) + be(e.time_in_force as int, 1)
}

/// A new order is read as the client wrote it, with the extension of the cash auction or of
/// the bond repo and without.
#[verifier::spinoff_prover]
#[verifier::rlimit(40)]
pub proof fn law_order_is_read(v: OrderCommonView, e: OrderExtend, mt: u32)
    requires
        fits(v.appl_id, 3),
        fits(v.submitting_pbu_id, 6),
        fits(v.security_id, 8),
        fits(v.security_id_source, 4),
        fits(v.clearing_firm, 2),
        fits(v.user_info, 8),
        fits(v.cl_ord_id, 10),
        fits(v.account_id, 12),
        fits(v.branch_id, 4),
        fits(v.order_restrictions, 4),
    ensures
        order_written(v).len() == 89,
        super::session::order_in(mt, order_written(v)) == (NewOrderView {
            msg_type: mt,
            common: v,
            extend: OrderExtend {
                stop_px: 0,
                min_qty: 0,
                max_price_levels: 0,
                time_in_force: 0,
                cash_margin: 0,
            },
        }),
        super::session::order_in(100_101, cash_order_written(v, e)) == (NewOrderView {
            msg_type: 100_101,
            common: v,
            extend: e,
        }),
        super::session::order_in(100_201, repo_order_written(v, e)) == (NewOrderView {
            msg_type: 100_201,
            common: v,
            extend: OrderExtend { cash_margin: 0, ..e },
        }),
{
    wire::lemma_pow256_values();
    let b = nil();
    let b = with_text(b, v.appl_id, 3);
    let b = with_text(b, v.submitting_pbu_id, 6);
    let b = with_text(b, v.security_id, 8);
    let b = with_text(b, v.security_id_source, 4);
    let b = with_nat(b, v.owner_type as int, 2);
    let b = with_text(b, v.clearing_firm, 2);
    let b = with_int(b, v.transact_time as int, 8);
    let b = with_text(b, v.user_info, 8);
    let b = with_text(b, v.cl_ord_id, 10);
    let b = with_text(b, v.account_id, 12);
    let b = with_text(b, v.branch_id, 4);
    let b = with_text(b, v.order_restrictions, 4);
    let b = with_nat(b, v.side as int, 1);
    let b = with_nat(b, v.ord_type as int, 1);
    let b = with_int(b, v.order_qty as int, 8);
    let b = with_int(b, v.price as int, 8);
    assert(b == order_written(v));
    let b = with_int(b, e.stop_px as int, 8);
    let b = with_int(b, e.min_qty as int, 8);
    let b = with_nat(b, e.max_price_levels as int, 2);
    let b = with_nat(b, e.time_in_force as int, 1);
    assert(b == repo_order_written(v, e));
    let b = with_nat(b, e.cash_margin as int, 1);
    assert(b == cash_order_written(v, e));
}

/// A request to cancel as a client writes it.
pub open spec fn cancel_written(v: OrderCancelRequestView) -> Seq<u8> {
    nil()
        + text_field(v.appl_id, 3)
        + text_field(v.submitting_pbu_id, 6)
        + text_field(v.security_id, 8)
        + text_field(v.security_id_source, 4)
        + be(v.owner_type as int, 2)
        + text_field(v.clearing_firm, 2)
        + be(v.transact_time as int, 8)
        + text_field(v.user_info, 8)
        + text_field(v.cl_ord_id, 10)
        + text_field(v.orig_cl_ord_id, 10)
        + be(v.side as int, 1)
        + text_field(v.order_id, 16)
        + be(v.order_qty as int, 8)
}

/// A request to cancel is read as the client wrote it.
#[verifier::spinoff_prover]
#[verifier::rlimit(40)]
pub proof fn law_cancel_is_read(v: OrderCancelRequestView)
    requires
        fits(v.appl_id, 3),
        fits(v.submitting_pbu_id, 6),
        fits(v.security_id, 8),
        fits(v.security_id_source, 4),
        fits(v.clearing_firm, 2),
        fits(v.user_info, 8),
        fits(v.cl_ord_id, 10),
        fits(v.orig_cl_ord_id, 10),
        fits(v.order_id, 16),
    ensures
        cancel_written(v).len() == 86,
        OrderCancelRequestView::of(cancel_written(v)) == v,
{
    wire::lemma_pow256_values();
    let b = nil();
    let b = with_text(b, v.appl_id, 3);
    let b = with_text(b, v.submitting_pbu_id, 6);
    let b = with_text(b, v.security_id, 8);
    let b = with_text(b, v.security_id_source, 4);
    let b = with_nat(b, v.owner_type as int, 2);
    let b = with_text(b, v.clearing_firm, 2);
    let b = with_int(b, v.transact_time as int, 8);
    let b = with_text(b, v.user_info, 8);
    let b = with_text(b, v.cl_ord_id, 10);
    let b = with_text(b, v.orig_cl_ord_id, 10);
    let b = with_nat(b, v.side as int, 1);
    let b = with_text(b, v.order_id, 16);
    let b = with_int(b, v.order_qty as int, 8);
    assert(b == cancel_written(v));
}

/// An execution is read as it was written, where its texts fit.
#[verifier::spinoff_prover]
#[verifier::rlimit(40)]
pub proof fn law_execution_is_read(v: ExecRptTradeView)
    requires
        fits(v.appl_id, 3),
        fits(v.reporting_pbu_id, 6),
        fits(v.submitting_pbu_id, 6),
        fits(v.security_id, 8),
        fits(v.security_id_source, 4),
        fits(v.clearing_firm, 2),
        fits(v.user_info, 8),
        fits(v.order_id, 16),
        fits(v.cl_ord_id, 10),
        fits(v.exec_id, 16),
        fits(v.account_id, 12),
        fits(v.branch_id, 4),
        v.extend.stop_px == 0,
        v.extend.min_qty == 0,
        v.extend.max_price_levels == 0,
        v.extend.time_in_force == 0,
        v.msg_type != 200_115 ==> v.extend.cash_margin == 0,
    ensures
        protocol::trade_of(v.msg_type, body_of(v.frame())) == v,
{
    law_execution_fields(v);
}

} // verus!
