//! Where the fields of the messages of the Shanghai exchange stand: what a client reads out of
//! a message that is sent, and what is read out of a message that a client writes.
use vstd::prelude::*;

use super::protocol;
use super::protocol::{
    CancelOrderView, CancelRejectView, ExecRptView, ExtendFieldsView, LogonView, LogoutView,
    NewOrderView, OrderRejectView, PasswordServiceOrderView, PasswordServiceRspView,
    RegistrationOrderView, RegistrationRptView, TradeRptView,
};
use crate::wire;
use crate::wire::{
    be, fits, int_at, nat_at, nil, text_field, text_held, with_int, with_nat, with_text,
};

verus! {

/// The body of a message: what stands between the head of 16 bytes and the check value of 4.
pub open spec fn body_of(f: Seq<u8>) -> Seq<u8> {
    f.subrange(16, f.len() - 4)
}

/// A message of type `mt` that is not numbered yet, whose length and check value are right,
/// with a body of `n` bytes.
pub open spec fn is_message(f: Seq<u8>, mt: u32, n: int) -> bool {
    &&& f.len() == n + 20
    &&& nat_at(f, 0, 4) == mt
    &&& nat_at(f, 4, 8) == 0
    &&& nat_at(f, 12, 4) == n
    &&& nat_at(f, n + 16, 4) == wire::byte_sum(f.subrange(0, n + 16)) % 256
}

/// A framed body is a message with that body.
pub proof fn law_framed_body(mt: u32, body: Seq<u8>)
    requires
        body.len() < 0x1_0000_0000,
    ensures
        is_message(protocol::framed(mt, body), mt, body.len() as int),
        body_of(protocol::framed(mt, body)) == body,
{
    protocol::law_framed(mt, 0, body);
}

/// An execution, as a client reads it.
#[verifier::spinoff_prover]
#[verifier::rlimit(40)]
pub proof fn law_execution_fields(v: TradeRptView)
    ensures
        ({
            let f = protocol::framed(103, v.body());
            let b = body_of(f);
            &&& is_message(f, 103, 213)
            &&& text_held(b, 0, 8, v.pbu)
            &&& nat_at(b, 8, 4) == v.set_id
            &&& nat_at(b, 12, 8) == v.report_index
            &&& nat_at(b, 20, 4) == v.biz_id
            &&& nat_at(b, 24, 1) == v.exec_type
            &&& text_held(b, 25, 8, v.biz_pbu)
            &&& text_held(b, 33, 10, v.cl_ord_id)
            &&& text_held(b, 43, 12, v.security_id)
            &&& text_held(b, 55, 13, v.account)
            &&& nat_at(b, 68, 1) == v.owner_type
            &&& nat_at(b, 69, 8) == v.order_entry_time
            &&& int_at(b, 77, 8) == v.last_px
            &&& int_at(b, 85, 8) == v.last_qty
            &&& int_at(b, 93, 8) == v.gross_trade_amt
            &&& nat_at(b, 101, 1) == v.side
            &&& int_at(b, 102, 8) == v.order_qty
            &&& int_at(b, 110, 8) == v.leaves_qty
            &&& nat_at(b, 118, 1) == v.ord_status
            &&& text_held(b, 119, 2, v.credit_tag)
            &&& text_held(b, 121, 8, v.clearing_firm)
            &&& text_held(b, 129, 8, v.branch_id)
            &&& text_held(b, 137, 16, v.trd_cnfm_id)
            &&& text_held(b, 153, 16, v.ord_cnfm_id)
            &&& nat_at(b, 169, 4) == v.trade_date
            &&& nat_at(b, 173, 8) == v.transact_time
            &&& text_held(b, 181, 32, v.user_info)
        }),
{
    wire::lemma_pow256_values();
    let b = nil();
    let b = with_text(b, v.pbu, 8);
    let b = with_nat(b, v.set_id as int, 4);
    let b = with_nat(b, v.report_index as int, 8);
    let b = with_nat(b, v.biz_id as int, 4);
    let b = with_nat(b, v.exec_type as int, 1);
    let b = with_text(b, v.biz_pbu, 8);
    let b = with_text(b, v.cl_ord_id, 10);
    let b = with_text(b, v.security_id, 12);
    let b = with_text(b, v.account, 13);
    let b = with_nat(b, v.owner_type as int, 1);
    let b = with_nat(b, v.order_entry_time as int, 8);
    let b = with_int(b, v.last_px as int, 8);
    let b = with_int(b, v.last_qty as int, 8);
    let b = with_int(b, v.gross_trade_amt as int, 8);
    let b = with_nat(b, v.side as int, 1);
    let b = with_int(b, v.order_qty as int, 8);
    let b = with_int(b, v.leaves_qty as int, 8);
    let b = with_nat(b, v.ord_status as int, 1);
    let b = with_text(b, v.credit_tag, 2);
    let b = with_text(b, v.clearing_firm, 8);
    let b = with_text(b, v.branch_id, 8);
    let b = with_text(b, v.trd_cnfm_id, 16);
    let b = with_text(b, v.ord_cnfm_id, 16);
    let b = with_nat(b, v.trade_date as int, 4);
    let b = with_nat(b, v.transact_time as int, 8);
    let b = with_text(b, v.user_info, 32);
    reveal(TradeRptView::body);
    law_framed_body(103, b);
}

/// The refusal of a request to cancel, as a client reads it.
#[verifier::spinoff_prover]
#[verifier::rlimit(40)]
pub proof fn law_cancel_rejection_fields(v: CancelRejectView)
    ensures
        ({
            let f = protocol::framed(59, v.body());
            let b = body_of(f);
            &&& is_message(f, 59, 120)
            &&& text_held(b, 0, 8, v.pbu)
            &&& nat_at(b, 8, 4) == v.set_id
            &&& nat_at(b, 12, 8) == v.report_index
            &&& nat_at(b, 20, 4) == v.biz_id
            &&& text_held(b, 24, 8, v.biz_pbu)
            &&& text_held(b, 32, 10, v.cl_ord_id)
            &&& text_held(b, 42, 12, v.security_id)
            &&& text_held(b, 54, 10, v.orig_cl_ord_id)
            &&& text_held(b, 64, 8, v.branch_id)
            &&& nat_at(b, 72, 4) == v.cxl_rej_reason
            &&& nat_at(b, 76, 4) == v.trade_date
            &&& nat_at(b, 80, 8) == v.transact_time
            &&& text_held(b, 88, 32, v.user_info)
        }),
{
    wire::lemma_pow256_values();
    let b = nil();
    let b = with_text(b, v.pbu, 8);
    let b = with_nat(b, v.set_id as int, 4);
    let b = with_nat(b, v.report_index as int, 8);
    let b = with_nat(b, v.biz_id as int, 4);
    let b = with_text(b, v.biz_pbu, 8);
    let b = with_text(b, v.cl_ord_id, 10);
    let b = with_text(b, v.security_id, 12);
    let b = with_text(b, v.orig_cl_ord_id, 10);
    let b = with_text(b, v.branch_id, 8);
    let b = with_nat(b, v.cxl_rej_reason as int, 4);
    let b = with_nat(b, v.trade_date as int, 4);
    let b = with_nat(b, v.transact_time as int, 8);
    let b = with_text(b, v.user_info, 32);
    reveal(CancelRejectView::body);
    law_framed_body(59, b);
}

/// The rejection of an order, as a client reads it.
#[verifier::spinoff_prover]
#[verifier::rlimit(40)]
pub proof fn law_order_rejection_fields(v: OrderRejectView)
    ensures
        ({
            let f = protocol::framed(204, v.body());
            let b = body_of(f);
            &&& is_message(f, 204, 82)
            &&& nat_at(b, 0, 4) == v.biz_id
            &&& text_held(b, 4, 8, v.biz_pbu)
            &&& text_held(b, 12, 10, v.cl_ord_id)
            &&& text_held(b, 22, 12, v.security_id)
            &&& nat_at(b, 34, 4) == v.ord_rej_reason
            &&& nat_at(b, 38, 4) == v.trade_date
            &&& nat_at(b, 42, 8) == v.transact_time
            &&& text_held(b, 50, 32, v.user_info)
        }),
{
    wire::lemma_pow256_values();
    let b = nil();
    let b = with_nat(b, v.biz_id as int, 4);
    let b = with_text(b, v.biz_pbu, 8);
    let b = with_text(b, v.cl_ord_id, 10);
    let b = with_text(b, v.security_id, 12);
    let b = with_nat(b, v.ord_rej_reason as int, 4);
    let b = with_nat(b, v.trade_date as int, 4);
    let b = with_nat(b, v.transact_time as int, 8);
    let b = with_text(b, v.user_info, 32);
    reveal(OrderRejectView::body);
    law_framed_body(204, b);
}

/// The report on a registration, as a client reads it.
#[verifier::spinoff_prover]
#[verifier::rlimit(40)]
pub proof fn law_registration_report_fields(v: RegistrationRptView)
    ensures
        ({
            let f = protocol::framed(302, v.body());
            let b = body_of(f);
            &&& is_message(f, 302, 168)
            &&& text_held(b, 0, 8, v.pbu)
            &&& nat_at(b, 8, 4) == v.set_id
            &&& nat_at(b, 12, 8) == v.report_index
            &&& nat_at(b, 20, 4) == v.biz_id
            &&& nat_at(b, 24, 1) == v.exec_type
            &&& text_held(b, 25, 8, v.biz_pbu)
            &&& text_held(b, 33, 10, v.cl_ord_id)
            &&& text_held(b, 43, 12, v.security_id)
            &&& text_held(b, 55, 13, v.account)
            &&& nat_at(b, 68, 1) == v.owner_type
            &&& nat_at(b, 69, 1) == v.ord_status
            &&& text_held(b, 70, 10, v.orig_cl_ord_id)
            &&& text_held(b, 80, 8, v.branch_id)
            &&& nat_at(b, 88, 4) == v.ord_rej_reason
            &&& text_held(b, 92, 16, v.ord_cnfm_id)
            &&& text_held(b, 108, 16, v.orig_ord_cnfm_id)
            &&& nat_at(b, 124, 4) == v.trade_date
            &&& nat_at(b, 128, 8) == v.transact_time
            &&& text_held(b, 136, 32, v.user_info)
        }),
{
    wire::lemma_pow256_values();
    let b = nil();
    let b = with_text(b, v.pbu, 8);
    let b = with_nat(b, v.set_id as int, 4);
    let b = with_nat(b, v.report_index as int, 8);
    let b = with_nat(b, v.biz_id as int, 4);
    let b = with_nat(b, v.exec_type as int, 1);
    let b = with_text(b, v.biz_pbu, 8);
    let b = with_text(b, v.cl_ord_id, 10);
    let b = with_text(b, v.security_id, 12);
    let b = with_text(b, v.account, 13);
    let b = with_nat(b, v.owner_type as int, 1);
    let b = with_nat(b, v.ord_status as int, 1);
    let b = with_text(b, v.orig_cl_ord_id, 10);
    let b = with_text(b, v.branch_id, 8);
    let b = with_nat(b, v.ord_rej_reason as int, 4);
    let b = with_text(b, v.ord_cnfm_id, 16);
    let b = with_text(b, v.orig_ord_cnfm_id, 16);
    let b = with_nat(b, v.trade_date as int, 4);
    let b = with_nat(b, v.transact_time as int, 8);
    let b = with_text(b, v.user_info, 32);
    reveal(RegistrationRptView::body);
    law_framed_body(302, b);
}

/// The response of the password service, as a client reads it.
#[verifier::spinoff_prover]
#[verifier::rlimit(40)]
pub proof fn law_password_response_fields(v: PasswordServiceRspView)
    ensures
        ({
            let f = protocol::framed(308, v.body());
            let b = body_of(f);
            &&& is_message(f, 308, 113)
            &&& nat_at(b, 0, 4) == v.biz_id
            &&& text_held(b, 4, 8, v.biz_pbu)
            &&& text_held(b, 12, 10, v.cl_ord_id)
            &&& text_held(b, 22, 12, v.security_id)
            &&& text_held(b, 34, 13, v.account)
            &&& nat_at(b, 47, 1) == v.owner_type
            &&& text_held(b, 48, 8, v.branch_id)
            &&& nat_at(b, 56, 1) == v.side
            &&& text_held(b, 57, 8, v.validation_code)
            &&& nat_at(b, 65, 4) == v.ord_rej_reason
            &&& nat_at(b, 69, 4) == v.trade_date
            &&& nat_at(b, 73, 8) == v.transact_time
            &&& text_held(b, 81, 32, v.user_info)
        }),
{
    wire::lemma_pow256_values();
    let b = nil();
    let b = with_nat(b, v.biz_id as int, 4);
    let b = with_text(b, v.biz_pbu, 8);
    let b = with_text(b, v.cl_ord_id, 10);
    let b = with_text(b, v.security_id, 12);
    let b = with_text(b, v.account, 13);
    let b = with_nat(b, v.owner_type as int, 1);
    let b = with_text(b, v.branch_id, 8);
    let b = with_nat(b, v.side as int, 1);
    let b = with_text(b, v.validation_code, 8);
    let b = with_nat(b, v.ord_rej_reason as int, 4);
    let b = with_nat(b, v.trade_date as int, 4);
    let b = with_nat(b, v.transact_time as int, 8);
    let b = with_text(b, v.user_info, 32);
    reveal(PasswordServiceRspView::body);
    law_framed_body(308, b);
}

/// A logon, as the other side reads it.
#[verifier::spinoff_prover]
#[verifier::rlimit(40)]
pub proof fn law_logon_fields(v: LogonView)
    ensures
        ({
            let f = protocol::framed(40, v.body());
            let b = body_of(f);
            &&& is_message(f, 40, 82)
            &&& text_held(b, 0, 32, v.sender_comp_id)
            &&& text_held(b, 32, 32, v.target_comp_id)
            &&& nat_at(b, 64, 2) == v.heart_bt_int
            &&& text_held(b, 66, 8, v.prtcl_version)
            &&& nat_at(b, 74, 4) == v.trade_date
            &&& nat_at(b, 78, 4) == v.qsize
        }),
{
    wire::lemma_pow256_values();
    let b = nil();
    let b = with_text(b, v.sender_comp_id, 32);
    let b = with_text(b, v.target_comp_id, 32);
    let b = with_nat(b, v.heart_bt_int as int, 2);
    let b = with_text(b, v.prtcl_version, 8);
    let b = with_nat(b, v.trade_date as int, 4);
    let b = with_nat(b, v.qsize as int, 4);
    reveal(LogonView::body);
    law_framed_body(40, b);
}

/// A logout, as the other side reads it.
#[verifier::spinoff_prover]
#[verifier::rlimit(40)]
pub proof fn law_logout_fields(v: LogoutView)
    ensures
        ({
            let f = protocol::framed(41, v.body());
            let b = body_of(f);
            &&& is_message(f, 41, 68)
            &&& nat_at(b, 0, 4) == v.session_status
            &&& text_held(b, 4, 64, v.text)
        }),
{
    wire::lemma_pow256_values();
    let b = nil();
    let b = with_nat(b, v.session_status as int, 4);
    let b = with_text(b, v.text, 64);
    reveal(LogoutView::body);
    law_framed_body(41, b);
}

/// The response to an order, as a client reads it.
#[verifier::spinoff_prover]
#[verifier::rlimit(40)]
pub proof fn law_response_fields(v: ExecRptView)
    ensures
        ({
            let f = protocol::framed(32, v.body());
            let b = body_of(f);
            &&& is_message(f, 32, 213 + extension_len(v.biz_id))
            &&& text_held(b, 0, 8, v.pbu)
            &&& nat_at(b, 8, 4) == v.set_id
            &&& nat_at(b, 12, 8) == v.report_index
            &&& nat_at(b, 20, 4) == v.biz_id
            &&& nat_at(b, 24, 1) == v.exec_type
            &&& text_held(b, 25, 8, v.biz_pbu)
            &&& text_held(b, 33, 10, v.cl_ord_id)
            &&& text_held(b, 43, 12, v.security_id)
            &&& text_held(b, 55, 13, v.account)
            &&& nat_at(b, 68, 1) == v.owner_type
            &&& nat_at(b, 69, 1) == v.side
            &&& int_at(b, 70, 8) == v.price
            &&& int_at(b, 78, 8) == v.order_qty
            &&& int_at(b, 86, 8) == v.leaves_qty
            &&& int_at(b, 94, 8) == v.cxl_qty
            &&& nat_at(b, 102, 1) == v.ord_type
            &&& nat_at(b, 103, 1) == v.time_in_force
            &&& nat_at(b, 104, 1) == v.ord_status
            &&& text_held(b, 105, 2, v.credit_tag)
            &&& text_held(b, 107, 10, v.orig_cl_ord_id)
            &&& text_held(b, 117, 8, v.clearing_firm)
            &&& text_held(b, 125, 8, v.branch_id)
            &&& nat_at(b, 133, 4) == v.ord_rej_reason
            &&& text_held(b, 137, 16, v.ord_cnfm_id)
            &&& text_held(b, 153, 16, v.orig_ord_cnfm_id)
            &&& nat_at(b, 169, 4) == v.trade_date
            &&& nat_at(b, 173, 8) == v.transact_time
            &&& text_held(b, 181, 32, v.user_info)
            &&& v.biz_id == 300_060 ==> text_held(b, 213, 3, v.extend.custodian)
            &&& v.biz_id == 300_070 ==> nat_at(b, 213, 1) == v.extend.dividend_select
            &&& takes_destination(v.biz_id) ==> text_held(b, 213, 12, v.extend.dest_security)
        }),
{
    wire::lemma_pow256_values();
    let b = nil();
    let b = with_text(b, v.pbu, 8);
    let b = with_nat(b, v.set_id as int, 4);
    let b = with_nat(b, v.report_index as int, 8);
    let b = with_nat(b, v.biz_id as int, 4);
    let b = with_nat(b, v.exec_type as int, 1);
    let b = with_text(b, v.biz_pbu, 8);
    let b = with_text(b, v.cl_ord_id, 10);
    let b = with_text(b, v.security_id, 12);
    let b = with_text(b, v.account, 13);
    let b = with_nat(b, v.owner_type as int, 1);
    let b = with_nat(b, v.side as int, 1);
    let b = with_int(b, v.price as int, 8);
    let b = with_int(b, v.order_qty as int, 8);
    let b = with_int(b, v.leaves_qty as int, 8);
    let b = with_int(b, v.cxl_qty as int, 8);
    let b = with_nat(b, v.ord_type as int, 1);
    let b = with_nat(b, v.time_in_force as int, 1);
    let b = with_nat(b, v.ord_status as int, 1);
    let b = with_text(b, v.credit_tag, 2);
    let b = with_text(b, v.orig_cl_ord_id, 10);
    let b = with_text(b, v.clearing_firm, 8);
    let b = with_text(b, v.branch_id, 8);
    let b = with_nat(b, v.ord_rej_reason as int, 4);
    let b = with_text(b, v.ord_cnfm_id, 16);
    let b = with_text(b, v.orig_ord_cnfm_id, 16);
    let b = with_nat(b, v.trade_date as int, 4);
    let b = with_nat(b, v.transact_time as int, 8);
    let b = with_text(b, v.user_info, 32);
    assert(b + nil() =~= b);
    let e = v.extend;
    let b = if v.biz_id == 300_060 {
        with_text(b, e.custodian, 3)
    } else if v.biz_id == 300_070 {
        with_nat(b, e.dividend_select as int, 1)
    } else if takes_destination(v.biz_id) {
        with_text(b, e.dest_security, 12)
    } else {
        b
    };
    reveal(ExecRptView::body);
    law_framed_body(32, b);
}

/// The businesses whose orders name a security that is converted or transferred to.
pub open spec fn takes_destination(biz_id: u32) -> bool {
    ||| biz_id == 300_080
    ||| biz_id == 300_090
    ||| biz_id == 300_091
    ||| biz_id == 300_092
    ||| biz_id == 300_093
    ||| biz_id == 300_094
    ||| biz_id == 300_095
}

/// How long the extension of a business is.
pub open spec fn extension_len(biz_id: u32) -> int {
    if biz_id == 300_060 {
        3
    } else if biz_id == 300_070 {
        1
    } else if takes_destination(biz_id) {
        12
    } else {
        0
    }
}

/// A request to cancel as a client writes it.
pub open spec fn cancel_written(v: CancelOrderView) -> Seq<u8> {
    nil()
        + be(v.biz_id as int, 4)
        + text_field(v.biz_pbu, 8)
        + text_field(v.cl_ord_id, 10)
        + text_field(v.security_id, 12)
        + text_field(v.account, 13)
        + be(v.owner_type as int, 1)
        + be(v.side as int, 1)
        + text_field(v.orig_cl_ord_id, 10)
        + be(v.transact_time as int, 8)
        + text_field(v.branch_id, 8)
        + text_field(v.user_info, 32)
}

/// A request to cancel is read as the client wrote it.
#[verifier::spinoff_prover]
#[verifier::rlimit(40)]
pub proof fn law_cancel_is_read(v: CancelOrderView)
    requires
        fits(v.biz_pbu, 8),
        fits(v.cl_ord_id, 10),
        fits(v.security_id, 12),
        fits(v.account, 13),
        fits(v.orig_cl_ord_id, 10),
        fits(v.branch_id, 8),
        fits(v.user_info, 32),
    ensures
        cancel_written(v).len() == 107,
        CancelOrderView::of(cancel_written(v)) == v,
{
    wire::lemma_pow256_values();
    let b = nil();
    let b = with_nat(b, v.biz_id as int, 4);
    let b = with_text(b, v.biz_pbu, 8);
    let b = with_text(b, v.cl_ord_id, 10);
    let b = with_text(b, v.security_id, 12);
    let b = with_text(b, v.account, 13);
    let b = with_nat(b, v.owner_type as int, 1);
    let b = with_nat(b, v.side as int, 1);
    let b = with_text(b, v.orig_cl_ord_id, 10);
    let b = with_nat(b, v.transact_time as int, 8);
    let b = with_text(b, v.branch_id, 8);
    let b = with_text(b, v.user_info, 32);
    assert(b == cancel_written(v));
}

/// A registration as a client writes it.
pub open spec fn registration_written(v: RegistrationOrderView) -> Seq<u8> {
    nil()
        + be(v.biz_id as int, 4)
        + text_field(v.biz_pbu, 8)
        + text_field(v.cl_ord_id, 10)
        + text_field(v.security_id, 12)
        + text_field(v.account, 13)
        + be(v.owner_type as int, 1)
        + be(v.designation_instruction as int, 1)
        + be(v.designation_trans_type as int, 1)
        + text_field(v.orig_cl_ord_id, 10)
        + be(v.transact_time as int, 8)
        + text_field(v.branch_id, 8)
        + text_field(v.user_info, 32)
}

/// A registration is read as the client wrote it.
#[verifier::spinoff_prover]
#[verifier::rlimit(40)]
pub proof fn law_registration_is_read(v: RegistrationOrderView)
    requires
        fits(v.biz_pbu, 8),
        fits(v.cl_ord_id, 10),
        fits(v.security_id, 12),
        fits(v.account, 13),
        fits(v.orig_cl_ord_id, 10),
        fits(v.branch_id, 8),
        fits(v.user_info, 32),
    ensures
        registration_written(v).len() == 108,
        RegistrationOrderView::of(registration_written(v)) == v,
{
    wire::lemma_pow256_values();
    let b = nil();
    let b = with_nat(b, v.biz_id as int, 4);
    let b = with_text(b, v.biz_pbu, 8);
    let b = with_text(b, v.cl_ord_id, 10);
    let b = with_text(b, v.security_id, 12);
    let b = with_text(b, v.account, 13);
    let b = with_nat(b, v.owner_type as int, 1);
    let b = with_nat(b, v.designation_instruction as int, 1);
    let b = with_nat(b, v.designation_trans_type as int, 1);
    let b = with_text(b, v.orig_cl_ord_id, 10);
    let b = with_nat(b, v.transact_time as int, 8);
    let b = with_text(b, v.branch_id, 8);
    let b = with_text(b, v.user_info, 32);
    assert(b == registration_written(v));
}

/// A request of the password service as a client writes it.
pub open spec fn password_written(v: PasswordServiceOrderView) -> Seq<u8> {
    nil()
        + be(v.biz_id as int, 4)
        + text_field(v.biz_pbu, 8)
        + text_field(v.cl_ord_id, 10)
        + text_field(v.security_id, 12)
        + text_field(v.account, 13)
        + be(v.owner_type as int, 1)
        + be(v.transact_time as int, 8)
        + text_field(v.branch_id, 8)
        + be(v.side as int, 1)
        + text_field(v.validation_code, 8)
        + text_field(v.user_info, 32)
}

/// A request of the password service is read as the client wrote it.
#[verifier::spinoff_prover]
#[verifier::rlimit(40)]
pub proof fn law_password_is_read(v: PasswordServiceOrderView)
    requires
        fits(v.biz_pbu, 8),
        fits(v.cl_ord_id, 10),
        fits(v.security_id, 12),
        fits(v.account, 13),
        fits(v.branch_id, 8),
        fits(v.validation_code, 8),
        fits(v.user_info, 32),
    ensures
        password_written(v).len() == 105,
        PasswordServiceOrderView::of(password_written(v)) == v,
{
    wire::lemma_pow256_values();
    let b = nil();
    let b = with_nat(b, v.biz_id as int, 4);
    let b = with_text(b, v.biz_pbu, 8);
    let b = with_text(b, v.cl_ord_id, 10);
    let b = with_text(b, v.security_id, 12);
    let b = with_text(b, v.account, 13);
    let b = with_nat(b, v.owner_type as int, 1);
    let b = with_nat(b, v.transact_time as int, 8);
    let b = with_text(b, v.branch_id, 8);
    let b = with_nat(b, v.side as int, 1);
    let b = with_text(b, v.validation_code, 8);
    let b = with_text(b, v.user_info, 32);
    assert(b == password_written(v));
}

/// A new order as a client writes it, without the extension of its business.
pub open spec fn order_written(v: NewOrderView) -> Seq<u8> {
    nil()
        + be(v.biz_id as int, 4)
        + text_field(v.biz_pbu, 8)
        + text_field(v.cl_ord_id, 10)
        + text_field(v.security_id, 12)
        + text_field(v.account, 13)
        + be(v.owner_type as int, 1)
        + be(v.side as int, 1)
        + be(v.price as int, 8)
        + be(v.order_qty as int, 8)
        + be(v.ord_type as int, 1)
        + be(v.time_in_force as int, 1)
        + be(v.transact_time as int, 8)
        + text_field(v.credit_tag, 2)
        + text_field(v.clearing_firm, 8)
        + text_field(v.branch_id, 8)
        + text_field(v.user_info, 32)
}

/// A new order is read as the client wrote it, with the extension of its business and without.
#[verifier::spinoff_prover]
#[verifier::rlimit(40)]
pub proof fn law_order_is_read(v: NewOrderView)
    requires
        fits(v.biz_pbu, 8),
        fits(v.cl_ord_id, 10),
        fits(v.security_id, 12),
        fits(v.account, 13),
        fits(v.credit_tag, 2),
        fits(v.clearing_firm, 8),
        fits(v.branch_id, 8),
        fits(v.user_info, 32),
        fits(v.extend.custodian, 3),
        fits(v.extend.dest_security, 12),
    ensures
        order_written(v).len() == 125,
        NewOrderView::of(order_written(v)) == (NewOrderView { extend: no_extension(), ..v }),
        v.biz_id == 300_060 ==> NewOrderView::of(
            order_written(v) + text_field(v.extend.custodian, 3),
        ) == (NewOrderView {
            extend: ExtendFieldsView { custodian: v.extend.custodian, ..no_extension() },
            ..v
        }),
        v.biz_id == 300_070 ==> NewOrderView::of(
            order_written(v) + be(v.extend.dividend_select as int, 1),
        ) == (NewOrderView {
            extend: ExtendFieldsView {
                dividend_select: v.extend.dividend_select,
                ..no_extension()
            },
            ..v
        }),
        takes_destination(v.biz_id) ==> NewOrderView::of(
            order_written(v) + text_field(v.extend.dest_security, 12),
        ) == (NewOrderView {
            extend: ExtendFieldsView { dest_security: v.extend.dest_security, ..no_extension() },
            ..v
        }),
{
    wire::lemma_pow256_values();
    let b = nil();
    let b = with_nat(b, v.biz_id as int, 4);
    let b = with_text(b, v.biz_pbu, 8);
    let b = with_text(b, v.cl_ord_id, 10);
    let b = with_text(b, v.security_id, 12);
    let b = with_text(b, v.account, 13);
    let b = with_nat(b, v.owner_type as int, 1);
    let b = with_nat(b, v.side as int, 1);
    let b = with_int(b, v.price as int, 8);
    let b = with_int(b, v.order_qty as int, 8);
    let b = with_nat(b, v.ord_type as int, 1);
    let b = with_nat(b, v.time_in_force as int, 1);
    let b = with_nat(b, v.transact_time as int, 8);
    let b = with_text(b, v.credit_tag, 2);
    let b = with_text(b, v.clearing_firm, 8);
    let b = with_text(b, v.branch_id, 8);
    let b = with_text(b, v.user_info, 32);
    assert(b == order_written(v));
    if v.biz_id == 300_060 {
        let c = with_text(b, v.extend.custodian, 3);
    } else if v.biz_id == 300_070 {
        let c = with_nat(b, v.extend.dividend_select as int, 1);
    } else if takes_destination(v.biz_id) {
        let c = with_text(b, v.extend.dest_security, 12);
    }
}

/// The extension of an order that has none.
pub open spec fn no_extension() -> ExtendFieldsView {
    ExtendFieldsView {
        custodian: Seq::empty(),
        dividend_select: 0,
        dest_security: Seq::empty(),
    }
}

} // verus!
