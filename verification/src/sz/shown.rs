//! How the messages of the Shenzhen exchange are shown, field by field.
use vstd::prelude::*;

use super::protocol;
use crate::layout;
use crate::layout::{is_shown, FieldDef};
use crate::text;
use crate::wire::{int_at, nat_at, text_at};

verus! {

/// A logon is shown field by field: under its name stands what its bytes read as.
#[verifier::spinoff_prover]
#[verifier::rlimit(40)]
pub proof fn law_logon_is_shown(body: Seq<u8>)
    requires
        body.len() >= 92,
    ensures
        protocol::described(1, body) matches Some((o, _)) && {
            &&& is_shown(o, 1, "SenderCompID"@, text_at(body, 0, 20))
            &&& is_shown(o, 2, "TargetCompID"@, text_at(body, 20, 20))
            &&& is_shown(o, 3, "HeartBtInt"@, text::dec_int(int_at(body, 40, 4)) + " 秒"@)
            &&& is_shown(o, 4, "Password"@, text_at(body, 44, 16))
            &&& is_shown(o, 5, "DefaultApplVerID"@, text_at(body, 60, 32))
        },
{
    let d = protocol::logon_layout();
    let first = protocol::type_field(1);
    assert(d.take(0) =~= Seq::<FieldDef>::empty());
    layout::lemma_width_step(d, 0);
    layout::lemma_width_step(d, 1);
    layout::lemma_width_step(d, 2);
    layout::lemma_width_step(d, 3);
    layout::lemma_width_step(d, 4);
    assert(d.take(5) =~= d);
    layout::lemma_field_is_shown(first, body, d, 0);
    layout::lemma_field_is_shown(first, body, d, 1);
    layout::lemma_field_is_shown(first, body, d, 2);
    layout::lemma_field_is_shown(first, body, d, 3);
    layout::lemma_field_is_shown(first, body, d, 4);
}

/// A logout is shown field by field: under its name stands what its bytes read as.
#[verifier::spinoff_prover]
#[verifier::rlimit(40)]
pub proof fn law_logout_is_shown(body: Seq<u8>)
    requires
        body.len() >= 204,
    ensures
        protocol::described(2, body) matches Some((o, _)) && {
            &&& is_shown(o, 1, "SessionStatus"@, text::dec_int(int_at(body, 0, 4)))
            &&& is_shown(o, 2, "Text"@, text_at(body, 4, 200))
        },
{
    let d = protocol::logout_layout();
    let first = protocol::type_field(2);
    assert(d.take(0) =~= Seq::<FieldDef>::empty());
    layout::lemma_width_step(d, 0);
    layout::lemma_width_step(d, 1);
    assert(d.take(2) =~= d);
    layout::lemma_field_is_shown(first, body, d, 0);
    layout::lemma_field_is_shown(first, body, d, 1);
}

/// A rejection for reasons of business is shown field by field: under its name stands what
/// its bytes read as.
#[verifier::spinoff_prover]
#[verifier::rlimit(40)]
pub proof fn law_business_reject_is_shown(body: Seq<u8>)
    requires
        body.len() >= 103,
    ensures
        protocol::described(4, body) matches Some((o, _)) && {
            &&& is_shown(o, 1, "ApplID"@, protocol::appl_id_text(text_at(body, 0, 3)))
            &&& is_shown(o, 2, "TransactTime"@, protocol::time_text(int_at(body, 3, 8)))
            &&& is_shown(o, 3, "SubmittingPBUId"@, text_at(body, 11, 6))
            &&& is_shown(o, 4, "SecurityID"@, text_at(body, 17, 8))
            &&& is_shown(o, 5, "SecurityIDSource"@, text_at(body, 25, 4))
            &&& is_shown(o, 6, "RefSeqNum"@, text::dec_int(int_at(body, 29, 8)))
            &&& is_shown(o, 7, "RefMsgType"@, text::dec(nat_at(body, 37, 4) as nat))
            &&& is_shown(o, 8, "BusinessRejectRefID"@, text_at(body, 41, 10))
            &&& is_shown(o, 9, "BusinessRejectReason"@, text::dec(nat_at(body, 51, 2) as nat))
            &&& is_shown(o, 10, "BusinessRejectText"@, text_at(body, 53, 50))
        },
{
    let d = protocol::business_reject_layout();
    let first = protocol::type_field(4);
    assert(d.take(0) =~= Seq::<FieldDef>::empty());
    layout::lemma_width_step(d, 0);
    layout::lemma_width_step(d, 1);
    layout::lemma_width_step(d, 2);
    layout::lemma_width_step(d, 3);
    layout::lemma_width_step(d, 4);
    layout::lemma_width_step(d, 5);
    layout::lemma_width_step(d, 6);
    layout::lemma_width_step(d, 7);
    layout::lemma_width_step(d, 8);
    layout::lemma_width_step(d, 9);
    assert(d.take(10) =~= d);
    layout::lemma_field_is_shown(first, body, d, 0);
    layout::lemma_field_is_shown(first, body, d, 1);
    layout::lemma_field_is_shown(first, body, d, 2);
    layout::lemma_field_is_shown(first, body, d, 3);
    layout::lemma_field_is_shown(first, body, d, 4);
    layout::lemma_field_is_shown(first, body, d, 5);
    layout::lemma_field_is_shown(first, body, d, 6);
    layout::lemma_field_is_shown(first, body, d, 7);
    layout::lemma_field_is_shown(first, body, d, 8);
    layout::lemma_field_is_shown(first, body, d, 9);
}

/// How the fields of the message are shown that stand in front of its extension.
pub open spec fn new_order_cash_shown(o: Seq<(Seq<char>, Seq<char>)>, body: Seq<u8>) -> bool {
    &&& is_shown(o, 1, "ApplID"@, protocol::appl_id_text(text_at(body, 0, 3)))
    &&& is_shown(o, 2, "SubmittingPBUId"@, text_at(body, 3, 6))
    &&& is_shown(o, 3, "SecurityID"@, text_at(body, 9, 8))
    &&& is_shown(o, 4, "SecurityIDSource"@, text_at(body, 17, 4))
    &&& is_shown(o, 5, "OwnerType"@, text::dec(nat_at(body, 21, 2) as nat))
    &&& is_shown(o, 6, "ClearingFirm"@, text_at(body, 23, 2))
    &&& is_shown(o, 7, "TransactTime"@, protocol::time_text(int_at(body, 25, 8)))
    &&& is_shown(o, 8, "UserInfo"@, text_at(body, 33, 8))
    &&& is_shown(o, 9, "ClOrdID"@, text_at(body, 41, 10))
    &&& is_shown(o, 10, "AccountID"@, text_at(body, 51, 12))
    &&& is_shown(o, 11, "BranchID"@, text_at(body, 63, 4))
    &&& is_shown(o, 12, "OrderRestrictions"@, text_at(body, 67, 4))
    &&& is_shown(o, 13, "Side"@, layout::side_text(nat_at(body, 71, 1) as u8))
    &&& is_shown(o, 14, "OrdType"@, protocol::ord_type_text(nat_at(body, 72, 1) as u8))
    &&& is_shown(o, 15, "OrderQty"@, text::scaled(int_at(body, 73, 8), 100) + " 股"@)
    &&& is_shown(o, 16, "Price"@, text::scaled(int_at(body, 81, 8), 10000) + " 元"@)
}

#[verifier::spinoff_prover]
#[verifier::rlimit(60)]
proof fn lemma_new_order_cash_shown(body: Seq<u8>)
    requires
        body.len() >= 89,
    ensures
        layout::then_layout(
            Some((seq![protocol::type_field(100_101)], 0)),
            body,
            Seq::empty(),
            protocol::new_order_cash_layout(),
        ) matches Some((o, at)) && at == 89 && o.len() == 17 && new_order_cash_shown(o, body),
{
    let d = protocol::new_order_cash_layout();
    let first = protocol::type_field(100_101);
    assert(d.take(0) =~= Seq::<FieldDef>::empty());
    layout::lemma_width_step(d, 0);
    layout::lemma_width_step(d, 1);
    layout::lemma_width_step(d, 2);
    layout::lemma_width_step(d, 3);
    layout::lemma_width_step(d, 4);
    layout::lemma_width_step(d, 5);
    layout::lemma_width_step(d, 6);
    layout::lemma_width_step(d, 7);
    layout::lemma_width_step(d, 8);
    layout::lemma_width_step(d, 9);
    layout::lemma_width_step(d, 10);
    layout::lemma_width_step(d, 11);
    layout::lemma_width_step(d, 12);
    layout::lemma_width_step(d, 13);
    layout::lemma_width_step(d, 14);
    layout::lemma_width_step(d, 15);
    assert(d.take(16) =~= d);
    layout::lemma_layout_fits(seq![first], 0, body, Seq::empty(), d);
    layout::lemma_field_is_shown(first, body, d, 0);
    layout::lemma_field_is_shown(first, body, d, 1);
    layout::lemma_field_is_shown(first, body, d, 2);
    layout::lemma_field_is_shown(first, body, d, 3);
    layout::lemma_field_is_shown(first, body, d, 4);
    layout::lemma_field_is_shown(first, body, d, 5);
    layout::lemma_field_is_shown(first, body, d, 6);
    layout::lemma_field_is_shown(first, body, d, 7);
    layout::lemma_field_is_shown(first, body, d, 8);
    layout::lemma_field_is_shown(first, body, d, 9);
    layout::lemma_field_is_shown(first, body, d, 10);
    layout::lemma_field_is_shown(first, body, d, 11);
    layout::lemma_field_is_shown(first, body, d, 12);
    layout::lemma_field_is_shown(first, body, d, 13);
    layout::lemma_field_is_shown(first, body, d, 14);
    layout::lemma_field_is_shown(first, body, d, 15);
}

/// A new order of the cash auction is shown field by field: under its name stands what its
/// bytes read as.
/// The extension is shown where the message has room for it.
#[verifier::spinoff_prover]
#[verifier::rlimit(40)]
pub proof fn law_new_order_cash_is_shown(body: Seq<u8>)
    requires
        body.len() >= 89,
    ensures
        protocol::described(100_101, body) matches Some((o, _)) && {
            &&& new_order_cash_shown(o, body)
            &&& body.len() < 89 + 20 ==> o.len() == 17
            &&& body.len() >= 89 + 20 ==> {
                &&& o.len() == 22
                &&& is_shown(o, 17, "StopPx"@, text::scaled(int_at(body, 89, 8), 10000) + " 元"@)
                &&& is_shown(o, 18, "MinQty"@, text::scaled(int_at(body, 97, 8), 100) + " 股"@)
                &&& is_shown(o, 19, "MaxPriceLevels"@, text::dec(nat_at(body, 105, 2) as nat))
                &&& is_shown(o, 20, "TimeInForce"@, text::dec(nat_at(body, 107, 1) as nat))
                &&& is_shown(o, 21, "CashMargin"@, text::dec(nat_at(body, 108, 1) as nat))
            }
        },
{
    lemma_new_order_cash_shown(body);
    let p = layout::then_layout(
        Some((seq![protocol::type_field(100_101)], 0)),
        body,
        Seq::empty(),
        protocol::new_order_cash_layout(),
    );
    let q = p->0;
    let e = protocol::cash_extension_layout();
    layout::lemma_layout_keeps(q.0, q.1, body, Seq::empty(), e);
    assert(e.take(0) =~= Seq::<FieldDef>::empty());
    layout::lemma_width_step(e, 0);
    layout::lemma_width_step(e, 1);
    layout::lemma_width_step(e, 2);
    layout::lemma_width_step(e, 3);
    layout::lemma_width_step(e, 4);
    assert(e.take(5) =~= e);
    layout::lemma_layout_fits(q.0, q.1, body, Seq::empty(), e);
    if body.len() - q.1 >= 20 {
        layout::lemma_more_is_shown(q.0, q.1, body, e, 0);
        layout::lemma_more_is_shown(q.0, q.1, body, e, 1);
        layout::lemma_more_is_shown(q.0, q.1, body, e, 2);
        layout::lemma_more_is_shown(q.0, q.1, body, e, 3);
        layout::lemma_more_is_shown(q.0, q.1, body, e, 4);
    }
}

/// A request to cancel is shown field by field: under its name stands what its bytes read as.
#[verifier::spinoff_prover]
#[verifier::rlimit(40)]
pub proof fn law_order_cancel_request_is_shown(body: Seq<u8>)
    requires
        body.len() >= 86,
    ensures
        protocol::described(190_007, body) matches Some((o, _)) && {
            &&& is_shown(o, 1, "ApplID"@, protocol::appl_id_text(text_at(body, 0, 3)))
            &&& is_shown(o, 2, "SubmittingPBUId"@, text_at(body, 3, 6))
            &&& is_shown(o, 3, "SecurityID"@, text_at(body, 9, 8))
            &&& is_shown(o, 4, "SecurityIDSource"@, text_at(body, 17, 4))
            &&& is_shown(o, 5, "OwnerType"@, text::dec(nat_at(body, 21, 2) as nat))
            &&& is_shown(o, 6, "ClearingFirm"@, text_at(body, 23, 2))
            &&& is_shown(o, 7, "TransactTime"@, protocol::time_text(int_at(body, 25, 8)))
            &&& is_shown(o, 8, "UserInfo"@, text_at(body, 33, 8))
            &&& is_shown(o, 9, "ClOrdID"@, text_at(body, 41, 10))
            &&& is_shown(o, 10, "OrigClOrdID"@, text_at(body, 51, 10))
            &&& is_shown(o, 11, "Side"@, layout::side_text(nat_at(body, 61, 1) as u8))
            &&& is_shown(o, 12, "OrderID"@, text_at(body, 62, 16))
            &&& is_shown(o, 13, "OrderQty"@, text::scaled(int_at(body, 78, 8), 100) + " 股"@)
        },
{
    let d = protocol::order_cancel_request_layout();
    let first = protocol::type_field(190_007);
    assert(d.take(0) =~= Seq::<FieldDef>::empty());
    layout::lemma_width_step(d, 0);
    layout::lemma_width_step(d, 1);
    layout::lemma_width_step(d, 2);
    layout::lemma_width_step(d, 3);
    layout::lemma_width_step(d, 4);
    layout::lemma_width_step(d, 5);
    layout::lemma_width_step(d, 6);
    layout::lemma_width_step(d, 7);
    layout::lemma_width_step(d, 8);
    layout::lemma_width_step(d, 9);
    layout::lemma_width_step(d, 10);
    layout::lemma_width_step(d, 11);
    layout::lemma_width_step(d, 12);
    assert(d.take(13) =~= d);
    layout::lemma_field_is_shown(first, body, d, 0);
    layout::lemma_field_is_shown(first, body, d, 1);
    layout::lemma_field_is_shown(first, body, d, 2);
    layout::lemma_field_is_shown(first, body, d, 3);
    layout::lemma_field_is_shown(first, body, d, 4);
    layout::lemma_field_is_shown(first, body, d, 5);
    layout::lemma_field_is_shown(first, body, d, 6);
    layout::lemma_field_is_shown(first, body, d, 7);
    layout::lemma_field_is_shown(first, body, d, 8);
    layout::lemma_field_is_shown(first, body, d, 9);
    layout::lemma_field_is_shown(first, body, d, 10);
    layout::lemma_field_is_shown(first, body, d, 11);
    layout::lemma_field_is_shown(first, body, d, 12);
}

/// The refusal of a request to cancel is shown field by field: under its name stands what
/// its bytes read as.
#[verifier::spinoff_prover]
#[verifier::rlimit(40)]
pub proof fn law_cancel_reject_is_shown(body: Seq<u8>)
    requires
        body.len() >= 115,
    ensures
        protocol::described(290_008, body) matches Some((o, _)) && {
            &&& is_shown(o, 1, "PartitionNo"@, text::dec_int(int_at(body, 0, 4)))
            &&& is_shown(o, 2, "ReportIndex"@, text::dec_int(int_at(body, 4, 8)))
            &&& is_shown(o, 3, "ApplID"@, protocol::appl_id_text(text_at(body, 12, 3)))
            &&& is_shown(o, 4, "ReportingPBUId"@, text_at(body, 15, 6))
            &&& is_shown(o, 5, "SubmittingPBUId"@, text_at(body, 21, 6))
            &&& is_shown(o, 6, "SecurityID"@, text_at(body, 27, 8))
            &&& is_shown(o, 7, "SecurityIDSource"@, text_at(body, 35, 4))
            &&& is_shown(o, 8, "OwnerType"@, text::dec(nat_at(body, 39, 2) as nat))
            &&& is_shown(o, 9, "ClearingFirm"@, text_at(body, 41, 2))
            &&& is_shown(o, 10, "TransactTime"@, protocol::time_text(int_at(body, 43, 8)))
            &&& is_shown(o, 11, "UserInfo"@, text_at(body, 51, 8))
            &&& is_shown(o, 12, "ClOrdID"@, text_at(body, 59, 10))
            &&& is_shown(o, 13, "OrigClOrdID"@, text_at(body, 69, 10))
            &&& is_shown(o, 14, "Side"@, layout::side_text(nat_at(body, 79, 1) as u8))
            &&& is_shown(o, 15, "OrdStatus"@, layout::ord_status_text(nat_at(body, 80, 1) as u8))
            &&& is_shown(o, 16, "CxlRejReason"@, text::dec(nat_at(body, 81, 2) as nat))
            &&& is_shown(o, 17, "RejectText"@, text_at(body, 83, 16))
            &&& is_shown(o, 18, "OrderID"@, text_at(body, 99, 16))
        },
{
    let d = protocol::cancel_reject_layout();
    let first = protocol::type_field(290_008);
    assert(d.take(0) =~= Seq::<FieldDef>::empty());
    layout::lemma_width_step(d, 0);
    layout::lemma_width_step(d, 1);
    layout::lemma_width_step(d, 2);
    layout::lemma_width_step(d, 3);
    layout::lemma_width_step(d, 4);
    layout::lemma_width_step(d, 5);
    layout::lemma_width_step(d, 6);
    layout::lemma_width_step(d, 7);
    layout::lemma_width_step(d, 8);
    layout::lemma_width_step(d, 9);
    layout::lemma_width_step(d, 10);
    layout::lemma_width_step(d, 11);
    layout::lemma_width_step(d, 12);
    layout::lemma_width_step(d, 13);
    layout::lemma_width_step(d, 14);
    layout::lemma_width_step(d, 15);
    layout::lemma_width_step(d, 16);
    layout::lemma_width_step(d, 17);
    assert(d.take(18) =~= d);
    layout::lemma_field_is_shown(first, body, d, 0);
    layout::lemma_field_is_shown(first, body, d, 1);
    layout::lemma_field_is_shown(first, body, d, 2);
    layout::lemma_field_is_shown(first, body, d, 3);
    layout::lemma_field_is_shown(first, body, d, 4);
    layout::lemma_field_is_shown(first, body, d, 5);
    layout::lemma_field_is_shown(first, body, d, 6);
    layout::lemma_field_is_shown(first, body, d, 7);
    layout::lemma_field_is_shown(first, body, d, 8);
    layout::lemma_field_is_shown(first, body, d, 9);
    layout::lemma_field_is_shown(first, body, d, 10);
    layout::lemma_field_is_shown(first, body, d, 11);
    layout::lemma_field_is_shown(first, body, d, 12);
    layout::lemma_field_is_shown(first, body, d, 13);
    layout::lemma_field_is_shown(first, body, d, 14);
    layout::lemma_field_is_shown(first, body, d, 15);
    layout::lemma_field_is_shown(first, body, d, 16);
    layout::lemma_field_is_shown(first, body, d, 17);
}

/// How the fields of the message are shown that stand in front of its extension.
pub open spec fn exec_rpt_cash_ack_shown(o: Seq<(Seq<char>, Seq<char>)>, body: Seq<u8>) -> bool {
    &&& is_shown(o, 1, "PartitionNo"@, text::dec_int(int_at(body, 0, 4)))
    &&& is_shown(o, 2, "ReportIndex"@, text::dec_int(int_at(body, 4, 8)))
    &&& is_shown(o, 3, "ApplID"@, protocol::appl_id_text(text_at(body, 12, 3)))
    &&& is_shown(o, 4, "ReportingPBUId"@, text_at(body, 15, 6))
    &&& is_shown(o, 5, "SubmittingPBUId"@, text_at(body, 21, 6))
    &&& is_shown(o, 6, "SecurityID"@, text_at(body, 27, 8))
    &&& is_shown(o, 7, "SecurityIDSource"@, text_at(body, 35, 4))
    &&& is_shown(o, 8, "OwnerType"@, text::dec(nat_at(body, 39, 2) as nat))
    &&& is_shown(o, 9, "ClearingFirm"@, text_at(body, 41, 2))
    &&& is_shown(o, 10, "TransactTime"@, protocol::time_text(int_at(body, 43, 8)))
    &&& is_shown(o, 11, "UserInfo"@, text_at(body, 51, 8))
    &&& is_shown(o, 12, "OrderID"@, text_at(body, 59, 16))
    &&& is_shown(o, 13, "ClOrdID"@, text_at(body, 75, 10))
    &&& is_shown(o, 14, "OrigClOrdID"@, text_at(body, 85, 10))
    &&& is_shown(o, 15, "ExecID"@, text_at(body, 95, 16))
    &&& is_shown(o, 16, "ExecType"@, protocol::exec_type_text(nat_at(body, 111, 1) as u8))
    &&& is_shown(o, 17, "OrdStatus"@, layout::ord_status_text(nat_at(body, 112, 1) as u8))
    &&& is_shown(o, 18, "OrdRejReason"@, text::dec(nat_at(body, 113, 2) as nat))
    &&& is_shown(o, 19, "LeavesQty"@, text::scaled(int_at(body, 115, 8), 100) + " 股"@)
    &&& is_shown(o, 20, "CumQty"@, text::scaled(int_at(body, 123, 8), 100) + " 股"@)
    &&& is_shown(o, 21, "Side"@, layout::side_text(nat_at(body, 131, 1) as u8))
    &&& is_shown(o, 22, "OrdType"@, protocol::ord_type_text(nat_at(body, 132, 1) as u8))
    &&& is_shown(o, 23, "OrderQty"@, text::scaled(int_at(body, 133, 8), 100) + " 股"@)
    &&& is_shown(o, 24, "Price"@, text::scaled(int_at(body, 141, 8), 10000) + " 元"@)
    &&& is_shown(o, 25, "AccountID"@, text_at(body, 149, 12))
    &&& is_shown(o, 26, "BranchID"@, text_at(body, 161, 4))
    &&& is_shown(o, 27, "OrderRestrictions"@, text_at(body, 165, 4))
}

#[verifier::spinoff_prover]
#[verifier::rlimit(60)]
proof fn lemma_exec_rpt_cash_ack_shown(body: Seq<u8>)
    requires
        body.len() >= 169,
    ensures
        layout::then_layout(
            Some((seq![protocol::type_field(200_102)], 0)),
            body,
            Seq::empty(),
            protocol::exec_rpt_cash_ack_layout(),
        ) matches Some((o, at)) && at == 169 && o.len() == 28 && exec_rpt_cash_ack_shown(o, body),
{
    let d = protocol::exec_rpt_cash_ack_layout();
    let first = protocol::type_field(200_102);
    assert(d.take(0) =~= Seq::<FieldDef>::empty());
    layout::lemma_width_step(d, 0);
    layout::lemma_width_step(d, 1);
    layout::lemma_width_step(d, 2);
    layout::lemma_width_step(d, 3);
    layout::lemma_width_step(d, 4);
    layout::lemma_width_step(d, 5);
    layout::lemma_width_step(d, 6);
    layout::lemma_width_step(d, 7);
    layout::lemma_width_step(d, 8);
    layout::lemma_width_step(d, 9);
    layout::lemma_width_step(d, 10);
    layout::lemma_width_step(d, 11);
    layout::lemma_width_step(d, 12);
    layout::lemma_width_step(d, 13);
    layout::lemma_width_step(d, 14);
    layout::lemma_width_step(d, 15);
    layout::lemma_width_step(d, 16);
    layout::lemma_width_step(d, 17);
    layout::lemma_width_step(d, 18);
    layout::lemma_width_step(d, 19);
    layout::lemma_width_step(d, 20);
    layout::lemma_width_step(d, 21);
    layout::lemma_width_step(d, 22);
    layout::lemma_width_step(d, 23);
    layout::lemma_width_step(d, 24);
    layout::lemma_width_step(d, 25);
    layout::lemma_width_step(d, 26);
    assert(d.take(27) =~= d);
    layout::lemma_layout_fits(seq![first], 0, body, Seq::empty(), d);
    layout::lemma_field_is_shown(first, body, d, 0);
    layout::lemma_field_is_shown(first, body, d, 1);
    layout::lemma_field_is_shown(first, body, d, 2);
    layout::lemma_field_is_shown(first, body, d, 3);
    layout::lemma_field_is_shown(first, body, d, 4);
    layout::lemma_field_is_shown(first, body, d, 5);
    layout::lemma_field_is_shown(first, body, d, 6);
    layout::lemma_field_is_shown(first, body, d, 7);
    layout::lemma_field_is_shown(first, body, d, 8);
    layout::lemma_field_is_shown(first, body, d, 9);
    layout::lemma_field_is_shown(first, body, d, 10);
    layout::lemma_field_is_shown(first, body, d, 11);
    layout::lemma_field_is_shown(first, body, d, 12);
    layout::lemma_field_is_shown(first, body, d, 13);
    layout::lemma_field_is_shown(first, body, d, 14);
    layout::lemma_field_is_shown(first, body, d, 15);
    layout::lemma_field_is_shown(first, body, d, 16);
    layout::lemma_field_is_shown(first, body, d, 17);
    layout::lemma_field_is_shown(first, body, d, 18);
    layout::lemma_field_is_shown(first, body, d, 19);
    layout::lemma_field_is_shown(first, body, d, 20);
    layout::lemma_field_is_shown(first, body, d, 21);
    layout::lemma_field_is_shown(first, body, d, 22);
    layout::lemma_field_is_shown(first, body, d, 23);
    layout::lemma_field_is_shown(first, body, d, 24);
    layout::lemma_field_is_shown(first, body, d, 25);
    layout::lemma_field_is_shown(first, body, d, 26);
}

/// A response of the cash auction is shown field by field: under its name stands what its
/// bytes read as.
/// The extension is shown where the message has room for it.
#[verifier::spinoff_prover]
#[verifier::rlimit(40)]
pub proof fn law_exec_rpt_cash_ack_is_shown(body: Seq<u8>)
    requires
        body.len() >= 169,
    ensures
        protocol::described(200_102, body) matches Some((o, _)) && {
            &&& exec_rpt_cash_ack_shown(o, body)
            &&& body.len() < 169 + 20 ==> o.len() == 28
            &&& body.len() >= 169 + 20 ==> {
                &&& o.len() == 33
                &&& is_shown(o, 28, "StopPx"@, text::scaled(int_at(body, 169, 8), 10000) + " 元"@)
                &&& is_shown(o, 29, "MinQty"@, text::scaled(int_at(body, 177, 8), 100) + " 股"@)
                &&& is_shown(o, 30, "MaxPriceLevels"@, text::dec(nat_at(body, 185, 2) as nat))
                &&& is_shown(o, 31, "TimeInForce"@, text::dec(nat_at(body, 187, 1) as nat))
                &&& is_shown(o, 32, "CashMargin"@, text::dec(nat_at(body, 188, 1) as nat))
            }
        },
{
    lemma_exec_rpt_cash_ack_shown(body);
    let p = layout::then_layout(
        Some((seq![protocol::type_field(200_102)], 0)),
        body,
        Seq::empty(),
        protocol::exec_rpt_cash_ack_layout(),
    );
    let q = p->0;
    let e = protocol::cash_extension_layout();
    layout::lemma_layout_keeps(q.0, q.1, body, Seq::empty(), e);
    assert(e.take(0) =~= Seq::<FieldDef>::empty());
    layout::lemma_width_step(e, 0);
    layout::lemma_width_step(e, 1);
    layout::lemma_width_step(e, 2);
    layout::lemma_width_step(e, 3);
    layout::lemma_width_step(e, 4);
    assert(e.take(5) =~= e);
    layout::lemma_layout_fits(q.0, q.1, body, Seq::empty(), e);
    if body.len() - q.1 >= 20 {
        layout::lemma_more_is_shown(q.0, q.1, body, e, 0);
        layout::lemma_more_is_shown(q.0, q.1, body, e, 1);
        layout::lemma_more_is_shown(q.0, q.1, body, e, 2);
        layout::lemma_more_is_shown(q.0, q.1, body, e, 3);
        layout::lemma_more_is_shown(q.0, q.1, body, e, 4);
    }
}

/// An execution of the cash auction is shown field by field: under its name stands what its
/// bytes read as.
#[verifier::spinoff_prover]
#[verifier::rlimit(40)]
pub proof fn law_exec_rpt_cash_trade_is_shown(body: Seq<u8>)
    requires
        body.len() >= 153,
    ensures
        protocol::described(200_115, body) matches Some((o, _)) && {
            &&& is_shown(o, 1, "PartitionNo"@, text::dec_int(int_at(body, 0, 4)))
            &&& is_shown(o, 2, "ReportIndex"@, text::dec_int(int_at(body, 4, 8)))
            &&& is_shown(o, 3, "ApplID"@, protocol::appl_id_text(text_at(body, 12, 3)))
            &&& is_shown(o, 4, "ReportingPBUId"@, text_at(body, 15, 6))
            &&& is_shown(o, 5, "SubmittingPBUId"@, text_at(body, 21, 6))
            &&& is_shown(o, 6, "SecurityID"@, text_at(body, 27, 8))
            &&& is_shown(o, 7, "SecurityIDSource"@, text_at(body, 35, 4))
            &&& is_shown(o, 8, "OwnerType"@, text::dec(nat_at(body, 39, 2) as nat))
            &&& is_shown(o, 9, "ClearingFirm"@, text_at(body, 41, 2))
            &&& is_shown(o, 10, "TransactTime"@, protocol::time_text(int_at(body, 43, 8)))
            &&& is_shown(o, 11, "UserInfo"@, text_at(body, 51, 8))
            &&& is_shown(o, 12, "OrderID"@, text_at(body, 59, 16))
            &&& is_shown(o, 13, "ClOrdID"@, text_at(body, 75, 10))
            &&& is_shown(o, 14, "ExecID"@, text_at(body, 85, 16))
            &&& is_shown(o, 15, "ExecType"@, protocol::exec_type_text(nat_at(body, 101, 1) as u8))
            &&& is_shown(o, 16, "OrdStatus"@, layout::ord_status_text(nat_at(body, 102, 1) as u8))
            &&& is_shown(o, 17, "LastPx"@, text::scaled(int_at(body, 103, 8), 10000) + " 元"@)
            &&& is_shown(o, 18, "LastQty"@, text::scaled(int_at(body, 111, 8), 100) + " 股"@)
            &&& is_shown(o, 19, "LeavesQty"@, text::scaled(int_at(body, 119, 8), 100) + " 股"@)
            &&& is_shown(o, 20, "CumQty"@, text::scaled(int_at(body, 127, 8), 100) + " 股"@)
            &&& is_shown(o, 21, "Side"@, layout::side_text(nat_at(body, 135, 1) as u8))
            &&& is_shown(o, 22, "AccountID"@, text_at(body, 136, 12))
            &&& is_shown(o, 23, "BranchID"@, text_at(body, 148, 4))
            &&& is_shown(o, 24, "CashMargin"@, text::dec(nat_at(body, 152, 1) as nat))
        },
{
    let d = protocol::exec_rpt_cash_trade_layout();
    let first = protocol::type_field(200_115);
    assert(d.take(0) =~= Seq::<FieldDef>::empty());
    layout::lemma_width_step(d, 0);
    layout::lemma_width_step(d, 1);
    layout::lemma_width_step(d, 2);
    layout::lemma_width_step(d, 3);
    layout::lemma_width_step(d, 4);
    layout::lemma_width_step(d, 5);
    layout::lemma_width_step(d, 6);
    layout::lemma_width_step(d, 7);
    layout::lemma_width_step(d, 8);
    layout::lemma_width_step(d, 9);
    layout::lemma_width_step(d, 10);
    layout::lemma_width_step(d, 11);
    layout::lemma_width_step(d, 12);
    layout::lemma_width_step(d, 13);
    layout::lemma_width_step(d, 14);
    layout::lemma_width_step(d, 15);
    layout::lemma_width_step(d, 16);
    layout::lemma_width_step(d, 17);
    layout::lemma_width_step(d, 18);
    layout::lemma_width_step(d, 19);
    layout::lemma_width_step(d, 20);
    layout::lemma_width_step(d, 21);
    layout::lemma_width_step(d, 22);
    layout::lemma_width_step(d, 23);
    assert(d.take(24) =~= d);
    layout::lemma_field_is_shown(first, body, d, 0);
    layout::lemma_field_is_shown(first, body, d, 1);
    layout::lemma_field_is_shown(first, body, d, 2);
    layout::lemma_field_is_shown(first, body, d, 3);
    layout::lemma_field_is_shown(first, body, d, 4);
    layout::lemma_field_is_shown(first, body, d, 5);
    layout::lemma_field_is_shown(first, body, d, 6);
    layout::lemma_field_is_shown(first, body, d, 7);
    layout::lemma_field_is_shown(first, body, d, 8);
    layout::lemma_field_is_shown(first, body, d, 9);
    layout::lemma_field_is_shown(first, body, d, 10);
    layout::lemma_field_is_shown(first, body, d, 11);
    layout::lemma_field_is_shown(first, body, d, 12);
    layout::lemma_field_is_shown(first, body, d, 13);
    layout::lemma_field_is_shown(first, body, d, 14);
    layout::lemma_field_is_shown(first, body, d, 15);
    layout::lemma_field_is_shown(first, body, d, 16);
    layout::lemma_field_is_shown(first, body, d, 17);
    layout::lemma_field_is_shown(first, body, d, 18);
    layout::lemma_field_is_shown(first, body, d, 19);
    layout::lemma_field_is_shown(first, body, d, 20);
    layout::lemma_field_is_shown(first, body, d, 21);
    layout::lemma_field_is_shown(first, body, d, 22);
    layout::lemma_field_is_shown(first, body, d, 23);
}

} // verus!
