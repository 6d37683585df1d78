//! How the messages of the Shanghai exchange are shown, field by field.
use vstd::prelude::*;

use super::protocol;
use crate::layout;
use crate::layout::{is_shown, FieldDef};
use crate::text;
use crate::wire::{int_at, nat_at, text_at};

verus! {

/// A logon is shown field by field: under its name stands what its bytes read as.
#[verifier::spinoff_prover]
#[verifier::rlimit(40)]
pub proof fn law_logon_is_shown(body: Seq<u8>)
    requires
        body.len() >= 82,
    ensures
        protocol::described(40, body) matches Some((o, _)) && {
            &&& is_shown(o, 1, "SenderCompID"@, text_at(body, 0, 32))
            &&& is_shown(o, 2, "TargetCompID"@, text_at(body, 32, 32))
            &&& is_shown(o, 3, "HeartBtInt"@, text::dec(nat_at(body, 64, 2) as nat) + " 秒"@)
            &&& is_shown(o, 4, "PrtclVersion"@, text_at(body, 66, 8))
            &&& is_shown(o, 5, "TradeDate"@, protocol::date_text(nat_at(body, 74, 4)))
            &&& is_shown(o, 6, "Qsize"@, text::dec(nat_at(body, 78, 4) as nat))
        },
{
    let d = protocol::logon_layout();
    let first = protocol::type_field(40);
    assert(d.take(0) =~= Seq::<FieldDef>::empty());
    layout::lemma_width_step(d, 0);
    layout::lemma_width_step(d, 1);
    layout::lemma_width_step(d, 2);
    layout::lemma_width_step(d, 3);
    layout::lemma_width_step(d, 4);
    layout::lemma_width_step(d, 5);
    assert(d.take(6) =~= d);
    layout::lemma_field_is_shown(first, body, d, 0);
    layout::lemma_field_is_shown(first, body, d, 1);
    layout::lemma_field_is_shown(first, body, d, 2);
    layout::lemma_field_is_shown(first, body, d, 3);
    layout::lemma_field_is_shown(first, body, d, 4);
    layout::lemma_field_is_shown(first, body, d, 5);
}

/// A logout is shown field by field: under its name stands what its bytes read as.
#[verifier::spinoff_prover]
#[verifier::rlimit(40)]
pub proof fn law_logout_is_shown(body: Seq<u8>)
    requires
        body.len() >= 68,
    ensures
        protocol::described(41, body) matches Some((o, _)) && {
            &&& is_shown(o, 1, "SessionStatus"@, text::dec(nat_at(body, 0, 4) as nat))
            &&& is_shown(o, 2, "Text"@, text_at(body, 4, 64))
        },
{
    let d = protocol::logout_layout();
    let first = protocol::type_field(41);
    assert(d.take(0) =~= Seq::<FieldDef>::empty());
    layout::lemma_width_step(d, 0);
    layout::lemma_width_step(d, 1);
    assert(d.take(2) =~= d);
    layout::lemma_field_is_shown(first, body, d, 0);
    layout::lemma_field_is_shown(first, body, d, 1);
}

/// How the fields of the message are shown that stand in front of its extension.
pub open spec fn new_order_shown(o: Seq<(Seq<char>, Seq<char>)>, body: Seq<u8>) -> bool {
    &&& is_shown(o, 1, "BizID"@, protocol::biz_id_text(nat_at(body, 0, 4) as u32))
    &&& is_shown(o, 2, "BizPBU"@, text_at(body, 4, 8))
    &&& is_shown(o, 3, "ClOrdID"@, text_at(body, 12, 10))
    &&& is_shown(o, 4, "SecurityID"@, text_at(body, 22, 12))
    &&& is_shown(o, 5, "Account"@, text_at(body, 34, 13))
    &&& is_shown(o, 6, "OwnerType"@, text::dec(nat_at(body, 47, 1) as nat))
    &&& is_shown(o, 7, "Side"@, layout::side_text(nat_at(body, 48, 1) as u8))
    &&& is_shown(o, 8, "Price"@, text::scaled(int_at(body, 49, 8), 100_000) + " 元"@)
    &&& is_shown(o, 9, "OrderQty"@, text::scaled(int_at(body, 57, 8), 1000) + " 股"@)
    &&& is_shown(o, 10, "OrdType"@, protocol::ord_type_text(nat_at(body, 65, 1) as u8))
    &&& is_shown(o, 11, "TimeInForce"@, text::dec(nat_at(body, 66, 1) as nat))
    &&& is_shown(o, 12, "TransactTime"@, protocol::time_text(nat_at(body, 67, 8)))
    &&& is_shown(o, 13, "CreditTag"@, text_at(body, 75, 2))
    &&& is_shown(o, 14, "ClearingFirm"@, text_at(body, 77, 8))
    &&& is_shown(o, 15, "BranchID"@, text_at(body, 85, 8))
    &&& is_shown(o, 16, "UserInfo"@, text_at(body, 93, 32))
}

#[verifier::spinoff_prover]
#[verifier::rlimit(60)]
proof fn lemma_new_order_shown(body: Seq<u8>)
    requires
        body.len() >= 125,
    ensures
        layout::then_layout(
            Some((seq![protocol::type_field(58)], 0)),
            body,
            Seq::empty(),
            protocol::new_order_layout(),
        ) matches Some((o, at)) && at == 125 && o.len() == 17 && new_order_shown(o, body),
{
    let d = protocol::new_order_layout();
    let first = protocol::type_field(58);
    assert(d.take(0) =~= Seq::<FieldDef>::empty());
    layout::lemma_width_step(d, 0);
    layout::lemma_width_step(d, 1);
    layout::lemma_width_step(d, 2);
    layout::lemma_width_step(d, 3);
    layout::lemma_width_step(d, 4);
    layout::lemma_width_step(d, 5);
    layout::lemma_width_step(d, 6);
    layout::lemma_width_step(d, 7);
    layout::lemma_width_step(d, 8);
    layout::lemma_width_step(d, 9);
    layout::lemma_width_step(d, 10);
    layout::lemma_width_step(d, 11);
    layout::lemma_width_step(d, 12);
    layout::lemma_width_step(d, 13);
    layout::lemma_width_step(d, 14);
    layout::lemma_width_step(d, 15);
    assert(d.take(16) =~= d);
    layout::lemma_layout_fits(seq![first], 0, body, Seq::empty(), d);
    layout::lemma_field_is_shown(first, body, d, 0);
    layout::lemma_field_is_shown(first, body, d, 1);
    layout::lemma_field_is_shown(first, body, d, 2);
    layout::lemma_field_is_shown(first, body, d, 3);
    layout::lemma_field_is_shown(first, body, d, 4);
    layout::lemma_field_is_shown(first, body, d, 5);
    layout::lemma_field_is_shown(first, body, d, 6);
    layout::lemma_field_is_shown(first, body, d, 7);
    layout::lemma_field_is_shown(first, body, d, 8);
    layout::lemma_field_is_shown(first, body, d, 9);
    layout::lemma_field_is_shown(first, body, d, 10);
    layout::lemma_field_is_shown(first, body, d, 11);
    layout::lemma_field_is_shown(first, body, d, 12);
    layout::lemma_field_is_shown(first, body, d, 13);
    layout::lemma_field_is_shown(first, body, d, 14);
    layout::lemma_field_is_shown(first, body, d, 15);
}

/// A new order is shown field by field: under its name stands what its bytes read as.
/// The extension of its business is shown where the message has room for it.
#[verifier::spinoff_prover]
#[verifier::rlimit(40)]
pub proof fn law_new_order_is_shown(body: Seq<u8>, biz: u32)
    requires
        body.len() >= 125,
        biz == nat_at(body, 0, 4) as u32,
    ensures
        protocol::described(58, body) matches Some((o, _)) && {
            &&& new_order_shown(o, body)
            &&& biz == 300_060 ==> if body.len() < 125 + 3 {
                o.len() == 17
            } else {
                o.len() == 18 && is_shown(o, 17, "Custodian"@, text_at(body, 125, 3))
            }
            &&& biz == 300_070 ==> if body.len() < 125 + 1 {
                o.len() == 17
            } else {
                o.len() == 18 && is_shown(
                    o,
                    17,
                    "DividendSelect"@,
                    text::dec(nat_at(body, 125, 1) as nat),
                )
            }
            &&& (biz == 300_080 || 300_090 <= biz <= 300_095) ==> if body.len() < 125 + 12 {
                o.len() == 17
            } else {
                o.len() == 18 && is_shown(o, 17, "DestSecurity"@, text_at(body, 125, 12))
            }
            &&& !(biz == 300_060 || biz == 300_070 || biz == 300_080 || 300_090 <= biz <= 300_095)
                ==> o.len() == 17
        },
{
    lemma_new_order_shown(body);
    let p = layout::then_layout(
        Some((seq![protocol::type_field(58)], 0)),
        body,
        Seq::empty(),
        protocol::new_order_layout(),
    );
    let q = p->0;
    let e = protocol::extend_layout(nat_at(body, 0, 4) as u32);
    layout::lemma_layout_keeps(q.0, q.1, body, Seq::empty(), e);
    layout::lemma_layout_fits(q.0, q.1, body, Seq::empty(), e);
    if e.len() > 0 {
        assert(e.take(0) =~= Seq::<FieldDef>::empty());
        layout::lemma_width_step(e, 0);
        assert(e.take(1) =~= e);
        if q.1 + layout::total_width(e) <= body.len() {
            layout::lemma_more_is_shown(q.0, q.1, body, e, 0);
        }
    }
}

/// A request to cancel is shown field by field: under its name stands what its bytes read as.
#[verifier::spinoff_prover]
#[verifier::rlimit(40)]
pub proof fn law_cancel_order_is_shown(body: Seq<u8>)
    requires
        body.len() >= 107,
    ensures
        protocol::described(61, body) matches Some((o, _)) && {
            &&& is_shown(o, 1, "BizID"@, protocol::biz_id_text(nat_at(body, 0, 4) as u32))
            &&& is_shown(o, 2, "BizPBU"@, text_at(body, 4, 8))
            &&& is_shown(o, 3, "ClOrdID"@, text_at(body, 12, 10))
            &&& is_shown(o, 4, "SecurityID"@, text_at(body, 22, 12))
            &&& is_shown(o, 5, "Account"@, text_at(body, 34, 13))
            &&& is_shown(o, 6, "OwnerType"@, text::dec(nat_at(body, 47, 1) as nat))
            &&& is_shown(o, 7, "Side"@, layout::side_text(nat_at(body, 48, 1) as u8))
            &&& is_shown(o, 8, "OrigClOrdID"@, text_at(body, 49, 10))
            &&& is_shown(o, 9, "TransactTime"@, protocol::time_text(nat_at(body, 59, 8)))
            &&& is_shown(o, 10, "BranchID"@, text_at(body, 67, 8))
            &&& is_shown(o, 11, "UserInfo"@, text_at(body, 75, 32))
        },
{
    let d = protocol::cancel_order_layout();
    let first = protocol::type_field(61);
    assert(d.take(0) =~= Seq::<FieldDef>::empty());
    layout::lemma_width_step(d, 0);
    layout::lemma_width_step(d, 1);
    layout::lemma_width_step(d, 2);
    layout::lemma_width_step(d, 3);
    layout::lemma_width_step(d, 4);
    layout::lemma_width_step(d, 5);
    layout::lemma_width_step(d, 6);
    layout::lemma_width_step(d, 7);
    layout::lemma_width_step(d, 8);
    layout::lemma_width_step(d, 9);
    layout::lemma_width_step(d, 10);
    assert(d.take(11) =~= d);
    layout::lemma_field_is_shown(first, body, d, 0);
    layout::lemma_field_is_shown(first, body, d, 1);
    layout::lemma_field_is_shown(first, body, d, 2);
    layout::lemma_field_is_shown(first, body, d, 3);
    layout::lemma_field_is_shown(first, body, d, 4);
    layout::lemma_field_is_shown(first, body, d, 5);
    layout::lemma_field_is_shown(first, body, d, 6);
    layout::lemma_field_is_shown(first, body, d, 7);
    layout::lemma_field_is_shown(first, body, d, 8);
    layout::lemma_field_is_shown(first, body, d, 9);
    layout::lemma_field_is_shown(first, body, d, 10);
}

/// How the fields of the message are shown that stand in front of its extension.
pub open spec fn exec_rpt_shown(o: Seq<(Seq<char>, Seq<char>)>, body: Seq<u8>) -> bool {
    &&& is_shown(o, 1, "PBU"@, text_at(body, 0, 8))
    &&& is_shown(o, 2, "SetID"@, text::dec(nat_at(body, 8, 4) as nat))
    &&& is_shown(o, 3, "ReportIndex"@, text::dec(nat_at(body, 12, 8) as nat))
    &&& is_shown(o, 4, "BizID"@, protocol::biz_id_text(nat_at(body, 20, 4) as u32))
    &&& is_shown(o, 5, "ExecType"@, protocol::exec_type_text(nat_at(body, 24, 1) as u8))
    &&& is_shown(o, 6, "BizPBU"@, text_at(body, 25, 8))
    &&& is_shown(o, 7, "ClOrdID"@, text_at(body, 33, 10))
    &&& is_shown(o, 8, "SecurityID"@, text_at(body, 43, 12))
    &&& is_shown(o, 9, "Account"@, text_at(body, 55, 13))
    &&& is_shown(o, 10, "OwnerType"@, text::dec(nat_at(body, 68, 1) as nat))
    &&& is_shown(o, 11, "Side"@, layout::side_text(nat_at(body, 69, 1) as u8))
    &&& is_shown(o, 12, "Price"@, text::scaled(int_at(body, 70, 8), 100_000) + " 元"@)
    &&& is_shown(o, 13, "OrderQty"@, text::scaled(int_at(body, 78, 8), 1000) + " 股"@)
    &&& is_shown(o, 14, "LeavesQty"@, text::scaled(int_at(body, 86, 8), 1000) + " 股"@)
    &&& is_shown(o, 15, "CxlQty"@, text::scaled(int_at(body, 94, 8), 1000) + " 股"@)
    &&& is_shown(o, 16, "OrdType"@, protocol::ord_type_text(nat_at(body, 102, 1) as u8))
    &&& is_shown(o, 17, "TimeInForce"@, text::dec(nat_at(body, 103, 1) as nat))
    &&& is_shown(o, 18, "OrdStatus"@, layout::ord_status_text(nat_at(body, 104, 1) as u8))
    &&& is_shown(o, 19, "CreditTag"@, text_at(body, 105, 2))
    &&& is_shown(o, 20, "OrigClOrdID"@, text_at(body, 107, 10))
    &&& is_shown(o, 21, "ClearingFirm"@, text_at(body, 117, 8))
    &&& is_shown(o, 22, "BranchID"@, text_at(body, 125, 8))
    &&& is_shown(o, 23, "OrdRejReason"@, text::dec(nat_at(body, 133, 4) as nat))
    &&& is_shown(o, 24, "OrdCnfmID"@, text_at(body, 137, 16))
    &&& is_shown(o, 25, "OrigOrdCnfmID"@, text_at(body, 153, 16))
    &&& is_shown(o, 26, "TradeDate"@, protocol::date_text(nat_at(body, 169, 4)))
    &&& is_shown(o, 27, "TransactTime"@, protocol::time_text(nat_at(body, 173, 8)))
    &&& is_shown(o, 28, "UserInfo"@, text_at(body, 181, 32))
}

#[verifier::spinoff_prover]
#[verifier::rlimit(60)]
proof fn lemma_exec_rpt_shown(body: Seq<u8>)
    requires
        body.len() >= 213,
    ensures
        layout::then_layout(
            Some((seq![protocol::type_field(32)], 0)),
            body,
            Seq::empty(),
            protocol::exec_rpt_layout(),
        ) matches Some((o, at)) && at == 213 && o.len() == 29 && exec_rpt_shown(o, body),
{
    let d = protocol::exec_rpt_layout();
    let first = protocol::type_field(32);
    assert(d.take(0) =~= Seq::<FieldDef>::empty());
    layout::lemma_width_step(d, 0);
    layout::lemma_width_step(d, 1);
    layout::lemma_width_step(d, 2);
    layout::lemma_width_step(d, 3);
    layout::lemma_width_step(d, 4);
    layout::lemma_width_step(d, 5);
    layout::lemma_width_step(d, 6);
    layout::lemma_width_step(d, 7);
    layout::lemma_width_step(d, 8);
    layout::lemma_width_step(d, 9);
    layout::lemma_width_step(d, 10);
    layout::lemma_width_step(d, 11);
    layout::lemma_width_step(d, 12);
    layout::lemma_width_step(d, 13);
    layout::lemma_width_step(d, 14);
    layout::lemma_width_step(d, 15);
    layout::lemma_width_step(d, 16);
    layout::lemma_width_step(d, 17);
    layout::lemma_width_step(d, 18);
    layout::lemma_width_step(d, 19);
    layout::lemma_width_step(d, 20);
    layout::lemma_width_step(d, 21);
    layout::lemma_width_step(d, 22);
    layout::lemma_width_step(d, 23);
    layout::lemma_width_step(d, 24);
    layout::lemma_width_step(d, 25);
    layout::lemma_width_step(d, 26);
    layout::lemma_width_step(d, 27);
    assert(d.take(28) =~= d);
    layout::lemma_layout_fits(seq![first], 0, body, Seq::empty(), d);
    layout::lemma_field_is_shown(first, body, d, 0);
    layout::lemma_field_is_shown(first, body, d, 1);
    layout::lemma_field_is_shown(first, body, d, 2);
    layout::lemma_field_is_shown(first, body, d, 3);
    layout::lemma_field_is_shown(first, body, d, 4);
    layout::lemma_field_is_shown(first, body, d, 5);
    layout::lemma_field_is_shown(first, body, d, 6);
    layout::lemma_field_is_shown(first, body, d, 7);
    layout::lemma_field_is_shown(first, body, d, 8);
    layout::lemma_field_is_shown(first, body, d, 9);
    layout::lemma_field_is_shown(first, body, d, 10);
    layout::lemma_field_is_shown(first, body, d, 11);
    layout::lemma_field_is_shown(first, body, d, 12);
    layout::lemma_field_is_shown(first, body, d, 13);
    layout::lemma_field_is_shown(first, body, d, 14);
    layout::lemma_field_is_shown(first, body, d, 15);
    layout::lemma_field_is_shown(first, body, d, 16);
    layout::lemma_field_is_shown(first, body, d, 17);
    layout::lemma_field_is_shown(first, body, d, 18);
    layout::lemma_field_is_shown(first, body, d, 19);
    layout::lemma_field_is_shown(first, body, d, 20);
    layout::lemma_field_is_shown(first, body, d, 21);
    layout::lemma_field_is_shown(first, body, d, 22);
    layout::lemma_field_is_shown(first, body, d, 23);
    layout::lemma_field_is_shown(first, body, d, 24);
    layout::lemma_field_is_shown(first, body, d, 25);
    layout::lemma_field_is_shown(first, body, d, 26);
    layout::lemma_field_is_shown(first, body, d, 27);
}

/// A response is shown field by field: under its name stands what its bytes read as.
/// The extension of its business is shown where the message has room for it.
#[verifier::spinoff_prover]
#[verifier::rlimit(40)]
pub proof fn law_exec_rpt_is_shown(body: Seq<u8>, biz: u32)
    requires
        body.len() >= 213,
        biz == nat_at(body, 20, 4) as u32,
    ensures
        protocol::described(32, body) matches Some((o, _)) && {
            &&& exec_rpt_shown(o, body)
            &&& biz == 300_060 ==> if body.len() < 213 + 3 {
                o.len() == 29
            } else {
                o.len() == 30 && is_shown(o, 29, "Custodian"@, text_at(body, 213, 3))
            }
            &&& biz == 300_070 ==> if body.len() < 213 + 1 {
                o.len() == 29
            } else {
                o.len() == 30 && is_shown(
                    o,
                    29,
                    "DividendSelect"@,
                    text::dec(nat_at(body, 213, 1) as nat),
                )
            }
            &&& (biz == 300_080 || 300_090 <= biz <= 300_095) ==> if body.len() < 213 + 12 {
                o.len() == 29
            } else {
                o.len() == 30 && is_shown(o, 29, "DestSecurity"@, text_at(body, 213, 12))
            }
            &&& !(biz == 300_060 || biz == 300_070 || biz == 300_080 || 300_090 <= biz <= 300_095)
                ==> o.len() == 29
        },
{
    lemma_exec_rpt_shown(body);
    let p = layout::then_layout(
        Some((seq![protocol::type_field(32)], 0)),
        body,
        Seq::empty(),
        protocol::exec_rpt_layout(),
    );
    let q = p->0;
    let e = protocol::extend_layout(nat_at(body, 20, 4) as u32);
    layout::lemma_layout_keeps(q.0, q.1, body, Seq::empty(), e);
    layout::lemma_layout_fits(q.0, q.1, body, Seq::empty(), e);
    if e.len() > 0 {
        assert(e.take(0) =~= Seq::<FieldDef>::empty());
        layout::lemma_width_step(e, 0);
        assert(e.take(1) =~= e);
        if q.1 + layout::total_width(e) <= body.len() {
            layout::lemma_more_is_shown(q.0, q.1, body, e, 0);
        }
    }
}

/// The refusal of a request to cancel is shown field by field: under its name stands what
/// its bytes read as.
#[verifier::spinoff_prover]
#[verifier::rlimit(40)]
pub proof fn law_cancel_reject_is_shown(body: Seq<u8>)
    requires
        body.len() >= 120,
    ensures
        protocol::described(59, body) matches Some((o, _)) && {
            &&& is_shown(o, 1, "PBU"@, text_at(body, 0, 8))
            &&& is_shown(o, 2, "SetID"@, text::dec(nat_at(body, 8, 4) as nat))
            &&& is_shown(o, 3, "ReportIndex"@, text::dec(nat_at(body, 12, 8) as nat))
            &&& is_shown(o, 4, "BizID"@, protocol::biz_id_text(nat_at(body, 20, 4) as u32))
            &&& is_shown(o, 5, "BizPBU"@, text_at(body, 24, 8))
            &&& is_shown(o, 6, "ClOrdID"@, text_at(body, 32, 10))
            &&& is_shown(o, 7, "SecurityID"@, text_at(body, 42, 12))
            &&& is_shown(o, 8, "OrigClOrdID"@, text_at(body, 54, 10))
            &&& is_shown(o, 9, "BranchID"@, text_at(body, 64, 8))
            &&& is_shown(o, 10, "CxlRejReason"@, text::dec(nat_at(body, 72, 4) as nat))
            &&& is_shown(o, 11, "TradeDate"@, protocol::date_text(nat_at(body, 76, 4)))
            &&& is_shown(o, 12, "TransactTime"@, protocol::time_text(nat_at(body, 80, 8)))
            &&& is_shown(o, 13, "UserInfo"@, text_at(body, 88, 32))
        },
{
    let d = protocol::cancel_reject_layout();
    let first = protocol::type_field(59);
    assert(d.take(0) =~= Seq::<FieldDef>::empty());
    layout::lemma_width_step(d, 0);
    layout::lemma_width_step(d, 1);
    layout::lemma_width_step(d, 2);
    layout::lemma_width_step(d, 3);
    layout::lemma_width_step(d, 4);
    layout::lemma_width_step(d, 5);
    layout::lemma_width_step(d, 6);
    layout::lemma_width_step(d, 7);
    layout::lemma_width_step(d, 8);
    layout::lemma_width_step(d, 9);
    layout::lemma_width_step(d, 10);
    layout::lemma_width_step(d, 11);
    layout::lemma_width_step(d, 12);
    assert(d.take(13) =~= d);
    layout::lemma_field_is_shown(first, body, d, 0);
    layout::lemma_field_is_shown(first, body, d, 1);
    layout::lemma_field_is_shown(first, body, d, 2);
    layout::lemma_field_is_shown(first, body, d, 3);
    layout::lemma_field_is_shown(first, body, d, 4);
    layout::lemma_field_is_shown(first, body, d, 5);
    layout::lemma_field_is_shown(first, body, d, 6);
    layout::lemma_field_is_shown(first, body, d, 7);
    layout::lemma_field_is_shown(first, body, d, 8);
    layout::lemma_field_is_shown(first, body, d, 9);
    layout::lemma_field_is_shown(first, body, d, 10);
    layout::lemma_field_is_shown(first, body, d, 11);
    layout::lemma_field_is_shown(first, body, d, 12);
}

/// An execution is shown field by field: under its name stands what its bytes read as.
#[verifier::spinoff_prover]
#[verifier::rlimit(40)]
pub proof fn law_trade_is_shown(body: Seq<u8>)
    requires
        body.len() >= 213,
    ensures
        protocol::described(103, body) matches Some((o, _)) && {
            &&& is_shown(o, 1, "PBU"@, text_at(body, 0, 8))
            &&& is_shown(o, 2, "SetID"@, text::dec(nat_at(body, 8, 4) as nat))
            &&& is_shown(o, 3, "ReportIndex"@, text::dec(nat_at(body, 12, 8) as nat))
            &&& is_shown(o, 4, "BizID"@, protocol::biz_id_text(nat_at(body, 20, 4) as u32))
            &&& is_shown(o, 5, "ExecType"@, protocol::exec_type_text(nat_at(body, 24, 1) as u8))
            &&& is_shown(o, 6, "BizPBU"@, text_at(body, 25, 8))
            &&& is_shown(o, 7, "ClOrdID"@, text_at(body, 33, 10))
            &&& is_shown(o, 8, "SecurityID"@, text_at(body, 43, 12))
            &&& is_shown(o, 9, "Account"@, text_at(body, 55, 13))
            &&& is_shown(o, 10, "OwnerType"@, text::dec(nat_at(body, 68, 1) as nat))
            &&& is_shown(o, 11, "OrderEntryTime"@, protocol::time_text(nat_at(body, 69, 8)))
            &&& is_shown(o, 12, "LastPx"@, text::scaled(int_at(body, 77, 8), 100_000) + " 元"@)
            &&& is_shown(o, 13, "LastQty"@, text::scaled(int_at(body, 85, 8), 1000) + " 股"@)
            &&& is_shown(
                o,
                14,
                "GrossTradeAmt"@,
                text::scaled(int_at(body, 93, 8), 100_000) + " 元"@,
            )
            &&& is_shown(o, 15, "Side"@, layout::side_text(nat_at(body, 101, 1) as u8))
            &&& is_shown(o, 16, "OrderQty"@, text::scaled(int_at(body, 102, 8), 1000) + " 股"@)
            &&& is_shown(o, 17, "LeavesQty"@, text::scaled(int_at(body, 110, 8), 1000) + " 股"@)
            &&& is_shown(o, 18, "OrdStatus"@, layout::ord_status_text(nat_at(body, 118, 1) as u8))
            &&& is_shown(o, 19, "CreditTag"@, text_at(body, 119, 2))
            &&& is_shown(o, 20, "ClearingFirm"@, text_at(body, 121, 8))
            &&& is_shown(o, 21, "BranchID"@, text_at(body, 129, 8))
            &&& is_shown(o, 22, "TrdCnfmID"@, text_at(body, 137, 16))
            &&& is_shown(o, 23, "OrdCnfmID"@, text_at(body, 153, 16))
            &&& is_shown(o, 24, "TradeDate"@, protocol::date_text(nat_at(body, 169, 4)))
            &&& is_shown(o, 25, "TransactTime"@, protocol::time_text(nat_at(body, 173, 8)))
            &&& is_shown(o, 26, "UserInfo"@, text_at(body, 181, 32))
        },
{
    let d = protocol::trade_layout();
    let first = protocol::type_field(103);
    assert(d.take(0) =~= Seq::<FieldDef>::empty());
    layout::lemma_width_step(d, 0);
    layout::lemma_width_step(d, 1);
    layout::lemma_width_step(d, 2);
    layout::lemma_width_step(d, 3);
    layout::lemma_width_step(d, 4);
    layout::lemma_width_step(d, 5);
    layout::lemma_width_step(d, 6);
    layout::lemma_width_step(d, 7);
    layout::lemma_width_step(d, 8);
    layout::lemma_width_step(d, 9);
    layout::lemma_width_step(d, 10);
    layout::lemma_width_step(d, 11);
    layout::lemma_width_step(d, 12);
    layout::lemma_width_step(d, 13);
    layout::lemma_width_step(d, 14);
    layout::lemma_width_step(d, 15);
    layout::lemma_width_step(d, 16);
    layout::lemma_width_step(d, 17);
    layout::lemma_width_step(d, 18);
    layout::lemma_width_step(d, 19);
    layout::lemma_width_step(d, 20);
    layout::lemma_width_step(d, 21);
    layout::lemma_width_step(d, 22);
    layout::lemma_width_step(d, 23);
    layout::lemma_width_step(d, 24);
    layout::lemma_width_step(d, 25);
    assert(d.take(26) =~= d);
    layout::lemma_field_is_shown(first, body, d, 0);
    layout::lemma_field_is_shown(first, body, d, 1);
    layout::lemma_field_is_shown(first, body, d, 2);
    layout::lemma_field_is_shown(first, body, d, 3);
    layout::lemma_field_is_shown(first, body, d, 4);
    layout::lemma_field_is_shown(first, body, d, 5);
    layout::lemma_field_is_shown(first, body, d, 6);
    layout::lemma_field_is_shown(first, body, d, 7);
    layout::lemma_field_is_shown(first, body, d, 8);
    layout::lemma_field_is_shown(first, body, d, 9);
    layout::lemma_field_is_shown(first, body, d, 10);
    layout::lemma_field_is_shown(first, body, d, 11);
    layout::lemma_field_is_shown(first, body, d, 12);
    layout::lemma_field_is_shown(first, body, d, 13);
    layout::lemma_field_is_shown(first, body, d, 14);
    layout::lemma_field_is_shown(first, body, d, 15);
    layout::lemma_field_is_shown(first, body, d, 16);
    layout::lemma_field_is_shown(first, body, d, 17);
    layout::lemma_field_is_shown(first, body, d, 18);
    layout::lemma_field_is_shown(first, body, d, 19);
    layout::lemma_field_is_shown(first, body, d, 20);
    layout::lemma_field_is_shown(first, body, d, 21);
    layout::lemma_field_is_shown(first, body, d, 22);
    layout::lemma_field_is_shown(first, body, d, 23);
    layout::lemma_field_is_shown(first, body, d, 24);
    layout::lemma_field_is_shown(first, body, d, 25);
}

/// The rejection of an order is shown field by field: under its name stands what its bytes
/// read as.
#[verifier::spinoff_prover]
#[verifier::rlimit(40)]
pub proof fn law_order_reject_is_shown(body: Seq<u8>)
    requires
        body.len() >= 82,
    ensures
        protocol::described(204, body) matches Some((o, _)) && {
            &&& is_shown(o, 1, "BizID"@, protocol::biz_id_text(nat_at(body, 0, 4) as u32))
            &&& is_shown(o, 2, "BizPBU"@, text_at(body, 4, 8))
            &&& is_shown(o, 3, "ClOrdID"@, text_at(body, 12, 10))
            &&& is_shown(o, 4, "SecurityID"@, text_at(body, 22, 12))
            &&& is_shown(o, 5, "OrdRejReason"@, text::dec(nat_at(body, 34, 4) as nat))
            &&& is_shown(o, 6, "TradeDate"@, protocol::date_text(nat_at(body, 38, 4)))
            &&& is_shown(o, 7, "TransactTime"@, protocol::time_text(nat_at(body, 42, 8)))
            &&& is_shown(o, 8, "UserInfo"@, text_at(body, 50, 32))
        },
{
    let d = protocol::order_reject_layout();
    let first = protocol::type_field(204);
    assert(d.take(0) =~= Seq::<FieldDef>::empty());
    layout::lemma_width_step(d, 0);
    layout::lemma_width_step(d, 1);
    layout::lemma_width_step(d, 2);
    layout::lemma_width_step(d, 3);
    layout::lemma_width_step(d, 4);
    layout::lemma_width_step(d, 5);
    layout::lemma_width_step(d, 6);
    layout::lemma_width_step(d, 7);
    assert(d.take(8) =~= d);
    layout::lemma_field_is_shown(first, body, d, 0);
    layout::lemma_field_is_shown(first, body, d, 1);
    layout::lemma_field_is_shown(first, body, d, 2);
    layout::lemma_field_is_shown(first, body, d, 3);
    layout::lemma_field_is_shown(first, body, d, 4);
    layout::lemma_field_is_shown(first, body, d, 5);
    layout::lemma_field_is_shown(first, body, d, 6);
    layout::lemma_field_is_shown(first, body, d, 7);
}

/// A registration is shown field by field: under its name stands what its bytes read as.
#[verifier::spinoff_prover]
#[verifier::rlimit(40)]
pub proof fn law_registration_is_shown(body: Seq<u8>)
    requires
        body.len() >= 108,
    ensures
        protocol::described(301, body) matches Some((o, _)) && {
            &&& is_shown(o, 1, "BizID"@, protocol::biz_id_text(nat_at(body, 0, 4) as u32))
            &&& is_shown(o, 2, "BizPBU"@, text_at(body, 4, 8))
            &&& is_shown(o, 3, "ClOrdID"@, text_at(body, 12, 10))
            &&& is_shown(o, 4, "SecurityID"@, text_at(body, 22, 12))
            &&& is_shown(o, 5, "Account"@, text_at(body, 34, 13))
            &&& is_shown(o, 6, "OwnerType"@, text::dec(nat_at(body, 47, 1) as nat))
            &&& is_shown(o, 7, "DesignationInstruction"@, text::dec(nat_at(body, 48, 1) as nat))
            &&& is_shown(o, 8, "DesignationTransType"@, text::dec(nat_at(body, 49, 1) as nat))
            &&& is_shown(o, 9, "OrigClOrdID"@, text_at(body, 50, 10))
            &&& is_shown(o, 10, "TransactTime"@, protocol::time_text(nat_at(body, 60, 8)))
            &&& is_shown(o, 11, "BranchID"@, text_at(body, 68, 8))
            &&& is_shown(o, 12, "UserInfo"@, text_at(body, 76, 32))
        },
{
    let d = protocol::registration_layout();
    let first = protocol::type_field(301);
    assert(d.take(0) =~= Seq::<FieldDef>::empty());
    layout::lemma_width_step(d, 0);
    layout::lemma_width_step(d, 1);
    layout::lemma_width_step(d, 2);
    layout::lemma_width_step(d, 3);
    layout::lemma_width_step(d, 4);
    layout::lemma_width_step(d, 5);
    layout::lemma_width_step(d, 6);
    layout::lemma_width_step(d, 7);
    layout::lemma_width_step(d, 8);
    layout::lemma_width_step(d, 9);
    layout::lemma_width_step(d, 10);
    layout::lemma_width_step(d, 11);
    assert(d.take(12) =~= d);
    layout::lemma_field_is_shown(first, body, d, 0);
    layout::lemma_field_is_shown(first, body, d, 1);
    layout::lemma_field_is_shown(first, body, d, 2);
    layout::lemma_field_is_shown(first, body, d, 3);
    layout::lemma_field_is_shown(first, body, d, 4);
    layout::lemma_field_is_shown(first, body, d, 5);
    layout::lemma_field_is_shown(first, body, d, 6);
    layout::lemma_field_is_shown(first, body, d, 7);
    layout::lemma_field_is_shown(first, body, d, 8);
    layout::lemma_field_is_shown(first, body, d, 9);
    layout::lemma_field_is_shown(first, body, d, 10);
    layout::lemma_field_is_shown(first, body, d, 11);
}

/// The report on a registration is shown field by field: under its name stands what its
/// bytes read as.
#[verifier::spinoff_prover]
#[verifier::rlimit(40)]
pub proof fn law_registration_rpt_is_shown(body: Seq<u8>)
    requires
        body.len() >= 168,
    ensures
        protocol::described(302, body) matches Some((o, _)) && {
            &&& is_shown(o, 1, "PBU"@, text_at(body, 0, 8))
            &&& is_shown(o, 2, "SetID"@, text::dec(nat_at(body, 8, 4) as nat))
            &&& is_shown(o, 3, "ReportIndex"@, text::dec(nat_at(body, 12, 8) as nat))
            &&& is_shown(o, 4, "BizID"@, protocol::biz_id_text(nat_at(body, 20, 4) as u32))
            &&& is_shown(o, 5, "ExecType"@, protocol::exec_type_text(nat_at(body, 24, 1) as u8))
            &&& is_shown(o, 6, "BizPBU"@, text_at(body, 25, 8))
            &&& is_shown(o, 7, "ClOrdID"@, text_at(body, 33, 10))
            &&& is_shown(o, 8, "SecurityID"@, text_at(body, 43, 12))
            &&& is_shown(o, 9, "Account"@, text_at(body, 55, 13))
            &&& is_shown(o, 10, "OwnerType"@, text::dec(nat_at(body, 68, 1) as nat))
            &&& is_shown(o, 11, "OrdStatus"@, layout::ord_status_text(nat_at(body, 69, 1) as u8))
            &&& is_shown(o, 12, "OrigClOrdID"@, text_at(body, 70, 10))
            &&& is_shown(o, 13, "BranchID"@, text_at(body, 80, 8))
            &&& is_shown(o, 14, "OrdRejReason"@, text::dec(nat_at(body, 88, 4) as nat))
            &&& is_shown(o, 15, "OrdCnfmID"@, text_at(body, 92, 16))
            &&& is_shown(o, 16, "OrigOrdCnfmID"@, text_at(body, 108, 16))
            &&& is_shown(o, 17, "TradeDate"@, protocol::date_text(nat_at(body, 124, 4)))
            &&& is_shown(o, 18, "TransactTime"@, protocol::time_text(nat_at(body, 128, 8)))
            &&& is_shown(o, 19, "UserInfo"@, text_at(body, 136, 32))
        },
{
    let d = protocol::registration_rpt_layout();
    let first = protocol::type_field(302);
    assert(d.take(0) =~= Seq::<FieldDef>::empty());
    layout::lemma_width_step(d, 0);
    layout::lemma_width_step(d, 1);
    layout::lemma_width_step(d, 2);
    layout::lemma_width_step(d, 3);
    layout::lemma_width_step(d, 4);
    layout::lemma_width_step(d, 5);
    layout::lemma_width_step(d, 6);
    layout::lemma_width_step(d, 7);
    layout::lemma_width_step(d, 8);
    layout::lemma_width_step(d, 9);
    layout::lemma_width_step(d, 10);
    layout::lemma_width_step(d, 11);
    layout::lemma_width_step(d, 12);
    layout::lemma_width_step(d, 13);
    layout::lemma_width_step(d, 14);
    layout::lemma_width_step(d, 15);
    layout::lemma_width_step(d, 16);
    layout::lemma_width_step(d, 17);
    layout::lemma_width_step(d, 18);
    assert(d.take(19) =~= d);
    layout::lemma_field_is_shown(first, body, d, 0);
    layout::lemma_field_is_shown(first, body, d, 1);
    layout::lemma_field_is_shown(first, body, d, 2);
    layout::lemma_field_is_shown(first, body, d, 3);
    layout::lemma_field_is_shown(first, body, d, 4);
    layout::lemma_field_is_shown(first, body, d, 5);
    layout::lemma_field_is_shown(first, body, d, 6);
    layout::lemma_field_is_shown(first, body, d, 7);
    layout::lemma_field_is_shown(first, body, d, 8);
    layout::lemma_field_is_shown(first, body, d, 9);
    layout::lemma_field_is_shown(first, body, d, 10);
    layout::lemma_field_is_shown(first, body, d, 11);
    layout::lemma_field_is_shown(first, body, d, 12);
    layout::lemma_field_is_shown(first, body, d, 13);
    layout::lemma_field_is_shown(first, body, d, 14);
    layout::lemma_field_is_shown(first, body, d, 15);
    layout::lemma_field_is_shown(first, body, d, 16);
    layout::lemma_field_is_shown(first, body, d, 17);
    layout::lemma_field_is_shown(first, body, d, 18);
}

/// A request of the password service is shown field by field: under its name stands what
/// its bytes read as.
#[verifier::spinoff_prover]
#[verifier::rlimit(40)]
pub proof fn law_pwd_service_is_shown(body: Seq<u8>)
    requires
        body.len() >= 105,
    ensures
        protocol::described(306, body) matches Some((o, _)) && {
            &&& is_shown(o, 1, "BizID"@, protocol::biz_id_text(nat_at(body, 0, 4) as u32))
            &&& is_shown(o, 2, "BizPBU"@, text_at(body, 4, 8))
            &&& is_shown(o, 3, "ClOrdID"@, text_at(body, 12, 10))
            &&& is_shown(o, 4, "SecurityID"@, text_at(body, 22, 12))
            &&& is_shown(o, 5, "Account"@, text_at(body, 34, 13))
            &&& is_shown(o, 6, "OwnerType"@, text::dec(nat_at(body, 47, 1) as nat))
            &&& is_shown(o, 7, "TransactTime"@, protocol::time_text(nat_at(body, 48, 8)))
            &&& is_shown(o, 8, "BranchID"@, text_at(body, 56, 8))
            &&& is_shown(o, 9, "Side"@, text::dec(nat_at(body, 64, 1) as nat))
            &&& is_shown(o, 10, "ValidationCode"@, text_at(body, 65, 8))
            &&& is_shown(o, 11, "UserInfo"@, text_at(body, 73, 32))
        },
{
    let d = protocol::pwd_service_layout();
    let first = protocol::type_field(306);
    assert(d.take(0) =~= Seq::<FieldDef>::empty());
    layout::lemma_width_step(d, 0);
    layout::lemma_width_step(d, 1);
    layout::lemma_width_step(d, 2);
    layout::lemma_width_step(d, 3);
    layout::lemma_width_step(d, 4);
    layout::lemma_width_step(d, 5);
    layout::lemma_width_step(d, 6);
    layout::lemma_width_step(d, 7);
    layout::lemma_width_step(d, 8);
    layout::lemma_width_step(d, 9);
    layout::lemma_width_step(d, 10);
    assert(d.take(11) =~= d);
    layout::lemma_field_is_shown(first, body, d, 0);
    layout::lemma_field_is_shown(first, body, d, 1);
    layout::lemma_field_is_shown(first, body, d, 2);
    layout::lemma_field_is_shown(first, body, d, 3);
    layout::lemma_field_is_shown(first, body, d, 4);
    layout::lemma_field_is_shown(first, body, d, 5);
    layout::lemma_field_is_shown(first, body, d, 6);
    layout::lemma_field_is_shown(first, body, d, 7);
    layout::lemma_field_is_shown(first, body, d, 8);
    layout::lemma_field_is_shown(first, body, d, 9);
    layout::lemma_field_is_shown(first, body, d, 10);
}

/// The answer of the password service is shown field by field: under its name stands what
/// its bytes read as.
#[verifier::spinoff_prover]
#[verifier::rlimit(40)]
pub proof fn law_pwd_service_rsp_is_shown(body: Seq<u8>)
    requires
        body.len() >= 113,
    ensures
        protocol::described(308, body) matches Some((o, _)) && {
            &&& is_shown(o, 1, "BizID"@, protocol::biz_id_text(nat_at(body, 0, 4) as u32))
            &&& is_shown(o, 2, "BizPBU"@, text_at(body, 4, 8))
            &&& is_shown(o, 3, "ClOrdID"@, text_at(body, 12, 10))
            &&& is_shown(o, 4, "SecurityID"@, text_at(body, 22, 12))
            &&& is_shown(o, 5, "Account"@, text_at(body, 34, 13))
            &&& is_shown(o, 6, "OwnerType"@, text::dec(nat_at(body, 47, 1) as nat))
            &&& is_shown(o, 7, "BranchID"@, text_at(body, 48, 8))
            &&& is_shown(o, 8, "Side"@, text::dec(nat_at(body, 56, 1) as nat))
            &&& is_shown(o, 9, "ValidationCode"@, text_at(body, 57, 8))
            &&& is_shown(o, 10, "OrdRejReason"@, text::dec(nat_at(body, 65, 4) as nat))
            &&& is_shown(o, 11, "TradeDate"@, protocol::date_text(nat_at(body, 69, 4)))
            &&& is_shown(o, 12, "TransactTime"@, protocol::time_text(nat_at(body, 73, 8)))
            &&& is_shown(o, 13, "UserInfo"@, text_at(body, 81, 32))
        },
{
    let d = protocol::pwd_service_rsp_layout();
    let first = protocol::type_field(308);
    assert(d.take(0) =~= Seq::<FieldDef>::empty());
    layout::lemma_width_step(d, 0);
    layout::lemma_width_step(d, 1);
    layout::lemma_width_step(d, 2);
    layout::lemma_width_step(d, 3);
    layout::lemma_width_step(d, 4);
    layout::lemma_width_step(d, 5);
    layout::lemma_width_step(d, 6);
    layout::lemma_width_step(d, 7);
    layout::lemma_width_step(d, 8);
    layout::lemma_width_step(d, 9);
    layout::lemma_width_step(d, 10);
    layout::lemma_width_step(d, 11);
    layout::lemma_width_step(d, 12);
    assert(d.take(13) =~= d);
    layout::lemma_field_is_shown(first, body, d, 0);
    layout::lemma_field_is_shown(first, body, d, 1);
    layout::lemma_field_is_shown(first, body, d, 2);
    layout::lemma_field_is_shown(first, body, d, 3);
    layout::lemma_field_is_shown(first, body, d, 4);
    layout::lemma_field_is_shown(first, body, d, 5);
    layout::lemma_field_is_shown(first, body, d, 6);
    layout::lemma_field_is_shown(first, body, d, 7);
    layout::lemma_field_is_shown(first, body, d, 8);
    layout::lemma_field_is_shown(first, body, d, 9);
    layout::lemma_field_is_shown(first, body, d, 10);
    layout::lemma_field_is_shown(first, body, d, 11);
    layout::lemma_field_is_shown(first, body, d, 12);
}

} // verus!
