//! The binary interface of the Shenzhen exchange: message frames, message bodies and
//! their readable form.
//!
//! A message is a type and a body length of four bytes each, the body, and a check value
//! of four bytes. Integers are big-endian. Prices are in ten-thousandths of a yuan,
//! quantities in hundredths of a share, times are `YYYYMMDDHHMMSSsss`.
use vstd::prelude::*;
use vstd::utf8::*;

use crate::capture::ParsedField;
use crate::clock;
use crate::layout;
use crate::layout::{Describer, FieldDef, Kind, Progress};
use crate::text;
use crate::wire;
use crate::wire::{be, int_at, nat_at, nil, text_at, text_field, ShortBody};

pub use crate::layout::{ord_status_label, side_label};
pub use crate::text::fmt_scaled;
pub use crate::wire::{BodyReader, BodyWriter};

pub mod exec_type;
pub mod msg_type;
pub mod ord_status;

verus! {

/// The bytes that the check value is computed over: head and body.
pub open spec fn unchecked(mt: u32, body: Seq<u8>) -> Seq<u8> {
    be(mt as int, 4) + be(body.len() as int, 4) + body
}

/// A message: head, body and check value.
pub open spec fn framed(mt: u32, body: Seq<u8>) -> Seq<u8> {
    unchecked(mt, body) + be(wire::check_sum(unchecked(mt, body)), 4)
}

/// The length field and the check value of a message are right.
pub open spec fn well_framed(f: Seq<u8>) -> bool {
    &&& f.len() >= 12
    &&& nat_at(f, 4, 4) == f.len() - 12
    &&& nat_at(f, f.len() - 4, 4) == wire::check_sum(f.subrange(0, f.len() - 4))
}

/// The check value: the sum of the bytes modulo 256.
pub fn checksum(data: &[u8]) -> (r: u32)
    ensures
        r == wire::check_sum(data@),
{
    let r: u32 = wire::sum_bytes(data, data.len());
    assert(data@.subrange(0, data@.len() as int) =~= data@);
    r
}

/// Puts head and check value around a body.
pub fn frame(msg_type: u32, body: &[u8]) -> (r: Vec<u8>)
    ensures
        r@ == framed(msg_type, body@),
{
    let mut out: Vec<u8> = Vec::new();
    wire::append_be(&mut out, msg_type as u64, 4);
    wire::append_be(&mut out, body.len() as u64, 4);
    wire::append_bytes(&mut out, body);
    assert(out@ =~= unchecked(msg_type, body@));
    let sum: u32 = checksum(out.as_slice());
    wire::append_be(&mut out, sum as u64, 4);
    out
}

/// A framed message has the right length field and the right check value, and its type
/// and body can be read back from it.
pub proof fn law_framed(mt: u32, body: Seq<u8>)
    requires
        body.len() < 0x1_0000_0000,
    ensures
        well_framed(framed(mt, body)),
        framed(mt, body).len() == body.len() + 12,
        nat_at(framed(mt, body), 0, 4) == mt,
        framed(mt, body).subrange(8, body.len() + 8int) == body,
{
    let head = unchecked(mt, body);
    let f = framed(mt, body);
    let sum = wire::check_sum(head);
    wire::lemma_be_len(mt as int, 4);
    wire::lemma_be_len(body.len() as int, 4);
    wire::lemma_be_len(sum, 4);
    wire::lemma_pow256_values();
    assert(f.subrange(0, 4) =~= be(mt as int, 4));
    assert(f.subrange(4, 8) =~= be(body.len() as int, 4));
    assert(f.subrange(8, body.len() + 8int) =~= body);
    assert(f.subrange(f.len() - 4, f.len() as int) =~= be(sum, 4));
    assert(f.subrange(0, f.len() - 4) =~= head);
    wire::lemma_be_nat_inverse(mt as int, 4);
    wire::lemma_be_nat_inverse(body.len() as int, 4);
    wire::lemma_be_nat_inverse(sum, 4);
}

/// Whether a message is a report, whose body starts with partition and report index.
pub open spec fn is_report(mt: u32) -> bool {
    200_000 <= mt < 300_000
}

pub fn is_report_frame(mt: u32) -> (r: bool)
    ensures
        r == is_report(mt),
{
    mt >= 200_000 && mt < 300_000
}

/// The partition of a report.
pub fn frame_partition(frame: &[u8]) -> (r: i32)
    requires
        frame@.len() >= 20,
    ensures
        r == int_at(frame@, 8, 4),
{
    let mut rd = BodyReader::new(wire::slice_of(frame, 8, 4));
    let v = rd.i32();
    proof {
        let s = frame@.subrange(8, 12);
        assert(s.subrange(0, 4) =~= s);
    }
    match v {
        Ok(p) => p,
        Err(_) => 0,
    }
}

/// The report index of a report.
pub fn frame_report_index(frame: &[u8]) -> (r: i64)
    requires
        frame@.len() >= 20,
    ensures
        r == int_at(frame@, 12, 8),
{
    let mut rd = BodyReader::new(wire::slice_of(frame, 12, 8));
    let v = rd.i64();
    proof {
        let s = frame@.subrange(12, 20);
        assert(s.subrange(0, 8) =~= s);
    }
    match v {
        Ok(p) => p,
        Err(_) => 0,
    }
}

/// A report with the given report index and the check value that goes with it.
pub open spec fn with_report_index(f: Seq<u8>, index: i64) -> Seq<u8> {
    wire::resealed(wire::overlaid(f, 12, be(index as int, 8)))
}

/// Writes the report index into a report and renews its check value.
pub fn patch_report_index(frame: &mut Vec<u8>, report_index: i64)
    requires
        old(frame)@.len() >= 20,
    ensures
        final(frame)@ == with_report_index(old(frame)@, report_index),
{
    let mut w = BodyWriter::new();
    w.i64(report_index);
    let bytes = w.into_inner();
    proof {
        wire::lemma_be_len(report_index as int, 8);
        assert(bytes@ =~= be(report_index as int, 8));
    }
    wire::overlay(frame, 12, &bytes);
    wire::reseal(frame);
}

/// Numbering a report changes its report index and its check value and nothing else;
/// the message stays well framed.
pub proof fn law_report_index(f: Seq<u8>, index: i64)
    requires
        well_framed(f),
        f.len() >= 24,
    ensures
        well_framed(with_report_index(f, index)),
        with_report_index(f, index).len() == f.len(),
        int_at(with_report_index(f, index), 12, 8) == index,
        forall|i: int|
            0 <= i < f.len() - 4 && !(12 <= i < 20) ==> with_report_index(f, index)[i] == f[i],
{
    let g = with_report_index(f, index);
    wire::lemma_be_len(index as int, 8);
    wire::lemma_pow256_values();
    wire::lemma_resealed(wire::overlaid(f, 12, be(index as int, 8)));
    assert(g.subrange(12, 20) =~= be(index as int, 8));
    wire::lemma_be_int_inverse(index as int, 8);
    assert(g.subrange(4, 8) =~= f.subrange(4, 8));
}

/// The current local time as a time stamp.
pub fn now_timestamp() -> (r: i64)
    ensures
        exists|t: clock::LocalTime| t.wf() && r == #[trigger] clock::timestamp_of(t),
{
    let now = clock::local_now();
    let r: i64 = clock::timestamp(&now);
    assert(now.wf() && r == clock::timestamp_of(now));
    r
}

/// A logon, the same in both directions.
#[derive(Debug, Clone, Default)]
pub struct Logon {
    pub sender_comp_id: String,
    pub target_comp_id: String,
    /// The heartbeat interval in seconds.
    pub heart_bt_int: i32,
    pub password: String,
    pub default_appl_ver_id: String,
}

/// The values of [`Logon`].
pub struct LogonView {
    pub sender_comp_id: Seq<char>,
    pub target_comp_id: Seq<char>,
    pub heart_bt_int: i32,
    pub password: Seq<char>,
    pub default_appl_ver_id: Seq<char>,
}

impl View for Logon {
    type V = LogonView;

    open spec fn view(&self) -> LogonView {
        LogonView {
            sender_comp_id: self.sender_comp_id@,
            target_comp_id: self.target_comp_id@,
            heart_bt_int: self.heart_bt_int,
            password: self.password@,
            default_appl_ver_id: self.default_appl_ver_id@,
        }
    }
}

impl LogonView {
    /// The message body, field by field.
    #[verifier::opaque]
    pub open spec fn body(self) -> Seq<u8> {
        nil()
            + text_field(self.sender_comp_id, 20)
            + text_field(self.target_comp_id, 20)
            + be(self.heart_bt_int as int, 4)
            + text_field(self.password, 16)
            + text_field(self.default_appl_ver_id, 32)
    }

    /// The values that a body holds.
    pub open spec fn of(body: Seq<u8>) -> Self {
        LogonView {
            sender_comp_id: text_at(body, 0, 20),
            target_comp_id: text_at(body, 20, 20),
            heart_bt_int: int_at(body, 40, 4) as i32,
            password: text_at(body, 44, 16),
            default_appl_ver_id: text_at(body, 60, 32),
        }
    }
}

impl Logon {
    /// The length of the body.
    pub const BODY_LEN: usize = 92;

    /// Reads a body; bytes behind the last field are ignored.
    pub fn decode(body: &[u8]) -> (r: Result<Self, ShortBody>)
        ensures
            r is Ok <==> body@.len() >= 92,
            r matches Ok(v) ==> v@ == LogonView::of(body@),
    {
        let mut r = BodyReader::new(body);
        let sender_comp_id: String = r.str(20)?;
        let target_comp_id: String = r.str(20)?;
        let heart_bt_int: i32 = r.i32()?;
        let password: String = r.str(16)?;
        let default_appl_ver_id: String = r.str(32)?;
        Ok(Logon { sender_comp_id, target_comp_id, heart_bt_int, password, default_appl_ver_id })
    }

    /// The whole message.
    pub fn encode(&self) -> (r: Vec<u8>)
        ensures
            r@ == framed(msg_type::LOGON, self@.body()),
    {
        proof {
            reveal(LogonView::body);
        }
        let mut w = BodyWriter::new();
        w.str(self.sender_comp_id.as_str(), 20);
        w.str(self.target_comp_id.as_str(), 20);
        w.i32(self.heart_bt_int);
        w.str(self.password.as_str(), 16);
        w.str(self.default_appl_ver_id.as_str(), 32);
        frame(msg_type::LOGON, w.into_inner().as_slice())
    }
}

/// A logout.
#[derive(Debug, Clone, Default)]
pub struct Logout {
    pub session_status: i32,
    pub text: String,
}

/// The values of [`Logout`].
pub struct LogoutView {
    pub session_status: i32,
    pub text: Seq<char>,
}

impl View for Logout {
    type V = LogoutView;

    open spec fn view(&self) -> LogoutView {
        LogoutView {
            session_status: self.session_status,
            text: self.text@,
        }
    }
}

impl LogoutView {
    /// The message body, field by field.
    #[verifier::opaque]
    pub open spec fn body(self) -> Seq<u8> {
        nil()
            + be(self.session_status as int, 4)
            + text_field(self.text, 200)
    }

    /// The values that a body holds.
    pub open spec fn of(body: Seq<u8>) -> Self {
        LogoutView {
            session_status: int_at(body, 0, 4) as i32,
            text: text_at(body, 4, 200),
        }
    }
}

impl Logout {
    /// Reads a body; bytes behind the last field are ignored.
    pub fn decode(body: &[u8]) -> (r: Result<Self, ShortBody>)
        ensures
            r is Ok <==> body@.len() >= 204,
            r matches Ok(v) ==> v@ == LogoutView::of(body@),
    {
        let mut r = BodyReader::new(body);
        let session_status: i32 = r.i32()?;
        let text: String = r.str(200)?;
        Ok(Logout { session_status, text })
    }

    /// The whole message.
    pub fn encode(&self) -> (r: Vec<u8>)
        ensures
            r@ == framed(msg_type::LOGOUT, self@.body()),
    {
        proof {
            reveal(LogoutView::body);
        }
        let mut w = BodyWriter::new();
        w.i32(self.session_status);
        w.str(self.text.as_str(), 200);
        frame(msg_type::LOGOUT, w.into_inner().as_slice())
    }
}

/// The fields that new orders of all businesses start with.
#[derive(Debug, Clone, Default)]
pub struct OrderCommon {
    /// The business code.
    pub appl_id: String,
    /// The trading unit that submits.
    pub submitting_pbu_id: String,
    pub security_id: String,
    pub security_id_source: String,
    pub owner_type: u16,
    pub clearing_firm: String,
    pub transact_time: i64,
    pub user_info: String,
    /// The client's order number.
    pub cl_ord_id: String,
    pub account_id: String,
    pub branch_id: String,
    pub order_restrictions: String,
    /// `1` buys, `2` sells.
    pub side: u8,
    /// `1` market, `2` limit, `U` best own price.
    pub ord_type: u8,
    /// In hundredths of a share.
    pub order_qty: i64,
    /// In ten-thousandths of a yuan.
    pub price: i64,
}

/// The values of [`OrderCommon`].
pub struct OrderCommonView {
    pub appl_id: Seq<char>,
    pub submitting_pbu_id: Seq<char>,
    pub security_id: Seq<char>,
    pub security_id_source: Seq<char>,
    pub owner_type: u16,
    pub clearing_firm: Seq<char>,
    pub transact_time: i64,
    pub user_info: Seq<char>,
    pub cl_ord_id: Seq<char>,
    pub account_id: Seq<char>,
    pub branch_id: Seq<char>,
    pub order_restrictions: Seq<char>,
    pub side: u8,
    pub ord_type: u8,
    pub order_qty: i64,
    pub price: i64,
}

impl View for OrderCommon {
    type V = OrderCommonView;

    open spec fn view(&self) -> OrderCommonView {
        OrderCommonView {
            appl_id: self.appl_id@,
            submitting_pbu_id: self.submitting_pbu_id@,
            security_id: self.security_id@,
            security_id_source: self.security_id_source@,
            owner_type: self.owner_type,
            clearing_firm: self.clearing_firm@,
            transact_time: self.transact_time,
            user_info: self.user_info@,
            cl_ord_id: self.cl_ord_id@,
            account_id: self.account_id@,
            branch_id: self.branch_id@,
            order_restrictions: self.order_restrictions@,
            side: self.side,
            ord_type: self.ord_type,
            order_qty: self.order_qty,
            price: self.price,
        }
    }
}

impl OrderCommonView {
    /// The values that a body holds.
    pub open spec fn of(body: Seq<u8>) -> Self {
        OrderCommonView {
            appl_id: text_at(body, 0, 3),
            submitting_pbu_id: text_at(body, 3, 6),
            security_id: text_at(body, 9, 8),
            security_id_source: text_at(body, 17, 4),
            owner_type: nat_at(body, 21, 2) as u16,
            clearing_firm: text_at(body, 23, 2),
            transact_time: int_at(body, 25, 8) as i64,
            user_info: text_at(body, 33, 8),
            cl_ord_id: text_at(body, 41, 10),
            account_id: text_at(body, 51, 12),
            branch_id: text_at(body, 63, 4),
            order_restrictions: text_at(body, 67, 4),
            side: nat_at(body, 71, 1) as u8,
            ord_type: nat_at(body, 72, 1) as u8,
            order_qty: int_at(body, 73, 8) as i64,
            price: int_at(body, 81, 8) as i64,
        }
    }
}

impl OrderCommon {
    /// The length of the body.
    pub const BODY_LEN: usize = 89;

    /// Reads a body; bytes behind the last field are ignored.
    pub fn decode(body: &[u8]) -> (r: Result<Self, ShortBody>)
        ensures
            r is Ok <==> body@.len() >= 89,
            r matches Ok(v) ==> v@ == OrderCommonView::of(body@),
    {
        let mut r = BodyReader::new(body);
        let appl_id: String = r.str(3)?;
        let submitting_pbu_id: String = r.str(6)?;
        let security_id: String = r.str(8)?;
        let security_id_source: String = r.str(4)?;
        let owner_type: u16 = r.u16()?;
        let clearing_firm: String = r.str(2)?;
        let transact_time: i64 = r.i64()?;
        let user_info: String = r.str(8)?;
        let cl_ord_id: String = r.str(10)?;
        let account_id: String = r.str(12)?;
        let branch_id: String = r.str(4)?;
        let order_restrictions: String = r.str(4)?;
        let side: u8 = r.ch()?;
        let ord_type: u8 = r.ch()?;
        let order_qty: i64 = r.i64()?;
        let price: i64 = r.i64()?;
        Ok(OrderCommon { appl_id, submitting_pbu_id, security_id, security_id_source, owner_type, clearing_firm, transact_time, user_info, cl_ord_id, account_id, branch_id, order_restrictions, side, ord_type, order_qty, price })
    }

}

/// The response to an order of the cash auction: accepted, cancelled or rejected.
#[derive(Debug, Clone, Default)]
pub struct ExecRptCashAck {
    /// The partition of the platform.
    pub partition_no: i32,
    /// The number of the report in its partition; filled in on sending.
    pub report_index: i64,
    pub appl_id: String,
    pub reporting_pbu_id: String,
    pub submitting_pbu_id: String,
    pub security_id: String,
    pub security_id_source: String,
    pub owner_type: u16,
    pub clearing_firm: String,
    pub transact_time: i64,
    pub user_info: String,
    /// The exchange's order number.
    pub order_id: String,
    pub cl_ord_id: String,
    pub orig_cl_ord_id: String,
    /// The exchange's execution number.
    pub exec_id: String,
    pub exec_type: u8,
    pub ord_status: u8,
    pub ord_rej_reason: u16,
    /// The open quantity.
    pub leaves_qty: i64,
    /// The executed quantity.
    pub cum_qty: i64,
    pub side: u8,
    pub ord_type: u8,
    pub order_qty: i64,
    pub price: i64,
    pub account_id: String,
    pub branch_id: String,
    pub order_restrictions: String,
    pub stop_px: i64,
    pub min_qty: i64,
    pub max_price_levels: u16,
    pub time_in_force: u8,
    pub cash_margin: u8,
}

/// The values of [`ExecRptCashAck`].
pub struct ExecRptCashAckView {
    pub partition_no: i32,
    pub report_index: i64,
    pub appl_id: Seq<char>,
    pub reporting_pbu_id: Seq<char>,
    pub submitting_pbu_id: Seq<char>,
    pub security_id: Seq<char>,
    pub security_id_source: Seq<char>,
    pub owner_type: u16,
    pub clearing_firm: Seq<char>,
    pub transact_time: i64,
    pub user_info: Seq<char>,
    pub order_id: Seq<char>,
    pub cl_ord_id: Seq<char>,
    pub orig_cl_ord_id: Seq<char>,
    pub exec_id: Seq<char>,
    pub exec_type: u8,
    pub ord_status: u8,
    pub ord_rej_reason: u16,
    pub leaves_qty: i64,
    pub cum_qty: i64,
    pub side: u8,
    pub ord_type: u8,
    pub order_qty: i64,
    pub price: i64,
    pub account_id: Seq<char>,
    pub branch_id: Seq<char>,
    pub order_restrictions: Seq<char>,
    pub stop_px: i64,
    pub min_qty: i64,
    pub max_price_levels: u16,
    pub time_in_force: u8,
    pub cash_margin: u8,
}

impl View for ExecRptCashAck {
    type V = ExecRptCashAckView;

    open spec fn view(&self) -> ExecRptCashAckView {
        ExecRptCashAckView {
            partition_no: self.partition_no,
            report_index: self.report_index,
            appl_id: self.appl_id@,
            reporting_pbu_id: self.reporting_pbu_id@,
            submitting_pbu_id: self.submitting_pbu_id@,
            security_id: self.security_id@,
            security_id_source: self.security_id_source@,
            owner_type: self.owner_type,
            clearing_firm: self.clearing_firm@,
            transact_time: self.transact_time,
            user_info: self.user_info@,
            order_id: self.order_id@,
            cl_ord_id: self.cl_ord_id@,
            orig_cl_ord_id: self.orig_cl_ord_id@,
            exec_id: self.exec_id@,
            exec_type: self.exec_type,
            ord_status: self.ord_status,
            ord_rej_reason: self.ord_rej_reason,
            leaves_qty: self.leaves_qty,
            cum_qty: self.cum_qty,
            side: self.side,
            ord_type: self.ord_type,
            order_qty: self.order_qty,
            price: self.price,
            account_id: self.account_id@,
            branch_id: self.branch_id@,
            order_restrictions: self.order_restrictions@,
            stop_px: self.stop_px,
            min_qty: self.min_qty,
            max_price_levels: self.max_price_levels,
            time_in_force: self.time_in_force,
            cash_margin: self.cash_margin,
        }
    }
}

impl ExecRptCashAckView {
    /// The message body, field by field.
    #[verifier::opaque]
    pub open spec fn body(self) -> Seq<u8> {
        nil()
            + be(self.partition_no as int, 4)
            + be(self.report_index as int, 8)
            + text_field(self.appl_id, 3)
            + text_field(self.reporting_pbu_id, 6)
            + text_field(self.submitting_pbu_id, 6)
            + text_field(self.security_id, 8)
            + text_field(self.security_id_source, 4)
            + be(self.owner_type as int, 2)
            + text_field(self.clearing_firm, 2)
            + be(self.transact_time as int, 8)
            + text_field(self.user_info, 8)
            + text_field(self.order_id, 16)
            + text_field(self.cl_ord_id, 10)
            + text_field(self.orig_cl_ord_id, 10)
            + text_field(self.exec_id, 16)
            + be(self.exec_type as int, 1)
            + be(self.ord_status as int, 1)
            + be(self.ord_rej_reason as int, 2)
            + be(self.leaves_qty as int, 8)
            + be(self.cum_qty as int, 8)
            + be(self.side as int, 1)
            + be(self.ord_type as int, 1)
            + be(self.order_qty as int, 8)
            + be(self.price as int, 8)
            + text_field(self.account_id, 12)
            + text_field(self.branch_id, 4)
            + text_field(self.order_restrictions, 4)
            + be(self.stop_px as int, 8)
            + be(self.min_qty as int, 8)
            + be(self.max_price_levels as int, 2)
            + be(self.time_in_force as int, 1)
            + be(self.cash_margin as int, 1)
    }

}

impl ExecRptCashAck {
    /// The whole message.
    pub fn encode(&self) -> (r: Vec<u8>)
        ensures
            r@ == framed(msg_type::EXEC_RPT_CASH_ACK, self@.body()),
    {
        proof {
            reveal(ExecRptCashAckView::body);
        }
        let mut w = BodyWriter::new();
        w.i32(self.partition_no);
        w.i64(self.report_index);
        w.str(self.appl_id.as_str(), 3);
        w.str(self.reporting_pbu_id.as_str(), 6);
        w.str(self.submitting_pbu_id.as_str(), 6);
        w.str(self.security_id.as_str(), 8);
        w.str(self.security_id_source.as_str(), 4);
        w.u16(self.owner_type);
        w.str(self.clearing_firm.as_str(), 2);
        w.i64(self.transact_time);
        w.str(self.user_info.as_str(), 8);
        w.str(self.order_id.as_str(), 16);
        w.str(self.cl_ord_id.as_str(), 10);
        w.str(self.orig_cl_ord_id.as_str(), 10);
        w.str(self.exec_id.as_str(), 16);
        w.ch(self.exec_type);
        w.ch(self.ord_status);
        w.u16(self.ord_rej_reason);
        w.i64(self.leaves_qty);
        w.i64(self.cum_qty);
        w.ch(self.side);
        w.ch(self.ord_type);
        w.i64(self.order_qty);
        w.i64(self.price);
        w.str(self.account_id.as_str(), 12);
        w.str(self.branch_id.as_str(), 4);
        w.str(self.order_restrictions.as_str(), 4);
        w.i64(self.stop_px);
        w.i64(self.min_qty);
        w.u16(self.max_price_levels);
        w.ch(self.time_in_force);
        w.ch(self.cash_margin);
        frame(msg_type::EXEC_RPT_CASH_ACK, w.into_inner().as_slice())
    }
}

/// An execution in the cash auction.
#[derive(Debug, Clone, Default)]
pub struct ExecRptCashTrade {
    pub partition_no: i32,
    pub report_index: i64,
    pub appl_id: String,
    pub reporting_pbu_id: String,
    pub submitting_pbu_id: String,
    pub security_id: String,
    pub security_id_source: String,
    pub owner_type: u16,
    pub clearing_firm: String,
    pub transact_time: i64,
    pub user_info: String,
    pub order_id: String,
    pub cl_ord_id: String,
    pub exec_id: String,
    pub exec_type: u8,
    pub ord_status: u8,
    /// The price of this execution.
    pub last_px: i64,
    /// The quantity of this execution.
    pub last_qty: i64,
    pub leaves_qty: i64,
    pub cum_qty: i64,
    pub side: u8,
    pub account_id: String,
    pub branch_id: String,
    pub cash_margin: u8,
}

/// The values of [`ExecRptCashTrade`].
pub struct ExecRptCashTradeView {
    pub partition_no: i32,
    pub report_index: i64,
    pub appl_id: Seq<char>,
    pub reporting_pbu_id: Seq<char>,
    pub submitting_pbu_id: Seq<char>,
    pub security_id: Seq<char>,
    pub security_id_source: Seq<char>,
    pub owner_type: u16,
    pub clearing_firm: Seq<char>,
    pub transact_time: i64,
    pub user_info: Seq<char>,
    pub order_id: Seq<char>,
    pub cl_ord_id: Seq<char>,
    pub exec_id: Seq<char>,
    pub exec_type: u8,
    pub ord_status: u8,
    pub last_px: i64,
    pub last_qty: i64,
    pub leaves_qty: i64,
    pub cum_qty: i64,
    pub side: u8,
    pub account_id: Seq<char>,
    pub branch_id: Seq<char>,
    pub cash_margin: u8,
}

impl View for ExecRptCashTrade {
    type V = ExecRptCashTradeView;

    open spec fn view(&self) -> ExecRptCashTradeView {
        ExecRptCashTradeView {
            partition_no: self.partition_no,
            report_index: self.report_index,
            appl_id: self.appl_id@,
            reporting_pbu_id: self.reporting_pbu_id@,
            submitting_pbu_id: self.submitting_pbu_id@,
            security_id: self.security_id@,
            security_id_source: self.security_id_source@,
            owner_type: self.owner_type,
            clearing_firm: self.clearing_firm@,
            transact_time: self.transact_time,
            user_info: self.user_info@,
            order_id: self.order_id@,
            cl_ord_id: self.cl_ord_id@,
            exec_id: self.exec_id@,
            exec_type: self.exec_type,
            ord_status: self.ord_status,
            last_px: self.last_px,
            last_qty: self.last_qty,
            leaves_qty: self.leaves_qty,
            cum_qty: self.cum_qty,
            side: self.side,
            account_id: self.account_id@,
            branch_id: self.branch_id@,
            cash_margin: self.cash_margin,
        }
    }
}

impl ExecRptCashTradeView {
    /// The message body, field by field.
    #[verifier::opaque]
    pub open spec fn body(self) -> Seq<u8> {
        nil()
            + be(self.partition_no as int, 4)
            + be(self.report_index as int, 8)
            + text_field(self.appl_id, 3)
            + text_field(self.reporting_pbu_id, 6)
            + text_field(self.submitting_pbu_id, 6)
            + text_field(self.security_id, 8)
            + text_field(self.security_id_source, 4)
            + be(self.owner_type as int, 2)
            + text_field(self.clearing_firm, 2)
            + be(self.transact_time as int, 8)
            + text_field(self.user_info, 8)
            + text_field(self.order_id, 16)
            + text_field(self.cl_ord_id, 10)
            + text_field(self.exec_id, 16)
            + be(self.exec_type as int, 1)
            + be(self.ord_status as int, 1)
            + be(self.last_px as int, 8)
            + be(self.last_qty as int, 8)
            + be(self.leaves_qty as int, 8)
            + be(self.cum_qty as int, 8)
            + be(self.side as int, 1)
            + text_field(self.account_id, 12)
            + text_field(self.branch_id, 4)
            + be(self.cash_margin as int, 1)
    }

}

impl ExecRptCashTrade {
    /// The whole message.
    pub fn encode(&self) -> (r: Vec<u8>)
        ensures
            r@ == framed(msg_type::EXEC_RPT_CASH_TRADE, self@.body()),
    {
        proof {
            reveal(ExecRptCashTradeView::body);
        }
        let mut w = BodyWriter::new();
        w.i32(self.partition_no);
        w.i64(self.report_index);
        w.str(self.appl_id.as_str(), 3);
        w.str(self.reporting_pbu_id.as_str(), 6);
        w.str(self.submitting_pbu_id.as_str(), 6);
        w.str(self.security_id.as_str(), 8);
        w.str(self.security_id_source.as_str(), 4);
        w.u16(self.owner_type);
        w.str(self.clearing_firm.as_str(), 2);
        w.i64(self.transact_time);
        w.str(self.user_info.as_str(), 8);
        w.str(self.order_id.as_str(), 16);
        w.str(self.cl_ord_id.as_str(), 10);
        w.str(self.exec_id.as_str(), 16);
        w.ch(self.exec_type);
        w.ch(self.ord_status);
        w.i64(self.last_px);
        w.i64(self.last_qty);
        w.i64(self.leaves_qty);
        w.i64(self.cum_qty);
        w.ch(self.side);
        w.str(self.account_id.as_str(), 12);
        w.str(self.branch_id.as_str(), 4);
        w.ch(self.cash_margin);
        frame(msg_type::EXEC_RPT_CASH_TRADE, w.into_inner().as_slice())
    }
}

/// A refusal of a message.
#[derive(Debug, Clone, Default)]
pub struct BusinessReject {
    pub appl_id: String,
    pub transact_time: i64,
    pub submitting_pbu_id: String,
    pub security_id: String,
    pub security_id_source: String,
    /// The sequence number of the refused message.
    pub ref_seq_num: i64,
    /// The type of the refused message.
    pub ref_msg_type: u32,
    /// The business number of the refused message.
    pub business_reject_ref_id: String,
    pub business_reject_reason: u16,
    pub business_reject_text: String,
}

/// The values of [`BusinessReject`].
pub struct BusinessRejectView {
    pub appl_id: Seq<char>,
    pub transact_time: i64,
    pub submitting_pbu_id: Seq<char>,
    pub security_id: Seq<char>,
    pub security_id_source: Seq<char>,
    pub ref_seq_num: i64,
    pub ref_msg_type: u32,
    pub business_reject_ref_id: Seq<char>,
    pub business_reject_reason: u16,
    pub business_reject_text: Seq<char>,
}

impl View for BusinessReject {
    type V = BusinessRejectView;

    open spec fn view(&self) -> BusinessRejectView {
        BusinessRejectView {
            appl_id: self.appl_id@,
            transact_time: self.transact_time,
            submitting_pbu_id: self.submitting_pbu_id@,
            security_id: self.security_id@,
            security_id_source: self.security_id_source@,
            ref_seq_num: self.ref_seq_num,
            ref_msg_type: self.ref_msg_type,
            business_reject_ref_id: self.business_reject_ref_id@,
            business_reject_reason: self.business_reject_reason,
            business_reject_text: self.business_reject_text@,
        }
    }
}

impl BusinessRejectView {
    /// The message body, field by field.
    #[verifier::opaque]
    pub open spec fn body(self) -> Seq<u8> {
        nil()
            + text_field(self.appl_id, 3)
            + be(self.transact_time as int, 8)
            + text_field(self.submitting_pbu_id, 6)
            + text_field(self.security_id, 8)
            + text_field(self.security_id_source, 4)
            + be(self.ref_seq_num as int, 8)
            + be(self.ref_msg_type as int, 4)
            + text_field(self.business_reject_ref_id, 10)
            + be(self.business_reject_reason as int, 2)
            + text_field(self.business_reject_text, 50)
    }

}

impl BusinessReject {
    /// The whole message.
    pub fn encode(&self) -> (r: Vec<u8>)
        ensures
            r@ == framed(msg_type::BUSINESS_REJECT, self@.body()),
    {
        proof {
            reveal(BusinessRejectView::body);
        }
        let mut w = BodyWriter::new();
        w.str(self.appl_id.as_str(), 3);
        w.i64(self.transact_time);
        w.str(self.submitting_pbu_id.as_str(), 6);
        w.str(self.security_id.as_str(), 8);
        w.str(self.security_id_source.as_str(), 4);
        w.i64(self.ref_seq_num);
        w.u32(self.ref_msg_type);
        w.str(self.business_reject_ref_id.as_str(), 10);
        w.u16(self.business_reject_reason);
        w.str(self.business_reject_text.as_str(), 50);
        frame(msg_type::BUSINESS_REJECT, w.into_inner().as_slice())
    }
}

/// A request to cancel an order.
#[derive(Debug, Clone, Default)]
pub struct OrderCancelRequest {
    pub appl_id: String,
    pub submitting_pbu_id: String,
    pub security_id: String,
    pub security_id_source: String,
    pub owner_type: u16,
    pub clearing_firm: String,
    pub transact_time: i64,
    pub user_info: String,
    pub cl_ord_id: String,
    /// The order to be cancelled.
    pub orig_cl_ord_id: String,
    pub side: u8,
    pub order_id: String,
    pub order_qty: i64,
}

/// The values of [`OrderCancelRequest`].
pub struct OrderCancelRequestView {
    pub appl_id: Seq<char>,
    pub submitting_pbu_id: Seq<char>,
    pub security_id: Seq<char>,
    pub security_id_source: Seq<char>,
    pub owner_type: u16,
    pub clearing_firm: Seq<char>,
    pub transact_time: i64,
    pub user_info: Seq<char>,
    pub cl_ord_id: Seq<char>,
    pub orig_cl_ord_id: Seq<char>,
    pub side: u8,
    pub order_id: Seq<char>,
    pub order_qty: i64,
}

impl View for OrderCancelRequest {
    type V = OrderCancelRequestView;

    open spec fn view(&self) -> OrderCancelRequestView {
        OrderCancelRequestView {
            appl_id: self.appl_id@,
            submitting_pbu_id: self.submitting_pbu_id@,
            security_id: self.security_id@,
            security_id_source: self.security_id_source@,
            owner_type: self.owner_type,
            clearing_firm: self.clearing_firm@,
            transact_time: self.transact_time,
            user_info: self.user_info@,
            cl_ord_id: self.cl_ord_id@,
            orig_cl_ord_id: self.orig_cl_ord_id@,
            side: self.side,
            order_id: self.order_id@,
            order_qty: self.order_qty,
        }
    }
}

impl OrderCancelRequestView {
    /// The values that a body holds.
    pub open spec fn of(body: Seq<u8>) -> Self {
        OrderCancelRequestView {
            appl_id: text_at(body, 0, 3),
            submitting_pbu_id: text_at(body, 3, 6),
            security_id: text_at(body, 9, 8),
            security_id_source: text_at(body, 17, 4),
            owner_type: nat_at(body, 21, 2) as u16,
            clearing_firm: text_at(body, 23, 2),
            transact_time: int_at(body, 25, 8) as i64,
            user_info: text_at(body, 33, 8),
            cl_ord_id: text_at(body, 41, 10),
            orig_cl_ord_id: text_at(body, 51, 10),
            side: nat_at(body, 61, 1) as u8,
            order_id: text_at(body, 62, 16),
            order_qty: int_at(body, 78, 8) as i64,
        }
    }
}

impl OrderCancelRequest {
    /// Reads a body; bytes behind the last field are ignored.
    pub fn decode(body: &[u8]) -> (r: Result<Self, ShortBody>)
        ensures
            r is Ok <==> body@.len() >= 86,
            r matches Ok(v) ==> v@ == OrderCancelRequestView::of(body@),
    {
        let mut r = BodyReader::new(body);
        let appl_id: String = r.str(3)?;
        let submitting_pbu_id: String = r.str(6)?;
        let security_id: String = r.str(8)?;
        let security_id_source: String = r.str(4)?;
        let owner_type: u16 = r.u16()?;
        let clearing_firm: String = r.str(2)?;
        let transact_time: i64 = r.i64()?;
        let user_info: String = r.str(8)?;
        let cl_ord_id: String = r.str(10)?;
        let orig_cl_ord_id: String = r.str(10)?;
        let side: u8 = r.ch()?;
        let order_id: String = r.str(16)?;
        let order_qty: i64 = r.i64()?;
        Ok(OrderCancelRequest { appl_id, submitting_pbu_id, security_id, security_id_source, owner_type, clearing_firm, transact_time, user_info, cl_ord_id, orig_cl_ord_id, side, order_id, order_qty })
    }

}

/// The refusal of a cancel request.
#[derive(Debug, Clone, Default)]
pub struct CancelReject {
    pub partition_no: i32,
    pub report_index: i64,
    pub appl_id: String,
    pub reporting_pbu_id: String,
    pub submitting_pbu_id: String,
    pub security_id: String,
    pub security_id_source: String,
    pub owner_type: u16,
    pub clearing_firm: String,
    pub transact_time: i64,
    pub user_info: String,
    pub cl_ord_id: String,
    pub orig_cl_ord_id: String,
    pub side: u8,
    pub ord_status: u8,
    pub cxl_rej_reason: u16,
    pub reject_text: String,
    pub order_id: String,
}

/// The values of [`CancelReject`].
pub struct CancelRejectView {
    pub partition_no: i32,
    pub report_index: i64,
    pub appl_id: Seq<char>,
    pub reporting_pbu_id: Seq<char>,
    pub submitting_pbu_id: Seq<char>,
    pub security_id: Seq<char>,
    pub security_id_source: Seq<char>,
    pub owner_type: u16,
    pub clearing_firm: Seq<char>,
    pub transact_time: i64,
    pub user_info: Seq<char>,
    pub cl_ord_id: Seq<char>,
    pub orig_cl_ord_id: Seq<char>,
    pub side: u8,
    pub ord_status: u8,
    pub cxl_rej_reason: u16,
    pub reject_text: Seq<char>,
    pub order_id: Seq<char>,
}

impl View for CancelReject {
    type V = CancelRejectView;

    open spec fn view(&self) -> CancelRejectView {
        CancelRejectView {
            partition_no: self.partition_no,
            report_index: self.report_index,
            appl_id: self.appl_id@,
            reporting_pbu_id: self.reporting_pbu_id@,
            submitting_pbu_id: self.submitting_pbu_id@,
            security_id: self.security_id@,
            security_id_source: self.security_id_source@,
            owner_type: self.owner_type,
            clearing_firm: self.clearing_firm@,
            transact_time: self.transact_time,
            user_info: self.user_info@,
            cl_ord_id: self.cl_ord_id@,
            orig_cl_ord_id: self.orig_cl_ord_id@,
            side: self.side,
            ord_status: self.ord_status,
            cxl_rej_reason: self.cxl_rej_reason,
            reject_text: self.reject_text@,
            order_id: self.order_id@,
        }
    }
}

impl CancelRejectView {
    /// The message body, field by field.
    #[verifier::opaque]
    pub open spec fn body(self) -> Seq<u8> {
        nil()
            + be(self.partition_no as int, 4)
            + be(self.report_index as int, 8)
            + text_field(self.appl_id, 3)
            + text_field(self.reporting_pbu_id, 6)
            + text_field(self.submitting_pbu_id, 6)
            + text_field(self.security_id, 8)
            + text_field(self.security_id_source, 4)
            + be(self.owner_type as int, 2)
            + text_field(self.clearing_firm, 2)
            + be(self.transact_time as int, 8)
            + text_field(self.user_info, 8)
            + text_field(self.cl_ord_id, 10)
            + text_field(self.orig_cl_ord_id, 10)
            + be(self.side as int, 1)
            + be(self.ord_status as int, 1)
            + be(self.cxl_rej_reason as int, 2)
            + text_field(self.reject_text, 16)
            + text_field(self.order_id, 16)
    }

}

impl CancelReject {
    /// The whole message.
    pub fn encode(&self) -> (r: Vec<u8>)
        ensures
            r@ == framed(msg_type::CANCEL_REJECT, self@.body()),
    {
        proof {
            reveal(CancelRejectView::body);
        }
        let mut w = BodyWriter::new();
        w.i32(self.partition_no);
        w.i64(self.report_index);
        w.str(self.appl_id.as_str(), 3);
        w.str(self.reporting_pbu_id.as_str(), 6);
        w.str(self.submitting_pbu_id.as_str(), 6);
        w.str(self.security_id.as_str(), 8);
        w.str(self.security_id_source.as_str(), 4);
        w.u16(self.owner_type);
        w.str(self.clearing_firm.as_str(), 2);
        w.i64(self.transact_time);
        w.str(self.user_info.as_str(), 8);
        w.str(self.cl_ord_id.as_str(), 10);
        w.str(self.orig_cl_ord_id.as_str(), 10);
        w.ch(self.side);
        w.ch(self.ord_status);
        w.u16(self.cxl_rej_reason);
        w.str(self.reject_text.as_str(), 16);
        w.str(self.order_id.as_str(), 16);
        frame(msg_type::CANCEL_REJECT, w.into_inner().as_slice())
    }
}

/// The trading session that a platform is in.
#[derive(Debug, Clone, Default)]
pub struct TradingSessionStatus {
    pub market_id: String,
    pub market_segment_id: String,
    pub trading_session_id: String,
    pub trading_session_sub_id: String,
    pub trad_ses_status: u16,
    pub trad_ses_start_time: i64,
    pub trad_ses_end_time: i64,
}

/// The values of [`TradingSessionStatus`].
pub struct TradingSessionStatusView {
    pub market_id: Seq<char>,
    pub market_segment_id: Seq<char>,
    pub trading_session_id: Seq<char>,
    pub trading_session_sub_id: Seq<char>,
    pub trad_ses_status: u16,
    pub trad_ses_start_time: i64,
    pub trad_ses_end_time: i64,
}

impl View for TradingSessionStatus {
    type V = TradingSessionStatusView;

    open spec fn view(&self) -> TradingSessionStatusView {
        TradingSessionStatusView {
            market_id: self.market_id@,
            market_segment_id: self.market_segment_id@,
            trading_session_id: self.trading_session_id@,
            trading_session_sub_id: self.trading_session_sub_id@,
            trad_ses_status: self.trad_ses_status,
            trad_ses_start_time: self.trad_ses_start_time,
            trad_ses_end_time: self.trad_ses_end_time,
        }
    }
}

impl TradingSessionStatusView {
    /// The message body, field by field.
    #[verifier::opaque]
    pub open spec fn body(self) -> Seq<u8> {
        nil()
            + text_field(self.market_id, 8)
            + text_field(self.market_segment_id, 8)
            + text_field(self.trading_session_id, 4)
            + text_field(self.trading_session_sub_id, 4)
            + be(self.trad_ses_status as int, 2)
            + be(self.trad_ses_start_time as int, 8)
            + be(self.trad_ses_end_time as int, 8)
    }

}

impl TradingSessionStatus {
    /// The whole message.
    pub fn encode(&self) -> (r: Vec<u8>)
        ensures
            r@ == framed(msg_type::TRADING_SESSION_STATUS, self@.body()),
    {
        proof {
            reveal(TradingSessionStatusView::body);
        }
        let mut w = BodyWriter::new();
        w.str(self.market_id.as_str(), 8);
        w.str(self.market_segment_id.as_str(), 8);
        w.str(self.trading_session_id.as_str(), 4);
        w.str(self.trading_session_sub_id.as_str(), 4);
        w.u16(self.trad_ses_status);
        w.i64(self.trad_ses_start_time);
        w.i64(self.trad_ses_end_time);
        frame(msg_type::TRADING_SESSION_STATUS, w.into_inner().as_slice())
    }
}

/// A heartbeat, whose body is empty.
pub fn encode_heartbeat() -> (r: Vec<u8>)
    ensures
        r@ == framed(msg_type::HEARTBEAT, nil()),
{
    let body: Vec<u8> = Vec::new();
    assert(body@ =~= nil());
    frame(msg_type::HEARTBEAT, body.as_slice())
}

/// The state of a platform.
pub fn encode_platform_state(platform_id: u16, state: u16) -> (r: Vec<u8>)
    ensures
        r@ == framed(
            msg_type::PLATFORM_STATE,
            nil() + be(platform_id as int, 2) + be(state as int, 2),
        ),
{
    let mut w = BodyWriter::new();
    w.u16(platform_id);
    w.u16(state);
    frame(msg_type::PLATFORM_STATE, w.into_inner().as_slice())
}

/// Partition numbers, four bytes each.
pub open spec fn partition_bytes(partitions: Seq<i32>) -> Seq<u8>
    decreases partitions.len(),
{
    if partitions.len() == 0 {
        nil()
    } else {
        partition_bytes(partitions.drop_last()) + be(partitions.last() as int, 4)
    }
}

/// The partitions of a platform.
pub fn encode_platform_info(platform_id: u16, partitions: &[i32]) -> (r: Vec<u8>)
    ensures
        r@ == framed(
            msg_type::PLATFORM_INFO,
            nil() + be(platform_id as int, 2) + be(partitions@.len() as int, 4) + partition_bytes(
                partitions@,
            ),
        ),
{
    let mut w = BodyWriter::new();
    w.u16(platform_id);
    put_count(&mut w, partitions.len());
    let ghost start = w@;
    let mut i: usize = 0;
    while i < partitions.len()
        invariant
            i <= partitions@.len(),
            w@ =~= start + partition_bytes(partitions@.take(i as int)),
        decreases partitions@.len() - i,
    {
        w.i32(partitions[i]);
        proof {
            let t = partitions@.take(i + 1);
            assert(t.drop_last() =~= partitions@.take(i as int));
            assert(t.last() == partitions@[i as int]);
        }
        i += 1;
    }
    assert(partitions@.take(partitions@.len() as int) =~= partitions@);
    frame(msg_type::PLATFORM_INFO, w.into_inner().as_slice())
}

/// A count of four bytes.
fn put_count(w: &mut BodyWriter, n: usize)
    ensures
        final(w)@ == old(w)@ + be(n as int, 4),
{
    let mut bytes: Vec<u8> = Vec::new();
    wire::append_be(&mut bytes, n as u64, 4);
    assert(bytes@ =~= be(n as int, 4));
    w.raw(bytes.as_slice());
}

/// The end of the reports of a partition.
pub fn encode_report_finished(partition_no: i32, report_index: i64, platform_id: u16) -> (r: Vec<u8>)
    ensures
        r@ == framed(
            msg_type::REPORT_FINISHED,
            nil() + be(partition_no as int, 4) + be(report_index as int, 8) + be(
                platform_id as int,
                2,
            ),
        ),
{
    let mut w = BodyWriter::new();
    w.i32(partition_no);
    w.i64(report_index);
    w.u16(platform_id);
    frame(msg_type::REPORT_FINISHED, w.into_inner().as_slice())
}

/// A logon gives back what was written into it, where the texts fit their fields and
/// do not end in white space.
pub proof fn law_logon_round_trip(l: LogonView)
    requires
        wire::fits(l.sender_comp_id, 20),
        wire::fits(l.target_comp_id, 20),
        wire::fits(l.password, 16),
        wire::fits(l.default_appl_ver_id, 32),
    ensures
        l.body().len() == Logon::BODY_LEN,
        LogonView::of(l.body()) == l,
{
    reveal(LogonView::body);
    let b = l.body();
    wire::lemma_text_field_len(l.sender_comp_id, 20);
    wire::lemma_text_field_len(l.target_comp_id, 20);
    wire::lemma_be_len(l.heart_bt_int as int, 4);
    wire::lemma_text_field_len(l.password, 16);
    wire::lemma_text_field_len(l.default_appl_ver_id, 32);
    assert(b.subrange(0, 20) =~= text_field(l.sender_comp_id, 20));
    assert(b.subrange(20, 40) =~= text_field(l.target_comp_id, 20));
    assert(b.subrange(40, 44) =~= be(l.heart_bt_int as int, 4));
    assert(b.subrange(44, 60) =~= text_field(l.password, 16));
    assert(b.subrange(60, 92) =~= text_field(l.default_appl_ver_id, 32));
    wire::lemma_text_round_trip(l.sender_comp_id, 20);
    wire::lemma_text_round_trip(l.target_comp_id, 20);
    wire::lemma_text_round_trip(l.password, 16);
    wire::lemma_text_round_trip(l.default_appl_ver_id, 32);
    wire::lemma_pow256_values();
    wire::lemma_be_int_inverse(l.heart_bt_int as int, 4);
}

/// A logout gives back what was written into it, where the text fits its field and does
/// not end in white space.
pub proof fn law_logout_round_trip(l: LogoutView)
    requires
        wire::fits(l.text, 200),
    ensures
        l.body().len() == 204,
        LogoutView::of(l.body()) == l,
{
    reveal(LogoutView::body);
    let b = l.body();
    wire::lemma_be_len(l.session_status as int, 4);
    wire::lemma_text_field_len(l.text, 200);
    assert(b.subrange(0, 4) =~= be(l.session_status as int, 4));
    assert(b.subrange(4, 204) =~= text_field(l.text, 200));
    wire::lemma_text_round_trip(l.text, 200);
    wire::lemma_pow256_values();
    wire::lemma_be_int_inverse(l.session_status as int, 4);
}

/// The extension fields of an order, where the business has them.
#[derive(Debug, Clone, Copy, Default, PartialEq, Eq, Structural)]
pub struct OrderExtend {
    pub stop_px: i64,
    pub min_qty: i64,
    pub max_price_levels: u16,
    pub time_in_force: u8,
    pub cash_margin: u8,
}

/// No extension.
pub open spec fn no_extend() -> OrderExtend {
    OrderExtend { stop_px: 0, min_qty: 0, max_price_levels: 0, time_in_force: 0, cash_margin: 0 }
}

/// The extension of the cash auction in the 20 bytes that start at `at`.
pub open spec fn cash_extend_at(body: Seq<u8>, at: int) -> OrderExtend {
    OrderExtend {
        stop_px: int_at(body, at, 8) as i64,
        min_qty: int_at(body, at + 8, 8) as i64,
        max_price_levels: nat_at(body, at + 16, 2) as u16,
        time_in_force: nat_at(body, at + 18, 1) as u8,
        cash_margin: nat_at(body, at + 19, 1) as u8,
    }
}

/// The extension of the bond repo in the 19 bytes that start at `at`.
pub open spec fn repo_extend_at(body: Seq<u8>, at: int) -> OrderExtend {
    OrderExtend {
        stop_px: int_at(body, at, 8) as i64,
        min_qty: int_at(body, at + 8, 8) as i64,
        max_price_levels: nat_at(body, at + 16, 2) as u16,
        time_in_force: nat_at(body, at + 18, 1) as u8,
        cash_margin: 0,
    }
}

/// The extension that a new order carries; a peer may leave it out.
pub open spec fn extend_at(mt: u32, body: Seq<u8>) -> OrderExtend {
    if mt == msg_type::NEW_ORDER_CASH && body.len() >= 109 {
        cash_extend_at(body, 89)
    } else if mt == msg_type::NEW_ORDER_BOND_REPO && body.len() >= 108 {
        repo_extend_at(body, 89)
    } else {
        no_extend()
    }
}

fn read_extend(r: &mut BodyReader, mt: u32) -> (e: OrderExtend)
    requires
        old(r).wf(),
        old(r).at() == 89,
    ensures
        e == extend_at(mt, old(r).body()),
{
    let none = OrderExtend {
        stop_px: 0,
        min_qty: 0,
        max_price_levels: 0,
        time_in_force: 0,
        cash_margin: 0,
    };
    let cash: bool = mt == msg_type::NEW_ORDER_CASH && r.remaining() >= 20;
    let repo: bool = mt == msg_type::NEW_ORDER_BOND_REPO && r.remaining() >= 19;
    if !cash && !repo {
        return none;
    }
    match (r.i64(), r.i64(), r.u16(), r.ch()) {
        (Ok(stop_px), Ok(min_qty), Ok(max_price_levels), Ok(time_in_force)) => {
            let mut cash_margin: u8 = 0;
            if cash {
                if let Ok(c) = r.ch() {
                    cash_margin = c;
                }
            }
            OrderExtend { stop_px, min_qty, max_price_levels, time_in_force, cash_margin }
        },
        _ => none,
    }
}

/// A new order of any business.
#[derive(Debug, Clone, Default)]
pub struct NewOrder {
    pub msg_type: u32,
    pub common: OrderCommon,
    pub extend: OrderExtend,
}

/// The values of [`NewOrder`].
pub struct NewOrderView {
    pub msg_type: u32,
    pub common: OrderCommonView,
    pub extend: OrderExtend,
}

impl View for NewOrder {
    type V = NewOrderView;

    open spec fn view(&self) -> NewOrderView {
        NewOrderView { msg_type: self.msg_type, common: self.common@, extend: self.extend }
    }
}

/// The message types of new orders, one for each business.
pub open spec fn new_order_type(mt: u32) -> bool {
    ||| mt == msg_type::NEW_ORDER_CASH
    ||| mt == msg_type::NEW_ORDER_BOND_REPO
    ||| mt == msg_type::NEW_ORDER_BOND_DIST
    ||| mt == msg_type::NEW_ORDER_OPTION_AUCTION
    ||| mt == msg_type::NEW_ORDER_AGREEMENT_TRADE
    ||| mt == msg_type::NEW_ORDER_BLOCK_TRADE
    ||| mt == msg_type::NEW_ORDER_SEC_LENDING
    ||| mt == msg_type::NEW_ORDER_ETF_SUB_RED
    ||| mt == msg_type::NEW_ORDER_ISSUE
    ||| mt == msg_type::NEW_ORDER_RIGHTS
    ||| mt == msg_type::NEW_ORDER_BOND_CONVERT
    ||| mt == msg_type::NEW_ORDER_OPTION_EXERCISE
    ||| mt == msg_type::NEW_ORDER_FUND_SUB_RED
    ||| mt == msg_type::NEW_ORDER_TENDER_OFFER
    ||| mt == msg_type::NEW_ORDER_REPO_PLEDGE
    ||| mt == msg_type::NEW_ORDER_GOLD_ETF
    ||| mt == msg_type::NEW_ORDER_WARRANT
    ||| mt == msg_type::NEW_ORDER_DISPOSAL
    ||| mt == msg_type::NEW_ORDER_LEND_RETURN
    ||| mt == msg_type::NEW_ORDER_DEDUCTION
    ||| mt == msg_type::NEW_ORDER_SPLIT_MERGE
    ||| mt == msg_type::NEW_ORDER_3P_REPO
    ||| mt == msg_type::NEW_ORDER_OPTION_CONVERT
    ||| mt == msg_type::NEW_ORDER_AFTER_HOURS
    ||| mt == msg_type::NEW_ORDER_BOND_CASH
    ||| mt == msg_type::NEW_ORDER_BOND_BID
    ||| mt == msg_type::NEW_ORDER_INTERBANK_ETF
    ||| mt == msg_type::NEW_ORDER_HK_CONNECT
}

impl NewOrder {
    /// Whether a message is a new order.
    pub fn is_new_order(mt: u32) -> (r: bool)
        ensures
            r == new_order_type(mt),
    {
        mt == msg_type::NEW_ORDER_CASH || mt == msg_type::NEW_ORDER_BOND_REPO || mt
            == msg_type::NEW_ORDER_BOND_DIST || mt == msg_type::NEW_ORDER_OPTION_AUCTION || mt
            == msg_type::NEW_ORDER_AGREEMENT_TRADE || mt == msg_type::NEW_ORDER_BLOCK_TRADE || mt
            == msg_type::NEW_ORDER_SEC_LENDING || mt == msg_type::NEW_ORDER_ETF_SUB_RED || mt
            == msg_type::NEW_ORDER_ISSUE || mt == msg_type::NEW_ORDER_RIGHTS || mt
            == msg_type::NEW_ORDER_BOND_CONVERT || mt == msg_type::NEW_ORDER_OPTION_EXERCISE || mt
            == msg_type::NEW_ORDER_FUND_SUB_RED || mt == msg_type::NEW_ORDER_TENDER_OFFER || mt
            == msg_type::NEW_ORDER_REPO_PLEDGE || mt == msg_type::NEW_ORDER_GOLD_ETF || mt
            == msg_type::NEW_ORDER_WARRANT || mt == msg_type::NEW_ORDER_DISPOSAL || mt
            == msg_type::NEW_ORDER_LEND_RETURN || mt == msg_type::NEW_ORDER_DEDUCTION || mt
            == msg_type::NEW_ORDER_SPLIT_MERGE || mt == msg_type::NEW_ORDER_3P_REPO || mt
            == msg_type::NEW_ORDER_OPTION_CONVERT || mt == msg_type::NEW_ORDER_AFTER_HOURS || mt
            == msg_type::NEW_ORDER_BOND_CASH || mt == msg_type::NEW_ORDER_BOND_BID || mt
            == msg_type::NEW_ORDER_INTERBANK_ETF || mt == msg_type::NEW_ORDER_HK_CONNECT
    }

    /// Reads the body of a new order of type `mt`.
    pub fn decode(mt: u32, body: &[u8]) -> (r: Result<Self, ShortBody>)
        ensures
            r is Ok <==> body@.len() >= 89,
            r matches Ok(v) ==> v@ == (NewOrderView {
                msg_type: mt,
                common: OrderCommonView::of(body@),
                extend: extend_at(mt, body@),
            }),
    {
        let common = OrderCommon::decode(body)?;
        let mut r = BodyReader::new(body);
        r.skip(89);
        let extend = read_extend(&mut r, mt);
        Ok(NewOrder { msg_type: mt, common, extend })
    }
}

/// A new order of the cash auction.
#[derive(Debug, Clone, Default)]
pub struct NewOrderCash {
    pub appl_id: String,
    pub submitting_pbu_id: String,
    pub security_id: String,
    pub security_id_source: String,
    pub owner_type: u16,
    pub clearing_firm: String,
    pub transact_time: i64,
    pub user_info: String,
    pub cl_ord_id: String,
    pub account_id: String,
    pub branch_id: String,
    pub order_restrictions: String,
    pub side: u8,
    pub ord_type: u8,
    pub order_qty: i64,
    pub price: i64,
    pub stop_px: i64,
    pub min_qty: i64,
    pub max_price_levels: u16,
    pub time_in_force: u8,
    pub cash_margin: u8,
}

impl View for NewOrderCash {
    type V = NewOrderView;

    open spec fn view(&self) -> NewOrderView {
        NewOrderView {
            msg_type: msg_type::NEW_ORDER_CASH,
            common: OrderCommonView {
                appl_id: self.appl_id@,
                submitting_pbu_id: self.submitting_pbu_id@,
                security_id: self.security_id@,
                security_id_source: self.security_id_source@,
                owner_type: self.owner_type,
                clearing_firm: self.clearing_firm@,
                transact_time: self.transact_time,
                user_info: self.user_info@,
                cl_ord_id: self.cl_ord_id@,
                account_id: self.account_id@,
                branch_id: self.branch_id@,
                order_restrictions: self.order_restrictions@,
                side: self.side,
                ord_type: self.ord_type,
                order_qty: self.order_qty,
                price: self.price,
            },
            extend: OrderExtend {
                stop_px: self.stop_px,
                min_qty: self.min_qty,
                max_price_levels: self.max_price_levels,
                time_in_force: self.time_in_force,
                cash_margin: self.cash_margin,
            },
        }
    }
}

impl NewOrderCash {
    /// Reads a body; the extension may be missing.
    pub fn decode(body: &[u8]) -> (r: Result<Self, ShortBody>)
        ensures
            r is Ok <==> body@.len() >= 89,
            r matches Ok(v) ==> v@ == (NewOrderView {
                msg_type: msg_type::NEW_ORDER_CASH,
                common: OrderCommonView::of(body@),
                extend: extend_at(msg_type::NEW_ORDER_CASH, body@),
            }),
    {
        let o = NewOrder::decode(msg_type::NEW_ORDER_CASH, body)?;
        let c = o.common;
        Ok(
            NewOrderCash {
                appl_id: c.appl_id,
                submitting_pbu_id: c.submitting_pbu_id,
                security_id: c.security_id,
                security_id_source: c.security_id_source,
                owner_type: c.owner_type,
                clearing_firm: c.clearing_firm,
                transact_time: c.transact_time,
                user_info: c.user_info,
                cl_ord_id: c.cl_ord_id,
                account_id: c.account_id,
                branch_id: c.branch_id,
                order_restrictions: c.order_restrictions,
                side: c.side,
                ord_type: c.ord_type,
                order_qty: c.order_qty,
                price: c.price,
                stop_px: o.extend.stop_px,
                min_qty: o.extend.min_qty,
                max_price_levels: o.extend.max_price_levels,
                time_in_force: o.extend.time_in_force,
                cash_margin: o.extend.cash_margin,
            },
        )
    }
}

/// The readable name of a message type.
pub open spec fn type_text(mt: u32) -> Seq<char> {
    if mt == msg_type::LOGON {
        "登录 Logon"@
    } else if mt == msg_type::LOGOUT {
        "注销 Logout"@
    } else if mt == msg_type::HEARTBEAT {
        "心跳 Heartbeat"@
    } else if mt == msg_type::BUSINESS_REJECT {
        "业务拒绝 BusinessReject"@
    } else if mt == msg_type::REPORT_SYNC {
        "回报同步 ReportSync"@
    } else if mt == msg_type::PLATFORM_STATE {
        "平台状态 PlatformState"@
    } else if mt == msg_type::REPORT_FINISHED {
        "回报结束 ReportFinished"@
    } else if mt == msg_type::PLATFORM_INFO {
        "平台信息 PlatformInfo"@
    } else if mt == msg_type::NEW_ORDER_CASH {
        "新订单申报 NewOrderCash"@
    } else if mt == msg_type::ORDER_CANCEL_REQUEST {
        "撤单请求 OrderCancelRequest"@
    } else if mt == msg_type::CANCEL_REJECT {
        "撤单失败 CancelReject"@
    } else if mt == msg_type::EXEC_RPT_CASH_ACK {
        "订单执行报告 ExecRptCashAck"@
    } else if mt == msg_type::EXEC_RPT_CASH_TRADE {
        "成交执行报告 ExecRptCashTrade"@
    } else {
        "未知消息"@
    }
}

/// The message types that have a name.
pub open spec fn has_name(mt: u32) -> bool {
    ||| mt == msg_type::LOGON
    ||| mt == msg_type::LOGOUT
    ||| mt == msg_type::HEARTBEAT
    ||| mt == msg_type::BUSINESS_REJECT
    ||| mt == msg_type::REPORT_SYNC
    ||| mt == msg_type::PLATFORM_STATE
    ||| mt == msg_type::REPORT_FINISHED
    ||| mt == msg_type::PLATFORM_INFO
    ||| mt == msg_type::NEW_ORDER_CASH
    ||| mt == msg_type::ORDER_CANCEL_REQUEST
    ||| mt == msg_type::CANCEL_REJECT
    ||| mt == msg_type::EXEC_RPT_CASH_ACK
    ||| mt == msg_type::EXEC_RPT_CASH_TRADE
}

/// Exactly the message types without a name are called unknown, no two with a name share it,
/// and none is called nothing.
pub proof fn law_names_tell_types_apart(a: u32, b: u32)
    ensures
        type_text(a) == "未知消息"@ <==> !has_name(a),
        has_name(a) && has_name(b) ==> (type_text(a) == type_text(b) <==> a == b),
        type_text(a).len() > 0,
{
    reveal_strlit("登录 Logon");
    reveal_strlit("注销 Logout");
    reveal_strlit("心跳 Heartbeat");
    reveal_strlit("业务拒绝 BusinessReject");
    reveal_strlit("回报同步 ReportSync");
    reveal_strlit("平台状态 PlatformState");
    reveal_strlit("回报结束 ReportFinished");
    reveal_strlit("平台信息 PlatformInfo");
    reveal_strlit("新订单申报 NewOrderCash");
    reveal_strlit("撤单请求 OrderCancelRequest");
    reveal_strlit("撤单失败 CancelReject");
    reveal_strlit("订单执行报告 ExecRptCashAck");
    reveal_strlit("成交执行报告 ExecRptCashTrade");
    reveal_strlit("未知消息");
    // The lengths tell the names apart, but for four pairs, which their first characters do.
    assert("业务拒绝 BusinessReject"@[0] != "回报结束 ReportFinished"@[0]);
    assert("平台状态 PlatformState"@[0] != "新订单申报 NewOrderCash"@[0]);
    assert("平台信息 PlatformInfo"@[0] != "撤单失败 CancelReject"@[0]);
    assert("撤单请求 OrderCancelRequest"@[0] != "成交执行报告 ExecRptCashTrade"@[0]);
    let unknown = "未知消息"@;
    assert(unknown.len() == 4);
    assert(has_name(a) ==> type_text(a).len() > 4);
    if type_text(a) == type_text(b) {
        assert(type_text(a).len() == type_text(b).len());
        assert(type_text(a)[0] == type_text(b)[0]);
    }
}

/// The readable name of a message type.
pub fn msg_type_name(mt: u32) -> (r: &'static str)
    ensures
        r@ == type_text(mt),
{
    if mt == msg_type::LOGON {
        "登录 Logon"
    } else if mt == msg_type::LOGOUT {
        "注销 Logout"
    } else if mt == msg_type::HEARTBEAT {
        "心跳 Heartbeat"
    } else if mt == msg_type::BUSINESS_REJECT {
        "业务拒绝 BusinessReject"
    } else if mt == msg_type::REPORT_SYNC {
        "回报同步 ReportSync"
    } else if mt == msg_type::PLATFORM_STATE {
        "平台状态 PlatformState"
    } else if mt == msg_type::REPORT_FINISHED {
        "回报结束 ReportFinished"
    } else if mt == msg_type::PLATFORM_INFO {
        "平台信息 PlatformInfo"
    } else if mt == msg_type::NEW_ORDER_CASH {
        "新订单申报 NewOrderCash"
    } else if mt == msg_type::ORDER_CANCEL_REQUEST {
        "撤单请求 OrderCancelRequest"
    } else if mt == msg_type::CANCEL_REJECT {
        "撤单失败 CancelReject"
    } else if mt == msg_type::EXEC_RPT_CASH_ACK {
        "订单执行报告 ExecRptCashAck"
    } else if mt == msg_type::EXEC_RPT_CASH_TRADE {
        "成交执行报告 ExecRptCashTrade"
    } else {
        "未知消息"
    }
}

/// An order type code and its meaning.
pub open spec fn ord_type_text(b: u8) -> Seq<char> {
    if b == 0x31 {
        "1 (市价)"@
    } else if b == 0x32 {
        "2 (限价)"@
    } else if b == 0x55 {
        "U (本方最优)"@
    } else {
        layout::code_text(b)
    }
}

/// An order type code and its meaning.
pub fn ord_type_label(b: u8) -> (r: String)
    ensures
        r@ == ord_type_text(b),
{
    if b == 0x31 {
        "1 (市价)".to_owned()
    } else if b == 0x32 {
        "2 (限价)".to_owned()
    } else if b == 0x55 {
        "U (本方最优)".to_owned()
    } else {
        text::char_string(b)
    }
}

/// An execution type code and its meaning.
pub open spec fn exec_type_text(b: u8) -> Seq<char> {
    if b == 0x30 {
        "0 (新订单确认)"@
    } else if b == 0x34 {
        "4 (撤单成功)"@
    } else if b == 0x38 {
        "8 (订单拒绝)"@
    } else if b == 0x46 {
        "F (成交)"@
    } else {
        layout::code_text(b)
    }
}

/// An execution type code and its meaning.
pub fn exec_type_label(b: u8) -> (r: String)
    ensures
        r@ == exec_type_text(b),
{
    if b == 0x30 {
        "0 (新订单确认)".to_owned()
    } else if b == 0x34 {
        "4 (撤单成功)".to_owned()
    } else if b == 0x38 {
        "8 (订单拒绝)".to_owned()
    } else if b == 0x46 {
        "F (成交)".to_owned()
    } else {
        text::char_string(b)
    }
}

/// A business code and its meaning.
pub open spec fn appl_id_text(s: Seq<char>) -> Seq<char> {
    if s == "010"@ {
        "010 (现货集中竞价)"@
    } else {
        s
    }
}

/// A business code and its meaning.
pub fn appl_id_label(s: &str) -> (r: String)
    ensures
        r@ == appl_id_text(s@),
{
    if text::same_text(s, "010") {
        "010 (现货集中竞价)".to_owned()
    } else {
        s.to_owned()
    }
}

/// A time stamp as `YYYY-MM-DD HH:MM:SS.mmm`, `0` if it is not positive.
pub open spec fn time_text(v: int) -> Seq<char> {
    if v <= 0 {
        seq!['0']
    } else {
        let s = text::zero_pad(text::dec(v as nat), 17);
        s.subrange(0, 4) + seq!['-'] + s.subrange(4, 6) + seq!['-'] + s.subrange(6, 8) + seq![' ']
            + s.subrange(8, 10) + seq![':'] + s.subrange(10, 12) + seq![':'] + s.subrange(12, 14)
            + seq!['.'] + s.subrange(14, 17)
    }
}

/// A time stamp as `YYYY-MM-DD HH:MM:SS.mmm`, `0` if it is not positive.
pub fn fmt_time(v: i64) -> (r: String)
    ensures
        r@ == time_text(v as int),
{
    let mut out = String::new();
    if v <= 0 {
        out.push('0');
        assert(out@ =~= seq!['0']);
        return out;
    }
    let s = text::pad_digits(v as u64, 17);
    text::push_slice(&mut out, &s, 0, 4);
    out.push('-');
    text::push_slice(&mut out, &s, 4, 6);
    out.push('-');
    text::push_slice(&mut out, &s, 6, 8);
    out.push(' ');
    text::push_slice(&mut out, &s, 8, 10);
    out.push(':');
    text::push_slice(&mut out, &s, 10, 12);
    out.push(':');
    text::push_slice(&mut out, &s, 12, 14);
    out.push('.');
    text::push_slice(&mut out, &s, 14, 17);
    assert(out@ =~= time_text(v as int));
    out
}

/// The fields of a logon.
pub open spec fn logon_layout() -> Seq<FieldDef> {
    seq![
        ("SenderCompID", Kind::Text(20)),
        ("TargetCompID", Kind::Text(20)),
        ("HeartBtInt", Kind::Seconds32),
        ("Password", Kind::Text(16)),
        ("DefaultApplVerID", Kind::Text(32)),
    ]
}

fn logon_defs() -> (r: Vec<FieldDef>)
    ensures
        r@ == logon_layout(),
        layout::all_readable(r@),
{
    let r: Vec<FieldDef> = vec![
        ("SenderCompID", Kind::Text(20)),
        ("TargetCompID", Kind::Text(20)),
        ("HeartBtInt", Kind::Seconds32),
        ("Password", Kind::Text(16)),
        ("DefaultApplVerID", Kind::Text(32)),
    ];
    assert(r@ =~= logon_layout());
    r
}

/// The fields of a logout.
pub open spec fn logout_layout() -> Seq<FieldDef> {
    seq![
        ("SessionStatus", Kind::Int(4)),
        ("Text", Kind::Text(200)),
    ]
}

fn logout_defs() -> (r: Vec<FieldDef>)
    ensures
        r@ == logout_layout(),
        layout::all_readable(r@),
{
    let r: Vec<FieldDef> = vec![
        ("SessionStatus", Kind::Int(4)),
        ("Text", Kind::Text(200)),
    ];
    assert(r@ =~= logout_layout());
    r
}

/// The fields of a business reject.
pub open spec fn business_reject_layout() -> Seq<FieldDef> {
    seq![
        ("ApplID", Kind::ApplId),
        ("TransactTime", Kind::SzTime),
        ("SubmittingPBUId", Kind::Text(6)),
        ("SecurityID", Kind::Text(8)),
        ("SecurityIDSource", Kind::Text(4)),
        ("RefSeqNum", Kind::Int(8)),
        ("RefMsgType", Kind::Nat(4)),
        ("BusinessRejectRefID", Kind::Text(10)),
        ("BusinessRejectReason", Kind::Nat(2)),
        ("BusinessRejectText", Kind::Text(50)),
    ]
}

fn business_reject_defs() -> (r: Vec<FieldDef>)
    ensures
        r@ == business_reject_layout(),
        layout::all_readable(r@),
{
    let r: Vec<FieldDef> = vec![
        ("ApplID", Kind::ApplId),
        ("TransactTime", Kind::SzTime),
        ("SubmittingPBUId", Kind::Text(6)),
        ("SecurityID", Kind::Text(8)),
        ("SecurityIDSource", Kind::Text(4)),
        ("RefSeqNum", Kind::Int(8)),
        ("RefMsgType", Kind::Nat(4)),
        ("BusinessRejectRefID", Kind::Text(10)),
        ("BusinessRejectReason", Kind::Nat(2)),
        ("BusinessRejectText", Kind::Text(50)),
    ];
    assert(r@ =~= business_reject_layout());
    r
}

/// The fields of a platform state.
pub open spec fn platform_state_layout() -> Seq<FieldDef> {
    seq![
        ("PlatformID", Kind::Nat(2)),
        ("State", Kind::Nat(2)),
    ]
}

fn platform_state_defs() -> (r: Vec<FieldDef>)
    ensures
        r@ == platform_state_layout(),
        layout::all_readable(r@),
{
    let r: Vec<FieldDef> = vec![
        ("PlatformID", Kind::Nat(2)),
        ("State", Kind::Nat(2)),
    ];
    assert(r@ =~= platform_state_layout());
    r
}

/// The fields of the end of reports.
pub open spec fn report_finished_layout() -> Seq<FieldDef> {
    seq![
        ("PartitionNo", Kind::Int(4)),
        ("ReportIndex", Kind::Int(8)),
        ("PlatformID", Kind::Nat(2)),
    ]
}

fn report_finished_defs() -> (r: Vec<FieldDef>)
    ensures
        r@ == report_finished_layout(),
        layout::all_readable(r@),
{
    let r: Vec<FieldDef> = vec![
        ("PartitionNo", Kind::Int(4)),
        ("ReportIndex", Kind::Int(8)),
        ("PlatformID", Kind::Nat(2)),
    ];
    assert(r@ =~= report_finished_layout());
    r
}

/// The fields of a new order of the cash auction, without the extension.
pub open spec fn new_order_cash_layout() -> Seq<FieldDef> {
    seq![
        ("ApplID", Kind::ApplId),
        ("SubmittingPBUId", Kind::Text(6)),
        ("SecurityID", Kind::Text(8)),
        ("SecurityIDSource", Kind::Text(4)),
        ("OwnerType", Kind::Nat(2)),
        ("ClearingFirm", Kind::Text(2)),
        ("TransactTime", Kind::SzTime),
        ("UserInfo", Kind::Text(8)),
        ("ClOrdID", Kind::Text(10)),
        ("AccountID", Kind::Text(12)),
        ("BranchID", Kind::Text(4)),
        ("OrderRestrictions", Kind::Text(4)),
        ("Side", Kind::Side),
        ("OrdType", Kind::SzOrdType),
        ("OrderQty", Kind::Shares(100)),
        ("Price", Kind::Yuan(10000)),
    ]
}

fn new_order_cash_defs() -> (r: Vec<FieldDef>)
    ensures
        r@ == new_order_cash_layout(),
        layout::all_readable(r@),
{
    let r: Vec<FieldDef> = vec![
        ("ApplID", Kind::ApplId),
        ("SubmittingPBUId", Kind::Text(6)),
        ("SecurityID", Kind::Text(8)),
        ("SecurityIDSource", Kind::Text(4)),
        ("OwnerType", Kind::Nat(2)),
        ("ClearingFirm", Kind::Text(2)),
        ("TransactTime", Kind::SzTime),
        ("UserInfo", Kind::Text(8)),
        ("ClOrdID", Kind::Text(10)),
        ("AccountID", Kind::Text(12)),
        ("BranchID", Kind::Text(4)),
        ("OrderRestrictions", Kind::Text(4)),
        ("Side", Kind::Side),
        ("OrdType", Kind::SzOrdType),
        ("OrderQty", Kind::Shares(100)),
        ("Price", Kind::Yuan(10000)),
    ];
    assert(r@ =~= new_order_cash_layout());
    r
}

/// The fields of a cancel request.
pub open spec fn order_cancel_request_layout() -> Seq<FieldDef> {
    seq![
        ("ApplID", Kind::ApplId),
        ("SubmittingPBUId", Kind::Text(6)),
        ("SecurityID", Kind::Text(8)),
        ("SecurityIDSource", Kind::Text(4)),
        ("OwnerType", Kind::Nat(2)),
        ("ClearingFirm", Kind::Text(2)),
        ("TransactTime", Kind::SzTime),
        ("UserInfo", Kind::Text(8)),
        ("ClOrdID", Kind::Text(10)),
        ("OrigClOrdID", Kind::Text(10)),
        ("Side", Kind::Side),
        ("OrderID", Kind::Text(16)),
        ("OrderQty", Kind::Shares(100)),
    ]
}

fn order_cancel_request_defs() -> (r: Vec<FieldDef>)
    ensures
        r@ == order_cancel_request_layout(),
        layout::all_readable(r@),
{
    let r: Vec<FieldDef> = vec![
        ("ApplID", Kind::ApplId),
        ("SubmittingPBUId", Kind::Text(6)),
        ("SecurityID", Kind::Text(8)),
        ("SecurityIDSource", Kind::Text(4)),
        ("OwnerType", Kind::Nat(2)),
        ("ClearingFirm", Kind::Text(2)),
        ("TransactTime", Kind::SzTime),
        ("UserInfo", Kind::Text(8)),
        ("ClOrdID", Kind::Text(10)),
        ("OrigClOrdID", Kind::Text(10)),
        ("Side", Kind::Side),
        ("OrderID", Kind::Text(16)),
        ("OrderQty", Kind::Shares(100)),
    ];
    assert(r@ =~= order_cancel_request_layout());
    r
}

/// The fields of a refused cancel request.
pub open spec fn cancel_reject_layout() -> Seq<FieldDef> {
    seq![
        ("PartitionNo", Kind::Int(4)),
        ("ReportIndex", Kind::Int(8)),
        ("ApplID", Kind::ApplId),
        ("ReportingPBUId", Kind::Text(6)),
        ("SubmittingPBUId", Kind::Text(6)),
        ("SecurityID", Kind::Text(8)),
        ("SecurityIDSource", Kind::Text(4)),
        ("OwnerType", Kind::Nat(2)),
        ("ClearingFirm", Kind::Text(2)),
        ("TransactTime", Kind::SzTime),
        ("UserInfo", Kind::Text(8)),
        ("ClOrdID", Kind::Text(10)),
        ("OrigClOrdID", Kind::Text(10)),
        ("Side", Kind::Side),
        ("OrdStatus", Kind::OrdStatus),
        ("CxlRejReason", Kind::Nat(2)),
        ("RejectText", Kind::Text(16)),
        ("OrderID", Kind::Text(16)),
    ]
}

fn cancel_reject_defs() -> (r: Vec<FieldDef>)
    ensures
        r@ == cancel_reject_layout(),
        layout::all_readable(r@),
{
    let r: Vec<FieldDef> = vec![
        ("PartitionNo", Kind::Int(4)),
        ("ReportIndex", Kind::Int(8)),
        ("ApplID", Kind::ApplId),
        ("ReportingPBUId", Kind::Text(6)),
        ("SubmittingPBUId", Kind::Text(6)),
        ("SecurityID", Kind::Text(8)),
        ("SecurityIDSource", Kind::Text(4)),
        ("OwnerType", Kind::Nat(2)),
        ("ClearingFirm", Kind::Text(2)),
        ("TransactTime", Kind::SzTime),
        ("UserInfo", Kind::Text(8)),
        ("ClOrdID", Kind::Text(10)),
        ("OrigClOrdID", Kind::Text(10)),
        ("Side", Kind::Side),
        ("OrdStatus", Kind::OrdStatus),
        ("CxlRejReason", Kind::Nat(2)),
        ("RejectText", Kind::Text(16)),
        ("OrderID", Kind::Text(16)),
    ];
    assert(r@ =~= cancel_reject_layout());
    r
}

/// The fields of an order response of the cash auction, without the extension.
pub open spec fn exec_rpt_cash_ack_layout() -> Seq<FieldDef> {
    seq![
        ("PartitionNo", Kind::Int(4)),
        ("ReportIndex", Kind::Int(8)),
        ("ApplID", Kind::ApplId),
        ("ReportingPBUId", Kind::Text(6)),
        ("SubmittingPBUId", Kind::Text(6)),
        ("SecurityID", Kind::Text(8)),
        ("SecurityIDSource", Kind::Text(4)),
        ("OwnerType", Kind::Nat(2)),
        ("ClearingFirm", Kind::Text(2)),
        ("TransactTime", Kind::SzTime),
        ("UserInfo", Kind::Text(8)),
        ("OrderID", Kind::Text(16)),
        ("ClOrdID", Kind::Text(10)),
        ("OrigClOrdID", Kind::Text(10)),
        ("ExecID", Kind::Text(16)),
        ("ExecType", Kind::SzExecType),
        ("OrdStatus", Kind::OrdStatus),
        ("OrdRejReason", Kind::Nat(2)),
        ("LeavesQty", Kind::Shares(100)),
        ("CumQty", Kind::Shares(100)),
        ("Side", Kind::Side),
        ("OrdType", Kind::SzOrdType),
        ("OrderQty", Kind::Shares(100)),
        ("Price", Kind::Yuan(10000)),
        ("AccountID", Kind::Text(12)),
        ("BranchID", Kind::Text(4)),
        ("OrderRestrictions", Kind::Text(4)),
    ]
}

fn exec_rpt_cash_ack_defs() -> (r: Vec<FieldDef>)
    ensures
        r@ == exec_rpt_cash_ack_layout(),
        layout::all_readable(r@),
{
    let r: Vec<FieldDef> = vec![
        ("PartitionNo", Kind::Int(4)),
        ("ReportIndex", Kind::Int(8)),
        ("ApplID", Kind::ApplId),
        ("ReportingPBUId", Kind::Text(6)),
        ("SubmittingPBUId", Kind::Text(6)),
        ("SecurityID", Kind::Text(8)),
        ("SecurityIDSource", Kind::Text(4)),
        ("OwnerType", Kind::Nat(2)),
        ("ClearingFirm", Kind::Text(2)),
        ("TransactTime", Kind::SzTime),
        ("UserInfo", Kind::Text(8)),
        ("OrderID", Kind::Text(16)),
        ("ClOrdID", Kind::Text(10)),
        ("OrigClOrdID", Kind::Text(10)),
        ("ExecID", Kind::Text(16)),
        ("ExecType", Kind::SzExecType),
        ("OrdStatus", Kind::OrdStatus),
        ("OrdRejReason", Kind::Nat(2)),
        ("LeavesQty", Kind::Shares(100)),
        ("CumQty", Kind::Shares(100)),
        ("Side", Kind::Side),
        ("OrdType", Kind::SzOrdType),
        ("OrderQty", Kind::Shares(100)),
        ("Price", Kind::Yuan(10000)),
        ("AccountID", Kind::Text(12)),
        ("BranchID", Kind::Text(4)),
        ("OrderRestrictions", Kind::Text(4)),
    ];
    assert(r@ =~= exec_rpt_cash_ack_layout());
    r
}

/// The fields of an execution in the cash auction.
pub open spec fn exec_rpt_cash_trade_layout() -> Seq<FieldDef> {
    seq![
        ("PartitionNo", Kind::Int(4)),
        ("ReportIndex", Kind::Int(8)),
        ("ApplID", Kind::ApplId),
        ("ReportingPBUId", Kind::Text(6)),
        ("SubmittingPBUId", Kind::Text(6)),
        ("SecurityID", Kind::Text(8)),
        ("SecurityIDSource", Kind::Text(4)),
        ("OwnerType", Kind::Nat(2)),
        ("ClearingFirm", Kind::Text(2)),
        ("TransactTime", Kind::SzTime),
        ("UserInfo", Kind::Text(8)),
        ("OrderID", Kind::Text(16)),
        ("ClOrdID", Kind::Text(10)),
        ("ExecID", Kind::Text(16)),
        ("ExecType", Kind::SzExecType),
        ("OrdStatus", Kind::OrdStatus),
        ("LastPx", Kind::Yuan(10000)),
        ("LastQty", Kind::Shares(100)),
        ("LeavesQty", Kind::Shares(100)),
        ("CumQty", Kind::Shares(100)),
        ("Side", Kind::Side),
        ("AccountID", Kind::Text(12)),
        ("BranchID", Kind::Text(4)),
        ("CashMargin", Kind::Nat(1)),
    ]
}

fn exec_rpt_cash_trade_defs() -> (r: Vec<FieldDef>)
    ensures
        r@ == exec_rpt_cash_trade_layout(),
        layout::all_readable(r@),
{
    let r: Vec<FieldDef> = vec![
        ("PartitionNo", Kind::Int(4)),
        ("ReportIndex", Kind::Int(8)),
        ("ApplID", Kind::ApplId),
        ("ReportingPBUId", Kind::Text(6)),
        ("SubmittingPBUId", Kind::Text(6)),
        ("SecurityID", Kind::Text(8)),
        ("SecurityIDSource", Kind::Text(4)),
        ("OwnerType", Kind::Nat(2)),
        ("ClearingFirm", Kind::Text(2)),
        ("TransactTime", Kind::SzTime),
        ("UserInfo", Kind::Text(8)),
        ("OrderID", Kind::Text(16)),
        ("ClOrdID", Kind::Text(10)),
        ("ExecID", Kind::Text(16)),
        ("ExecType", Kind::SzExecType),
        ("OrdStatus", Kind::OrdStatus),
        ("LastPx", Kind::Yuan(10000)),
        ("LastQty", Kind::Shares(100)),
        ("LeavesQty", Kind::Shares(100)),
        ("CumQty", Kind::Shares(100)),
        ("Side", Kind::Side),
        ("AccountID", Kind::Text(12)),
        ("BranchID", Kind::Text(4)),
        ("CashMargin", Kind::Nat(1)),
    ];
    assert(r@ =~= exec_rpt_cash_trade_layout());
    r
}

/// The extension of orders and order responses of the cash auction.
pub open spec fn cash_extension_layout() -> Seq<FieldDef> {
    seq![
        ("StopPx", Kind::Yuan(10000)),
        ("MinQty", Kind::Shares(100)),
        ("MaxPriceLevels", Kind::Nat(2)),
        ("TimeInForce", Kind::Nat(1)),
        ("CashMargin", Kind::Nat(1)),
    ]
}

fn cash_extension_defs() -> (r: Vec<FieldDef>)
    ensures
        r@ == cash_extension_layout(),
        layout::all_readable(r@),
{
    let r: Vec<FieldDef> = vec![
        ("StopPx", Kind::Yuan(10000)),
        ("MinQty", Kind::Shares(100)),
        ("MaxPriceLevels", Kind::Nat(2)),
        ("TimeInForce", Kind::Nat(1)),
        ("CashMargin", Kind::Nat(1)),
    ];
    assert(r@ =~= cash_extension_layout());
    r
}

/// The fields of a platform information, without the partitions.
pub open spec fn platform_info_layout() -> Seq<FieldDef> {
    seq![
        ("PlatformID", Kind::Nat(2)),
        ("NoPartitions", Kind::Nat(4)),
    ]
}

fn platform_info_defs() -> (r: Vec<FieldDef>)
    ensures
        r@ == platform_info_layout(),
        layout::all_readable(r@),
{
    let r: Vec<FieldDef> = vec![
        ("PlatformID", Kind::Nat(2)),
        ("NoPartitions", Kind::Nat(4)),
    ];
    assert(r@ =~= platform_info_layout());
    r
}

/// A partition number, whose name is its position.
pub open spec fn partition_layout() -> Seq<FieldDef> {
    seq![
        ("", Kind::Int(4)),
    ]
}

fn partition_defs() -> (r: Vec<FieldDef>)
    ensures
        r@ == partition_layout(),
        layout::all_readable(r@),
{
    let r: Vec<FieldDef> = vec![
        ("", Kind::Int(4)),
    ];
    assert(r@ =~= partition_layout());
    r
}

/// The fields of a message, without extension and repeating groups; none where the type is
/// not described.
pub open spec fn layout_of(mt: u32) -> Seq<FieldDef> {
    if mt == msg_type::LOGON {
        logon_layout()
    } else if mt == msg_type::LOGOUT {
        logout_layout()
    } else if mt == msg_type::BUSINESS_REJECT {
        business_reject_layout()
    } else if mt == msg_type::PLATFORM_STATE {
        platform_state_layout()
    } else if mt == msg_type::REPORT_FINISHED {
        report_finished_layout()
    } else if mt == msg_type::NEW_ORDER_CASH {
        new_order_cash_layout()
    } else if mt == msg_type::ORDER_CANCEL_REQUEST {
        order_cancel_request_layout()
    } else if mt == msg_type::CANCEL_REJECT {
        cancel_reject_layout()
    } else if mt == msg_type::EXEC_RPT_CASH_ACK {
        exec_rpt_cash_ack_layout()
    } else if mt == msg_type::EXEC_RPT_CASH_TRADE {
        exec_rpt_cash_trade_layout()
    } else if mt == msg_type::PLATFORM_INFO {
        platform_info_layout()
    } else {
        Seq::empty()
    }
}

fn defs_of(mt: u32) -> (r: Vec<FieldDef>)
    ensures
        r@ == layout_of(mt),
        layout::all_readable(r@),
{
    if mt == msg_type::LOGON {
        logon_defs()
    } else if mt == msg_type::LOGOUT {
        logout_defs()
    } else if mt == msg_type::BUSINESS_REJECT {
        business_reject_defs()
    } else if mt == msg_type::PLATFORM_STATE {
        platform_state_defs()
    } else if mt == msg_type::REPORT_FINISHED {
        report_finished_defs()
    } else if mt == msg_type::NEW_ORDER_CASH {
        new_order_cash_defs()
    } else if mt == msg_type::ORDER_CANCEL_REQUEST {
        order_cancel_request_defs()
    } else if mt == msg_type::CANCEL_REJECT {
        cancel_reject_defs()
    } else if mt == msg_type::EXEC_RPT_CASH_ACK {
        exec_rpt_cash_ack_defs()
    } else if mt == msg_type::EXEC_RPT_CASH_TRADE {
        exec_rpt_cash_trade_defs()
    } else if mt == msg_type::PLATFORM_INFO {
        platform_info_defs()
    } else {
        Vec::new()
    }
}

/// The first field of every description: the message type.
pub open spec fn type_field(mt: u32) -> (Seq<char>, Seq<char>) {
    ("MsgType"@, type_text(mt) + " ("@ + text::dec(mt as nat) + ")"@)
}

/// A message in readable form: the type, then the fields of the body in their order. `None`
/// where the body is too short for its type.
pub open spec fn described(mt: u32, body: Seq<u8>) -> Progress {
    let start: Progress = Some((seq![type_field(mt)], 0));
    let p = layout::then_layout(start, body, Seq::empty(), layout_of(mt));
    if mt == msg_type::PLATFORM_INFO {
        layout::then_groups(
            p,
            body,
            "Partition"@,
            Seq::empty(),
            partition_layout(),
            nat_at(body, 2, 4) as nat,
        )
    } else if mt == msg_type::NEW_ORDER_CASH || mt == msg_type::EXEC_RPT_CASH_ACK {
        match p {
            Some((_, at)) if body.len() - at >= 20 => layout::then_layout(
                p,
                body,
                Seq::empty(),
                cash_extension_layout(),
            ),
            _ => p,
        }
    } else {
        p
    }
}

fn describe_body<'a>(mt: u32, body: &'a [u8]) -> (r: Result<Describer<'a>, ShortBody>)
    ensures
        r is Ok <==> described(mt, body@) is Some,
        r matches Ok(d) ==> d.progress() == described(mt, body@),
{
    let mut d = Describer::new(body);
    let mut name = msg_type_name(mt).to_owned();
    name.push_str(" (");
    text::push_dec(&mut name, mt as u64);
    name.push_str(")");
    d.note("MsgType", name);
    assert(Seq::<(Seq<char>, Seq<char>)>::empty().push(type_field(mt)) =~= seq![type_field(mt)]);
    let ghost start = d.progress();
    proof {
        layout::lemma_groups_of_none(
            body@,
            "Partition"@,
            Seq::empty(),
            partition_layout(),
            nat_at(body@, 2, 4) as nat,
        );
    }
    let defs = defs_of(mt);
    d.fields(&defs)?;
    if mt == msg_type::PLATFORM_INFO {
        proof {
            reveal_strlit("");
            assert(""@ =~= Seq::<char>::empty());
            layout::lemma_layout_fits(
                seq![type_field(mt)],
                0,
                body@,
                Seq::empty(),
                platform_info_layout(),
            );
            reveal_with_fuel(layout::total_width, 3);
            assert(platform_info_layout().drop_last() =~= seq![("PlatformID", Kind::Nat(2))]);
            assert(seq![("PlatformID", Kind::Nat(2))].drop_last() =~= Seq::<FieldDef>::empty());
        }
        let n: u64 = wire::read_be(body, 2, 4);
        proof {
            wire::lemma_pow256_values();
        }
        d.groups("Partition", "", &partition_defs(), n as u32)?;
    } else if mt == msg_type::NEW_ORDER_CASH || mt == msg_type::EXEC_RPT_CASH_ACK {
        if d.remaining() >= 20 {
            d.fields(&cash_extension_defs())?;
        }
    }
    Ok(d)
}

/// A message in readable form; no fields at all where the body is too short for its type.
pub fn describe_fields(mt: u32, body: &[u8]) -> (r: Vec<ParsedField>)
    ensures
        r@.map_values(|f: ParsedField| f@) == (match described(mt, body@) {
            Some((fields, _)) => fields,
            None => Seq::empty(),
        }),
{
    match describe_body(mt, body) {
        Ok(d) => d.into_fields(),
        Err(_) => {
            let none: Vec<ParsedField> = Vec::new();
            assert(none@.map_values(|f: ParsedField| f@) =~= Seq::<(Seq<char>, Seq<char>)>::empty());
            none
        },
    }
}

/// The part of an extension that an order response carries.
pub open spec fn ack_extend_bytes(mt: u32, e: OrderExtend) -> Seq<u8> {
    if mt == msg_type::EXEC_RPT_CASH_ACK {
        nil() + be(e.stop_px as int, 8) + be(e.min_qty as int, 8) + be(
            e.max_price_levels as int,
            2,
        ) + be(e.time_in_force as int, 1) + be(e.cash_margin as int, 1)
    } else if mt == msg_type::EXEC_RPT_BOND_REPO_ACK {
        nil() + be(e.stop_px as int, 8) + be(e.min_qty as int, 8) + be(
            e.max_price_levels as int,
            2,
        ) + be(e.time_in_force as int, 1)
    } else {
        nil()
    }
}

fn put_ack_extend(w: &mut BodyWriter, mt: u32, e: &OrderExtend)
    ensures
        final(w)@ == old(w)@ + ack_extend_bytes(mt, *e),
{
    if mt == msg_type::EXEC_RPT_CASH_ACK || mt == msg_type::EXEC_RPT_BOND_REPO_ACK {
        w.i64(e.stop_px);
        w.i64(e.min_qty);
        w.u16(e.max_price_levels);
        w.ch(e.time_in_force);
        if mt == msg_type::EXEC_RPT_CASH_ACK {
            w.ch(e.cash_margin);
        }
    }
    assert(w@ =~= old(w)@ + ack_extend_bytes(mt, *e));
}

/// The part of an extension that an execution carries.
pub open spec fn trade_extend_bytes(mt: u32, e: OrderExtend) -> Seq<u8> {
    if mt == msg_type::EXEC_RPT_CASH_TRADE {
        be(e.cash_margin as int, 1)
    } else {
        nil()
    }
}

fn put_trade_extend(w: &mut BodyWriter, mt: u32, e: &OrderExtend)
    ensures
        final(w)@ == old(w)@ + trade_extend_bytes(mt, *e),
{
    if mt == msg_type::EXEC_RPT_CASH_TRADE {
        w.ch(e.cash_margin);
    }
    assert(w@ =~= old(w)@ + trade_extend_bytes(mt, *e));
}

/// The response to an order of any business: accepted, cancelled or rejected.
#[derive(Debug, Clone, Default)]
pub struct ExecRptAck {
    pub msg_type: u32,
    /// The partition of the platform.
    pub partition_no: i32,
    /// The number of the report in its partition; filled in on sending.
    pub report_index: i64,
    pub appl_id: String,
    pub reporting_pbu_id: String,
    pub submitting_pbu_id: String,
    pub security_id: String,
    pub security_id_source: String,
    pub owner_type: u16,
    pub clearing_firm: String,
    pub transact_time: i64,
    pub user_info: String,
    /// The exchange's order number.
    pub order_id: String,
    pub cl_ord_id: String,
    pub orig_cl_ord_id: String,
    /// The exchange's execution number.
    pub exec_id: String,
    pub exec_type: u8,
    pub ord_status: u8,
    pub ord_rej_reason: u16,
    /// The open quantity.
    pub leaves_qty: i64,
    /// The executed quantity.
    pub cum_qty: i64,
    pub side: u8,
    pub ord_type: u8,
    pub order_qty: i64,
    pub price: i64,
    pub account_id: String,
    pub branch_id: String,
    pub order_restrictions: String,
    /// The extension; which part of it is sent depends on the message type.
    pub extend: OrderExtend,
}

/// The values of [`ExecRptAck`].
pub struct ExecRptAckView {
    pub msg_type: u32,
    pub partition_no: i32,
    pub report_index: i64,
    pub appl_id: Seq<char>,
    pub reporting_pbu_id: Seq<char>,
    pub submitting_pbu_id: Seq<char>,
    pub security_id: Seq<char>,
    pub security_id_source: Seq<char>,
    pub owner_type: u16,
    pub clearing_firm: Seq<char>,
    pub transact_time: i64,
    pub user_info: Seq<char>,
    pub order_id: Seq<char>,
    pub cl_ord_id: Seq<char>,
    pub orig_cl_ord_id: Seq<char>,
    pub exec_id: Seq<char>,
    pub exec_type: u8,
    pub ord_status: u8,
    pub ord_rej_reason: u16,
    pub leaves_qty: i64,
    pub cum_qty: i64,
    pub side: u8,
    pub ord_type: u8,
    pub order_qty: i64,
    pub price: i64,
    pub account_id: Seq<char>,
    pub branch_id: Seq<char>,
    pub order_restrictions: Seq<char>,
    pub extend: OrderExtend,
}

impl View for ExecRptAck {
    type V = ExecRptAckView;

    open spec fn view(&self) -> ExecRptAckView {
        ExecRptAckView {
            msg_type: self.msg_type,
            partition_no: self.partition_no,
            report_index: self.report_index,
            appl_id: self.appl_id@,
            reporting_pbu_id: self.reporting_pbu_id@,
            submitting_pbu_id: self.submitting_pbu_id@,
            security_id: self.security_id@,
            security_id_source: self.security_id_source@,
            owner_type: self.owner_type,
            clearing_firm: self.clearing_firm@,
            transact_time: self.transact_time,
            user_info: self.user_info@,
            order_id: self.order_id@,
            cl_ord_id: self.cl_ord_id@,
            orig_cl_ord_id: self.orig_cl_ord_id@,
            exec_id: self.exec_id@,
            exec_type: self.exec_type,
            ord_status: self.ord_status,
            ord_rej_reason: self.ord_rej_reason,
            leaves_qty: self.leaves_qty,
            cum_qty: self.cum_qty,
            side: self.side,
            ord_type: self.ord_type,
            order_qty: self.order_qty,
            price: self.price,
            account_id: self.account_id@,
            branch_id: self.branch_id@,
            order_restrictions: self.order_restrictions@,
            extend: self.extend,
        }
    }
}

impl ExecRptAckView {
    /// The message body, field by field.
    #[verifier::opaque]
    pub open spec fn body(self) -> Seq<u8> {
        nil()
            + be(self.partition_no as int, 4)
            + be(self.report_index as int, 8)
            + text_field(self.appl_id, 3)
            + text_field(self.reporting_pbu_id, 6)
            + text_field(self.submitting_pbu_id, 6)
            + text_field(self.security_id, 8)
            + text_field(self.security_id_source, 4)
            + be(self.owner_type as int, 2)
            + text_field(self.clearing_firm, 2)
            + be(self.transact_time as int, 8)
            + text_field(self.user_info, 8)
            + text_field(self.order_id, 16)
            + text_field(self.cl_ord_id, 10)
            + text_field(self.orig_cl_ord_id, 10)
            + text_field(self.exec_id, 16)
            + be(self.exec_type as int, 1)
            + be(self.ord_status as int, 1)
            + be(self.ord_rej_reason as int, 2)
            + be(self.leaves_qty as int, 8)
            + be(self.cum_qty as int, 8)
            + be(self.side as int, 1)
            + be(self.ord_type as int, 1)
            + be(self.order_qty as int, 8)
            + be(self.price as int, 8)
            + text_field(self.account_id, 12)
            + text_field(self.branch_id, 4)
            + text_field(self.order_restrictions, 4)
            + ack_extend_bytes(self.msg_type, self.extend)
    }

    /// The whole message.
    pub open spec fn frame(self) -> Seq<u8> {
        framed(self.msg_type, self.body())
    }
}

impl ExecRptAck {
    /// The whole message.
    pub fn encode(&self) -> (r: Vec<u8>)
        ensures
            r@ == self@.frame(),
    {
        proof {
            reveal(ExecRptAckView::body);
        }
        let mut w = BodyWriter::new();
        w.i32(self.partition_no);
        w.i64(self.report_index);
        w.str(self.appl_id.as_str(), 3);
        w.str(self.reporting_pbu_id.as_str(), 6);
        w.str(self.submitting_pbu_id.as_str(), 6);
        w.str(self.security_id.as_str(), 8);
        w.str(self.security_id_source.as_str(), 4);
        w.u16(self.owner_type);
        w.str(self.clearing_firm.as_str(), 2);
        w.i64(self.transact_time);
        w.str(self.user_info.as_str(), 8);
        w.str(self.order_id.as_str(), 16);
        w.str(self.cl_ord_id.as_str(), 10);
        w.str(self.orig_cl_ord_id.as_str(), 10);
        w.str(self.exec_id.as_str(), 16);
        w.ch(self.exec_type);
        w.ch(self.ord_status);
        w.u16(self.ord_rej_reason);
        w.i64(self.leaves_qty);
        w.i64(self.cum_qty);
        w.ch(self.side);
        w.ch(self.ord_type);
        w.i64(self.order_qty);
        w.i64(self.price);
        w.str(self.account_id.as_str(), 12);
        w.str(self.branch_id.as_str(), 4);
        w.str(self.order_restrictions.as_str(), 4);
        put_ack_extend(&mut w, self.msg_type, &self.extend);
        frame(self.msg_type, w.into_inner().as_slice())
    }
}

/// An execution of an order of any business.
#[derive(Debug, Clone, Default)]
pub struct ExecRptTrade {
    pub msg_type: u32,
    pub partition_no: i32,
    pub report_index: i64,
    pub appl_id: String,
    pub reporting_pbu_id: String,
    pub submitting_pbu_id: String,
    pub security_id: String,
    pub security_id_source: String,
    pub owner_type: u16,
    pub clearing_firm: String,
    pub transact_time: i64,
    pub user_info: String,
    pub order_id: String,
    pub cl_ord_id: String,
    pub exec_id: String,
    pub exec_type: u8,
    pub ord_status: u8,
    /// The price of this execution.
    pub last_px: i64,
    /// The quantity of this execution.
    pub last_qty: i64,
    pub leaves_qty: i64,
    pub cum_qty: i64,
    pub side: u8,
    pub account_id: String,
    pub branch_id: String,
    /// The extension; which part of it is sent depends on the message type.
    pub extend: OrderExtend,
}

/// The values of [`ExecRptTrade`].
pub struct ExecRptTradeView {
    pub msg_type: u32,
    pub partition_no: i32,
    pub report_index: i64,
    pub appl_id: Seq<char>,
    pub reporting_pbu_id: Seq<char>,
    pub submitting_pbu_id: Seq<char>,
    pub security_id: Seq<char>,
    pub security_id_source: Seq<char>,
    pub owner_type: u16,
    pub clearing_firm: Seq<char>,
    pub transact_time: i64,
    pub user_info: Seq<char>,
    pub order_id: Seq<char>,
    pub cl_ord_id: Seq<char>,
    pub exec_id: Seq<char>,
    pub exec_type: u8,
    pub ord_status: u8,
    pub last_px: i64,
    pub last_qty: i64,
    pub leaves_qty: i64,
    pub cum_qty: i64,
    pub side: u8,
    pub account_id: Seq<char>,
    pub branch_id: Seq<char>,
    pub extend: OrderExtend,
}

impl View for ExecRptTrade {
    type V = ExecRptTradeView;

    open spec fn view(&self) -> ExecRptTradeView {
        ExecRptTradeView {
            msg_type: self.msg_type,
            partition_no: self.partition_no,
            report_index: self.report_index,
            appl_id: self.appl_id@,
            reporting_pbu_id: self.reporting_pbu_id@,
            submitting_pbu_id: self.submitting_pbu_id@,
            security_id: self.security_id@,
            security_id_source: self.security_id_source@,
            owner_type: self.owner_type,
            clearing_firm: self.clearing_firm@,
            transact_time: self.transact_time,
            user_info: self.user_info@,
            order_id: self.order_id@,
            cl_ord_id: self.cl_ord_id@,
            exec_id: self.exec_id@,
            exec_type: self.exec_type,
            ord_status: self.ord_status,
            last_px: self.last_px,
            last_qty: self.last_qty,
            leaves_qty: self.leaves_qty,
            cum_qty: self.cum_qty,
            side: self.side,
            account_id: self.account_id@,
            branch_id: self.branch_id@,
            extend: self.extend,
        }
    }
}

impl ExecRptTradeView {
    /// The message body, field by field.
    #[verifier::opaque]
    pub open spec fn body(self) -> Seq<u8> {
        nil()
            + be(self.partition_no as int, 4)
            + be(self.report_index as int, 8)
            + text_field(self.appl_id, 3)
            + text_field(self.reporting_pbu_id, 6)
            + text_field(self.submitting_pbu_id, 6)
            + text_field(self.security_id, 8)
            + text_field(self.security_id_source, 4)
            + be(self.owner_type as int, 2)
            + text_field(self.clearing_firm, 2)
            + be(self.transact_time as int, 8)
            + text_field(self.user_info, 8)
            + text_field(self.order_id, 16)
            + text_field(self.cl_ord_id, 10)
            + text_field(self.exec_id, 16)
            + be(self.exec_type as int, 1)
            + be(self.ord_status as int, 1)
            + be(self.last_px as int, 8)
            + be(self.last_qty as int, 8)
            + be(self.leaves_qty as int, 8)
            + be(self.cum_qty as int, 8)
            + be(self.side as int, 1)
            + text_field(self.account_id, 12)
            + text_field(self.branch_id, 4)
            + trade_extend_bytes(self.msg_type, self.extend)
    }

    /// The whole message.
    pub open spec fn frame(self) -> Seq<u8> {
        framed(self.msg_type, self.body())
    }
}

impl ExecRptTrade {
    /// The whole message.
    pub fn encode(&self) -> (r: Vec<u8>)
        ensures
            r@ == self@.frame(),
    {
        proof {
            reveal(ExecRptTradeView::body);
        }
        let mut w = BodyWriter::new();
        w.i32(self.partition_no);
        w.i64(self.report_index);
        w.str(self.appl_id.as_str(), 3);
        w.str(self.reporting_pbu_id.as_str(), 6);
        w.str(self.submitting_pbu_id.as_str(), 6);
        w.str(self.security_id.as_str(), 8);
        w.str(self.security_id_source.as_str(), 4);
        w.u16(self.owner_type);
        w.str(self.clearing_firm.as_str(), 2);
        w.i64(self.transact_time);
        w.str(self.user_info.as_str(), 8);
        w.str(self.order_id.as_str(), 16);
        w.str(self.cl_ord_id.as_str(), 10);
        w.str(self.exec_id.as_str(), 16);
        w.ch(self.exec_type);
        w.ch(self.ord_status);
        w.i64(self.last_px);
        w.i64(self.last_qty);
        w.i64(self.leaves_qty);
        w.i64(self.cum_qty);
        w.ch(self.side);
        w.str(self.account_id.as_str(), 12);
        w.str(self.branch_id.as_str(), 4);
        put_trade_extend(&mut w, self.msg_type, &self.extend);
        frame(self.msg_type, w.into_inner().as_slice())
    }
}

/// The values that the body of an execution of type `mt` holds.
pub open spec fn trade_of(mt: u32, body: Seq<u8>) -> ExecRptTradeView {
    let cash = mt == msg_type::EXEC_RPT_CASH_TRADE && body.len() >= 153;
    ExecRptTradeView {
            msg_type: mt,
            partition_no: int_at(body, 0, 4) as i32,
            report_index: int_at(body, 4, 8) as i64,
            appl_id: text_at(body, 12, 3),
            reporting_pbu_id: text_at(body, 15, 6),
            submitting_pbu_id: text_at(body, 21, 6),
            security_id: text_at(body, 27, 8),
            security_id_source: text_at(body, 35, 4),
            owner_type: nat_at(body, 39, 2) as u16,
            clearing_firm: text_at(body, 41, 2),
            transact_time: int_at(body, 43, 8) as i64,
            user_info: text_at(body, 51, 8),
            order_id: text_at(body, 59, 16),
            cl_ord_id: text_at(body, 75, 10),
            exec_id: text_at(body, 85, 16),
            exec_type: nat_at(body, 101, 1) as u8,
            ord_status: nat_at(body, 102, 1) as u8,
            last_px: int_at(body, 103, 8) as i64,
            last_qty: int_at(body, 111, 8) as i64,
            leaves_qty: int_at(body, 119, 8) as i64,
            cum_qty: int_at(body, 127, 8) as i64,
            side: nat_at(body, 135, 1) as u8,
            account_id: text_at(body, 136, 12),
            branch_id: text_at(body, 148, 4),
            extend: OrderExtend {
            cash_margin: if cash {
                nat_at(body, 152, 1) as u8
            } else {
                0
            },
            ..no_extend()
        },
    }
}

impl ExecRptTrade {
    /// Reads the body of an execution of type `mt`.
    pub fn decode(mt: u32, body: &[u8]) -> (r: Result<Self, ShortBody>)
        ensures
            r is Ok <==> body@.len() >= 152,
            r matches Ok(v) ==> v@ == trade_of(mt, body@),
    {
        let mut r = BodyReader::new(body);
        let partition_no: i32 = r.i32()?;
        let report_index: i64 = r.i64()?;
        let appl_id: String = r.str(3)?;
        let reporting_pbu_id: String = r.str(6)?;
        let submitting_pbu_id: String = r.str(6)?;
        let security_id: String = r.str(8)?;
        let security_id_source: String = r.str(4)?;
        let owner_type: u16 = r.u16()?;
        let clearing_firm: String = r.str(2)?;
        let transact_time: i64 = r.i64()?;
        let user_info: String = r.str(8)?;
        let order_id: String = r.str(16)?;
        let cl_ord_id: String = r.str(10)?;
        let exec_id: String = r.str(16)?;
        let exec_type: u8 = r.ch()?;
        let ord_status: u8 = r.ch()?;
        let last_px: i64 = r.i64()?;
        let last_qty: i64 = r.i64()?;
        let leaves_qty: i64 = r.i64()?;
        let cum_qty: i64 = r.i64()?;
        let side: u8 = r.ch()?;
        let account_id: String = r.str(12)?;
        let branch_id: String = r.str(4)?;
        let mut extend = OrderExtend {
            stop_px: 0,
            min_qty: 0,
            max_price_levels: 0,
            time_in_force: 0,
            cash_margin: 0,
        };
        if mt == msg_type::EXEC_RPT_CASH_TRADE {
            if let Ok(c) = r.ch() {
                extend.cash_margin = c;
            }
        }
        Ok(
            ExecRptTrade {
                msg_type: mt,
                partition_no,
                report_index,
                appl_id,
                reporting_pbu_id,
                submitting_pbu_id,
                security_id,
                security_id_source,
                owner_type,
                clearing_firm,
                transact_time,
                user_info,
                order_id,
                cl_ord_id,
                exec_id,
                exec_type,
                ord_status,
                last_px,
                last_qty,
                leaves_qty,
                cum_qty,
                side,
                account_id,
                branch_id,
                extend,
            },
        )
    }
}

/// One partition of a synchronisation request.
#[derive(Debug, Clone, Copy, PartialEq, Eq, Structural)]
pub struct SyncPartition {
    pub partition_no: i32,
    /// The first report that is wanted.
    pub report_index: i64,
}

/// The partition in the 12 bytes that start at `at`.
pub open spec fn sync_partition_at(body: Seq<u8>, at: int) -> SyncPartition {
    SyncPartition {
        partition_no: int_at(body, at, 4) as i32,
        report_index: int_at(body, at + 4, 8) as i64,
    }
}

/// The partitions of a synchronisation request.
pub open spec fn sync_partitions(body: Seq<u8>) -> Seq<SyncPartition> {
    Seq::new(nat_at(body, 0, 4) as nat, |i: int| sync_partition_at(body, 4 + 12 * i))
}

/// Whether a body holds the partitions that it announces.
pub open spec fn sync_complete(body: Seq<u8>) -> bool {
    body.len() >= 4 && body.len() >= 4 + 12 * nat_at(body, 0, 4)
}

/// A request to send reports again.
#[derive(Debug)]
pub struct ReportSync {
    pub partitions: Vec<SyncPartition>,
}

impl ReportSync {
    /// Reads a synchronisation request.
    pub fn decode(body: &[u8]) -> (r: Result<Self, ShortBody>)
        ensures
            r is Ok <==> sync_complete(body@),
            r matches Ok(v) ==> v.partitions@ == sync_partitions(body@),
    {
        let mut r = BodyReader::new(body);
        let n: u32 = r.u32()?;
        let mut partitions: Vec<SyncPartition> = Vec::new();
        let mut i: u32 = 0;
        while i < n
            invariant
                i <= n,
                n == nat_at(body@, 0, 4),
                r.wf(),
                r.body() == body@,
                r.at() == 4 + 12 * i,
                body@.len() >= 4 + 12 * i,
                partitions@.len() == i,
                forall|k: int|
                    0 <= k < i ==> #[trigger] partitions@[k] == sync_partition_at(body@, 4 + 12 * k),
            decreases n - i,
        {
            let partition_no: i32 = r.i32()?;
            let report_index: i64 = r.i64()?;
            partitions.push(SyncPartition { partition_no, report_index });
            i += 1;
        }
        assert(partitions@ =~= sync_partitions(body@));
        Ok(ReportSync { partitions })
    }
}

} // verus!
