//! The binary interface of the Shanghai exchange's auction platform: message frames,
//! message bodies and their readable form.
//!
//! A message is a type of four bytes, a sequence number of eight, a body length of four,
//! the body, and a check value of four bytes. Integers are big-endian. Prices are in
//! hundred-thousandths of a yuan, quantities in thousandths of a share, dates are
//! `YYYYMMDD`, times `HHMMSSsssnnnn`.
//!
//! Messages are encoded with sequence number 0; [`finalize_seq`] puts in the number when a
//! message is sent, so that numbers follow the order of sending.
use vstd::prelude::*;
use vstd::utf8::*;

use crate::capture::ParsedField;
use crate::clock;
use crate::layout;
use crate::layout::{Describer, FieldDef, Kind, Progress};
use crate::text;
use crate::wire;
use crate::wire::{be, int_at, nat_at, nil, text_at, text_field, ShortBody};

pub use crate::layout::{ord_status_label, side_label};
pub use crate::text::fmt_scaled;
pub use crate::wire::{BodyReader, BodyWriter};

pub mod designation_instruction;
pub mod exec_type;
pub mod msg_type;
pub mod ord_status;
pub mod platform_state;

verus! {

/// The cash auction, the only business with partial fills and several partitions.
pub const BIZ_ID_CASH_AUCTION: u32 = 100_010;

pub const BIZ_ID_ISSUE: u32 = 300_010;

pub const BIZ_ID_RIGHTS: u32 = 300_020;

pub const BIZ_ID_RIGHTS_BOND: u32 = 300_021;

pub const BIZ_ID_TENDER_ACCEPT: u32 = 300_030;

pub const BIZ_ID_TENDER_CANCEL: u32 = 300_031;

pub const BIZ_ID_FUND_SUB: u32 = 300_040;

pub const BIZ_ID_FUND_RED: u32 = 300_041;

pub const BIZ_ID_FUND_SUB_ISSUE: u32 = 300_050;

pub const BIZ_ID_FUND_TRANSFER: u32 = 300_060;

pub const BIZ_ID_FUND_DIVIDEND: u32 = 300_070;

pub const BIZ_ID_FUND_CONVERT: u32 = 300_080;

pub const BIZ_ID_REMAIN_TRANSFER: u32 = 300_090;

pub const BIZ_ID_RETURN_TRANSFER: u32 = 300_091;

pub const BIZ_ID_COLLATERAL_IN: u32 = 300_092;

pub const BIZ_ID_COLLATERAL_OUT: u32 = 300_093;

pub const BIZ_ID_SEC_SRC_IN: u32 = 300_094;

pub const BIZ_ID_SEC_SRC_OUT: u32 = 300_095;

/// The password service, which has messages of its own.
pub const BIZ_ID_PWD_SERVICE: u32 = 300_100;

/// Designation, which has messages of its own.
pub const BIZ_ID_DESIGNATION: u32 = 300_200;

/// Revocation of a designation, which has messages of its own.
pub const BIZ_ID_DESIGNATION_CANCEL: u32 = 300_201;

/// The partition that all businesses but the cash auction share.
pub const SET_ID_OTHER_BIZ: u32 = 991;

/// The partition of designations.
pub const SET_ID_DESIGNATION: u32 = 992;

/// The bytes that the check value is computed over: head and body.
pub open spec fn unchecked(mt: u32, seq: u64, body: Seq<u8>) -> Seq<u8> {
    be(mt as int, 4) + be(seq as int, 8) + be(body.len() as int, 4) + body
}

/// A message that is numbered `seq`.
pub open spec fn framed_as(mt: u32, seq: u64, body: Seq<u8>) -> Seq<u8> {
    unchecked(mt, seq, body) + be(wire::check_sum(unchecked(mt, seq, body)), 4)
}

/// A message that is not numbered yet.
pub open spec fn framed(mt: u32, body: Seq<u8>) -> Seq<u8> {
    framed_as(mt, 0, body)
}

/// The length field and the check value of a message are right.
pub open spec fn well_framed(f: Seq<u8>) -> bool {
    &&& f.len() >= 20
    &&& nat_at(f, 12, 4) == f.len() - 20
    &&& nat_at(f, f.len() - 4, 4) == wire::check_sum(f.subrange(0, f.len() - 4))
}

/// The check value: the sum of the bytes modulo 256.
pub fn checksum(data: &[u8]) -> (r: u32)
    ensures
        r == wire::check_sum(data@),
{
    let r: u32 = wire::sum_bytes(data, data.len());
    assert(data@.subrange(0, data@.len() as int) =~= data@);
    r
}

/// The reports, whose bodies start with trading unit, partition and report index.
pub open spec fn is_report(mt: u32) -> bool {
    mt == 32 || mt == 59 || mt == 103 || mt == 302
}

pub fn is_report_frame(mt: u32) -> (r: bool)
    ensures
        r == is_report(mt),
{
    mt == 32 || mt == 59 || mt == 103 || mt == 302
}

/// Puts head and check value around a body.
pub fn frame(msg_type: u32, body: &[u8]) -> (r: Vec<u8>)
    ensures
        r@ == framed(msg_type, body@),
{
    let mut out: Vec<u8> = Vec::new();
    wire::append_be(&mut out, msg_type as u64, 4);
    wire::append_be(&mut out, 0, 8);
    wire::append_be(&mut out, body.len() as u64, 4);
    wire::append_bytes(&mut out, body);
    assert(out@ =~= unchecked(msg_type, 0, body@));
    let sum: u32 = checksum(out.as_slice());
    wire::append_be(&mut out, sum as u64, 4);
    out
}

/// A report with the given report index and the check value that goes with it.
pub open spec fn with_report_index(f: Seq<u8>, index: u64) -> Seq<u8> {
    wire::resealed(wire::overlaid(f, 28, be(index as int, 8)))
}

/// Writes the report index into a report and renews its check value.
pub fn patch_report_index(frame: &mut Vec<u8>, report_index: u64)
    requires
        old(frame)@.len() >= 36,
    ensures
        final(frame)@ == with_report_index(old(frame)@, report_index),
{
    let mut bytes: Vec<u8> = Vec::new();
    wire::append_be(&mut bytes, report_index, 8);
    proof {
        wire::lemma_be_len(report_index as int, 8);
        assert(bytes@ =~= be(report_index as int, 8));
    }
    wire::overlay(frame, 28, &bytes);
    wire::reseal(frame);
}

/// A message with the given sequence number and the check value that goes with it.
pub open spec fn with_seq(f: Seq<u8>, seq: u64) -> Seq<u8> {
    wire::resealed(wire::overlaid(f, 4, be(seq as int, 8)))
}

/// Writes the sequence number into a message and renews its check value.
pub fn finalize_seq(frame: &mut Vec<u8>, seq: u64)
    requires
        old(frame)@.len() >= 12,
    ensures
        final(frame)@ == with_seq(old(frame)@, seq),
{
    let mut bytes: Vec<u8> = Vec::new();
    wire::append_be(&mut bytes, seq, 8);
    proof {
        wire::lemma_be_len(seq as int, 8);
        assert(bytes@ =~= be(seq as int, 8));
    }
    wire::overlay(frame, 4, &bytes);
    wire::reseal(frame);
}

/// A framed message has the right length field and the right check value, and its type,
/// number and body can be read back from it.
pub proof fn law_framed(mt: u32, seq: u64, body: Seq<u8>)
    requires
        body.len() < 0x1_0000_0000,
    ensures
        well_framed(framed_as(mt, seq, body)),
        framed_as(mt, seq, body).len() == body.len() + 20,
        nat_at(framed_as(mt, seq, body), 0, 4) == mt,
        nat_at(framed_as(mt, seq, body), 4, 8) == seq,
        framed_as(mt, seq, body).subrange(16, body.len() + 16int) == body,
{
    let head = unchecked(mt, seq, body);
    let f = framed_as(mt, seq, body);
    let sum = wire::check_sum(head);
    wire::lemma_be_len(mt as int, 4);
    wire::lemma_be_len(seq as int, 8);
    wire::lemma_be_len(body.len() as int, 4);
    wire::lemma_be_len(sum, 4);
    wire::lemma_pow256_values();
    assert(f.subrange(0, 4) =~= be(mt as int, 4));
    assert(f.subrange(4, 12) =~= be(seq as int, 8));
    assert(f.subrange(12, 16) =~= be(body.len() as int, 4));
    assert(f.subrange(16, body.len() + 16int) =~= body);
    assert(f.subrange(f.len() - 4, f.len() as int) =~= be(sum, 4));
    assert(f.subrange(0, f.len() - 4) =~= head);
    wire::lemma_be_nat_inverse(mt as int, 4);
    wire::lemma_be_nat_inverse(seq as int, 8);
    wire::lemma_be_nat_inverse(body.len() as int, 4);
    wire::lemma_be_nat_inverse(sum, 4);
}

/// Numbering a message gives the message that would have been framed with that number.
pub proof fn law_finalize_seq(mt: u32, body: Seq<u8>, seq: u64)
    ensures
        with_seq(framed(mt, body), seq) == framed_as(mt, seq, body),
{
    let f = framed(mt, body);
    wire::lemma_be_len(mt as int, 4);
    wire::lemma_be_len(0, 8);
    wire::lemma_be_len(seq as int, 8);
    wire::lemma_be_len(body.len() as int, 4);
    wire::lemma_be_len(wire::check_sum(unchecked(mt, 0, body)), 4);
    let g = wire::overlaid(f, 4, be(seq as int, 8));
    assert(g.subrange(0, g.len() - 4) =~= unchecked(mt, seq, body));
}

/// Numbering a report changes its report index and its check value and nothing else;
/// the message stays well framed.
pub proof fn law_report_index(f: Seq<u8>, index: u64)
    requires
        well_framed(f),
        f.len() >= 40,
    ensures
        well_framed(with_report_index(f, index)),
        with_report_index(f, index).len() == f.len(),
        nat_at(with_report_index(f, index), 28, 8) == index,
        forall|i: int|
            0 <= i < f.len() - 4 && !(28 <= i < 36) ==> with_report_index(f, index)[i] == f[i],
{
    let g = with_report_index(f, index);
    wire::lemma_be_len(index as int, 8);
    wire::lemma_pow256_values();
    wire::lemma_resealed(wire::overlaid(f, 28, be(index as int, 8)));
    assert(g.subrange(28, 36) =~= be(index as int, 8));
    wire::lemma_be_nat_inverse(index as int, 8);
    assert(g.subrange(12, 16) =~= f.subrange(12, 16));
}

/// The current local date.
pub fn now_date() -> (r: u32)
    ensures
        exists|t: clock::LocalTime| t.wf() && r == #[trigger] clock::date_of(t),
{
    let now = clock::local_now();
    let r: u32 = clock::date(&now);
    assert(now.wf() && r == clock::date_of(now));
    r
}

/// The current local time of day.
pub fn now_ntime() -> (r: u64)
    ensures
        exists|t: clock::LocalTime| t.wf() && r == #[trigger] clock::ntime_of(t),
{
    let now = clock::local_now();
    let r: u64 = clock::ntime(&now);
    assert(now.wf() && r == clock::ntime_of(now));
    r
}

/// A logon, the same in both directions.
#[derive(Debug, Clone, Default)]
pub struct Logon {
    pub sender_comp_id: String,
    pub target_comp_id: String,
    /// The heartbeat interval in seconds.
    pub heart_bt_int: u16,
    pub prtcl_version: String,
    pub trade_date: u32,
    /// The size of the sliding window.
    pub qsize: u32,
}

/// The values of [`Logon`].
pub struct LogonView {
    pub sender_comp_id: Seq<char>,
    pub target_comp_id: Seq<char>,
    pub heart_bt_int: u16,
    pub prtcl_version: Seq<char>,
    pub trade_date: u32,
    pub qsize: u32,
}

impl View for Logon {
    type V = LogonView;

    open spec fn view(&self) -> LogonView {
        LogonView {
            sender_comp_id: self.sender_comp_id@,
            target_comp_id: self.target_comp_id@,
            heart_bt_int: self.heart_bt_int,
            prtcl_version: self.prtcl_version@,
            trade_date: self.trade_date,
            qsize: self.qsize,
        }
    }
}

impl LogonView {
    /// The message body, field by field.
    #[verifier::opaque]
    pub open spec fn body(self) -> Seq<u8> {
        nil()
            + text_field(self.sender_comp_id, 32)
            + text_field(self.target_comp_id, 32)
            + be(self.heart_bt_int as int, 2)
            + text_field(self.prtcl_version, 8)
            + be(self.trade_date as int, 4)
            + be(self.qsize as int, 4)
    }

    /// The values that a body holds.
    pub open spec fn of(body: Seq<u8>) -> Self {
        LogonView {
            sender_comp_id: text_at(body, 0, 32),
            target_comp_id: text_at(body, 32, 32),
            heart_bt_int: nat_at(body, 64, 2) as u16,
            prtcl_version: text_at(body, 66, 8),
            trade_date: nat_at(body, 74, 4) as u32,
            qsize: nat_at(body, 78, 4) as u32,
        }
    }
}

impl Logon {
    /// The length of the body.
    pub const BODY_LEN: usize = 82;

    /// Reads a body; bytes behind the last field are ignored.
    pub fn decode(body: &[u8]) -> (r: Result<Self, ShortBody>)
        ensures
            r is Ok <==> body@.len() >= 82,
            r matches Ok(v) ==> v@ == LogonView::of(body@),
    {
        let mut r = BodyReader::new(body);
        let sender_comp_id: String = r.str(32)?;
        let target_comp_id: String = r.str(32)?;
        let heart_bt_int: u16 = r.u16()?;
        let prtcl_version: String = r.str(8)?;
        let trade_date: u32 = r.u32()?;
        let qsize: u32 = r.u32()?;
        Ok(Logon { sender_comp_id, target_comp_id, heart_bt_int, prtcl_version, trade_date, qsize })
    }

    /// The whole message.
    pub fn encode(&self) -> (r: Vec<u8>)
        ensures
            r@ == framed(msg_type::LOGON, self@.body()),
    {
        proof {
            reveal(LogonView::body);
        }
        let mut w = BodyWriter::new();
        w.str(self.sender_comp_id.as_str(), 32);
        w.str(self.target_comp_id.as_str(), 32);
        w.u16(self.heart_bt_int);
        w.str(self.prtcl_version.as_str(), 8);
        w.u32(self.trade_date);
        w.u32(self.qsize);
        frame(msg_type::LOGON, w.into_inner().as_slice())
    }
}

/// A logout; status 0 is a regular one.
#[derive(Debug, Clone, Default)]
pub struct Logout {
    pub session_status: u32,
    pub text: String,
}

/// The values of [`Logout`].
pub struct LogoutView {
    pub session_status: u32,
    pub text: Seq<char>,
}

impl View for Logout {
    type V = LogoutView;

    open spec fn view(&self) -> LogoutView {
        LogoutView {
            session_status: self.session_status,
            text: self.text@,
        }
    }
}

impl LogoutView {
    /// The message body, field by field.
    #[verifier::opaque]
    pub open spec fn body(self) -> Seq<u8> {
        nil()
            + be(self.session_status as int, 4)
            + text_field(self.text, 64)
    }

    /// The values that a body holds.
    pub open spec fn of(body: Seq<u8>) -> Self {
        LogoutView {
            session_status: nat_at(body, 0, 4) as u32,
            text: text_at(body, 4, 64),
        }
    }
}

impl Logout {
    /// Reads a body; bytes behind the last field are ignored.
    pub fn decode(body: &[u8]) -> (r: Result<Self, ShortBody>)
        ensures
            r is Ok <==> body@.len() >= 68,
            r matches Ok(v) ==> v@ == LogoutView::of(body@),
    {
        let mut r = BodyReader::new(body);
        let session_status: u32 = r.u32()?;
        let text: String = r.str(64)?;
        Ok(Logout { session_status, text })
    }

    /// The whole message.
    pub fn encode(&self) -> (r: Vec<u8>)
        ensures
            r@ == framed(msg_type::LOGOUT, self@.body()),
    {
        proof {
            reveal(LogoutView::body);
        }
        let mut w = BodyWriter::new();
        w.u32(self.session_status);
        w.str(self.text.as_str(), 64);
        frame(msg_type::LOGOUT, w.into_inner().as_slice())
    }
}

/// A request to cancel an order.
#[derive(Debug, Clone, Default)]
pub struct CancelOrder {
    pub biz_id: u32,
    pub biz_pbu: String,
    pub cl_ord_id: String,
    pub security_id: String,
    pub account: String,
    pub owner_type: u8,
    pub side: u8,
    /// The order to be cancelled.
    pub orig_cl_ord_id: String,
    pub transact_time: u64,
    pub branch_id: String,
    pub user_info: String,
}

/// The values of [`CancelOrder`].
pub struct CancelOrderView {
    pub biz_id: u32,
    pub biz_pbu: Seq<char>,
    pub cl_ord_id: Seq<char>,
    pub security_id: Seq<char>,
    pub account: Seq<char>,
    pub owner_type: u8,
    pub side: u8,
    pub orig_cl_ord_id: Seq<char>,
    pub transact_time: u64,
    pub branch_id: Seq<char>,
    pub user_info: Seq<char>,
}

impl View for CancelOrder {
    type V = CancelOrderView;

    open spec fn view(&self) -> CancelOrderView {
        CancelOrderView {
            biz_id: self.biz_id,
            biz_pbu: self.biz_pbu@,
            cl_ord_id: self.cl_ord_id@,
            security_id: self.security_id@,
            account: self.account@,
            owner_type: self.owner_type,
            side: self.side,
            orig_cl_ord_id: self.orig_cl_ord_id@,
            transact_time: self.transact_time,
            branch_id: self.branch_id@,
            user_info: self.user_info@,
        }
    }
}

impl CancelOrderView {
    /// The values that a body holds.
    pub open spec fn of(body: Seq<u8>) -> Self {
        CancelOrderView {
            biz_id: nat_at(body, 0, 4) as u32,
            biz_pbu: text_at(body, 4, 8),
            cl_ord_id: text_at(body, 12, 10),
            security_id: text_at(body, 22, 12),
            account: text_at(body, 34, 13),
            owner_type: nat_at(body, 47, 1) as u8,
            side: nat_at(body, 48, 1) as u8,
            orig_cl_ord_id: text_at(body, 49, 10),
            transact_time: nat_at(body, 59, 8) as u64,
            branch_id: text_at(body, 67, 8),
            user_info: text_at(body, 75, 32),
        }
    }
}

impl CancelOrder {
    /// The length of the body.
    pub const BODY_LEN: usize = 107;

    /// Reads a body; bytes behind the last field are ignored.
    pub fn decode(body: &[u8]) -> (r: Result<Self, ShortBody>)
        ensures
            r is Ok <==> body@.len() >= 107,
            r matches Ok(v) ==> v@ == CancelOrderView::of(body@),
    {
        let mut r = BodyReader::new(body);
        let biz_id: u32 = r.u32()?;
        let biz_pbu: String = r.str(8)?;
        let cl_ord_id: String = r.str(10)?;
        let security_id: String = r.str(12)?;
        let account: String = r.str(13)?;
        let owner_type: u8 = r.u8()?;
        let side: u8 = r.ch()?;
        let orig_cl_ord_id: String = r.str(10)?;
        let transact_time: u64 = r.u64()?;
        let branch_id: String = r.str(8)?;
        let user_info: String = r.str(32)?;
        Ok(CancelOrder { biz_id, biz_pbu, cl_ord_id, security_id, account, owner_type, side, orig_cl_ord_id, transact_time, branch_id, user_info })
    }

}

/// The refusal of a cancel request.
#[derive(Debug, Clone, Default)]
pub struct CancelReject {
    pub pbu: String,
    pub set_id: u32,
    pub report_index: u64,
    pub biz_id: u32,
    pub biz_pbu: String,
    pub cl_ord_id: String,
    pub security_id: String,
    pub orig_cl_ord_id: String,
    pub branch_id: String,
    pub cxl_rej_reason: u32,
    pub trade_date: u32,
    pub transact_time: u64,
    pub user_info: String,
}

/// The values of [`CancelReject`].
pub struct CancelRejectView {
    pub pbu: Seq<char>,
    pub set_id: u32,
    pub report_index: u64,
    pub biz_id: u32,
    pub biz_pbu: Seq<char>,
    pub cl_ord_id: Seq<char>,
    pub security_id: Seq<char>,
    pub orig_cl_ord_id: Seq<char>,
    pub branch_id: Seq<char>,
    pub cxl_rej_reason: u32,
    pub trade_date: u32,
    pub transact_time: u64,
    pub user_info: Seq<char>,
}

impl View for CancelReject {
    type V = CancelRejectView;

    open spec fn view(&self) -> CancelRejectView {
        CancelRejectView {
            pbu: self.pbu@,
            set_id: self.set_id,
            report_index: self.report_index,
            biz_id: self.biz_id,
            biz_pbu: self.biz_pbu@,
            cl_ord_id: self.cl_ord_id@,
            security_id: self.security_id@,
            orig_cl_ord_id: self.orig_cl_ord_id@,
            branch_id: self.branch_id@,
            cxl_rej_reason: self.cxl_rej_reason,
            trade_date: self.trade_date,
            transact_time: self.transact_time,
            user_info: self.user_info@,
        }
    }
}

impl CancelRejectView {
    /// The message body, field by field.
    #[verifier::opaque]
    pub open spec fn body(self) -> Seq<u8> {
        nil()
            + text_field(self.pbu, 8)
            + be(self.set_id as int, 4)
            + be(self.report_index as int, 8)
            + be(self.biz_id as int, 4)
            + text_field(self.biz_pbu, 8)
            + text_field(self.cl_ord_id, 10)
            + text_field(self.security_id, 12)
            + text_field(self.orig_cl_ord_id, 10)
            + text_field(self.branch_id, 8)
            + be(self.cxl_rej_reason as int, 4)
            + be(self.trade_date as int, 4)
            + be(self.transact_time as int, 8)
            + text_field(self.user_info, 32)
    }

}

impl CancelReject {
    /// The whole message.
    pub fn encode(&self) -> (r: Vec<u8>)
        ensures
            r@ == framed(msg_type::CANCEL_REJECT, self@.body()),
    {
        proof {
            reveal(CancelRejectView::body);
        }
        let mut w = BodyWriter::new();
        w.str(self.pbu.as_str(), 8);
        w.u32(self.set_id);
        w.u64(self.report_index);
        w.u32(self.biz_id);
        w.str(self.biz_pbu.as_str(), 8);
        w.str(self.cl_ord_id.as_str(), 10);
        w.str(self.security_id.as_str(), 12);
        w.str(self.orig_cl_ord_id.as_str(), 10);
        w.str(self.branch_id.as_str(), 8);
        w.u32(self.cxl_rej_reason);
        w.u32(self.trade_date);
        w.u64(self.transact_time);
        w.str(self.user_info.as_str(), 32);
        frame(msg_type::CANCEL_REJECT, w.into_inner().as_slice())
    }
}

/// An execution.
#[derive(Debug, Clone, Default)]
pub struct TradeRpt {
    pub pbu: String,
    pub set_id: u32,
    pub report_index: u64,
    pub biz_id: u32,
    pub exec_type: u8,
    pub biz_pbu: String,
    pub cl_ord_id: String,
    pub security_id: String,
    pub account: String,
    pub owner_type: u8,
    pub order_entry_time: u64,
    pub last_px: i64,
    pub last_qty: i64,
    /// The amount, in hundred-thousandths of a yuan.
    pub gross_trade_amt: i64,
    pub side: u8,
    pub order_qty: i64,
    pub leaves_qty: i64,
    pub ord_status: u8,
    pub credit_tag: String,
    pub clearing_firm: String,
    pub branch_id: String,
    /// The exchange's execution number.
    pub trd_cnfm_id: String,
    /// The exchange's order number.
    pub ord_cnfm_id: String,
    pub trade_date: u32,
    pub transact_time: u64,
    pub user_info: String,
}

/// The values of [`TradeRpt`].
pub struct TradeRptView {
    pub pbu: Seq<char>,
    pub set_id: u32,
    pub report_index: u64,
    pub biz_id: u32,
    pub exec_type: u8,
    pub biz_pbu: Seq<char>,
    pub cl_ord_id: Seq<char>,
    pub security_id: Seq<char>,
    pub account: Seq<char>,
    pub owner_type: u8,
    pub order_entry_time: u64,
    pub last_px: i64,
    pub last_qty: i64,
    pub gross_trade_amt: i64,
    pub side: u8,
    pub order_qty: i64,
    pub leaves_qty: i64,
    pub ord_status: u8,
    pub credit_tag: Seq<char>,
    pub clearing_firm: Seq<char>,
    pub branch_id: Seq<char>,
    pub trd_cnfm_id: Seq<char>,
    pub ord_cnfm_id: Seq<char>,
    pub trade_date: u32,
    pub transact_time: u64,
    pub user_info: Seq<char>,
}

impl View for TradeRpt {
    type V = TradeRptView;

    open spec fn view(&self) -> TradeRptView {
        TradeRptView {
            pbu: self.pbu@,
            set_id: self.set_id,
            report_index: self.report_index,
            biz_id: self.biz_id,
            exec_type: self.exec_type,
            biz_pbu: self.biz_pbu@,
            cl_ord_id: self.cl_ord_id@,
            security_id: self.security_id@,
            account: self.account@,
            owner_type: self.owner_type,
            order_entry_time: self.order_entry_time,
            last_px: self.last_px,
            last_qty: self.last_qty,
            gross_trade_amt: self.gross_trade_amt,
            side: self.side,
            order_qty: self.order_qty,
            leaves_qty: self.leaves_qty,
            ord_status: self.ord_status,
            credit_tag: self.credit_tag@,
            clearing_firm: self.clearing_firm@,
            branch_id: self.branch_id@,
            trd_cnfm_id: self.trd_cnfm_id@,
            ord_cnfm_id: self.ord_cnfm_id@,
            trade_date: self.trade_date,
            transact_time: self.transact_time,
            user_info: self.user_info@,
        }
    }
}

impl TradeRptView {
    /// The message body, field by field.
    #[verifier::opaque]
    pub open spec fn body(self) -> Seq<u8> {
        nil()
            + text_field(self.pbu, 8)
            + be(self.set_id as int, 4)
            + be(self.report_index as int, 8)
            + be(self.biz_id as int, 4)
            + be(self.exec_type as int, 1)
            + text_field(self.biz_pbu, 8)
            + text_field(self.cl_ord_id, 10)
            + text_field(self.security_id, 12)
            + text_field(self.account, 13)
            + be(self.owner_type as int, 1)
            + be(self.order_entry_time as int, 8)
            + be(self.last_px as int, 8)
            + be(self.last_qty as int, 8)
            + be(self.gross_trade_amt as int, 8)
            + be(self.side as int, 1)
            + be(self.order_qty as int, 8)
            + be(self.leaves_qty as int, 8)
            + be(self.ord_status as int, 1)
            + text_field(self.credit_tag, 2)
            + text_field(self.clearing_firm, 8)
            + text_field(self.branch_id, 8)
            + text_field(self.trd_cnfm_id, 16)
            + text_field(self.ord_cnfm_id, 16)
            + be(self.trade_date as int, 4)
            + be(self.transact_time as int, 8)
            + text_field(self.user_info, 32)
    }

}

impl TradeRpt {
    /// The whole message.
    pub fn encode(&self) -> (r: Vec<u8>)
        ensures
            r@ == framed(msg_type::TRADE, self@.body()),
    {
        proof {
            reveal(TradeRptView::body);
        }
        let mut w = BodyWriter::new();
        w.str(self.pbu.as_str(), 8);
        w.u32(self.set_id);
        w.u64(self.report_index);
        w.u32(self.biz_id);
        w.ch(self.exec_type);
        w.str(self.biz_pbu.as_str(), 8);
        w.str(self.cl_ord_id.as_str(), 10);
        w.str(self.security_id.as_str(), 12);
        w.str(self.account.as_str(), 13);
        w.u8(self.owner_type);
        w.u64(self.order_entry_time);
        w.i64(self.last_px);
        w.i64(self.last_qty);
        w.i64(self.gross_trade_amt);
        w.ch(self.side);
        w.i64(self.order_qty);
        w.i64(self.leaves_qty);
        w.ch(self.ord_status);
        w.str(self.credit_tag.as_str(), 2);
        w.str(self.clearing_firm.as_str(), 8);
        w.str(self.branch_id.as_str(), 8);
        w.str(self.trd_cnfm_id.as_str(), 16);
        w.str(self.ord_cnfm_id.as_str(), 16);
        w.u32(self.trade_date);
        w.u64(self.transact_time);
        w.str(self.user_info.as_str(), 32);
        frame(msg_type::TRADE, w.into_inner().as_slice())
    }
}

/// A refusal of an order before it reaches the book.
#[derive(Debug, Clone, Default)]
pub struct OrderReject {
    pub biz_id: u32,
    pub biz_pbu: String,
    pub cl_ord_id: String,
    pub security_id: String,
    pub ord_rej_reason: u32,
    pub trade_date: u32,
    pub transact_time: u64,
    pub user_info: String,
}

/// The values of [`OrderReject`].
pub struct OrderRejectView {
    pub biz_id: u32,
    pub biz_pbu: Seq<char>,
    pub cl_ord_id: Seq<char>,
    pub security_id: Seq<char>,
    pub ord_rej_reason: u32,
    pub trade_date: u32,
    pub transact_time: u64,
    pub user_info: Seq<char>,
}

impl View for OrderReject {
    type V = OrderRejectView;

    open spec fn view(&self) -> OrderRejectView {
        OrderRejectView {
            biz_id: self.biz_id,
            biz_pbu: self.biz_pbu@,
            cl_ord_id: self.cl_ord_id@,
            security_id: self.security_id@,
            ord_rej_reason: self.ord_rej_reason,
            trade_date: self.trade_date,
            transact_time: self.transact_time,
            user_info: self.user_info@,
        }
    }
}

impl OrderRejectView {
    /// The message body, field by field.
    #[verifier::opaque]
    pub open spec fn body(self) -> Seq<u8> {
        nil()
            + be(self.biz_id as int, 4)
            + text_field(self.biz_pbu, 8)
            + text_field(self.cl_ord_id, 10)
            + text_field(self.security_id, 12)
            + be(self.ord_rej_reason as int, 4)
            + be(self.trade_date as int, 4)
            + be(self.transact_time as int, 8)
            + text_field(self.user_info, 32)
    }

}

impl OrderReject {
    /// The whole message.
    pub fn encode(&self) -> (r: Vec<u8>)
        ensures
            r@ == framed(msg_type::ORDER_REJECT, self@.body()),
    {
        proof {
            reveal(OrderRejectView::body);
        }
        let mut w = BodyWriter::new();
        w.u32(self.biz_id);
        w.str(self.biz_pbu.as_str(), 8);
        w.str(self.cl_ord_id.as_str(), 10);
        w.str(self.security_id.as_str(), 12);
        w.u32(self.ord_rej_reason);
        w.u32(self.trade_date);
        w.u64(self.transact_time);
        w.str(self.user_info.as_str(), 32);
        frame(msg_type::ORDER_REJECT, w.into_inner().as_slice())
    }
}

/// A registration: designation or its revocation.
#[derive(Debug, Clone, Default)]
pub struct RegistrationOrder {
    pub biz_id: u32,
    pub biz_pbu: String,
    pub cl_ord_id: String,
    pub security_id: String,
    pub account: String,
    pub owner_type: u8,
    /// `1` registers, `2` revokes.
    pub designation_instruction: u8,
    pub designation_trans_type: u8,
    pub orig_cl_ord_id: String,
    pub transact_time: u64,
    pub branch_id: String,
    pub user_info: String,
}

/// The values of [`RegistrationOrder`].
pub struct RegistrationOrderView {
    pub biz_id: u32,
    pub biz_pbu: Seq<char>,
    pub cl_ord_id: Seq<char>,
    pub security_id: Seq<char>,
    pub account: Seq<char>,
    pub owner_type: u8,
    pub designation_instruction: u8,
    pub designation_trans_type: u8,
    pub orig_cl_ord_id: Seq<char>,
    pub transact_time: u64,
    pub branch_id: Seq<char>,
    pub user_info: Seq<char>,
}

impl View for RegistrationOrder {
    type V = RegistrationOrderView;

    open spec fn view(&self) -> RegistrationOrderView {
        RegistrationOrderView {
            biz_id: self.biz_id,
            biz_pbu: self.biz_pbu@,
            cl_ord_id: self.cl_ord_id@,
            security_id: self.security_id@,
            account: self.account@,
            owner_type: self.owner_type,
            designation_instruction: self.designation_instruction,
            designation_trans_type: self.designation_trans_type,
            orig_cl_ord_id: self.orig_cl_ord_id@,
            transact_time: self.transact_time,
            branch_id: self.branch_id@,
            user_info: self.user_info@,
        }
    }
}

impl RegistrationOrderView {
    /// The values that a body holds.
    pub open spec fn of(body: Seq<u8>) -> Self {
        RegistrationOrderView {
            biz_id: nat_at(body, 0, 4) as u32,
            biz_pbu: text_at(body, 4, 8),
            cl_ord_id: text_at(body, 12, 10),
            security_id: text_at(body, 22, 12),
            account: text_at(body, 34, 13),
            owner_type: nat_at(body, 47, 1) as u8,
            designation_instruction: nat_at(body, 48, 1) as u8,
            designation_trans_type: nat_at(body, 49, 1) as u8,
            orig_cl_ord_id: text_at(body, 50, 10),
            transact_time: nat_at(body, 60, 8) as u64,
            branch_id: text_at(body, 68, 8),
            user_info: text_at(body, 76, 32),
        }
    }
}

impl RegistrationOrder {
    /// The length of the body.
    pub const BODY_LEN: usize = 108;

    /// Reads a body; bytes behind the last field are ignored.
    pub fn decode(body: &[u8]) -> (r: Result<Self, ShortBody>)
        ensures
            r is Ok <==> body@.len() >= 108,
            r matches Ok(v) ==> v@ == RegistrationOrderView::of(body@),
    {
        let mut r = BodyReader::new(body);
        let biz_id: u32 = r.u32()?;
        let biz_pbu: String = r.str(8)?;
        let cl_ord_id: String = r.str(10)?;
        let security_id: String = r.str(12)?;
        let account: String = r.str(13)?;
        let owner_type: u8 = r.u8()?;
        let designation_instruction: u8 = r.ch()?;
        let designation_trans_type: u8 = r.ch()?;
        let orig_cl_ord_id: String = r.str(10)?;
        let transact_time: u64 = r.u64()?;
        let branch_id: String = r.str(8)?;
        let user_info: String = r.str(32)?;
        Ok(RegistrationOrder { biz_id, biz_pbu, cl_ord_id, security_id, account, owner_type, designation_instruction, designation_trans_type, orig_cl_ord_id, transact_time, branch_id, user_info })
    }

}

/// The report on a registration.
#[derive(Debug, Clone, Default)]
pub struct RegistrationRpt {
    pub pbu: String,
    pub set_id: u32,
    pub report_index: u64,
    pub biz_id: u32,
    pub exec_type: u8,
    pub biz_pbu: String,
    pub cl_ord_id: String,
    pub security_id: String,
    pub account: String,
    pub owner_type: u8,
    pub ord_status: u8,
    pub orig_cl_ord_id: String,
    pub branch_id: String,
    pub ord_rej_reason: u32,
    pub ord_cnfm_id: String,
    pub orig_ord_cnfm_id: String,
    pub trade_date: u32,
    pub transact_time: u64,
    pub user_info: String,
}

/// The values of [`RegistrationRpt`].
pub struct RegistrationRptView {
    pub pbu: Seq<char>,
    pub set_id: u32,
    pub report_index: u64,
    pub biz_id: u32,
    pub exec_type: u8,
    pub biz_pbu: Seq<char>,
    pub cl_ord_id: Seq<char>,
    pub security_id: Seq<char>,
    pub account: Seq<char>,
    pub owner_type: u8,
    pub ord_status: u8,
    pub orig_cl_ord_id: Seq<char>,
    pub branch_id: Seq<char>,
    pub ord_rej_reason: u32,
    pub ord_cnfm_id: Seq<char>,
    pub orig_ord_cnfm_id: Seq<char>,
    pub trade_date: u32,
    pub transact_time: u64,
    pub user_info: Seq<char>,
}

impl View for RegistrationRpt {
    type V = RegistrationRptView;

    open spec fn view(&self) -> RegistrationRptView {
        RegistrationRptView {
            pbu: self.pbu@,
            set_id: self.set_id,
            report_index: self.report_index,
            biz_id: self.biz_id,
            exec_type: self.exec_type,
            biz_pbu: self.biz_pbu@,
            cl_ord_id: self.cl_ord_id@,
            security_id: self.security_id@,
            account: self.account@,
            owner_type: self.owner_type,
            ord_status: self.ord_status,
            orig_cl_ord_id: self.orig_cl_ord_id@,
            branch_id: self.branch_id@,
            ord_rej_reason: self.ord_rej_reason,
            ord_cnfm_id: self.ord_cnfm_id@,
            orig_ord_cnfm_id: self.orig_ord_cnfm_id@,
            trade_date: self.trade_date,
            transact_time: self.transact_time,
            user_info: self.user_info@,
        }
    }
}

impl RegistrationRptView {
    /// The message body, field by field.
    #[verifier::opaque]
    pub open spec fn body(self) -> Seq<u8> {
        nil()
            + text_field(self.pbu, 8)
            + be(self.set_id as int, 4)
            + be(self.report_index as int, 8)
            + be(self.biz_id as int, 4)
            + be(self.exec_type as int, 1)
            + text_field(self.biz_pbu, 8)
            + text_field(self.cl_ord_id, 10)
            + text_field(self.security_id, 12)
            + text_field(self.account, 13)
            + be(self.owner_type as int, 1)
            + be(self.ord_status as int, 1)
            + text_field(self.orig_cl_ord_id, 10)
            + text_field(self.branch_id, 8)
            + be(self.ord_rej_reason as int, 4)
            + text_field(self.ord_cnfm_id, 16)
            + text_field(self.orig_ord_cnfm_id, 16)
            + be(self.trade_date as int, 4)
            + be(self.transact_time as int, 8)
            + text_field(self.user_info, 32)
    }

}

impl RegistrationRpt {
    /// The length of the body.
    pub const BODY_LEN: usize = 168;

    /// The whole message.
    pub fn encode(&self) -> (r: Vec<u8>)
        ensures
            r@ == framed(msg_type::REGISTRATION_RPT, self@.body()),
    {
        proof {
            reveal(RegistrationRptView::body);
        }
        let mut w = BodyWriter::new();
        w.str(self.pbu.as_str(), 8);
        w.u32(self.set_id);
        w.u64(self.report_index);
        w.u32(self.biz_id);
        w.ch(self.exec_type);
        w.str(self.biz_pbu.as_str(), 8);
        w.str(self.cl_ord_id.as_str(), 10);
        w.str(self.security_id.as_str(), 12);
        w.str(self.account.as_str(), 13);
        w.u8(self.owner_type);
        w.ch(self.ord_status);
        w.str(self.orig_cl_ord_id.as_str(), 10);
        w.str(self.branch_id.as_str(), 8);
        w.u32(self.ord_rej_reason);
        w.str(self.ord_cnfm_id.as_str(), 16);
        w.str(self.orig_ord_cnfm_id.as_str(), 16);
        w.u32(self.trade_date);
        w.u64(self.transact_time);
        w.str(self.user_info.as_str(), 32);
        frame(msg_type::REGISTRATION_RPT, w.into_inner().as_slice())
    }
}

/// A request of the password service.
#[derive(Debug, Clone, Default)]
pub struct PasswordServiceOrder {
    pub biz_id: u32,
    pub biz_pbu: String,
    pub cl_ord_id: String,
    pub security_id: String,
    pub account: String,
    pub owner_type: u8,
    pub transact_time: u64,
    pub branch_id: String,
    /// `1` activates, `2` deactivates.
    pub side: u8,
    pub validation_code: String,
    pub user_info: String,
}

/// The values of [`PasswordServiceOrder`].
pub struct PasswordServiceOrderView {
    pub biz_id: u32,
    pub biz_pbu: Seq<char>,
    pub cl_ord_id: Seq<char>,
    pub security_id: Seq<char>,
    pub account: Seq<char>,
    pub owner_type: u8,
    pub transact_time: u64,
    pub branch_id: Seq<char>,
    pub side: u8,
    pub validation_code: Seq<char>,
    pub user_info: Seq<char>,
}

impl View for PasswordServiceOrder {
    type V = PasswordServiceOrderView;

    open spec fn view(&self) -> PasswordServiceOrderView {
        PasswordServiceOrderView {
            biz_id: self.biz_id,
            biz_pbu: self.biz_pbu@,
            cl_ord_id: self.cl_ord_id@,
            security_id: self.security_id@,
            account: self.account@,
            owner_type: self.owner_type,
            transact_time: self.transact_time,
            branch_id: self.branch_id@,
            side: self.side,
            validation_code: self.validation_code@,
            user_info: self.user_info@,
        }
    }
}

impl PasswordServiceOrderView {
    /// The values that a body holds.
    pub open spec fn of(body: Seq<u8>) -> Self {
        PasswordServiceOrderView {
            biz_id: nat_at(body, 0, 4) as u32,
            biz_pbu: text_at(body, 4, 8),
            cl_ord_id: text_at(body, 12, 10),
            security_id: text_at(body, 22, 12),
            account: text_at(body, 34, 13),
            owner_type: nat_at(body, 47, 1) as u8,
            transact_time: nat_at(body, 48, 8) as u64,
            branch_id: text_at(body, 56, 8),
            side: nat_at(body, 64, 1) as u8,
            validation_code: text_at(body, 65, 8),
            user_info: text_at(body, 73, 32),
        }
    }
}

impl PasswordServiceOrder {
    /// The length of the body.
    pub const BODY_LEN: usize = 105;

    /// Reads a body; bytes behind the last field are ignored.
    pub fn decode(body: &[u8]) -> (r: Result<Self, ShortBody>)
        ensures
            r is Ok <==> body@.len() >= 105,
            r matches Ok(v) ==> v@ == PasswordServiceOrderView::of(body@),
    {
        let mut r = BodyReader::new(body);
        let biz_id: u32 = r.u32()?;
        let biz_pbu: String = r.str(8)?;
        let cl_ord_id: String = r.str(10)?;
        let security_id: String = r.str(12)?;
        let account: String = r.str(13)?;
        let owner_type: u8 = r.u8()?;
        let transact_time: u64 = r.u64()?;
        let branch_id: String = r.str(8)?;
        let side: u8 = r.ch()?;
        let validation_code: String = r.str(8)?;
        let user_info: String = r.str(32)?;
        Ok(PasswordServiceOrder { biz_id, biz_pbu, cl_ord_id, security_id, account, owner_type, transact_time, branch_id, side, validation_code, user_info })
    }

}

/// The response of the password service; it carries no report index.
#[derive(Debug, Clone, Default)]
pub struct PasswordServiceRsp {
    pub biz_id: u32,
    pub biz_pbu: String,
    pub cl_ord_id: String,
    pub security_id: String,
    pub account: String,
    pub owner_type: u8,
    pub branch_id: String,
    pub side: u8,
    pub validation_code: String,
    pub ord_rej_reason: u32,
    pub trade_date: u32,
    pub transact_time: u64,
    pub user_info: String,
}

/// The values of [`PasswordServiceRsp`].
pub struct PasswordServiceRspView {
    pub biz_id: u32,
    pub biz_pbu: Seq<char>,
    pub cl_ord_id: Seq<char>,
    pub security_id: Seq<char>,
    pub account: Seq<char>,
    pub owner_type: u8,
    pub branch_id: Seq<char>,
    pub side: u8,
    pub validation_code: Seq<char>,
    pub ord_rej_reason: u32,
    pub trade_date: u32,
    pub transact_time: u64,
    pub user_info: Seq<char>,
}

impl View for PasswordServiceRsp {
    type V = PasswordServiceRspView;

    open spec fn view(&self) -> PasswordServiceRspView {
        PasswordServiceRspView {
            biz_id: self.biz_id,
            biz_pbu: self.biz_pbu@,
            cl_ord_id: self.cl_ord_id@,
            security_id: self.security_id@,
            account: self.account@,
            owner_type: self.owner_type,
            branch_id: self.branch_id@,
            side: self.side,
            validation_code: self.validation_code@,
            ord_rej_reason: self.ord_rej_reason,
            trade_date: self.trade_date,
            transact_time: self.transact_time,
            user_info: self.user_info@,
        }
    }
}

impl PasswordServiceRspView {
    /// The message body, field by field.
    #[verifier::opaque]
    pub open spec fn body(self) -> Seq<u8> {
        nil()
            + be(self.biz_id as int, 4)
            + text_field(self.biz_pbu, 8)
            + text_field(self.cl_ord_id, 10)
            + text_field(self.security_id, 12)
            + text_field(self.account, 13)
            + be(self.owner_type as int, 1)
            + text_field(self.branch_id, 8)
            + be(self.side as int, 1)
            + text_field(self.validation_code, 8)
            + be(self.ord_rej_reason as int, 4)
            + be(self.trade_date as int, 4)
            + be(self.transact_time as int, 8)
            + text_field(self.user_info, 32)
    }

}

impl PasswordServiceRsp {
    /// The length of the body.
    pub const BODY_LEN: usize = 113;

    /// The whole message.
    pub fn encode(&self) -> (r: Vec<u8>)
        ensures
            r@ == framed(msg_type::PWD_SERVICE_RSP, self@.body()),
    {
        proof {
            reveal(PasswordServiceRspView::body);
        }
        let mut w = BodyWriter::new();
        w.u32(self.biz_id);
        w.str(self.biz_pbu.as_str(), 8);
        w.str(self.cl_ord_id.as_str(), 10);
        w.str(self.security_id.as_str(), 12);
        w.str(self.account.as_str(), 13);
        w.u8(self.owner_type);
        w.str(self.branch_id.as_str(), 8);
        w.ch(self.side);
        w.str(self.validation_code.as_str(), 8);
        w.u32(self.ord_rej_reason);
        w.u32(self.trade_date);
        w.u64(self.transact_time);
        w.str(self.user_info.as_str(), 32);
        frame(msg_type::PWD_SERVICE_RSP, w.into_inner().as_slice())
    }
}

/// The extension fields of orders and reports; a business uses at most one of them.
#[derive(Debug, Default)]
pub struct ExtendFields {
    /// The agent that a fund is transferred to.
    pub custodian: String,
    /// `U` reinvests a dividend, `C` pays it out.
    pub dividend_select: u8,
    /// The security that is converted or transferred to.
    pub dest_security: String,
}

impl Clone for ExtendFields {
    fn clone(&self) -> (r: Self)
        ensures
            r == *self,
    {
        ExtendFields {
            custodian: self.custodian.clone(),
            dividend_select: self.dividend_select,
            dest_security: self.dest_security.clone(),
        }
    }
}

/// The values of [`ExtendFields`].
pub struct ExtendFieldsView {
    pub custodian: Seq<char>,
    pub dividend_select: u8,
    pub dest_security: Seq<char>,
}

impl View for ExtendFields {
    type V = ExtendFieldsView;

    open spec fn view(&self) -> ExtendFieldsView {
        ExtendFieldsView {
            custodian: self.custodian@,
            dividend_select: self.dividend_select,
            dest_security: self.dest_security@,
        }
    }
}

/// No extension.
pub open spec fn no_extend() -> ExtendFieldsView {
    ExtendFieldsView {
        custodian: Seq::empty(),
        dividend_select: 0,
        dest_security: Seq::empty(),
    }
}

/// The businesses that name a destination security.
pub open spec fn has_dest(biz_id: u32) -> bool {
    ||| biz_id == BIZ_ID_FUND_CONVERT
    ||| biz_id == BIZ_ID_REMAIN_TRANSFER
    ||| biz_id == BIZ_ID_RETURN_TRANSFER
    ||| biz_id == BIZ_ID_COLLATERAL_IN
    ||| biz_id == BIZ_ID_COLLATERAL_OUT
    ||| biz_id == BIZ_ID_SEC_SRC_IN
    ||| biz_id == BIZ_ID_SEC_SRC_OUT
}

fn names_dest(biz_id: u32) -> (r: bool)
    ensures
        r == has_dest(biz_id),
{
    biz_id == BIZ_ID_FUND_CONVERT || biz_id == BIZ_ID_REMAIN_TRANSFER || biz_id
        == BIZ_ID_RETURN_TRANSFER || biz_id == BIZ_ID_COLLATERAL_IN || biz_id
        == BIZ_ID_COLLATERAL_OUT || biz_id == BIZ_ID_SEC_SRC_IN || biz_id == BIZ_ID_SEC_SRC_OUT
}

/// The length of a business's extension.
pub open spec fn extend_width(biz_id: u32) -> int {
    if biz_id == BIZ_ID_FUND_TRANSFER {
        3
    } else if biz_id == BIZ_ID_FUND_DIVIDEND {
        1
    } else if has_dest(biz_id) {
        12
    } else {
        0
    }
}

/// The length of a business's extension.
pub fn extend_len(biz_id: u32) -> (r: usize)
    ensures
        r == extend_width(biz_id),
{
    if biz_id == BIZ_ID_FUND_TRANSFER {
        3
    } else if biz_id == BIZ_ID_FUND_DIVIDEND {
        1
    } else if names_dest(biz_id) {
        12
    } else {
        0
    }
}

/// The bytes of a business's extension.
pub open spec fn extend_bytes(biz_id: u32, e: ExtendFieldsView) -> Seq<u8> {
    if biz_id == BIZ_ID_FUND_TRANSFER {
        text_field(e.custodian, 3)
    } else if biz_id == BIZ_ID_FUND_DIVIDEND {
        be(e.dividend_select as int, 1)
    } else if has_dest(biz_id) {
        text_field(e.dest_security, 12)
    } else {
        nil()
    }
}

/// Appends a business's extension.
pub fn write_extend(w: &mut BodyWriter, biz_id: u32, extend: &ExtendFields)
    ensures
        final(w)@ == old(w)@ + extend_bytes(biz_id, extend@),
{
    if biz_id == BIZ_ID_FUND_TRANSFER {
        w.str(extend.custodian.as_str(), 3);
    } else if biz_id == BIZ_ID_FUND_DIVIDEND {
        w.ch(extend.dividend_select);
    } else if names_dest(biz_id) {
        w.str(extend.dest_security.as_str(), 12);
    }
    assert(w@ =~= old(w)@ + extend_bytes(biz_id, extend@));
}

/// The extension that starts at `at`; a peer may leave it out.
pub open spec fn extend_at(biz_id: u32, body: Seq<u8>, at: int) -> ExtendFieldsView {
    if body.len() < at + extend_width(biz_id) {
        no_extend()
    } else if biz_id == BIZ_ID_FUND_TRANSFER {
        ExtendFieldsView { custodian: text_at(body, at, 3), ..no_extend() }
    } else if biz_id == BIZ_ID_FUND_DIVIDEND {
        ExtendFieldsView { dividend_select: nat_at(body, at, 1) as u8, ..no_extend() }
    } else if has_dest(biz_id) {
        ExtendFieldsView { dest_security: text_at(body, at, 12), ..no_extend() }
    } else {
        no_extend()
    }
}

fn read_extend(r: &mut BodyReader, biz_id: u32) -> (e: ExtendFields)
    requires
        old(r).wf(),
    ensures
        e@ == extend_at(biz_id, old(r).body(), old(r).at()),
{
    let mut e = ExtendFields {
        custodian: String::new(),
        dividend_select: 0,
        dest_security: String::new(),
    };
    if r.remaining() < extend_len(biz_id) {
        return e;
    }
    if biz_id == BIZ_ID_FUND_TRANSFER {
        if let Ok(v) = r.str(3) {
            e.custodian = v;
        }
    } else if biz_id == BIZ_ID_FUND_DIVIDEND {
        if let Ok(v) = r.ch() {
            e.dividend_select = v;
        }
    } else if names_dest(biz_id) {
        if let Ok(v) = r.str(12) {
            e.dest_security = v;
        }
    }
    e
}


/// A new order.
#[derive(Debug, Clone, Default)]
pub struct NewOrder {
    /// The business number.
    pub biz_id: u32,
    /// The trading unit of the business.
    pub biz_pbu: String,
    /// The client's order number.
    pub cl_ord_id: String,
    pub security_id: String,
    pub account: String,
    pub owner_type: u8,
    /// `1` buys, `2` sells.
    pub side: u8,
    /// In hundred-thousandths of a yuan.
    pub price: i64,
    /// In thousandths of a share.
    pub order_qty: i64,
    pub ord_type: u8,
    pub time_in_force: u8,
    pub transact_time: u64,
    pub credit_tag: String,
    pub clearing_firm: String,
    pub branch_id: String,
    pub user_info: String,
    /// The extension of the business.
    pub extend: ExtendFields,
}

/// The values of [`NewOrder`].
pub struct NewOrderView {
    pub biz_id: u32,
    pub biz_pbu: Seq<char>,
    pub cl_ord_id: Seq<char>,
    pub security_id: Seq<char>,
    pub account: Seq<char>,
    pub owner_type: u8,
    pub side: u8,
    pub price: i64,
    pub order_qty: i64,
    pub ord_type: u8,
    pub time_in_force: u8,
    pub transact_time: u64,
    pub credit_tag: Seq<char>,
    pub clearing_firm: Seq<char>,
    pub branch_id: Seq<char>,
    pub user_info: Seq<char>,
    pub extend: ExtendFieldsView,
}

impl View for NewOrder {
    type V = NewOrderView;

    open spec fn view(&self) -> NewOrderView {
        NewOrderView {
            biz_id: self.biz_id,
            biz_pbu: self.biz_pbu@,
            cl_ord_id: self.cl_ord_id@,
            security_id: self.security_id@,
            account: self.account@,
            owner_type: self.owner_type,
            side: self.side,
            price: self.price,
            order_qty: self.order_qty,
            ord_type: self.ord_type,
            time_in_force: self.time_in_force,
            transact_time: self.transact_time,
            credit_tag: self.credit_tag@,
            clearing_firm: self.clearing_firm@,
            branch_id: self.branch_id@,
            user_info: self.user_info@,
            extend: self.extend@,
        }
    }
}

impl NewOrderView {
    /// The values that a body holds.
    pub open spec fn of(body: Seq<u8>) -> Self {
        NewOrderView {
            biz_id: nat_at(body, 0, 4) as u32,
            biz_pbu: text_at(body, 4, 8),
            cl_ord_id: text_at(body, 12, 10),
            security_id: text_at(body, 22, 12),
            account: text_at(body, 34, 13),
            owner_type: nat_at(body, 47, 1) as u8,
            side: nat_at(body, 48, 1) as u8,
            price: int_at(body, 49, 8) as i64,
            order_qty: int_at(body, 57, 8) as i64,
            ord_type: nat_at(body, 65, 1) as u8,
            time_in_force: nat_at(body, 66, 1) as u8,
            transact_time: nat_at(body, 67, 8) as u64,
            credit_tag: text_at(body, 75, 2),
            clearing_firm: text_at(body, 77, 8),
            branch_id: text_at(body, 85, 8),
            user_info: text_at(body, 93, 32),
            extend: extend_at(nat_at(body, 0, 4) as u32, body, 125),
        }
    }
}

impl NewOrder {
    /// The length of the body without the extension.
    pub const BODY_LEN: usize = 125;

    /// Reads a body; the extension may be missing.
    pub fn decode(body: &[u8]) -> (r: Result<Self, ShortBody>)
        ensures
            r is Ok <==> body@.len() >= 125,
            r matches Ok(v) ==> v@ == NewOrderView::of(body@),
    {
        let mut r = BodyReader::new(body);
        let biz_id: u32 = r.u32()?;
        let biz_pbu: String = r.str(8)?;
        let cl_ord_id: String = r.str(10)?;
        let security_id: String = r.str(12)?;
        let account: String = r.str(13)?;
        let owner_type: u8 = r.u8()?;
        let side: u8 = r.ch()?;
        let price: i64 = r.i64()?;
        let order_qty: i64 = r.i64()?;
        let ord_type: u8 = r.ch()?;
        let time_in_force: u8 = r.ch()?;
        let transact_time: u64 = r.u64()?;
        let credit_tag: String = r.str(2)?;
        let clearing_firm: String = r.str(8)?;
        let branch_id: String = r.str(8)?;
        let user_info: String = r.str(32)?;
        let extend = read_extend(&mut r, biz_id);
        Ok(
            NewOrder {
                biz_id,
                biz_pbu,
                cl_ord_id,
                security_id,
                account,
                owner_type,
                side,
                price,
                order_qty,
                ord_type,
                time_in_force,
                transact_time,
                credit_tag,
                clearing_firm,
                branch_id,
                user_info,
                extend,
            },
        )
    }
}

/// The response to an order: accepted, cancelled or rejected.
#[derive(Debug, Clone, Default)]
pub struct ExecRpt {
    /// The trading unit that is reported to.
    pub pbu: String,
    /// The partition.
    pub set_id: u32,
    /// The number of the report in its partition; filled in on sending.
    pub report_index: u64,
    pub biz_id: u32,
    pub exec_type: u8,
    pub biz_pbu: String,
    pub cl_ord_id: String,
    pub security_id: String,
    pub account: String,
    pub owner_type: u8,
    pub side: u8,
    pub price: i64,
    pub order_qty: i64,
    /// The open quantity.
    pub leaves_qty: i64,
    /// The cancelled quantity.
    pub cxl_qty: i64,
    pub ord_type: u8,
    pub time_in_force: u8,
    pub ord_status: u8,
    pub credit_tag: String,
    pub orig_cl_ord_id: String,
    pub clearing_firm: String,
    pub branch_id: String,
    pub ord_rej_reason: u32,
    /// The exchange's order number.
    pub ord_cnfm_id: String,
    pub orig_ord_cnfm_id: String,
    pub trade_date: u32,
    pub transact_time: u64,
    pub user_info: String,
    /// The extension of the business.
    pub extend: ExtendFields,
}

/// The values of [`ExecRpt`].
pub struct ExecRptView {
    pub pbu: Seq<char>,
    pub set_id: u32,
    pub report_index: u64,
    pub biz_id: u32,
    pub exec_type: u8,
    pub biz_pbu: Seq<char>,
    pub cl_ord_id: Seq<char>,
    pub security_id: Seq<char>,
    pub account: Seq<char>,
    pub owner_type: u8,
    pub side: u8,
    pub price: i64,
    pub order_qty: i64,
    pub leaves_qty: i64,
    pub cxl_qty: i64,
    pub ord_type: u8,
    pub time_in_force: u8,
    pub ord_status: u8,
    pub credit_tag: Seq<char>,
    pub orig_cl_ord_id: Seq<char>,
    pub clearing_firm: Seq<char>,
    pub branch_id: Seq<char>,
    pub ord_rej_reason: u32,
    pub ord_cnfm_id: Seq<char>,
    pub orig_ord_cnfm_id: Seq<char>,
    pub trade_date: u32,
    pub transact_time: u64,
    pub user_info: Seq<char>,
    pub extend: ExtendFieldsView,
}

impl View for ExecRpt {
    type V = ExecRptView;

    open spec fn view(&self) -> ExecRptView {
        ExecRptView {
            pbu: self.pbu@,
            set_id: self.set_id,
            report_index: self.report_index,
            biz_id: self.biz_id,
            exec_type: self.exec_type,
            biz_pbu: self.biz_pbu@,
            cl_ord_id: self.cl_ord_id@,
            security_id: self.security_id@,
            account: self.account@,
            owner_type: self.owner_type,
            side: self.side,
            price: self.price,
            order_qty: self.order_qty,
            leaves_qty: self.leaves_qty,
            cxl_qty: self.cxl_qty,
            ord_type: self.ord_type,
            time_in_force: self.time_in_force,
            ord_status: self.ord_status,
            credit_tag: self.credit_tag@,
            orig_cl_ord_id: self.orig_cl_ord_id@,
            clearing_firm: self.clearing_firm@,
            branch_id: self.branch_id@,
            ord_rej_reason: self.ord_rej_reason,
            ord_cnfm_id: self.ord_cnfm_id@,
            orig_ord_cnfm_id: self.orig_ord_cnfm_id@,
            trade_date: self.trade_date,
            transact_time: self.transact_time,
            user_info: self.user_info@,
            extend: self.extend@,
        }
    }
}

impl ExecRptView {
    /// The message body, field by field.
    #[verifier::opaque]
    pub open spec fn body(self) -> Seq<u8> {
        nil()
            + text_field(self.pbu, 8)
            + be(self.set_id as int, 4)
            + be(self.report_index as int, 8)
            + be(self.biz_id as int, 4)
            + be(self.exec_type as int, 1)
            + text_field(self.biz_pbu, 8)
            + text_field(self.cl_ord_id, 10)
            + text_field(self.security_id, 12)
            + text_field(self.account, 13)
            + be(self.owner_type as int, 1)
            + be(self.side as int, 1)
            + be(self.price as int, 8)
            + be(self.order_qty as int, 8)
            + be(self.leaves_qty as int, 8)
            + be(self.cxl_qty as int, 8)
            + be(self.ord_type as int, 1)
            + be(self.time_in_force as int, 1)
            + be(self.ord_status as int, 1)
            + text_field(self.credit_tag, 2)
            + text_field(self.orig_cl_ord_id, 10)
            + text_field(self.clearing_firm, 8)
            + text_field(self.branch_id, 8)
            + be(self.ord_rej_reason as int, 4)
            + text_field(self.ord_cnfm_id, 16)
            + text_field(self.orig_ord_cnfm_id, 16)
            + be(self.trade_date as int, 4)
            + be(self.transact_time as int, 8)
            + text_field(self.user_info, 32)
            + extend_bytes(self.biz_id, self.extend)
    }
}

impl ExecRpt {
    /// The whole message.
    pub fn encode(&self) -> (r: Vec<u8>)
        ensures
            r@ == framed(msg_type::EXEC_RPT, self@.body()),
    {
        proof {
            reveal(ExecRptView::body);
        }
        let mut w = BodyWriter::new();
        w.str(self.pbu.as_str(), 8);
        w.u32(self.set_id);
        w.u64(self.report_index);
        w.u32(self.biz_id);
        w.ch(self.exec_type);
        w.str(self.biz_pbu.as_str(), 8);
        w.str(self.cl_ord_id.as_str(), 10);
        w.str(self.security_id.as_str(), 12);
        w.str(self.account.as_str(), 13);
        w.u8(self.owner_type);
        w.ch(self.side);
        w.i64(self.price);
        w.i64(self.order_qty);
        w.i64(self.leaves_qty);
        w.i64(self.cxl_qty);
        w.ch(self.ord_type);
        w.ch(self.time_in_force);
        w.ch(self.ord_status);
        w.str(self.credit_tag.as_str(), 2);
        w.str(self.orig_cl_ord_id.as_str(), 10);
        w.str(self.clearing_firm.as_str(), 8);
        w.str(self.branch_id.as_str(), 8);
        w.u32(self.ord_rej_reason);
        w.str(self.ord_cnfm_id.as_str(), 16);
        w.str(self.orig_ord_cnfm_id.as_str(), 16);
        w.u32(self.trade_date);
        w.u64(self.transact_time);
        w.str(self.user_info.as_str(), 32);
        write_extend(&mut w, self.biz_id, &self.extend);
        frame(msg_type::EXEC_RPT, w.into_inner().as_slice())
    }
}

/// A logon gives back what was written into it, where the texts fit their fields and
/// do not end in white space.
pub proof fn law_logon_round_trip(l: LogonView)
    requires
        wire::fits(l.sender_comp_id, 32),
        wire::fits(l.target_comp_id, 32),
        wire::fits(l.prtcl_version, 8),
    ensures
        l.body().len() == Logon::BODY_LEN,
        LogonView::of(l.body()) == l,
{
    reveal(LogonView::body);
    let b = l.body();
    wire::lemma_text_field_len(l.sender_comp_id, 32);
    wire::lemma_text_field_len(l.target_comp_id, 32);
    wire::lemma_be_len(l.heart_bt_int as int, 2);
    wire::lemma_text_field_len(l.prtcl_version, 8);
    wire::lemma_be_len(l.trade_date as int, 4);
    wire::lemma_be_len(l.qsize as int, 4);
    assert(b.subrange(0, 32) =~= text_field(l.sender_comp_id, 32));
    assert(b.subrange(32, 64) =~= text_field(l.target_comp_id, 32));
    assert(b.subrange(64, 66) =~= be(l.heart_bt_int as int, 2));
    assert(b.subrange(66, 74) =~= text_field(l.prtcl_version, 8));
    assert(b.subrange(74, 78) =~= be(l.trade_date as int, 4));
    assert(b.subrange(78, 82) =~= be(l.qsize as int, 4));
    wire::lemma_text_round_trip(l.sender_comp_id, 32);
    wire::lemma_text_round_trip(l.target_comp_id, 32);
    wire::lemma_text_round_trip(l.prtcl_version, 8);
    wire::lemma_pow256_values();
    wire::lemma_be_nat_inverse(l.heart_bt_int as int, 2);
    wire::lemma_be_nat_inverse(l.trade_date as int, 4);
    wire::lemma_be_nat_inverse(l.qsize as int, 4);
}

/// A logout gives back what was written into it, where the text fits its field and does
/// not end in white space.
pub proof fn law_logout_round_trip(l: LogoutView)
    requires
        wire::fits(l.text, 64),
    ensures
        l.body().len() == 68,
        LogoutView::of(l.body()) == l,
{
    reveal(LogoutView::body);
    let b = l.body();
    wire::lemma_be_len(l.session_status as int, 4);
    wire::lemma_text_field_len(l.text, 64);
    assert(b.subrange(0, 4) =~= be(l.session_status as int, 4));
    assert(b.subrange(4, 68) =~= text_field(l.text, 64));
    wire::lemma_text_round_trip(l.text, 64);
    wire::lemma_pow256_values();
    wire::lemma_be_nat_inverse(l.session_status as int, 4);
}

/// A heartbeat, whose body is empty.
pub fn encode_heartbeat() -> (r: Vec<u8>)
    ensures
        r@ == framed(msg_type::HEARTBEAT, nil()),
{
    let body: Vec<u8> = Vec::new();
    assert(body@ =~= nil());
    frame(msg_type::HEARTBEAT, body.as_slice())
}

/// The state of a platform.
pub fn encode_platform_state(platform_id: u16, state: u16) -> (r: Vec<u8>)
    ensures
        r@ == framed(
            msg_type::PLATFORM_STATE,
            nil() + be(platform_id as int, 2) + be(state as int, 2),
        ),
{
    let mut w = BodyWriter::new();
    w.u16(platform_id);
    w.u16(state);
    frame(msg_type::PLATFORM_STATE, w.into_inner().as_slice())
}

/// A count of two bytes.
fn put_count(w: &mut BodyWriter, n: usize)
    ensures
        final(w)@ == old(w)@ + be(n as int, 2),
{
    let mut bytes: Vec<u8> = Vec::new();
    wire::append_be(&mut bytes, n as u64, 2);
    assert(bytes@ =~= be(n as int, 2));
    w.raw(bytes.as_slice());
}

/// Partition numbers, four bytes each.
pub open spec fn set_bytes(sets: Seq<u32>) -> Seq<u8>
    decreases sets.len(),
{
    if sets.len() == 0 {
        nil()
    } else {
        set_bytes(sets.drop_last()) + be(sets.last() as int, 4)
    }
}

fn put_sets(w: &mut BodyWriter, sets: &[u32])
    ensures
        final(w)@ == old(w)@ + set_bytes(sets@),
{
    let ghost start = w@;
    let mut i: usize = 0;
    while i < sets.len()
        invariant
            i <= sets@.len(),
            w@ =~= start + set_bytes(sets@.take(i as int)),
        decreases sets@.len() - i,
    {
        w.u32(sets[i]);
        proof {
            let t = sets@.take(i + 1);
            assert(t.drop_last() =~= sets@.take(i as int));
            assert(t.last() == sets@[i as int]);
        }
        i += 1;
    }
    assert(sets@.take(sets@.len() as int) =~= sets@);
}

/// Trading units with their partitions.
pub open spec fn pbu_bytes(pbus: Seq<(&str, &[u32])>) -> Seq<u8>
    decreases pbus.len(),
{
    if pbus.len() == 0 {
        nil()
    } else {
        pbu_bytes(pbus.drop_last()) + text_field(pbus.last().0@, 8) + be(
            pbus.last().1@.len() as int,
            2,
        ) + set_bytes(pbus.last().1@)
    }
}

/// The trading units that are reported to and their partitions.
pub fn encode_exec_rpt_info(platform_id: u16, pbu_set_ids: &[(&str, &[u32])]) -> (r: Vec<u8>)
    ensures
        r@ == framed(
            msg_type::EXEC_RPT_INFO,
            nil() + be(platform_id as int, 2) + be(pbu_set_ids@.len() as int, 2) + pbu_bytes(
                pbu_set_ids@,
            ),
        ),
{
    let mut w = BodyWriter::new();
    w.u16(platform_id);
    put_count(&mut w, pbu_set_ids.len());
    let ghost start = w@;
    let mut i: usize = 0;
    while i < pbu_set_ids.len()
        invariant
            i <= pbu_set_ids@.len(),
            w@ =~= start + pbu_bytes(pbu_set_ids@.take(i as int)),
        decreases pbu_set_ids@.len() - i,
    {
        let (pbu, sets) = pbu_set_ids[i];
        w.str(pbu, 8);
        put_count(&mut w, sets.len());
        put_sets(&mut w, sets);
        proof {
            let t = pbu_set_ids@.take(i + 1);
            assert(t.drop_last() =~= pbu_set_ids@.take(i as int));
            assert(t.last() == pbu_set_ids@[i as int]);
        }
        i += 1;
    }
    assert(pbu_set_ids@.take(pbu_set_ids@.len() as int) =~= pbu_set_ids@);
    frame(msg_type::EXEC_RPT_INFO, w.into_inner().as_slice())
}

/// The end of the reports of a partition.
pub fn encode_exec_rpt_eos(pbu: &str, set_id: u32, end_report_index: u64) -> (r: Vec<u8>)
    ensures
        r@ == framed(
            msg_type::EXEC_RPT_EOS,
            nil() + text_field(pbu@, 8) + be(set_id as int, 4) + be(end_report_index as int, 8),
        ),
{
    let mut w = BodyWriter::new();
    w.str(pbu, 8);
    w.u32(set_id);
    w.u64(end_report_index);
    frame(msg_type::EXEC_RPT_EOS, w.into_inner().as_slice())
}

/// One partition of a synchronisation request.
#[derive(Debug, Clone, Default)]
pub struct SyncGroup {
    pub pbu: String,
    pub set_id: u32,
    /// The first report that is wanted.
    pub begin_report_index: u64,
}

/// The values of [`SyncGroup`].
pub struct SyncGroupView {
    pub pbu: Seq<char>,
    pub set_id: u32,
    pub begin_report_index: u64,
}

impl View for SyncGroup {
    type V = SyncGroupView;

    open spec fn view(&self) -> SyncGroupView {
        SyncGroupView {
            pbu: self.pbu@,
            set_id: self.set_id,
            begin_report_index: self.begin_report_index,
        }
    }
}

/// The group in the 20 bytes that start at `at`.
pub open spec fn sync_group_at(body: Seq<u8>, at: int) -> SyncGroupView {
    SyncGroupView {
        pbu: text_at(body, at, 8),
        set_id: nat_at(body, at + 8, 4) as u32,
        begin_report_index: nat_at(body, at + 12, 8) as u64,
    }
}

/// The groups of a synchronisation request.
pub open spec fn sync_groups(body: Seq<u8>) -> Seq<SyncGroupView> {
    Seq::new(nat_at(body, 0, 2) as nat, |i: int| sync_group_at(body, 2 + 20 * i))
}

/// Whether a body holds the groups that it announces.
pub open spec fn sync_complete(body: Seq<u8>) -> bool {
    body.len() >= 2 && body.len() >= 2 + 20 * nat_at(body, 0, 2)
}

/// Reads a synchronisation request.
pub fn decode_exec_rpt_sync(body: &[u8]) -> (r: Result<Vec<SyncGroup>, ShortBody>)
    ensures
        r is Ok <==> sync_complete(body@),
        r matches Ok(v) ==> v@.map_values(|g: SyncGroup| g@) == sync_groups(body@),
{
    let mut r = BodyReader::new(body);
    let n: u16 = r.u16()?;
    let mut groups: Vec<SyncGroup> = Vec::new();
    let mut i: u16 = 0;
    while i < n
        invariant
            i <= n,
            n == nat_at(body@, 0, 2),
            r.wf(),
            r.body() == body@,
            r.at() == 2 + 20 * i,
            body@.len() >= 2 + 20 * i,
            groups@.len() == i,
            forall|k: int| 0 <= k < i ==> (#[trigger] groups@[k])@ == sync_group_at(body@, 2 + 20 * k),
        decreases n - i,
    {
        let pbu: String = r.str(8)?;
        let set_id: u32 = r.u32()?;
        let begin_report_index: u64 = r.u64()?;
        groups.push(SyncGroup { pbu, set_id, begin_report_index });
        i += 1;
    }
    assert(groups@.map_values(|g: SyncGroup| g@) =~= sync_groups(body@));
    Ok(groups)
}

/// One partition of a synchronisation response.
#[derive(Debug, Clone, Default)]
pub struct SyncRspGroup {
    pub pbu: String,
    pub set_id: u32,
    /// The value of the request.
    pub begin_report_index: u64,
    /// The last report of the partition.
    pub end_report_index: u64,
    /// 0 where the partition is synchronised.
    pub rej_reason: u32,
    pub text: String,
}

/// The values of [`SyncRspGroup`].
pub struct SyncRspGroupView {
    pub pbu: Seq<char>,
    pub set_id: u32,
    pub begin_report_index: u64,
    pub end_report_index: u64,
    pub rej_reason: u32,
    pub text: Seq<char>,
}

impl View for SyncRspGroup {
    type V = SyncRspGroupView;

    open spec fn view(&self) -> SyncRspGroupView {
        SyncRspGroupView {
            pbu: self.pbu@,
            set_id: self.set_id,
            begin_report_index: self.begin_report_index,
            end_report_index: self.end_report_index,
            rej_reason: self.rej_reason,
            text: self.text@,
        }
    }
}

/// The groups of a synchronisation response.
pub open spec fn sync_rsp_bytes(groups: Seq<SyncRspGroupView>) -> Seq<u8>
    decreases groups.len(),
{
    if groups.len() == 0 {
        nil()
    } else {
        let g = groups.last();
        sync_rsp_bytes(groups.drop_last()) + text_field(g.pbu, 8) + be(g.set_id as int, 4) + be(
            g.begin_report_index as int,
            8,
        ) + be(g.end_report_index as int, 8) + be(g.rej_reason as int, 4) + text_field(g.text, 64)
    }
}

/// A synchronisation response.
pub fn encode_exec_rpt_sync_rsp(groups: &[SyncRspGroup]) -> (r: Vec<u8>)
    ensures
        r@ == framed(
            msg_type::EXEC_RPT_SYNC_RSP,
            nil() + be(groups@.len() as int, 2) + sync_rsp_bytes(
                groups@.map_values(|g: SyncRspGroup| g@),
            ),
        ),
{
    let mut w = BodyWriter::new();
    put_count(&mut w, groups.len());
    let ghost start = w@;
    let ghost views = groups@.map_values(|g: SyncRspGroup| g@);
    let mut i: usize = 0;
    while i < groups.len()
        invariant
            i <= groups@.len(),
            views == groups@.map_values(|g: SyncRspGroup| g@),
            w@ =~= start + sync_rsp_bytes(views.take(i as int)),
        decreases groups@.len() - i,
    {
        let g = &groups[i];
        w.str(g.pbu.as_str(), 8);
        w.u32(g.set_id);
        w.u64(g.begin_report_index);
        w.u64(g.end_report_index);
        w.u32(g.rej_reason);
        w.str(g.text.as_str(), 64);
        proof {
            let t = views.take(i + 1);
            assert(t.drop_last() =~= views.take(i as int));
            assert(t.last() == groups@[i as int]@);
        }
        i += 1;
    }
    assert(views.take(views.len() as int) =~= views);
    frame(msg_type::EXEC_RPT_SYNC_RSP, w.into_inner().as_slice())
}

/// The readable name of a message type.
pub open spec fn type_text(mt: u32) -> Seq<char> {
    if mt == msg_type::LOGON {
        "登录 Logon"@
    } else if mt == msg_type::LOGOUT {
        "注销 Logout"@
    } else if mt == msg_type::HEARTBEAT {
        "心跳 Heartbeat"@
    } else if mt == msg_type::NEW_ORDER {
        "新订单申报 NewOrderSingle"@
    } else if mt == msg_type::CANCEL_ORDER {
        "撤单申报 OrderCancelRequest"@
    } else if mt == msg_type::EXEC_RPT {
        "申报响应执行报告 ExecutionReport"@
    } else if mt == msg_type::CANCEL_REJECT {
        "撤单失败 CancelReject"@
    } else if mt == msg_type::TRADE {
        "成交执行报告 Trade"@
    } else if mt == msg_type::ORDER_REJECT {
        "申报拒绝 OrderReject"@
    } else if mt == msg_type::EXEC_RPT_SYNC {
        "分区序号同步 ExecRptSync"@
    } else if mt == msg_type::EXEC_RPT_SYNC_RSP {
        "同步响应 ExecRptSyncRsp"@
    } else if mt == msg_type::EXEC_RPT_INFO {
        "执行报告信息 ExecRptInfo"@
    } else if mt == msg_type::PLATFORM_STATE {
        "平台状态 PlatformState"@
    } else if mt == msg_type::EXEC_RPT_EOS {
        "回报结束 ExecRptEOS"@
    } else if mt == msg_type::REGISTRATION {
        "注册处理申报 RegistrationOrder"@
    } else if mt == msg_type::REGISTRATION_RPT {
        "注册处理执行回报 RegistrationRpt"@
    } else if mt == msg_type::PWD_SERVICE {
        "网络密码服务申报 PasswordServiceOrder"@
    } else if mt == msg_type::PWD_SERVICE_RSP {
        "网络密码服务申报响应 PasswordServiceRsp"@
    } else {
        "未知消息"@
    }
}

/// The readable name of a message type.
pub fn msg_type_name(mt: u32) -> (r: &'static str)
    ensures
        r@ == type_text(mt),
{
    if mt == msg_type::LOGON {
        "登录 Logon"
    } else if mt == msg_type::LOGOUT {
        "注销 Logout"
    } else if mt == msg_type::HEARTBEAT {
        "心跳 Heartbeat"
    } else if mt == msg_type::NEW_ORDER {
        "新订单申报 NewOrderSingle"
    } else if mt == msg_type::CANCEL_ORDER {
        "撤单申报 OrderCancelRequest"
    } else if mt == msg_type::EXEC_RPT {
        "申报响应执行报告 ExecutionReport"
    } else if mt == msg_type::CANCEL_REJECT {
        "撤单失败 CancelReject"
    } else if mt == msg_type::TRADE {
        "成交执行报告 Trade"
    } else if mt == msg_type::ORDER_REJECT {
        "申报拒绝 OrderReject"
    } else if mt == msg_type::EXEC_RPT_SYNC {
        "分区序号同步 ExecRptSync"
    } else if mt == msg_type::EXEC_RPT_SYNC_RSP {
        "同步响应 ExecRptSyncRsp"
    } else if mt == msg_type::EXEC_RPT_INFO {
        "执行报告信息 ExecRptInfo"
    } else if mt == msg_type::PLATFORM_STATE {
        "平台状态 PlatformState"
    } else if mt == msg_type::EXEC_RPT_EOS {
        "回报结束 ExecRptEOS"
    } else if mt == msg_type::REGISTRATION {
        "注册处理申报 RegistrationOrder"
    } else if mt == msg_type::REGISTRATION_RPT {
        "注册处理执行回报 RegistrationRpt"
    } else if mt == msg_type::PWD_SERVICE {
        "网络密码服务申报 PasswordServiceOrder"
    } else if mt == msg_type::PWD_SERVICE_RSP {
        "网络密码服务申报响应 PasswordServiceRsp"
    } else {
        "未知消息"
    }
}

/// An order type code and its meaning.
pub open spec fn ord_type_text(b: u8) -> Seq<char> {
    if b == 0x31 {
        "1 (市转撤)"@
    } else if b == 0x32 {
        "2 (限价)"@
    } else if b == 0x33 {
        "3 (市转限)"@
    } else if b == 0x34 {
        "4 (本方最优)"@
    } else if b == 0x35 {
        "5 (对手方最优)"@
    } else {
        layout::code_text(b)
    }
}

/// An order type code and its meaning.
pub fn ord_type_label(b: u8) -> (r: String)
    ensures
        r@ == ord_type_text(b),
{
    if b == 0x31 {
        "1 (市转撤)".to_owned()
    } else if b == 0x32 {
        "2 (限价)".to_owned()
    } else if b == 0x33 {
        "3 (市转限)".to_owned()
    } else if b == 0x34 {
        "4 (本方最优)".to_owned()
    } else if b == 0x35 {
        "5 (对手方最优)".to_owned()
    } else {
        text::char_string(b)
    }
}

/// An execution type code and its meaning.
pub open spec fn exec_type_text(b: u8) -> Seq<char> {
    if b == 0x30 {
        "0 (申报确认)"@
    } else if b == 0x34 {
        "4 (撤单成功)"@
    } else if b == 0x38 {
        "8 (申报拒绝)"@
    } else if b == 0x46 {
        "F (成交)"@
    } else {
        layout::code_text(b)
    }
}

/// An execution type code and its meaning.
pub fn exec_type_label(b: u8) -> (r: String)
    ensures
        r@ == exec_type_text(b),
{
    if b == 0x30 {
        "0 (申报确认)".to_owned()
    } else if b == 0x34 {
        "4 (撤单成功)".to_owned()
    } else if b == 0x38 {
        "8 (申报拒绝)".to_owned()
    } else if b == 0x46 {
        "F (成交)".to_owned()
    } else {
        text::char_string(b)
    }
}

/// What a business number means, in brackets behind a space; nothing where it is unknown.
pub open spec fn biz_meaning(v: u32) -> Seq<char> {
    if v == BIZ_ID_CASH_AUCTION {
        " (股票现货竞价)"@
    } else if v == BIZ_ID_ISSUE {
        " (发行)"@
    } else if v == BIZ_ID_RIGHTS {
        " (配股/科创板配售)"@
    } else if v == BIZ_ID_RIGHTS_BOND {
        " (配转债)"@
    } else if v == BIZ_ID_TENDER_ACCEPT {
        " (要约预受)"@
    } else if v == BIZ_ID_TENDER_CANCEL {
        " (要约撤销)"@
    } else if v == BIZ_ID_FUND_SUB {
        " (基金申购)"@
    } else if v == BIZ_ID_FUND_RED {
        " (基金赎回)"@
    } else if v == BIZ_ID_FUND_SUB_ISSUE {
        " (基金认购)"@
    } else if v == BIZ_ID_FUND_TRANSFER {
        " (转托管)"@
    } else if v == BIZ_ID_FUND_DIVIDEND {
        " (分红设置)"@
    } else if v == BIZ_ID_FUND_CONVERT {
        " (转换)"@
    } else if v == BIZ_ID_REMAIN_TRANSFER {
        " (余券划转)"@
    } else if v == BIZ_ID_RETURN_TRANSFER {
        " (还券划转)"@
    } else if v == BIZ_ID_COLLATERAL_IN {
        " (担保品划入)"@
    } else if v == BIZ_ID_COLLATERAL_OUT {
        " (担保品划出)"@
    } else if v == BIZ_ID_SEC_SRC_IN {
        " (券源划入)"@
    } else if v == BIZ_ID_SEC_SRC_OUT {
        " (券源划出)"@
    } else if v == BIZ_ID_PWD_SERVICE {
        " (网络密码服务)"@
    } else if v == BIZ_ID_DESIGNATION {
        " (指定登记)"@
    } else if v == BIZ_ID_DESIGNATION_CANCEL {
        " (指定撤销)"@
    } else {
        Seq::empty()
    }
}

/// A business number and its meaning.
pub open spec fn biz_id_text(v: u32) -> Seq<char> {
    text::dec(v as nat) + biz_meaning(v)
}

/// A business number and its meaning.
pub fn biz_id_label(v: u32) -> (r: String)
    ensures
        r@ == biz_id_text(v),
{
    let mut out = text::dec_string(v as u64);
    let meaning = if v == BIZ_ID_CASH_AUCTION {
        " (股票现货竞价)"
    } else if v == BIZ_ID_ISSUE {
        " (发行)"
    } else if v == BIZ_ID_RIGHTS {
        " (配股/科创板配售)"
    } else if v == BIZ_ID_RIGHTS_BOND {
        " (配转债)"
    } else if v == BIZ_ID_TENDER_ACCEPT {
        " (要约预受)"
    } else if v == BIZ_ID_TENDER_CANCEL {
        " (要约撤销)"
    } else if v == BIZ_ID_FUND_SUB {
        " (基金申购)"
    } else if v == BIZ_ID_FUND_RED {
        " (基金赎回)"
    } else if v == BIZ_ID_FUND_SUB_ISSUE {
        " (基金认购)"
    } else if v == BIZ_ID_FUND_TRANSFER {
        " (转托管)"
    } else if v == BIZ_ID_FUND_DIVIDEND {
        " (分红设置)"
    } else if v == BIZ_ID_FUND_CONVERT {
        " (转换)"
    } else if v == BIZ_ID_REMAIN_TRANSFER {
        " (余券划转)"
    } else if v == BIZ_ID_RETURN_TRANSFER {
        " (还券划转)"
    } else if v == BIZ_ID_COLLATERAL_IN {
        " (担保品划入)"
    } else if v == BIZ_ID_COLLATERAL_OUT {
        " (担保品划出)"
    } else if v == BIZ_ID_SEC_SRC_IN {
        " (券源划入)"
    } else if v == BIZ_ID_SEC_SRC_OUT {
        " (券源划出)"
    } else if v == BIZ_ID_PWD_SERVICE {
        " (网络密码服务)"
    } else if v == BIZ_ID_DESIGNATION {
        " (指定登记)"
    } else if v == BIZ_ID_DESIGNATION_CANCEL {
        " (指定撤销)"
    } else {
        ""
    };
    proof {
        reveal_strlit("");
        assert(""@ =~= Seq::<char>::empty());
    }
    out.push_str(meaning);
    out
}

/// A time of day as `HH:MM:SS.mmm`, `0` if it is 0.
pub open spec fn time_text(v: int) -> Seq<char> {
    if v == 0 {
        seq!['0']
    } else {
        let s = text::zero_pad(text::dec(v as nat), 13);
        s.subrange(0, 2) + seq![':'] + s.subrange(2, 4) + seq![':'] + s.subrange(4, 6) + seq!['.']
            + s.subrange(6, 9)
    }
}

/// A time of day as `HH:MM:SS.mmm`, `0` if it is 0.
pub fn fmt_sh_time(v: u64) -> (r: String)
    ensures
        r@ == time_text(v as int),
{
    let mut out = String::new();
    if v == 0 {
        out.push('0');
        assert(out@ =~= seq!['0']);
        return out;
    }
    let s = text::pad_digits(v, 13);
    text::push_slice(&mut out, &s, 0, 2);
    out.push(':');
    text::push_slice(&mut out, &s, 2, 4);
    out.push(':');
    text::push_slice(&mut out, &s, 4, 6);
    out.push('.');
    text::push_slice(&mut out, &s, 6, 9);
    assert(out@ =~= time_text(v as int));
    out
}

/// A date as `YYYY-MM-DD`, `0` if it is 0.
pub open spec fn date_text(v: int) -> Seq<char> {
    if v == 0 {
        seq!['0']
    } else {
        let s = text::zero_pad(text::dec(v as nat), 8);
        s.subrange(0, 4) + seq!['-'] + s.subrange(4, 6) + seq!['-'] + s.subrange(6, 8)
    }
}

/// A date as `YYYY-MM-DD`, `0` if it is 0.
pub fn fmt_sh_date(v: u32) -> (r: String)
    ensures
        r@ == date_text(v as int),
{
    let mut out = String::new();
    if v == 0 {
        out.push('0');
        assert(out@ =~= seq!['0']);
        return out;
    }
    let s = text::pad_digits(v as u64, 8);
    text::push_slice(&mut out, &s, 0, 4);
    out.push('-');
    text::push_slice(&mut out, &s, 4, 6);
    out.push('-');
    text::push_slice(&mut out, &s, 6, 8);
    assert(out@ =~= date_text(v as int));
    out
}

/// The fields of a logon.
pub open spec fn logon_layout() -> Seq<FieldDef> {
    seq![
        ("SenderCompID", Kind::Text(32)),
        ("TargetCompID", Kind::Text(32)),
        ("HeartBtInt", Kind::Seconds16),
        ("PrtclVersion", Kind::Text(8)),
        ("TradeDate", Kind::ShDate),
        ("Qsize", Kind::Nat(4)),
    ]
}

fn logon_defs() -> (r: Vec<FieldDef>)
    ensures
        r@ == logon_layout(),
        layout::all_readable(r@),
{
    let r: Vec<FieldDef> = vec![
        ("SenderCompID", Kind::Text(32)),
        ("TargetCompID", Kind::Text(32)),
        ("HeartBtInt", Kind::Seconds16),
        ("PrtclVersion", Kind::Text(8)),
        ("TradeDate", Kind::ShDate),
        ("Qsize", Kind::Nat(4)),
    ];
    assert(r@ =~= logon_layout());
    r
}

/// The fields of a logout.
pub open spec fn logout_layout() -> Seq<FieldDef> {
    seq![
        ("SessionStatus", Kind::Nat(4)),
        ("Text", Kind::Text(64)),
    ]
}

fn logout_defs() -> (r: Vec<FieldDef>)
    ensures
        r@ == logout_layout(),
        layout::all_readable(r@),
{
    let r: Vec<FieldDef> = vec![
        ("SessionStatus", Kind::Nat(4)),
        ("Text", Kind::Text(64)),
    ];
    assert(r@ =~= logout_layout());
    r
}

/// The fields of a new order, without the extension.
pub open spec fn new_order_layout() -> Seq<FieldDef> {
    seq![
        ("BizID", Kind::BizId),
        ("BizPBU", Kind::Text(8)),
        ("ClOrdID", Kind::Text(10)),
        ("SecurityID", Kind::Text(12)),
        ("Account", Kind::Text(13)),
        ("OwnerType", Kind::Nat(1)),
        ("Side", Kind::Side),
        ("Price", Kind::Yuan(100_000)),
        ("OrderQty", Kind::Shares(1000)),
        ("OrdType", Kind::ShOrdType),
        ("TimeInForce", Kind::Nat(1)),
        ("TransactTime", Kind::ShTime),
        ("CreditTag", Kind::Text(2)),
        ("ClearingFirm", Kind::Text(8)),
        ("BranchID", Kind::Text(8)),
        ("UserInfo", Kind::Text(32)),
    ]
}

fn new_order_defs() -> (r: Vec<FieldDef>)
    ensures
        r@ == new_order_layout(),
        layout::all_readable(r@),
{
    let r: Vec<FieldDef> = vec![
        ("BizID", Kind::BizId),
        ("BizPBU", Kind::Text(8)),
        ("ClOrdID", Kind::Text(10)),
        ("SecurityID", Kind::Text(12)),
        ("Account", Kind::Text(13)),
        ("OwnerType", Kind::Nat(1)),
        ("Side", Kind::Side),
        ("Price", Kind::Yuan(100_000)),
        ("OrderQty", Kind::Shares(1000)),
        ("OrdType", Kind::ShOrdType),
        ("TimeInForce", Kind::Nat(1)),
        ("TransactTime", Kind::ShTime),
        ("CreditTag", Kind::Text(2)),
        ("ClearingFirm", Kind::Text(8)),
        ("BranchID", Kind::Text(8)),
        ("UserInfo", Kind::Text(32)),
    ];
    assert(r@ =~= new_order_layout());
    r
}

/// The fields of a cancel request.
pub open spec fn cancel_order_layout() -> Seq<FieldDef> {
    seq![
        ("BizID", Kind::BizId),
        ("BizPBU", Kind::Text(8)),
        ("ClOrdID", Kind::Text(10)),
        ("SecurityID", Kind::Text(12)),
        ("Account", Kind::Text(13)),
        ("OwnerType", Kind::Nat(1)),
        ("Side", Kind::Side),
        ("OrigClOrdID", Kind::Text(10)),
        ("TransactTime", Kind::ShTime),
        ("BranchID", Kind::Text(8)),
        ("UserInfo", Kind::Text(32)),
    ]
}

fn cancel_order_defs() -> (r: Vec<FieldDef>)
    ensures
        r@ == cancel_order_layout(),
        layout::all_readable(r@),
{
    let r: Vec<FieldDef> = vec![
        ("BizID", Kind::BizId),
        ("BizPBU", Kind::Text(8)),
        ("ClOrdID", Kind::Text(10)),
        ("SecurityID", Kind::Text(12)),
        ("Account", Kind::Text(13)),
        ("OwnerType", Kind::Nat(1)),
        ("Side", Kind::Side),
        ("OrigClOrdID", Kind::Text(10)),
        ("TransactTime", Kind::ShTime),
        ("BranchID", Kind::Text(8)),
        ("UserInfo", Kind::Text(32)),
    ];
    assert(r@ =~= cancel_order_layout());
    r
}

/// The fields of an order response, without the extension.
pub open spec fn exec_rpt_layout() -> Seq<FieldDef> {
    seq![
        ("PBU", Kind::Text(8)),
        ("SetID", Kind::Nat(4)),
        ("ReportIndex", Kind::Nat(8)),
        ("BizID", Kind::BizId),
        ("ExecType", Kind::ShExecType),
        ("BizPBU", Kind::Text(8)),
        ("ClOrdID", Kind::Text(10)),
        ("SecurityID", Kind::Text(12)),
        ("Account", Kind::Text(13)),
        ("OwnerType", Kind::Nat(1)),
        ("Side", Kind::Side),
        ("Price", Kind::Yuan(100_000)),
        ("OrderQty", Kind::Shares(1000)),
        ("LeavesQty", Kind::Shares(1000)),
        ("CxlQty", Kind::Shares(1000)),
        ("OrdType", Kind::ShOrdType),
        ("TimeInForce", Kind::Nat(1)),
        ("OrdStatus", Kind::OrdStatus),
        ("CreditTag", Kind::Text(2)),
        ("OrigClOrdID", Kind::Text(10)),
        ("ClearingFirm", Kind::Text(8)),
        ("BranchID", Kind::Text(8)),
        ("OrdRejReason", Kind::Nat(4)),
        ("OrdCnfmID", Kind::Text(16)),
        ("OrigOrdCnfmID", Kind::Text(16)),
        ("TradeDate", Kind::ShDate),
        ("TransactTime", Kind::ShTime),
        ("UserInfo", Kind::Text(32)),
    ]
}

fn exec_rpt_defs() -> (r: Vec<FieldDef>)
    ensures
        r@ == exec_rpt_layout(),
        layout::all_readable(r@),
{
    let r: Vec<FieldDef> = vec![
        ("PBU", Kind::Text(8)),
        ("SetID", Kind::Nat(4)),
        ("ReportIndex", Kind::Nat(8)),
        ("BizID", Kind::BizId),
        ("ExecType", Kind::ShExecType),
        ("BizPBU", Kind::Text(8)),
        ("ClOrdID", Kind::Text(10)),
        ("SecurityID", Kind::Text(12)),
        ("Account", Kind::Text(13)),
        ("OwnerType", Kind::Nat(1)),
        ("Side", Kind::Side),
        ("Price", Kind::Yuan(100_000)),
        ("OrderQty", Kind::Shares(1000)),
        ("LeavesQty", Kind::Shares(1000)),
        ("CxlQty", Kind::Shares(1000)),
        ("OrdType", Kind::ShOrdType),
        ("TimeInForce", Kind::Nat(1)),
        ("OrdStatus", Kind::OrdStatus),
        ("CreditTag", Kind::Text(2)),
        ("OrigClOrdID", Kind::Text(10)),
        ("ClearingFirm", Kind::Text(8)),
        ("BranchID", Kind::Text(8)),
        ("OrdRejReason", Kind::Nat(4)),
        ("OrdCnfmID", Kind::Text(16)),
        ("OrigOrdCnfmID", Kind::Text(16)),
        ("TradeDate", Kind::ShDate),
        ("TransactTime", Kind::ShTime),
        ("UserInfo", Kind::Text(32)),
    ];
    assert(r@ =~= exec_rpt_layout());
    r
}

/// The fields of a refused cancel request.
pub open spec fn cancel_reject_layout() -> Seq<FieldDef> {
    seq![
        ("PBU", Kind::Text(8)),
        ("SetID", Kind::Nat(4)),
        ("ReportIndex", Kind::Nat(8)),
        ("BizID", Kind::BizId),
        ("BizPBU", Kind::Text(8)),
        ("ClOrdID", Kind::Text(10)),
        ("SecurityID", Kind::Text(12)),
        ("OrigClOrdID", Kind::Text(10)),
        ("BranchID", Kind::Text(8)),
        ("CxlRejReason", Kind::Nat(4)),
        ("TradeDate", Kind::ShDate),
        ("TransactTime", Kind::ShTime),
        ("UserInfo", Kind::Text(32)),
    ]
}

fn cancel_reject_defs() -> (r: Vec<FieldDef>)
    ensures
        r@ == cancel_reject_layout(),
        layout::all_readable(r@),
{
    let r: Vec<FieldDef> = vec![
        ("PBU", Kind::Text(8)),
        ("SetID", Kind::Nat(4)),
        ("ReportIndex", Kind::Nat(8)),
        ("BizID", Kind::BizId),
        ("BizPBU", Kind::Text(8)),
        ("ClOrdID", Kind::Text(10)),
        ("SecurityID", Kind::Text(12)),
        ("OrigClOrdID", Kind::Text(10)),
        ("BranchID", Kind::Text(8)),
        ("CxlRejReason", Kind::Nat(4)),
        ("TradeDate", Kind::ShDate),
        ("TransactTime", Kind::ShTime),
        ("UserInfo", Kind::Text(32)),
    ];
    assert(r@ =~= cancel_reject_layout());
    r
}

/// The fields of an execution.
pub open spec fn trade_layout() -> Seq<FieldDef> {
    seq![
        ("PBU", Kind::Text(8)),
        ("SetID", Kind::Nat(4)),
        ("ReportIndex", Kind::Nat(8)),
        ("BizID", Kind::BizId),
        ("ExecType", Kind::ShExecType),
        ("BizPBU", Kind::Text(8)),
        ("ClOrdID", Kind::Text(10)),
        ("SecurityID", Kind::Text(12)),
        ("Account", Kind::Text(13)),
        ("OwnerType", Kind::Nat(1)),
        ("OrderEntryTime", Kind::ShTime),
        ("LastPx", Kind::Yuan(100_000)),
        ("LastQty", Kind::Shares(1000)),
        ("GrossTradeAmt", Kind::Yuan(100_000)),
        ("Side", Kind::Side),
        ("OrderQty", Kind::Shares(1000)),
        ("LeavesQty", Kind::Shares(1000)),
        ("OrdStatus", Kind::OrdStatus),
        ("CreditTag", Kind::Text(2)),
        ("ClearingFirm", Kind::Text(8)),
        ("BranchID", Kind::Text(8)),
        ("TrdCnfmID", Kind::Text(16)),
        ("OrdCnfmID", Kind::Text(16)),
        ("TradeDate", Kind::ShDate),
        ("TransactTime", Kind::ShTime),
        ("UserInfo", Kind::Text(32)),
    ]
}

fn trade_defs() -> (r: Vec<FieldDef>)
    ensures
        r@ == trade_layout(),
        layout::all_readable(r@),
{
    let r: Vec<FieldDef> = vec![
        ("PBU", Kind::Text(8)),
        ("SetID", Kind::Nat(4)),
        ("ReportIndex", Kind::Nat(8)),
        ("BizID", Kind::BizId),
        ("ExecType", Kind::ShExecType),
        ("BizPBU", Kind::Text(8)),
        ("ClOrdID", Kind::Text(10)),
        ("SecurityID", Kind::Text(12)),
        ("Account", Kind::Text(13)),
        ("OwnerType", Kind::Nat(1)),
        ("OrderEntryTime", Kind::ShTime),
        ("LastPx", Kind::Yuan(100_000)),
        ("LastQty", Kind::Shares(1000)),
        ("GrossTradeAmt", Kind::Yuan(100_000)),
        ("Side", Kind::Side),
        ("OrderQty", Kind::Shares(1000)),
        ("LeavesQty", Kind::Shares(1000)),
        ("OrdStatus", Kind::OrdStatus),
        ("CreditTag", Kind::Text(2)),
        ("ClearingFirm", Kind::Text(8)),
        ("BranchID", Kind::Text(8)),
        ("TrdCnfmID", Kind::Text(16)),
        ("OrdCnfmID", Kind::Text(16)),
        ("TradeDate", Kind::ShDate),
        ("TransactTime", Kind::ShTime),
        ("UserInfo", Kind::Text(32)),
    ];
    assert(r@ =~= trade_layout());
    r
}

/// The fields of a refused order.
pub open spec fn order_reject_layout() -> Seq<FieldDef> {
    seq![
        ("BizID", Kind::BizId),
        ("BizPBU", Kind::Text(8)),
        ("ClOrdID", Kind::Text(10)),
        ("SecurityID", Kind::Text(12)),
        ("OrdRejReason", Kind::Nat(4)),
        ("TradeDate", Kind::ShDate),
        ("TransactTime", Kind::ShTime),
        ("UserInfo", Kind::Text(32)),
    ]
}

fn order_reject_defs() -> (r: Vec<FieldDef>)
    ensures
        r@ == order_reject_layout(),
        layout::all_readable(r@),
{
    let r: Vec<FieldDef> = vec![
        ("BizID", Kind::BizId),
        ("BizPBU", Kind::Text(8)),
        ("ClOrdID", Kind::Text(10)),
        ("SecurityID", Kind::Text(12)),
        ("OrdRejReason", Kind::Nat(4)),
        ("TradeDate", Kind::ShDate),
        ("TransactTime", Kind::ShTime),
        ("UserInfo", Kind::Text(32)),
    ];
    assert(r@ =~= order_reject_layout());
    r
}

/// The fields of a platform state.
pub open spec fn platform_state_layout() -> Seq<FieldDef> {
    seq![
        ("PlatformID", Kind::Nat(2)),
        ("State", Kind::Nat(2)),
    ]
}

fn platform_state_defs() -> (r: Vec<FieldDef>)
    ensures
        r@ == platform_state_layout(),
        layout::all_readable(r@),
{
    let r: Vec<FieldDef> = vec![
        ("PlatformID", Kind::Nat(2)),
        ("State", Kind::Nat(2)),
    ];
    assert(r@ =~= platform_state_layout());
    r
}

/// The fields of the end of reports.
pub open spec fn exec_rpt_eos_layout() -> Seq<FieldDef> {
    seq![
        ("PBU", Kind::Text(8)),
        ("SetID", Kind::Nat(4)),
        ("EndReportIndex", Kind::Nat(8)),
    ]
}

fn exec_rpt_eos_defs() -> (r: Vec<FieldDef>)
    ensures
        r@ == exec_rpt_eos_layout(),
        layout::all_readable(r@),
{
    let r: Vec<FieldDef> = vec![
        ("PBU", Kind::Text(8)),
        ("SetID", Kind::Nat(4)),
        ("EndReportIndex", Kind::Nat(8)),
    ];
    assert(r@ =~= exec_rpt_eos_layout());
    r
}

/// The fields of a registration.
pub open spec fn registration_layout() -> Seq<FieldDef> {
    seq![
        ("BizID", Kind::BizId),
        ("BizPBU", Kind::Text(8)),
        ("ClOrdID", Kind::Text(10)),
        ("SecurityID", Kind::Text(12)),
        ("Account", Kind::Text(13)),
        ("OwnerType", Kind::Nat(1)),
        ("DesignationInstruction", Kind::Nat(1)),
        ("DesignationTransType", Kind::Nat(1)),
        ("OrigClOrdID", Kind::Text(10)),
        ("TransactTime", Kind::ShTime),
        ("BranchID", Kind::Text(8)),
        ("UserInfo", Kind::Text(32)),
    ]
}

fn registration_defs() -> (r: Vec<FieldDef>)
    ensures
        r@ == registration_layout(),
        layout::all_readable(r@),
{
    let r: Vec<FieldDef> = vec![
        ("BizID", Kind::BizId),
        ("BizPBU", Kind::Text(8)),
        ("ClOrdID", Kind::Text(10)),
        ("SecurityID", Kind::Text(12)),
        ("Account", Kind::Text(13)),
        ("OwnerType", Kind::Nat(1)),
        ("DesignationInstruction", Kind::Nat(1)),
        ("DesignationTransType", Kind::Nat(1)),
        ("OrigClOrdID", Kind::Text(10)),
        ("TransactTime", Kind::ShTime),
        ("BranchID", Kind::Text(8)),
        ("UserInfo", Kind::Text(32)),
    ];
    assert(r@ =~= registration_layout());
    r
}

/// The fields of a registration report.
pub open spec fn registration_rpt_layout() -> Seq<FieldDef> {
    seq![
        ("PBU", Kind::Text(8)),
        ("SetID", Kind::Nat(4)),
        ("ReportIndex", Kind::Nat(8)),
        ("BizID", Kind::BizId),
        ("ExecType", Kind::ShExecType),
        ("BizPBU", Kind::Text(8)),
        ("ClOrdID", Kind::Text(10)),
        ("SecurityID", Kind::Text(12)),
        ("Account", Kind::Text(13)),
        ("OwnerType", Kind::Nat(1)),
        ("OrdStatus", Kind::OrdStatus),
        ("OrigClOrdID", Kind::Text(10)),
        ("BranchID", Kind::Text(8)),
        ("OrdRejReason", Kind::Nat(4)),
        ("OrdCnfmID", Kind::Text(16)),
        ("OrigOrdCnfmID", Kind::Text(16)),
        ("TradeDate", Kind::ShDate),
        ("TransactTime", Kind::ShTime),
        ("UserInfo", Kind::Text(32)),
    ]
}

fn registration_rpt_defs() -> (r: Vec<FieldDef>)
    ensures
        r@ == registration_rpt_layout(),
        layout::all_readable(r@),
{
    let r: Vec<FieldDef> = vec![
        ("PBU", Kind::Text(8)),
        ("SetID", Kind::Nat(4)),
        ("ReportIndex", Kind::Nat(8)),
        ("BizID", Kind::BizId),
        ("ExecType", Kind::ShExecType),
        ("BizPBU", Kind::Text(8)),
        ("ClOrdID", Kind::Text(10)),
        ("SecurityID", Kind::Text(12)),
        ("Account", Kind::Text(13)),
        ("OwnerType", Kind::Nat(1)),
        ("OrdStatus", Kind::OrdStatus),
        ("OrigClOrdID", Kind::Text(10)),
        ("BranchID", Kind::Text(8)),
        ("OrdRejReason", Kind::Nat(4)),
        ("OrdCnfmID", Kind::Text(16)),
        ("OrigOrdCnfmID", Kind::Text(16)),
        ("TradeDate", Kind::ShDate),
        ("TransactTime", Kind::ShTime),
        ("UserInfo", Kind::Text(32)),
    ];
    assert(r@ =~= registration_rpt_layout());
    r
}

/// The fields of a password service request.
pub open spec fn pwd_service_layout() -> Seq<FieldDef> {
    seq![
        ("BizID", Kind::BizId),
        ("BizPBU", Kind::Text(8)),
        ("ClOrdID", Kind::Text(10)),
        ("SecurityID", Kind::Text(12)),
        ("Account", Kind::Text(13)),
        ("OwnerType", Kind::Nat(1)),
        ("TransactTime", Kind::ShTime),
        ("BranchID", Kind::Text(8)),
        ("Side", Kind::Nat(1)),
        ("ValidationCode", Kind::Text(8)),
        ("UserInfo", Kind::Text(32)),
    ]
}

fn pwd_service_defs() -> (r: Vec<FieldDef>)
    ensures
        r@ == pwd_service_layout(),
        layout::all_readable(r@),
{
    let r: Vec<FieldDef> = vec![
        ("BizID", Kind::BizId),
        ("BizPBU", Kind::Text(8)),
        ("ClOrdID", Kind::Text(10)),
        ("SecurityID", Kind::Text(12)),
        ("Account", Kind::Text(13)),
        ("OwnerType", Kind::Nat(1)),
        ("TransactTime", Kind::ShTime),
        ("BranchID", Kind::Text(8)),
        ("Side", Kind::Nat(1)),
        ("ValidationCode", Kind::Text(8)),
        ("UserInfo", Kind::Text(32)),
    ];
    assert(r@ =~= pwd_service_layout());
    r
}

/// The fields of a password service response.
pub open spec fn pwd_service_rsp_layout() -> Seq<FieldDef> {
    seq![
        ("BizID", Kind::BizId),
        ("BizPBU", Kind::Text(8)),
        ("ClOrdID", Kind::Text(10)),
        ("SecurityID", Kind::Text(12)),
        ("Account", Kind::Text(13)),
        ("OwnerType", Kind::Nat(1)),
        ("BranchID", Kind::Text(8)),
        ("Side", Kind::Nat(1)),
        ("ValidationCode", Kind::Text(8)),
        ("OrdRejReason", Kind::Nat(4)),
        ("TradeDate", Kind::ShDate),
        ("TransactTime", Kind::ShTime),
        ("UserInfo", Kind::Text(32)),
    ]
}

fn pwd_service_rsp_defs() -> (r: Vec<FieldDef>)
    ensures
        r@ == pwd_service_rsp_layout(),
        layout::all_readable(r@),
{
    let r: Vec<FieldDef> = vec![
        ("BizID", Kind::BizId),
        ("BizPBU", Kind::Text(8)),
        ("ClOrdID", Kind::Text(10)),
        ("SecurityID", Kind::Text(12)),
        ("Account", Kind::Text(13)),
        ("OwnerType", Kind::Nat(1)),
        ("BranchID", Kind::Text(8)),
        ("Side", Kind::Nat(1)),
        ("ValidationCode", Kind::Text(8)),
        ("OrdRejReason", Kind::Nat(4)),
        ("TradeDate", Kind::ShDate),
        ("TransactTime", Kind::ShTime),
        ("UserInfo", Kind::Text(32)),
    ];
    assert(r@ =~= pwd_service_rsp_layout());
    r
}

/// The number of groups.
pub open spec fn group_count_layout() -> Seq<FieldDef> {
    seq![
        ("NoGroups", Kind::Nat(2)),
    ]
}

fn group_count_defs() -> (r: Vec<FieldDef>)
    ensures
        r@ == group_count_layout(),
        layout::all_readable(r@),
{
    let r: Vec<FieldDef> = vec![
        ("NoGroups", Kind::Nat(2)),
    ];
    assert(r@ =~= group_count_layout());
    r
}

/// The fields of a group of a synchronisation request.
pub open spec fn sync_group_layout() -> Seq<FieldDef> {
    seq![
        ("PBU", Kind::Text(8)),
        ("SetID", Kind::Nat(4)),
        ("BeginReportIndex", Kind::Nat(8)),
    ]
}

fn sync_group_defs() -> (r: Vec<FieldDef>)
    ensures
        r@ == sync_group_layout(),
        layout::all_readable(r@),
{
    let r: Vec<FieldDef> = vec![
        ("PBU", Kind::Text(8)),
        ("SetID", Kind::Nat(4)),
        ("BeginReportIndex", Kind::Nat(8)),
    ];
    assert(r@ =~= sync_group_layout());
    r
}

/// The fields of a group of a synchronisation response.
pub open spec fn sync_rsp_group_layout() -> Seq<FieldDef> {
    seq![
        ("PBU", Kind::Text(8)),
        ("SetID", Kind::Nat(4)),
        ("BeginReportIndex", Kind::Nat(8)),
        ("EndReportIndex", Kind::Nat(8)),
        ("RejReason", Kind::Nat(4)),
        ("Text", Kind::Text(64)),
    ]
}

fn sync_rsp_group_defs() -> (r: Vec<FieldDef>)
    ensures
        r@ == sync_rsp_group_layout(),
        layout::all_readable(r@),
{
    let r: Vec<FieldDef> = vec![
        ("PBU", Kind::Text(8)),
        ("SetID", Kind::Nat(4)),
        ("BeginReportIndex", Kind::Nat(8)),
        ("EndReportIndex", Kind::Nat(8)),
        ("RejReason", Kind::Nat(4)),
        ("Text", Kind::Text(64)),
    ];
    assert(r@ =~= sync_rsp_group_layout());
    r
}

/// The fields of a report information, without the trading units.
pub open spec fn exec_rpt_info_layout() -> Seq<FieldDef> {
    seq![
        ("PlatformID", Kind::Nat(2)),
        ("NoPBUs", Kind::Nat(2)),
    ]
}

fn exec_rpt_info_defs() -> (r: Vec<FieldDef>)
    ensures
        r@ == exec_rpt_info_layout(),
        layout::all_readable(r@),
{
    let r: Vec<FieldDef> = vec![
        ("PlatformID", Kind::Nat(2)),
        ("NoPBUs", Kind::Nat(2)),
    ];
    assert(r@ =~= exec_rpt_info_layout());
    r
}

/// A partition number, whose name is its position.
pub open spec fn set_id_layout() -> Seq<FieldDef> {
    seq![
        ("", Kind::Nat(4)),
    ]
}

fn set_id_defs() -> (r: Vec<FieldDef>)
    ensures
        r@ == set_id_layout(),
        layout::all_readable(r@),
{
    let r: Vec<FieldDef> = vec![
        ("", Kind::Nat(4)),
    ];
    assert(r@ =~= set_id_layout());
    r
}

/// The extension of a fund transfer.
pub open spec fn custodian_layout() -> Seq<FieldDef> {
    seq![
        ("Custodian", Kind::Text(3)),
    ]
}

fn custodian_defs() -> (r: Vec<FieldDef>)
    ensures
        r@ == custodian_layout(),
        layout::all_readable(r@),
{
    let r: Vec<FieldDef> = vec![
        ("Custodian", Kind::Text(3)),
    ];
    assert(r@ =~= custodian_layout());
    r
}

/// The extension of a dividend setting.
pub open spec fn dividend_layout() -> Seq<FieldDef> {
    seq![
        ("DividendSelect", Kind::Nat(1)),
    ]
}

fn dividend_defs() -> (r: Vec<FieldDef>)
    ensures
        r@ == dividend_layout(),
        layout::all_readable(r@),
{
    let r: Vec<FieldDef> = vec![
        ("DividendSelect", Kind::Nat(1)),
    ];
    assert(r@ =~= dividend_layout());
    r
}

/// The extension of conversions and transfers.
pub open spec fn dest_security_layout() -> Seq<FieldDef> {
    seq![
        ("DestSecurity", Kind::Text(12)),
    ]
}

fn dest_security_defs() -> (r: Vec<FieldDef>)
    ensures
        r@ == dest_security_layout(),
        layout::all_readable(r@),
{
    let r: Vec<FieldDef> = vec![
        ("DestSecurity", Kind::Text(12)),
    ];
    assert(r@ =~= dest_security_layout());
    r
}

/// The fields of a message, without extension and repeating groups; none where the type is
/// not described.
pub open spec fn layout_of(mt: u32) -> Seq<FieldDef> {
    if mt == msg_type::LOGON {
        logon_layout()
    } else if mt == msg_type::LOGOUT {
        logout_layout()
    } else if mt == msg_type::NEW_ORDER {
        new_order_layout()
    } else if mt == msg_type::CANCEL_ORDER {
        cancel_order_layout()
    } else if mt == msg_type::EXEC_RPT {
        exec_rpt_layout()
    } else if mt == msg_type::CANCEL_REJECT {
        cancel_reject_layout()
    } else if mt == msg_type::TRADE {
        trade_layout()
    } else if mt == msg_type::ORDER_REJECT {
        order_reject_layout()
    } else if mt == msg_type::PLATFORM_STATE {
        platform_state_layout()
    } else if mt == msg_type::EXEC_RPT_EOS {
        exec_rpt_eos_layout()
    } else if mt == msg_type::REGISTRATION {
        registration_layout()
    } else if mt == msg_type::REGISTRATION_RPT {
        registration_rpt_layout()
    } else if mt == msg_type::PWD_SERVICE {
        pwd_service_layout()
    } else if mt == msg_type::PWD_SERVICE_RSP {
        pwd_service_rsp_layout()
    } else if mt == msg_type::EXEC_RPT_SYNC {
        group_count_layout()
    } else if mt == msg_type::EXEC_RPT_SYNC_RSP {
        group_count_layout()
    } else if mt == msg_type::EXEC_RPT_INFO {
        exec_rpt_info_layout()
    } else {
        Seq::empty()
    }
}

fn defs_of(mt: u32) -> (r: Vec<FieldDef>)
    ensures
        r@ == layout_of(mt),
        layout::all_readable(r@),
{
    if mt == msg_type::LOGON {
        logon_defs()
    } else if mt == msg_type::LOGOUT {
        logout_defs()
    } else if mt == msg_type::NEW_ORDER {
        new_order_defs()
    } else if mt == msg_type::CANCEL_ORDER {
        cancel_order_defs()
    } else if mt == msg_type::EXEC_RPT {
        exec_rpt_defs()
    } else if mt == msg_type::CANCEL_REJECT {
        cancel_reject_defs()
    } else if mt == msg_type::TRADE {
        trade_defs()
    } else if mt == msg_type::ORDER_REJECT {
        order_reject_defs()
    } else if mt == msg_type::PLATFORM_STATE {
        platform_state_defs()
    } else if mt == msg_type::EXEC_RPT_EOS {
        exec_rpt_eos_defs()
    } else if mt == msg_type::REGISTRATION {
        registration_defs()
    } else if mt == msg_type::REGISTRATION_RPT {
        registration_rpt_defs()
    } else if mt == msg_type::PWD_SERVICE {
        pwd_service_defs()
    } else if mt == msg_type::PWD_SERVICE_RSP {
        pwd_service_rsp_defs()
    } else if mt == msg_type::EXEC_RPT_SYNC {
        group_count_defs()
    } else if mt == msg_type::EXEC_RPT_SYNC_RSP {
        group_count_defs()
    } else if mt == msg_type::EXEC_RPT_INFO {
        exec_rpt_info_defs()
    } else {
        Vec::new()
    }
}

/// The fields of a business's extension.
pub open spec fn extend_layout(biz_id: u32) -> Seq<FieldDef> {
    if biz_id == BIZ_ID_FUND_TRANSFER {
        custodian_layout()
    } else if biz_id == BIZ_ID_FUND_DIVIDEND {
        dividend_layout()
    } else if has_dest(biz_id) {
        dest_security_layout()
    } else {
        Seq::empty()
    }
}

fn extend_defs(biz_id: u32) -> (r: Vec<FieldDef>)
    ensures
        r@ == extend_layout(biz_id),
        layout::all_readable(r@),
{
    if biz_id == BIZ_ID_FUND_TRANSFER {
        custodian_defs()
    } else if biz_id == BIZ_ID_FUND_DIVIDEND {
        dividend_defs()
    } else if names_dest(biz_id) {
        dest_security_defs()
    } else {
        Vec::new()
    }
}

/// The extension described, where it is there.
pub open spec fn then_extend(p: Progress, body: Seq<u8>, biz_id: u32) -> Progress {
    match p {
        Some((_, at)) if body.len() - at >= extend_width(biz_id) => layout::then_layout(
            p,
            body,
            Seq::empty(),
            extend_layout(biz_id),
        ),
        _ => p,
    }
}

/// The number of two bytes that comes next.
pub open spec fn next_count(p: Progress, body: Seq<u8>) -> nat {
    match p {
        Some((_, at)) => nat_at(body, at, 2) as nat,
        None => 0,
    }
}

/// Trading units with their partitions described, numbered from 1.
pub open spec fn then_pbus(p: Progress, body: Seq<u8>, n: nat) -> Progress
    decreases n,
{
    if n == 0 {
        p
    } else {
        let before = then_pbus(p, body, (n - 1) as nat);
        let named = layout::then_field(
            before,
            body,
            layout::numbered("PBU"@, n as int, Seq::empty()),
            Kind::Text(8),
        );
        let counted = layout::then_field(
            named,
            body,
            layout::numbered("PBU"@, n as int, ".NoSetIDs"@),
            Kind::Nat(2),
        );
        layout::then_groups(
            counted,
            body,
            layout::numbered("PBU"@, n as int, ".SetID"@),
            Seq::empty(),
            set_id_layout(),
            next_count(named, body),
        )
    }
}

/// The message types of the interface.
pub open spec fn is_known(mt: u32) -> bool {
    mt == msg_type::LOGON
        || mt == msg_type::LOGOUT
        || mt == msg_type::HEARTBEAT
        || mt == msg_type::NEW_ORDER
        || mt == msg_type::CANCEL_ORDER
        || mt == msg_type::EXEC_RPT
        || mt == msg_type::CANCEL_REJECT
        || mt == msg_type::TRADE
        || mt == msg_type::ORDER_REJECT
        || mt == msg_type::EXEC_RPT_SYNC
        || mt == msg_type::EXEC_RPT_SYNC_RSP
        || mt == msg_type::EXEC_RPT_INFO
        || mt == msg_type::PLATFORM_STATE
        || mt == msg_type::EXEC_RPT_EOS
        || mt == msg_type::REGISTRATION
        || mt == msg_type::REGISTRATION_RPT
        || mt == msg_type::PWD_SERVICE
        || mt == msg_type::PWD_SERVICE_RSP
}

fn known_type(mt: u32) -> (r: bool)
    ensures
        r == is_known(mt),
{
    mt == msg_type::LOGON
        || mt == msg_type::LOGOUT
        || mt == msg_type::HEARTBEAT
        || mt == msg_type::NEW_ORDER
        || mt == msg_type::CANCEL_ORDER
        || mt == msg_type::EXEC_RPT
        || mt == msg_type::CANCEL_REJECT
        || mt == msg_type::TRADE
        || mt == msg_type::ORDER_REJECT
        || mt == msg_type::EXEC_RPT_SYNC
        || mt == msg_type::EXEC_RPT_SYNC_RSP
        || mt == msg_type::EXEC_RPT_INFO
        || mt == msg_type::PLATFORM_STATE
        || mt == msg_type::EXEC_RPT_EOS
        || mt == msg_type::REGISTRATION
        || mt == msg_type::REGISTRATION_RPT
        || mt == msg_type::PWD_SERVICE
        || mt == msg_type::PWD_SERVICE_RSP
}

/// The first field of every description: the message type.
pub open spec fn type_field(mt: u32) -> (Seq<char>, Seq<char>) {
    ("MsgType"@, type_text(mt) + " ("@ + text::dec(mt as nat) + ")"@)
}

/// A message in readable form: the type, then the fields of the body in their order. `None`
/// where the type is unknown or the body is too short for it.
pub open spec fn described(mt: u32, body: Seq<u8>) -> Progress {
    let start: Progress = Some((seq![type_field(mt)], 0));
    let p = layout::then_layout(start, body, Seq::empty(), layout_of(mt));
    if !is_known(mt) {
        None
    } else if mt == msg_type::NEW_ORDER {
        then_extend(p, body, nat_at(body, 0, 4) as u32)
    } else if mt == msg_type::EXEC_RPT {
        then_extend(p, body, nat_at(body, 20, 4) as u32)
    } else if mt == msg_type::EXEC_RPT_SYNC {
        layout::then_groups(p, body, "Group"@, "."@, sync_group_layout(), nat_at(body, 0, 2) as nat)
    } else if mt == msg_type::EXEC_RPT_SYNC_RSP {
        layout::then_groups(
            p,
            body,
            "Group"@,
            "."@,
            sync_rsp_group_layout(),
            nat_at(body, 0, 2) as nat,
        )
    } else if mt == msg_type::EXEC_RPT_INFO {
        then_pbus(p, body, nat_at(body, 2, 2) as nat)
    } else {
        p
    }
}

proof fn lemma_pbus_fail(p: Progress, body: Seq<u8>, m: nat, n: nat)
    requires
        m <= n,
        then_pbus(p, body, m) is None,
    ensures
        then_pbus(p, body, n) is None,
    decreases n,
{
    if m < n {
        lemma_pbus_fail(p, body, m, (n - 1) as nat);
        layout::lemma_groups_of_none(
            body,
            layout::numbered("PBU"@, n as int, ".SetID"@),
            Seq::empty(),
            set_id_layout(),
            next_count(None, body),
        );
    }
}

fn describe_pbu(d: &mut Describer, i: u32) -> (r: Result<(), ShortBody>)
    requires
        old(d).wf(),
        i > 0,
    ensures
        final(d).wf(),
        final(d).body() == old(d).body(),
        ({
            let named = layout::then_field(
                old(d).progress(),
                old(d).body(),
                layout::numbered("PBU"@, i as int, Seq::empty()),
                Kind::Text(8),
            );
            let counted = layout::then_field(
                named,
                old(d).body(),
                layout::numbered("PBU"@, i as int, ".NoSetIDs"@),
                Kind::Nat(2),
            );
            let all = layout::then_groups(
                counted,
                old(d).body(),
                layout::numbered("PBU"@, i as int, ".SetID"@),
                Seq::empty(),
                set_id_layout(),
                next_count(named, old(d).body()),
            );
            &&& r is Ok ==> final(d).progress() == all
            &&& r is Err ==> all is None
        }),
{
    proof {
        reveal_strlit("");
        assert(""@ =~= Seq::<char>::empty());
        assert forall|n: nat|
            layout::then_groups(
                None,
                d.body(),
                layout::numbered("PBU"@, i as int, ".SetID"@),
                Seq::empty(),
                set_id_layout(),
                n,
            ) is None by {
            layout::lemma_groups_of_none(
                d.body(),
                layout::numbered("PBU"@, i as int, ".SetID"@),
                Seq::empty(),
                set_id_layout(),
                n,
            );
        }
    }
    d.field(layout::numbered_name("PBU", i, ""), Kind::Text(8))?;
    let n: u16 = d.peek_u16()?;
    d.field(layout::numbered_name("PBU", i, ".NoSetIDs"), Kind::Nat(2))?;
    let head = layout::numbered_name("PBU", i, ".SetID");
    d.groups(head.as_str(), "", &set_id_defs(), n as u32)
}

fn describe_pbus(d: &mut Describer, n: u16) -> (r: Result<(), ShortBody>)
    requires
        old(d).wf(),
    ensures
        final(d).wf(),
        final(d).body() == old(d).body(),
        r is Ok ==> final(d).progress() == then_pbus(old(d).progress(), old(d).body(), n as nat),
        r is Err ==> then_pbus(old(d).progress(), old(d).body(), n as nat) is None,
{
    let ghost start = d.progress();
    let ghost body = d.body();
    let mut i: u16 = 0;
    while i < n
        invariant
            i <= n,
            d.wf(),
            d.body() == body,
            start == old(d).progress(),
            body == old(d).body(),
            d.progress() == then_pbus(start, body, i as nat),
        decreases n - i,
    {
        i += 1;
        let step = describe_pbu(d, i as u32);
        if step.is_err() {
            proof {
                lemma_pbus_fail(start, body, i as nat, n as nat);
            }
            return Err(ShortBody);
        }
    }
    Ok(())
}

proof fn lemma_least_widths()
    ensures
        layout::total_width(new_order_layout()) >= 4,
        layout::total_width(exec_rpt_layout()) >= 24,
        layout::total_width(group_count_layout()) >= 2,
        layout::total_width(exec_rpt_info_layout()) >= 4,
{
    layout::lemma_width_step(new_order_layout(), 0);
    layout::lemma_width_prefix(new_order_layout(), 1);
    layout::lemma_width_step(exec_rpt_layout(), 0);
    layout::lemma_width_step(exec_rpt_layout(), 1);
    layout::lemma_width_step(exec_rpt_layout(), 2);
    layout::lemma_width_step(exec_rpt_layout(), 3);
    layout::lemma_width_prefix(exec_rpt_layout(), 4);
    layout::lemma_width_step(group_count_layout(), 0);
    layout::lemma_width_prefix(group_count_layout(), 1);
    layout::lemma_width_step(exec_rpt_info_layout(), 0);
    layout::lemma_width_step(exec_rpt_info_layout(), 1);
    layout::lemma_width_prefix(exec_rpt_info_layout(), 2);
}

/// A message in readable form; nothing where the type is unknown or the body is too short.
fn describe_body<'a>(mt: u32, body: &'a [u8]) -> (r: Option<Describer<'a>>)
    ensures
        r is Some <==> described(mt, body@) is Some,
        r matches Some(d) ==> d.progress() == described(mt, body@),
{
    if known_type(mt) {
        match describe_known(mt, body) {
            Ok(d) => Some(d),
            Err(_) => None,
        }
    } else {
        None
    }
}

fn describe_known<'a>(mt: u32, body: &'a [u8]) -> (r: Result<Describer<'a>, ShortBody>)
    requires
        is_known(mt),
    ensures
        r is Ok <==> described(mt, body@) is Some,
        r matches Ok(d) ==> d.progress() == described(mt, body@),
{
    let mut d = Describer::new(body);
    let mut name = msg_type_name(mt).to_owned();
    name.push_str(" (");
    text::push_dec(&mut name, mt as u64);
    name.push_str(")");
    d.note("MsgType", name);
    assert(Seq::<(Seq<char>, Seq<char>)>::empty().push(type_field(mt)) =~= seq![type_field(mt)]);
    let ghost start = d.progress();
    proof {
        lemma_described_short(mt, body@);
    }
    let defs = defs_of(mt);
    d.fields(&defs)?;
    proof {
        layout::lemma_layout_fits(seq![type_field(mt)], 0, body@, Seq::empty(), layout_of(mt));
        lemma_least_widths();
        wire::lemma_pow256_values();
    }
    if mt == msg_type::NEW_ORDER {
        let biz_id: u32 = wire::read_be(body, 0, 4) as u32;
        if d.remaining() >= extend_len(biz_id) {
            d.fields(&extend_defs(biz_id))?;
        }
    } else if mt == msg_type::EXEC_RPT {
        let biz_id: u32 = wire::read_be(body, 20, 4) as u32;
        if d.remaining() >= extend_len(biz_id) {
            d.fields(&extend_defs(biz_id))?;
        }
    } else if mt == msg_type::EXEC_RPT_SYNC {
        let n: u32 = wire::read_be(body, 0, 2) as u32;
        d.groups("Group", ".", &sync_group_defs(), n)?;
    } else if mt == msg_type::EXEC_RPT_SYNC_RSP {
        let n: u32 = wire::read_be(body, 0, 2) as u32;
        d.groups("Group", ".", &sync_rsp_group_defs(), n)?;
    } else if mt == msg_type::EXEC_RPT_INFO {
        let n: u16 = wire::read_be(body, 2, 2) as u16;
        describe_pbus(&mut d, n)?;
    }
    Ok(d)
}

/// Where the fixed fields do not fit, the message is not described.
proof fn lemma_described_short(mt: u32, body: Seq<u8>)
    ensures
        layout::then_layout(Some((seq![type_field(mt)], 0)), body, Seq::empty(), layout_of(mt)) is None
            ==> described(mt, body) is None,
{
    let p = layout::then_layout(
        Some((seq![type_field(mt)], 0)),
        body,
        Seq::empty(),
        layout_of(mt),
    );
    if p is None {
        layout::lemma_groups_of_none(
            body,
            "Group"@,
            "."@,
            sync_group_layout(),
            nat_at(body, 0, 2) as nat,
        );
        layout::lemma_groups_of_none(
            body,
            "Group"@,
            "."@,
            sync_rsp_group_layout(),
            nat_at(body, 0, 2) as nat,
        );
        assert(then_pbus(p, body, 0) is None);
        lemma_pbus_fail(p, body, 0, nat_at(body, 2, 2) as nat);
    }
}

/// A message in readable form; no fields at all where the type is unknown or the body is too
/// short for it.
pub fn describe_fields(mt: u32, body: &[u8]) -> (r: Vec<ParsedField>)
    ensures
        r@.map_values(|f: ParsedField| f@) == (match described(mt, body@) {
            Some((fields, _)) => fields,
            None => Seq::empty(),
        }),
{
    match describe_body(mt, body) {
        Some(d) => d.into_fields(),
        None => {
            let none: Vec<ParsedField> = Vec::new();
            assert(none@.map_values(|f: ParsedField| f@) =~= Seq::<(Seq<char>, Seq<char>)>::empty());
            none
        },
    }
}

} // verus!
