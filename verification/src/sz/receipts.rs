//! What the filings of a Shenzhen platform get back: each is repeated in its answer, with
//! nothing lost and nothing turned round.
use vstd::prelude::*;

use super::filings;
use super::filings::{
    Designation, DesignationReport, Evote, EvoteReport, IOIResponse, IndicationOfInterest,
    MarginQuery, MarginQueryResult, MultilegExecRpt, MultilegOrder, PasswordService,
    PasswordServiceReport, Quote, QuoteRequest, QuoteRequestAck, QuoteResponse,
    QuoteStatusReport, TcrAck, TradeCaptureReport,
};

verus! {

/// An accepted quote can be read back out of its state: every field has the value that the
/// quote came with. The state is that of acceptance, without a reason to reject it, and names
/// the quote alone.
pub proof fn law_quote_is_repeated(
    r: QuoteStatusReport,
    q: Quote,
    mt: u32,
    partition_no: i32,
    order_id: Seq<char>,
    exec_id: Seq<char>,
    now: i64,
)
    requires
        filings::is_quote_accepted(r, q, mt, partition_no, order_id, exec_id, now),
    ensures
        q.appl_id@ == r.appl_id@,
        q.submitting_pbu_id@ == r.submitting_pbu_id@,
        q.security_id@ == r.security_id@,
        q.security_id_source@ == r.security_id_source@,
        q.owner_type == r.owner_type,
        q.clearing_firm@ == r.clearing_firm@,
        q.user_info@ == r.user_info@,
        q.quote_msg_id@ == r.quote_msg_id@,
        q.account_id@ == r.account_id@,
        q.quote_req_id@ == r.quote_req_id@,
        q.quote_type == r.quote_type,
        q.bid_px == r.bid_px,
        q.offer_px == r.offer_px,
        q.bid_size == r.bid_size,
        q.offer_size == r.offer_size,
        q.bid_position_effect == r.bid_position_effect,
        q.offer_position_effect == r.offer_position_effect,
        q.contract_account_code@ == r.contract_account_code@,
        q.branch_id@ == r.branch_id@,
        q.quote_resp_id@ == r.quote_resp_id@,
        q.private_quote == r.private_quote,
        q.price_type == r.price_type,
        q.valid_until_time == r.valid_until_time,
        q.cash_margin == r.cash_margin,
        q.counterparty_pbu_id@ == r.counterparty_pbu_id@,
        q.memo@ == r.memo@,
        q.member_id@ == r.member_id@,
        q.investor_type@ == r.investor_type@,
        q.investor_id@ == r.investor_id@,
        q.investor_name@ == r.investor_name@,
        q.trader_code@ == r.trader_code@,
        q.settl_type == r.settl_type,
        q.settl_period == r.settl_period,
        q.pre_trade_anonymity == r.pre_trade_anonymity,
        q.max_floor == r.max_floor,
        q.min_qty == r.min_qty,
        q.no_counterparty == r.no_counterparty,
        q.counterparties@ == r.counterparties@,
        r.reporting_pbu_id@ == r.submitting_pbu_id@,
        r.partition_no == partition_no,
        r.report_index == 0,
        r.transact_time == now,
        r.msg_type == mt,
        r.order_id@ == order_id,
        r.exec_id@ == exec_id,
        r.quote_status == 0,
        r.quote_reject_reason == 0,
        r.quote_reject_text@.len() == 0,
        r.no_quote == 1,
        r.quotes@.len() == 1,
        r.quotes@[0].quote_id@ == q.quote_id@,
{
}

/// An accepted response to a quote can be read back out of its state, which names the first
/// of the quotes that the response names and has no prices and sizes of its own.
pub proof fn law_quote_response_is_repeated(
    r: QuoteStatusReport,
    q: QuoteResponse,
    mt: u32,
    partition_no: i32,
    order_id: Seq<char>,
    exec_id: Seq<char>,
    now: i64,
)
    requires
        filings::is_quote_response_accepted(r, q, mt, partition_no, order_id, exec_id, now),
    ensures
        q.appl_id@ == r.appl_id@,
        q.submitting_pbu_id@ == r.submitting_pbu_id@,
        q.security_id@ == r.security_id@,
        q.security_id_source@ == r.security_id_source@,
        q.owner_type == r.owner_type,
        q.clearing_firm@ == r.clearing_firm@,
        q.user_info@ == r.user_info@,
        q.quotes@ == r.quotes@,
        q.account_id@ == r.account_id@,
        q.quote_type == r.quote_type,
        q.branch_id@ == r.branch_id@,
        q.quote_resp_id@ == r.quote_resp_id@,
        q.side == r.side,
        q.price_type == r.price_type,
        q.valid_until_time == r.valid_until_time,
        q.cash_margin == r.cash_margin,
        q.member_id@ == r.member_id@,
        q.investor_type@ == r.investor_type@,
        q.investor_id@ == r.investor_id@,
        q.investor_name@ == r.investor_name@,
        q.trader_code@ == r.trader_code@,
        q.settl_type == r.settl_type,
        q.settl_period == r.settl_period,
        q.no_quote == r.no_quote,
        r.reporting_pbu_id@ == r.submitting_pbu_id@,
        r.partition_no == partition_no,
        r.report_index == 0,
        r.transact_time == now,
        r.msg_type == mt,
        r.order_id@ == order_id,
        r.exec_id@ == exec_id,
        r.quote_status == 0,
        r.quote_reject_reason == 0,
        r.quote_reject_text@.len() == 0,
        q.quotes@.len() > 0 ==> r.quote_msg_id@ == q.quotes@[0].quote_id@,
        q.quotes@.len() == 0 ==> r.quote_msg_id@.len() == 0,
        r.bid_px == 0 && r.offer_px == 0,
        r.bid_size == 0 && r.offer_size == 0,
{
}

/// An accepted request for quotes can be read back out of its answer.
pub proof fn law_quote_request_is_repeated(
    r: QuoteRequestAck,
    q: QuoteRequest,
    partition_no: i32,
    order_id: Seq<char>,
    exec_id: Seq<char>,
    now: i64,
)
    requires
        filings::is_quote_request_accepted(r, q, partition_no, order_id, exec_id, now),
    ensures
        q.appl_id@ == r.appl_id@,
        q.submitting_pbu_id@ == r.submitting_pbu_id@,
        q.security_id@ == r.security_id@,
        q.security_id_source@ == r.security_id_source@,
        q.owner_type == r.owner_type,
        q.clearing_firm@ == r.clearing_firm@,
        q.user_info@ == r.user_info@,
        q.cl_ord_id@ == r.cl_ord_id@,
        q.account_id@ == r.account_id@,
        q.branch_id@ == r.branch_id@,
        q.quote_req_id@ == r.quote_req_id@,
        q.quote_request_trans_type == r.quote_request_trans_type,
        q.private_quote == r.private_quote,
        q.order_qty == r.order_qty,
        q.price == r.price,
        q.side == r.side,
        q.expire_time == r.expire_time,
        q.quote_type == r.quote_type,
        q.quote_price_type == r.quote_price_type,
        q.memo@ == r.memo@,
        q.cash_margin == r.cash_margin,
        q.no_counterparty_pbu == r.no_counterparty_pbu,
        q.counterparty_pbus@ == r.counterparty_pbus@,
        q.member_id@ == r.member_id@,
        q.investor_type@ == r.investor_type@,
        q.investor_id@ == r.investor_id@,
        q.investor_name@ == r.investor_name@,
        q.trader_code@ == r.trader_code@,
        q.settl_type == r.settl_type,
        q.settl_period == r.settl_period,
        q.pre_trade_anonymity == r.pre_trade_anonymity,
        q.no_counterparty == r.no_counterparty,
        q.counterparties@ == r.counterparties@,
        r.reporting_pbu_id@ == r.submitting_pbu_id@,
        r.partition_no == partition_no,
        r.report_index == 0,
        r.transact_time == now,
        r.order_id@ == order_id,
        r.exec_id@ == exec_id,
        r.quote_request_status == 0,
        r.quote_request_type == 101,
        r.quote_request_reject_reason == 0,
        r.quote_request_reject_text@.len() == 0,
{
}

/// An accepted indication of interest can be read back out of its answer.
pub proof fn law_ioi_is_repeated(
    r: IOIResponse,
    q: IndicationOfInterest,
    partition_no: i32,
    exec_id: Seq<char>,
    now: i64,
)
    requires
        filings::is_ioi_accepted(r, q, partition_no, exec_id, now),
    ensures
        q.appl_id@ == r.appl_id@,
        q.submitting_pbu_id@ == r.submitting_pbu_id@,
        q.security_id@ == r.security_id@,
        q.security_id_source@ == r.security_id_source@,
        q.owner_type == r.owner_type,
        q.clearing_firm@ == r.clearing_firm@,
        q.user_info@ == r.user_info@,
        q.ioi_id@ == r.ioi_id@,
        q.ioi_ref_id@ == r.ioi_ref_id@,
        q.ioi_trans_type == r.ioi_trans_type,
        q.side == r.side,
        q.account_id@ == r.account_id@,
        q.branch_id@ == r.branch_id@,
        q.ioi_qty == r.ioi_qty,
        q.price == r.price,
        q.contactor@ == r.contactor@,
        q.contact_info@ == r.contact_info@,
        r.reporting_pbu_id@ == r.submitting_pbu_id@,
        r.partition_no == partition_no,
        r.report_index == 0,
        r.transact_time == now,
        r.quote_resp_id@ == exec_id,
        r.quote_resp_type == 2,
        r.exec_type == 0,
        r.quote_reject_reason == 0,
{
}

/// An accepted report of a trade can be read back out of its answer.
pub proof fn law_tcr_is_repeated(
    r: TcrAck,
    q: TradeCaptureReport,
    partition_no: i32,
    order_id: Seq<char>,
    exec_id: Seq<char>,
    now: i64,
)
    requires
        filings::is_tcr_accepted(r, q, partition_no, order_id, exec_id, now),
    ensures
        q.appl_id@ == r.appl_id@,
        q.submitting_pbu_id@ == r.submitting_pbu_id@,
        q.security_id@ == r.security_id@,
        q.security_id_source@ == r.security_id_source@,
        q.owner_type == r.owner_type,
        q.clearing_firm@ == r.clearing_firm@,
        q.user_info@ == r.user_info@,
        q.trade_report_id@ == r.trade_report_id@,
        q.trade_report_type == r.trade_report_type,
        q.trade_report_trans_type == r.trade_report_trans_type,
        q.trade_handling_instr == r.trade_handling_instr,
        q.trade_report_ref_id@ == r.trade_report_ref_id@,
        q.last_px == r.last_px,
        q.last_qty == r.last_qty,
        q.trd_type == r.trd_type,
        q.trd_sub_type == r.trd_sub_type,
        q.confirm_id@ == r.confirm_id@,
        q.side == r.side,
        q.pbu_id@ == r.pbu_id@,
        q.account_id@ == r.account_id@,
        q.branch_id@ == r.branch_id@,
        q.counterparty_pbu_id@ == r.counterparty_pbu_id@,
        q.counterparty_account_id@ == r.counterparty_account_id@,
        q.counterparty_branch_id@ == r.counterparty_branch_id@,
        q.extend@ == r.extend@,
        r.reporting_pbu_id@ == r.submitting_pbu_id@,
        r.partition_no == partition_no,
        r.report_index == 0,
        r.transact_time == now,
        r.trade_id@ == order_id,
        r.exec_id@ == exec_id,
        r.trd_ack_status == 0,
        r.trd_rpt_status == 0,
        r.trade_report_reject_reason == 0,
        r.trade_report_reject_text@.len() == 0,
{
}

/// An accepted designation can be read back out of its report.
pub proof fn law_designation_is_repeated(
    r: DesignationReport,
    q: Designation,
    partition_no: i32,
    order_id: Seq<char>,
    exec_id: Seq<char>,
    now: i64,
)
    requires
        filings::is_designation_accepted(r, q, partition_no, order_id, exec_id, now),
    ensures
        q.appl_id@ == r.appl_id@,
        q.submitting_pbu_id@ == r.submitting_pbu_id@,
        q.security_id@ == r.security_id@,
        q.security_id_source@ == r.security_id_source@,
        q.owner_type == r.owner_type,
        q.clearing_firm@ == r.clearing_firm@,
        q.user_info@ == r.user_info@,
        q.cl_ord_id@ == r.cl_ord_id@,
        q.orig_cl_ord_id@ == r.orig_cl_ord_id@,
        q.designation_instruction == r.designation_instruction,
        q.designation_trans_type == r.designation_trans_type,
        q.account_id@ == r.account_id@,
        q.branch_id@ == r.branch_id@,
        q.order_qty == r.order_qty,
        q.transferee_pbu_id@ == r.transferee_pbu_id@,
        r.reporting_pbu_id@ == r.submitting_pbu_id@,
        r.partition_no == partition_no,
        r.report_index == 0,
        r.transact_time == now,
        r.order_id@ == order_id,
        r.exec_id@ == exec_id,
        r.exec_type == 0,
        r.ord_rej_reason == 0,
{
}

/// An accepted vote can be read back out of its report.
pub proof fn law_evote_is_repeated(
    r: EvoteReport,
    q: Evote,
    partition_no: i32,
    order_id: Seq<char>,
    exec_id: Seq<char>,
    now: i64,
)
    requires
        filings::is_evote_accepted(r, q, partition_no, order_id, exec_id, now),
    ensures
        q.appl_id@ == r.appl_id@,
        q.submitting_pbu_id@ == r.submitting_pbu_id@,
        q.security_id@ == r.security_id@,
        q.security_id_source@ == r.security_id_source@,
        q.owner_type == r.owner_type,
        q.clearing_firm@ == r.clearing_firm@,
        q.user_info@ == r.user_info@,
        q.cl_ord_id@ == r.cl_ord_id@,
        q.account_id@ == r.account_id@,
        q.branch_id@ == r.branch_id@,
        q.voting_proposal == r.voting_proposal,
        q.voting_sub_proposal == r.voting_sub_proposal,
        q.voting_preference == r.voting_preference,
        q.order_qty == r.order_qty,
        r.reporting_pbu_id@ == r.submitting_pbu_id@,
        r.partition_no == partition_no,
        r.report_index == 0,
        r.transact_time == now,
        r.order_id@ == order_id,
        r.exec_id@ == exec_id,
        r.exec_type == 0,
        r.ord_rej_reason == 0,
{
}

/// An accepted request of the password service can be read back out of its report.
pub proof fn law_password_service_is_repeated(
    r: PasswordServiceReport,
    q: PasswordService,
    partition_no: i32,
    order_id: Seq<char>,
    exec_id: Seq<char>,
    now: i64,
)
    requires
        filings::is_password_service_accepted(r, q, partition_no, order_id, exec_id, now),
    ensures
        q.appl_id@ == r.appl_id@,
        q.submitting_pbu_id@ == r.submitting_pbu_id@,
        q.security_id@ == r.security_id@,
        q.security_id_source@ == r.security_id_source@,
        q.owner_type == r.owner_type,
        q.clearing_firm@ == r.clearing_firm@,
        q.user_info@ == r.user_info@,
        q.cl_ord_id@ == r.cl_ord_id@,
        q.account_id@ == r.account_id@,
        q.branch_id@ == r.branch_id@,
        q.validation_code == r.validation_code,
        r.reporting_pbu_id@ == r.submitting_pbu_id@,
        r.partition_no == partition_no,
        r.report_index == 0,
        r.transact_time == now,
        r.order_id@ == order_id,
        r.exec_id@ == exec_id,
        r.exec_type == 0,
        r.ord_rej_reason == 0,
{
}

/// A query of margins can be read back out of its result, which names the four kinds of
/// margins in order, each with nothing.
pub proof fn law_margin_query_is_repeated(
    r: MarginQueryResult,
    q: MarginQuery,
    partition_no: i32,
    exec_id: Seq<char>,
    now: i64,
)
    requires
        filings::is_margin_query_accepted(r, q, partition_no, exec_id, now),
    ensures
        q.appl_id@ == r.appl_id@,
        q.submitting_pbu_id@ == r.submitting_pbu_id@,
        q.security_id@ == r.security_id@,
        q.security_id_source@ == r.security_id_source@,
        q.owner_type == r.owner_type,
        q.clearing_firm@ == r.clearing_firm@,
        q.user_info@ == r.user_info@,
        q.cl_ord_id@ == r.cl_ord_id@,
        q.fund_pbu_id@ == r.fund_pbu_id@,
        r.reporting_pbu_id@ == r.submitting_pbu_id@,
        r.partition_no == partition_no,
        r.report_index == 0,
        r.transact_time == now,
        r.exec_id@ == exec_id,
        r.exec_type == 0,
        r.ord_rej_reason == 0,
        r.no_margin_items == r.margin_items@.len(),
        r.margin_items@.len() == 4,
        forall|i: int|
            0 <= i < 4 ==> (#[trigger] r.margin_items@[i]).0 == i + 1 && r.margin_items@[i].1 == 0,
{
}

/// An accepted order of several legs can be read back out of its report: it is new, nothing
/// of it is filled, and all of it is open.
pub proof fn law_multileg_is_repeated(
    r: MultilegExecRpt,
    q: MultilegOrder,
    partition_no: i32,
    order_id: Seq<char>,
    exec_id: Seq<char>,
    now: i64,
)
    requires
        filings::is_multileg_accepted(r, q, partition_no, order_id, exec_id, now),
    ensures
        q.appl_id@ == r.appl_id@,
        q.submitting_pbu_id@ == r.submitting_pbu_id@,
        q.security_id@ == r.security_id@,
        q.security_id_source@ == r.security_id_source@,
        q.owner_type == r.owner_type,
        q.clearing_firm@ == r.clearing_firm@,
        q.user_info@ == r.user_info@,
        q.cl_ord_id@ == r.cl_ord_id@,
        q.order_qty == r.order_qty,
        q.side == r.side,
        q.ord_type == r.ord_type,
        q.price == r.price,
        q.account_id@ == r.account_id@,
        q.branch_id@ == r.branch_id@,
        q.order_restrictions@ == r.order_restrictions@,
        q.contract_account_code@ == r.contract_account_code@,
        q.secondary_order_id@ == r.secondary_order_id@,
        q.security_type@ == r.security_type@,
        q.security_sub_type@ == r.security_sub_type@,
        q.no_legs == r.no_legs,
        q.legs@ == r.legs@,
        r.reporting_pbu_id@ == r.submitting_pbu_id@,
        r.partition_no == partition_no,
        r.report_index == 0,
        r.transact_time == now,
        r.order_id@ == order_id,
        r.exec_id@ == exec_id,
        r.exec_type == 0x30,
        r.ord_status == 0x30,
        r.ord_rej_reason == 0,
        r.orig_cl_ord_id@.len() == 0,
        r.leaves_qty == q.order_qty,
        r.cum_qty == 0,
{
}

} // verus!
