use simx::config::PlatformConfig;
use simx::stats::PlatformStats;
use simx::sz::filings::{
    handle_designation, handle_evote, handle_ioi, handle_margin_query, handle_multileg,
    handle_password_service, handle_quote, handle_quote_request, handle_quote_response, handle_tcr,
    quote_resp_type_name, Designation, Evote, IndicationOfInterest, Leg, MarginQuery,
    MultilegOrder, PasswordService, Quote, QuoteItem, QuoteRequest, QuoteResponse,
    TradeCaptureReport,
};
use simx::sz::log;
use simx::wire::BodyReader;

const NOW: i64 = 20_260_731_093_000_123;

/// A platform of the second kind: no cash auctions, but other businesses.
fn cfg() -> PlatformConfig {
    PlatformConfig { platform_type: 2, partition_no: 4, ..PlatformConfig::default() }
}

/// Reads a business rejection: the filing's type, its id and the code of the reason.
fn rejection(frame: &[u8]) -> (u32, String, u16) {
    assert_eq!(u32::from_be_bytes(frame[0..4].try_into().unwrap()), 4);
    let mut r = BodyReader::new(&frame[8..frame.len() - 4]);
    assert_eq!(r.str(3).unwrap(), "010");
    assert_eq!(r.i64().unwrap(), NOW);
    assert_eq!(r.str(6).unwrap(), "PBU001");
    assert_eq!(r.str(8).unwrap(), "000001");
    assert_eq!(r.str(4).unwrap(), "102");
    assert_eq!(r.i64().unwrap(), 0);
    let mt = r.u32().unwrap();
    let id = r.str(10).unwrap();
    let code = r.u16().unwrap();
    (mt, id, code)
}

/// A filing in the business `appl_id`.
fn quote(appl_id: &str) -> Quote {
    Quote {
        appl_id: appl_id.into(),
        submitting_pbu_id: "PBU001".into(),
        security_id: "000001".into(),
        security_id_source: "102".into(),
        owner_type: 3,
        clearing_firm: "CLEARING_FIRM".into(),
        user_info: "USER_INFO".into(),
        quote_msg_id: "QUOTE_MSG_ID".into(),
        account_id: "ACCOUNT_ID".into(),
        quote_req_id: "QUOTE_REQ_ID".into(),
        quote_type: 1,
        bid_px: 5_000,
        offer_px: 5_000,
        bid_size: 5_000,
        offer_size: 5_000,
        bid_position_effect: 1,
        offer_position_effect: 1,
        contract_account_code: "CONTRACT_ACCOUNT_CODE".into(),
        branch_id: "BRANCH_ID".into(),
        quote_resp_id: "QUOTE_RESP_ID".into(),
        private_quote: 1,
        price_type: 1,
        valid_until_time: 5_000,
        cash_margin: 1,
        counterparty_pbu_id: "COUNTERPARTY_PBU_ID".into(),
        memo: "MEMO".into(),
        member_id: "MEMBER_ID".into(),
        investor_type: "INVESTOR_TYPE".into(),
        investor_id: "INVESTOR_ID".into(),
        investor_name: "INVESTOR_NAME".into(),
        trader_code: "TRADER_CODE".into(),
        settl_type: 1,
        settl_period: 1,
        pre_trade_anonymity: 1,
        max_floor: 5_000,
        min_qty: 5_000,
        no_counterparty: 3,
        counterparties: vec!["C1".into(), "C2".into()],
        quote_id: "QUOTE_ID".into(),
    }
}

/// A filing in the business `appl_id`.
fn response(appl_id: &str) -> QuoteResponse {
    QuoteResponse {
        appl_id: appl_id.into(),
        submitting_pbu_id: "PBU001".into(),
        security_id: "000001".into(),
        security_id_source: "102".into(),
        owner_type: 3,
        clearing_firm: "CLEARING_FIRM".into(),
        user_info: "USER_INFO".into(),
        quotes: vec![QuoteItem { quote_id: "Q1".into(), quote_price: 10, quote_qty: 20 }],
        account_id: "ACCOUNT_ID".into(),
        quote_type: 1,
        branch_id: "BRANCH_ID".into(),
        quote_resp_id: "QUOTE_RESP_ID".into(),
        side: b'1',
        price_type: 1,
        valid_until_time: 5_000,
        cash_margin: 1,
        member_id: "MEMBER_ID".into(),
        investor_type: "INVESTOR_TYPE".into(),
        investor_id: "INVESTOR_ID".into(),
        investor_name: "INVESTOR_NAME".into(),
        trader_code: "TRADER_CODE".into(),
        settl_type: 1,
        settl_period: 1,
        no_quote: 3,
        cl_ord_id: "CL_ORD_ID".into(),
        quote_resp_type: 1,
    }
}

/// A filing in the business `appl_id`.
fn request(appl_id: &str) -> QuoteRequest {
    QuoteRequest {
        appl_id: appl_id.into(),
        submitting_pbu_id: "PBU001".into(),
        security_id: "000001".into(),
        security_id_source: "102".into(),
        owner_type: 3,
        clearing_firm: "CLEARING_FIRM".into(),
        user_info: "USER_INFO".into(),
        cl_ord_id: "CL_ORD_ID".into(),
        account_id: "ACCOUNT_ID".into(),
        branch_id: "BRANCH_ID".into(),
        quote_req_id: "QUOTE_REQ_ID".into(),
        quote_request_trans_type: 1,
        private_quote: 1,
        order_qty: 5_000,
        price: 5_000,
        side: b'1',
        expire_time: 5_000,
        quote_type: 1,
        quote_price_type: 1,
        memo: "MEMO".into(),
        cash_margin: 1,
        no_counterparty_pbu: 3,
        counterparty_pbus: vec!["C1".into(), "C2".into()],
        member_id: "MEMBER_ID".into(),
        investor_type: "INVESTOR_TYPE".into(),
        investor_id: "INVESTOR_ID".into(),
        investor_name: "INVESTOR_NAME".into(),
        trader_code: "TRADER_CODE".into(),
        settl_type: 1,
        settl_period: 1,
        pre_trade_anonymity: 1,
        no_counterparty: 3,
        counterparties: vec!["C1".into(), "C2".into()],
    }
}

/// A filing in the business `appl_id`.
fn interest(appl_id: &str) -> IndicationOfInterest {
    IndicationOfInterest {
        appl_id: appl_id.into(),
        submitting_pbu_id: "PBU001".into(),
        security_id: "000001".into(),
        security_id_source: "102".into(),
        owner_type: 3,
        clearing_firm: "CLEARING_FIRM".into(),
        user_info: "USER_INFO".into(),
        ioi_id: "IOI_ID".into(),
        ioi_ref_id: "IOI_REF_ID".into(),
        ioi_trans_type: 1,
        side: b'1',
        account_id: "ACCOUNT_ID".into(),
        branch_id: "BRANCH_ID".into(),
        ioi_qty: 5_000,
        price: 5_000,
        contactor: "CONTACTOR".into(),
        contact_info: "CONTACT_INFO".into(),
    }
}

/// A filing in the business `appl_id`.
fn trade_report(appl_id: &str) -> TradeCaptureReport {
    TradeCaptureReport {
        appl_id: appl_id.into(),
        submitting_pbu_id: "PBU001".into(),
        security_id: "000001".into(),
        security_id_source: "102".into(),
        owner_type: 3,
        clearing_firm: "CLEARING_FIRM".into(),
        user_info: "USER_INFO".into(),
        trade_report_id: "TRADE_REPORT_ID".into(),
        trade_report_type: 1,
        trade_report_trans_type: 1,
        trade_handling_instr: 1,
        trade_report_ref_id: "TRADE_REPORT_REF_ID".into(),
        last_px: 5_000,
        last_qty: 5_000,
        trd_type: 3,
        trd_sub_type: 3,
        confirm_id: "CONFIRM_ID".into(),
        side: b'1',
        pbu_id: "PBU_ID".into(),
        account_id: "ACCOUNT_ID".into(),
        branch_id: "BRANCH_ID".into(),
        counterparty_pbu_id: "COUNTERPARTY_PBU_ID".into(),
        counterparty_account_id: "COUNTERPARTY_ACCOUNT_ID".into(),
        counterparty_branch_id: "COUNTERPARTY_BRANCH_ID".into(),
        extend: vec![1, 2, 3],
    }
}

/// A filing in the business `appl_id`.
fn transfer(appl_id: &str) -> Designation {
    Designation {
        appl_id: appl_id.into(),
        submitting_pbu_id: "PBU001".into(),
        security_id: "000001".into(),
        security_id_source: "102".into(),
        owner_type: 3,
        clearing_firm: "CLEARING_FIRM".into(),
        user_info: "USER_INFO".into(),
        cl_ord_id: "CL_ORD_ID".into(),
        orig_cl_ord_id: "ORIG_CL_ORD_ID".into(),
        designation_instruction: 1,
        designation_trans_type: 1,
        account_id: "ACCOUNT_ID".into(),
        branch_id: "BRANCH_ID".into(),
        order_qty: 5_000,
        transferee_pbu_id: "TRANSFEREE_PBU_ID".into(),
    }
}

/// A filing in the business `appl_id`.
fn vote(appl_id: &str) -> Evote {
    Evote {
        appl_id: appl_id.into(),
        submitting_pbu_id: "PBU001".into(),
        security_id: "000001".into(),
        security_id_source: "102".into(),
        owner_type: 3,
        clearing_firm: "CLEARING_FIRM".into(),
        user_info: "USER_INFO".into(),
        cl_ord_id: "CL_ORD_ID".into(),
        account_id: "ACCOUNT_ID".into(),
        branch_id: "BRANCH_ID".into(),
        voting_proposal: 3,
        voting_sub_proposal: 3,
        voting_preference: 1,
        order_qty: 5_000,
    }
}

/// A filing in the business `appl_id`.
fn password(appl_id: &str) -> PasswordService {
    PasswordService {
        appl_id: appl_id.into(),
        submitting_pbu_id: "PBU001".into(),
        security_id: "000001".into(),
        security_id_source: "102".into(),
        owner_type: 3,
        clearing_firm: "CLEARING_FIRM".into(),
        user_info: "USER_INFO".into(),
        cl_ord_id: "CL_ORD_ID".into(),
        account_id: "ACCOUNT_ID".into(),
        branch_id: "BRANCH_ID".into(),
        validation_code: 77,
    }
}

/// A filing in the business `appl_id`.
fn margin_query(appl_id: &str) -> MarginQuery {
    MarginQuery {
        appl_id: appl_id.into(),
        submitting_pbu_id: "PBU001".into(),
        security_id: "000001".into(),
        security_id_source: "102".into(),
        owner_type: 3,
        clearing_firm: "CLEARING_FIRM".into(),
        user_info: "USER_INFO".into(),
        cl_ord_id: "CL_ORD_ID".into(),
        fund_pbu_id: "FUND_PBU_ID".into(),
    }
}

/// A filing in the business `appl_id`.
fn legs(appl_id: &str) -> MultilegOrder {
    MultilegOrder {
        appl_id: appl_id.into(),
        submitting_pbu_id: "PBU001".into(),
        security_id: "000001".into(),
        security_id_source: "102".into(),
        owner_type: 3,
        clearing_firm: "CLEARING_FIRM".into(),
        user_info: "USER_INFO".into(),
        cl_ord_id: "CL_ORD_ID".into(),
        order_qty: 5_000,
        side: b'1',
        ord_type: 1,
        price: 5_000,
        account_id: "ACCOUNT_ID".into(),
        branch_id: "BRANCH_ID".into(),
        order_restrictions: "ORDER_RESTRICTIONS".into(),
        contract_account_code: "CONTRACT_ACCOUNT_CODE".into(),
        secondary_order_id: "SECONDARY_ORDER_ID".into(),
        security_type: "SECURITY_TYPE".into(),
        security_sub_type: "SECURITY_SUB_TYPE".into(),
        no_legs: 3,
        legs: vec![Leg { security_id: "90000001".into(), side: b'2', qty: 700 }],
    }
}

const O1: &str = "0000000000000001";
const E1: &str = "0000000000000001";

#[test]
fn quotes_are_accepted() {
    let mut stats = PlatformStats::default();
    let a = handle_quote(190_009, 390_013, &cfg(), &mut stats, &quote("050"), NOW).unwrap();
    assert_eq!(a.msg_type, 390_013);
    assert_eq!((a.partition_no, a.report_index, a.transact_time), (4, 0, NOW));
    assert_eq!((a.order_id.as_str(), a.exec_id.as_str()), (O1, E1));
    assert_eq!(a.quote_msg_id, "QUOTE_MSG_ID");
    assert_eq!((a.bid_px, a.offer_px, a.quote_status), (5_000, 5_000, 0));
    assert_eq!((a.no_quote, a.quotes.len(), a.quotes[0].quote_id.as_str()), (1, 1, "QUOTE_ID"));
    assert_eq!(a.counterparties, vec!["C1".to_string(), "C2".to_string()]);
    assert_eq!(stats.snapshot().business_rejects, 0);
}

#[test]
fn responses_to_quotes_are_accepted() {
    let mut stats = PlatformStats::default();
    let a = handle_quote_response(190_009, 390_013, &cfg(), &mut stats, &response("050"), NOW).unwrap();
    assert_eq!(a.msg_type, 390_013);
    assert_eq!(a.quote_msg_id, "Q1");
    assert_eq!((a.order_id.as_str(), a.exec_id.as_str()), (O1, E1));
    assert_eq!((a.bid_px, a.offer_px, a.side), (0, 0, b'1'));
    assert_eq!((a.quotes.len(), a.quotes[0].quote_price, a.quotes[0].quote_qty), (1, 10, 20));
    assert!(a.counterparties.is_empty());
    assert_eq!(stats.snapshot().business_rejects, 0);
}

#[test]
fn requests_for_quotes_are_accepted() {
    let mut stats = PlatformStats::default();
    let a = handle_quote_request(190_009, &cfg(), &mut stats, &request("050"), NOW).unwrap();
    assert_eq!((a.partition_no, a.quote_request_type, a.quote_request_status), (4, 101, 0));
    assert_eq!((a.order_id.as_str(), a.exec_id.as_str()), (O1, E1));
    assert_eq!((a.quote_req_id.as_str(), a.reporting_pbu_id.as_str()), ("QUOTE_REQ_ID", "PBU001"));
    assert_eq!(a.counterparty_pbus, vec!["C1".to_string(), "C2".to_string()]);
    assert!(a.quote_request_reject_text.is_empty());
    assert_eq!(stats.snapshot().business_rejects, 0);
}

#[test]
fn indications_of_interest_are_accepted() {
    let mut stats = PlatformStats::default();
    let a = handle_ioi(190_009, &cfg(), &mut stats, &interest("050"), NOW).unwrap();
    assert_eq!((a.partition_no, a.quote_resp_type, a.exec_type), (4, 2, 0));
    assert_eq!((a.quote_resp_id.as_str(), a.ioi_id.as_str()), (E1, "IOI_ID"));
    assert_eq!((a.ioi_qty, a.price, a.side), (5_000, 5_000, b'1'));
    assert_eq!(stats.snapshot().business_rejects, 0);
}

#[test]
fn trade_reports_are_accepted() {
    let mut stats = PlatformStats::default();
    let a = handle_tcr(190_009, &cfg(), &mut stats, &trade_report("050"), NOW).unwrap();
    assert_eq!((a.partition_no, a.trade_report_reject_reason), (4, 0));
    assert_eq!((a.trade_id.as_str(), a.exec_id.as_str()), (O1, E1));
    assert_eq!((a.last_px, a.last_qty, a.extend.clone()), (5_000, 5_000, vec![1, 2, 3]));
    assert_eq!(a.trade_report_id, "TRADE_REPORT_ID");
    assert_eq!(stats.snapshot().business_rejects, 0);
}

#[test]
fn transfers_are_accepted() {
    let mut stats = PlatformStats::default();
    let a = handle_designation(190_009, &cfg(), &mut stats, &transfer("050"), NOW).unwrap();
    assert_eq!((a.partition_no, a.ord_rej_reason, a.order_qty), (4, 0, 5_000));
    assert_eq!((a.order_id.as_str(), a.exec_id.as_str()), (O1, E1));
    assert_eq!((a.cl_ord_id.as_str(), a.orig_cl_ord_id.as_str()), ("CL_ORD_ID", "ORIG_CL_ORD_ID"));
    assert_eq!(stats.snapshot().business_rejects, 0);
}

#[test]
fn votes_are_accepted() {
    let mut stats = PlatformStats::default();
    let a = handle_evote(190_009, &cfg(), &mut stats, &vote("050"), NOW).unwrap();
    assert_eq!((a.voting_proposal, a.voting_sub_proposal, a.voting_preference), (3, 3, 1));
    assert_eq!((a.order_id.as_str(), a.exec_id.as_str()), (O1, E1));
    assert_eq!(stats.snapshot().business_rejects, 0);
}

#[test]
fn password_requests_are_accepted() {
    let mut stats = PlatformStats::default();
    let a = handle_password_service(190_009, &cfg(), &mut stats, &password("050"), NOW).unwrap();
    assert_eq!((a.validation_code, a.ord_rej_reason), (77, 0));
    assert_eq!((a.order_id.as_str(), a.exec_id.as_str()), (O1, E1));
    assert_eq!(stats.snapshot().business_rejects, 0);
}

#[test]
fn margin_queries_are_accepted() {
    let mut stats = PlatformStats::default();
    let a = handle_margin_query(190_009, &cfg(), &mut stats, &margin_query("050"), NOW).unwrap();
    assert_eq!((a.exec_id.as_str(), a.fund_pbu_id.as_str()), (E1, "FUND_PBU_ID"));
    assert_eq!(a.ord_rej_reason, 0);
    assert_eq!(stats.snapshot().business_rejects, 0);
}

#[test]
fn orders_with_legs_are_accepted() {
    let mut stats = PlatformStats::default();
    let a = handle_multileg(190_009, &cfg(), &mut stats, &legs("050"), NOW).unwrap();
    assert_eq!((a.exec_type, a.ord_status, a.leaves_qty, a.cum_qty), (b'0', b'0', 5_000, 0));
    assert_eq!((a.order_id.as_str(), a.exec_id.as_str()), (O1, E1));
    assert_eq!((a.legs.len(), a.legs[0].side, a.legs[0].qty), (1, b'2', 700));
    assert_eq!(stats.snapshot().business_rejects, 0);
}

#[test]
fn filings_of_another_platform_are_refused() {
    let mut stats = PlatformStats::default();
    let frame = handle_quote(190_009, 390_013, &cfg(), &mut stats, &quote("010"), NOW).unwrap_err();
    let (mt, id, code) = rejection(&frame);
    assert_eq!((mt, code), (190_009, 20108));
    assert!("QUOTE_MSG_ID".starts_with(&id) && !id.is_empty(), "{}", id);
    let frame = handle_quote_response(190_009, 390_013, &cfg(), &mut stats, &response("010"), NOW).unwrap_err();
    let (mt, id, code) = rejection(&frame);
    assert_eq!((mt, code), (190_009, 20108));
    assert!("CL_ORD_ID".starts_with(&id) && !id.is_empty(), "{}", id);
    let frame = handle_quote_request(190_009, &cfg(), &mut stats, &request("010"), NOW).unwrap_err();
    let (mt, id, code) = rejection(&frame);
    assert_eq!((mt, code), (190_009, 20108));
    assert!("CL_ORD_ID".starts_with(&id) && !id.is_empty(), "{}", id);
    let frame = handle_ioi(190_009, &cfg(), &mut stats, &interest("010"), NOW).unwrap_err();
    let (mt, id, code) = rejection(&frame);
    assert_eq!((mt, code), (190_009, 20108));
    assert!("IOI_ID".starts_with(&id) && !id.is_empty(), "{}", id);
    let frame = handle_tcr(190_009, &cfg(), &mut stats, &trade_report("010"), NOW).unwrap_err();
    let (mt, id, code) = rejection(&frame);
    assert_eq!((mt, code), (190_009, 20108));
    assert!("TRADE_REPORT_ID".starts_with(&id) && !id.is_empty(), "{}", id);
    let frame = handle_designation(190_009, &cfg(), &mut stats, &transfer("010"), NOW).unwrap_err();
    let (mt, id, code) = rejection(&frame);
    assert_eq!((mt, code), (190_009, 20108));
    assert!("CL_ORD_ID".starts_with(&id) && !id.is_empty(), "{}", id);
    let frame = handle_evote(190_009, &cfg(), &mut stats, &vote("010"), NOW).unwrap_err();
    let (mt, id, code) = rejection(&frame);
    assert_eq!((mt, code), (190_009, 20108));
    assert!("CL_ORD_ID".starts_with(&id) && !id.is_empty(), "{}", id);
    let frame = handle_password_service(190_009, &cfg(), &mut stats, &password("010"), NOW).unwrap_err();
    let (mt, id, code) = rejection(&frame);
    assert_eq!((mt, code), (190_009, 20108));
    assert!("CL_ORD_ID".starts_with(&id) && !id.is_empty(), "{}", id);
    let frame = handle_margin_query(190_009, &cfg(), &mut stats, &margin_query("010"), NOW).unwrap_err();
    let (mt, id, code) = rejection(&frame);
    assert_eq!((mt, code), (190_009, 20108));
    assert!("CL_ORD_ID".starts_with(&id) && !id.is_empty(), "{}", id);
    let frame = handle_multileg(190_009, &cfg(), &mut stats, &legs("010"), NOW).unwrap_err();
    let (mt, id, code) = rejection(&frame);
    assert_eq!((mt, code), (190_009, 20108));
    assert!("CL_ORD_ID".starts_with(&id) && !id.is_empty(), "{}", id);
    assert_eq!(stats.snapshot().business_rejects, 10);
    assert_eq!(stats.snapshot().orders, 0);
}

#[test]
fn answers_to_quotes_have_names() {
    assert_eq!(quote_resp_type_name(1), "接受");
    assert_eq!(quote_resp_type_name(2), "重报");
    assert_eq!(quote_resp_type_name(6), "拒绝");
    assert_eq!(quote_resp_type_name(3), "未知");
}

#[test]
fn the_log_tells_of_filings() {
    assert_eq!(
        log::quote_accepted(1, &quote("056"), 2).text,
        "收到报价(1) QuoteMsgID=QUOTE_MSG_ID 证券=000001 买价=0.5000 卖价=0.5000，已接受(2)"
    );
    let reply = QuoteResponse { quote_resp_type: 6, ..response("056") };
    assert_eq!(
        log::quote_response_accepted(1, &reply, 2).text,
        format!(
            "收到报价回复(1) QuoteRespID={} ClOrdID={} 回复类型=拒绝，已接受(2)",
            reply.quote_resp_id, reply.cl_ord_id
        )
    );
    let ask = request("056");
    assert_eq!(
        log::quote_request_accepted(1, &ask, 2).text,
        format!(
            "收到询价请求(1) QuoteReqID={} ClOrdID={} 证券=000001，已接受(2)",
            ask.quote_req_id, ask.cl_ord_id
        )
    );
    assert_eq!(
        log::ioi_accepted(1, &interest("056"), 2).text,
        "收到意向申报(1) IOIID=IOI_ID 证券=000001 方向=买，已接受(2)"
    );
    assert_eq!(
        log::tcr_accepted(1, &trade_report("056"), 2).text,
        "收到成交申报(1) TradeReportID=TRADE_REPORT_ID 证券=000001 价格=0.5000 数量=50，已接受(2)"
    );
    let owed = TradeCaptureReport { last_px: -12_345, last_qty: -199, ..trade_report("056") };
    assert_eq!(
        log::tcr_accepted(1, &owed, 2).text,
        "收到成交申报(1) TradeReportID=TRADE_REPORT_ID 证券=000001 价格=-1.2345 数量=-1，已接受(2)"
    );
    assert_eq!(
        log::designation_accepted(1, &transfer("056"), 2).text,
        "收到注册(1) ClOrdID=CL_ORD_ID 账户=ACCOUNT_ID 转入单元=TRANSFEREE_PBU_ID，已接受(2)"
    );
    assert_eq!(
        log::evote_accepted(1, &vote("056"), 2).text,
        "收到投票(1) ClOrdID=CL_ORD_ID 议案=3 意向=1，已接受(2)"
    );
    assert_eq!(
        log::password_service_accepted(1, &password("056"), 2).text,
        "收到密码服务(1) ClOrdID=CL_ORD_ID 账户=ACCOUNT_ID，已接受(2)"
    );
    assert_eq!(
        log::margin_query_answered(1, &margin_query("056"), 2).text,
        "收到保证金查询(1) ClOrdID=CL_ORD_ID 结算账号=FUND_PBU_ID，已回查询结果(2)"
    );
    assert_eq!(
        log::multileg_accepted(1, &legs("056"), 2).text,
        "收到多腿订单(1) ClOrdID=CL_ORD_ID 合约数=3，已接受(2)"
    );
    assert_eq!(log::unread_filing("投票", 102_197).text, "投票(102197)解析失败: 消息体长度不足");
}
