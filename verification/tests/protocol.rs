use simx::shjj::protocol as sh;
use simx::sz::protocol as sz;
use simx::wire::{BodyReader, BodyWriter};

#[test]
fn protocol_describe_new_order_fields() {
    let mut w = BodyWriter::new();
    w.u32(sh::BIZ_ID_CASH_AUCTION);
    w.str("PBU00001", 8);
    w.str("A000000001", 10);
    w.str("600000", 12);
    w.str("B880000001", 13);
    w.u8(1);
    w.ch(b'1');
    w.i64(12_34000);
    w.i64(100_000);
    w.ch(b'2');
    w.ch(b'0');
    w.u64(930_000_010_000);
    w.str("", 2);
    w.str("CF01", 8);
    w.str("BR01", 8);
    w.str("UINFO", 32);
    let body = w.into_inner();
    let fields = sh::describe_fields(sh::msg_type::NEW_ORDER, &body);
    let names: Vec<&str> = fields.iter().map(|f| f.name.as_str()).collect();
    assert!(names.contains(&"SecurityID"));
    assert!(names.contains(&"ClOrdID"));
    let qty = fields.iter().find(|f| f.name == "OrderQty").unwrap();
    assert_eq!(qty.value, "100 股");
    let px = fields.iter().find(|f| f.name == "Price").unwrap();
    assert_eq!(px.value, "12.34 元");
    let tt = fields.iter().find(|f| f.name == "TransactTime").unwrap();
    assert_eq!(tt.value, "09:30:00.001");
}

#[test]
fn describe_new_order_fields() {
    let mut w = BodyWriter::new();
    w.str("010", 3);
    w.str("100001", 6);
    w.str("000001", 8);
    w.str("102", 4);
    w.u16(1);
    w.str("01", 2);
    w.i64(20260731093000123);
    w.str("UI", 8);
    w.str("CL0000001", 10);
    w.str("0123456789AB", 12);
    w.str("0001", 4);
    w.str("", 4);
    w.ch(b'1');
    w.ch(b'2');
    w.i64(100_00);
    w.i64(12_3400);
    w.i64(0);
    w.i64(0);
    w.u16(0);
    w.ch(b'0');
    w.ch(b'1');
    let body = w.into_inner();
    let fields = sz::describe_fields(sz::msg_type::NEW_ORDER_CASH, &body);
    let names: Vec<&str> = fields.iter().map(|f| f.name.as_str()).collect();
    assert!(names.contains(&"MsgType"));
    assert!(names.contains(&"SecurityID"));
    assert!(names.contains(&"ClOrdID"));
    let qty = fields.iter().find(|f| f.name == "OrderQty").unwrap();
    assert_eq!(qty.value, "100 股");
    let px = fields.iter().find(|f| f.name == "Price").unwrap();
    assert_eq!(px.value, "12.34 元");
    let side = fields.iter().find(|f| f.name == "Side").unwrap();
    assert_eq!(side.value, "1 (买)");
}

#[test]
fn protocol_test_logon_roundtrip() {
    let l = sh::Logon {
        sender_comp_id: "TDGW".into(),
        target_comp_id: "OMS001".into(),
        heart_bt_int: 30,
        prtcl_version: "0.50".into(),
        trade_date: 20260731,
        qsize: 32,
    };
    let f = l.encode();
    let body = &f[16..f.len() - 4];
    assert_eq!(body.len(), sh::Logon::BODY_LEN);
    let d = sh::Logon::decode(body).unwrap();
    assert_eq!(d.sender_comp_id, "TDGW");
    assert_eq!(d.heart_bt_int, 30);
    assert_eq!(d.prtcl_version, "0.50");
    assert_eq!(d.trade_date, 20260731);
}

#[test]
fn test_logon_roundtrip() {
    let l = sz::Logon {
        sender_comp_id: "OMS001".into(),
        target_comp_id: "TGW001".into(),
        heart_bt_int: 30,
        password: "pass".into(),
        default_appl_ver_id: "1.29".into(),
    };
    let f = l.encode();
    let body = &f[8..f.len() - 4];
    assert_eq!(body.len(), sz::Logon::BODY_LEN);
    let d = sz::Logon::decode(body).unwrap();
    assert_eq!(d.sender_comp_id, "OMS001");
    assert_eq!(d.heart_bt_int, 30);
    assert_eq!(d.default_appl_ver_id, "1.29");
}

#[test]
fn protocol_test_new_order_decode() {
    let mut w = BodyWriter::new();
    w.u32(sh::BIZ_ID_CASH_AUCTION);
    w.str("PBU00001", 8);
    w.str("A000000001", 10);
    w.str("600000", 12);
    w.str("B880000001", 13);
    w.u8(1);
    w.ch(b'1');
    w.i64(12_34000);
    w.i64(100_000);
    w.ch(b'2');
    w.ch(b'0');
    w.u64(930000001_0000);
    w.str("", 2);
    w.str("CF01", 8);
    w.str("BR01", 8);
    w.str("UINFO", 32);
    let body = w.into_inner();
    assert_eq!(body.len(), sh::NewOrder::BODY_LEN);
    let o = sh::NewOrder::decode(&body).unwrap();
    assert_eq!(o.biz_id, sh::BIZ_ID_CASH_AUCTION);
    assert_eq!(o.cl_ord_id, "A000000001");
    assert_eq!(o.security_id, "600000");
    assert_eq!(o.side, b'1');
    assert_eq!(o.price, 12_34000);
    assert_eq!(o.order_qty, 100_000);
    assert_eq!(o.user_info, "UINFO");
}

#[test]
fn test_new_order_decode() {
    let mut w = BodyWriter::new();
    w.str("010", 3);
    w.str("100001", 6);
    w.str("000001", 8);
    w.str("102", 4);
    w.u16(1);
    w.str("01", 2);
    w.i64(20260731093000123);
    w.str("UI", 8);
    w.str("CL0000001", 10);
    w.str("0123456789AB", 12);
    w.str("0001", 4);
    w.str("", 4);
    w.ch(b'1');
    w.ch(b'2');
    w.i64(100_00);
    w.i64(12_3400);
    w.i64(0);
    w.i64(0);
    w.u16(0);
    w.ch(b'0');
    w.ch(b'1');
    let body = w.into_inner();
    let o = sz::NewOrderCash::decode(&body).unwrap();
    assert_eq!(o.security_id, "000001");
    assert_eq!(o.cl_ord_id, "CL0000001");
    assert_eq!(o.side, b'1');
    assert_eq!(o.order_qty, 100_00);
    assert_eq!(o.price, 12_3400);
    assert_eq!(o.cash_margin, b'1');
}

#[test]
fn test_checksum_wrapping() {
    assert_eq!(sh::checksum(&[1, 2, 3]), 6);
    assert_eq!(sh::checksum(&[255, 255]), 254);
}

#[test]
fn test_frame_header_and_finalize_seq() {
    let body = vec![0xAAu8, 0xBB];
    let mut f = sh::frame(sh::msg_type::HEARTBEAT, &body);
    assert_eq!(&f[0..4], &33u32.to_be_bytes());
    assert_eq!(&f[4..12], &0u64.to_be_bytes());
    assert_eq!(&f[12..16], &2u32.to_be_bytes());
    let n = f.len();
    assert_eq!(n, 16 + 2 + 4);
    sh::finalize_seq(&mut f, 7);
    assert_eq!(&f[4..12], &7u64.to_be_bytes());
    let cks = u32::from_be_bytes(f[n - 4..].try_into().unwrap());
    assert_eq!(cks, sh::checksum(&f[..n - 4]));
}

#[test]
fn test_cancel_order_decode() {
    let mut w = BodyWriter::new();
    w.u32(sh::BIZ_ID_CASH_AUCTION);
    w.str("PBU00001", 8);
    w.str("A000000002", 10);
    w.str("600000", 12);
    w.str("B880000001", 13);
    w.u8(1);
    w.ch(b'1');
    w.str("A000000001", 10);
    w.u64(931000001_0000);
    w.str("BR01", 8);
    w.str("", 32);
    let body = w.into_inner();
    assert_eq!(body.len(), sh::CancelOrder::BODY_LEN);
    let c = sh::CancelOrder::decode(&body).unwrap();
    assert_eq!(c.cl_ord_id, "A000000002");
    assert_eq!(c.orig_cl_ord_id, "A000000001");
}

#[test]
fn test_exec_rpt_body_len() {
    let f = sh::ExecRpt::default().encode();
    assert_eq!(f.len(), 213 + 20);
}

#[test]
fn test_sync_roundtrip() {
    let mut w = BodyWriter::new();
    w.u16(1);
    w.str("PBU00001", 8);
    w.u32(1);
    w.u64(1);
    let groups = sh::decode_exec_rpt_sync(&w.into_inner()).unwrap();
    assert_eq!(groups.len(), 1);
    assert_eq!(groups[0].pbu, "PBU00001");
    assert_eq!(groups[0].begin_report_index, 1);
    let rsp = sh::encode_exec_rpt_sync_rsp(&[sh::SyncRspGroup {
        pbu: "PBU00001".into(),
        set_id: 1,
        begin_report_index: 1,
        end_report_index: 0,
        rej_reason: 0,
        text: "OK".into(),
    }]);
    assert_eq!(rsp.len(), 16 + 2 + 96 + 4);
}

#[test]
fn test_exec_rpt_info_nested() {
    let f = sh::encode_exec_rpt_info(0, &[("PBU00001", &[1, 2]), ("PBU00002", &[992])]);
    let body = &f[16..f.len() - 4];
    let mut r = BodyReader::new(body);
    assert_eq!(r.u16().unwrap(), 0);
    assert_eq!(r.u16().unwrap(), 2);
    assert_eq!(r.str(8).unwrap(), "PBU00001");
    assert_eq!(r.u16().unwrap(), 2);
    assert_eq!(r.u32().unwrap(), 1);
    assert_eq!(r.u32().unwrap(), 2);
    assert_eq!(r.str(8).unwrap(), "PBU00002");
    assert_eq!(r.u16().unwrap(), 1);
    assert_eq!(r.u32().unwrap(), 992);
    assert_eq!(r.remaining(), 0);
    let fields = sh::describe_fields(sh::msg_type::EXEC_RPT_INFO, body);
    let names: Vec<&str> = fields.iter().map(|f| f.name.as_str()).collect();
    assert!(names.contains(&"PBU[1].NoSetIDs"));
    assert!(names.contains(&"PBU[1].SetID[2]"));
    assert!(names.contains(&"PBU[2].SetID[1]"));
}

#[test]
fn test_extend_fields_roundtrip() {
    let mut w = BodyWriter::new();
    w.u32(sh::BIZ_ID_FUND_TRANSFER);
    w.str("PBU00001", 8);
    w.str("A000000001", 10);
    w.str("519888", 12);
    w.str("B880000001", 13);
    w.u8(1);
    w.ch(b'1');
    w.i64(0);
    w.i64(100_000);
    w.ch(b'2');
    w.ch(b'0');
    w.u64(930000001_0000);
    w.str("", 2);
    w.str("CF01", 8);
    w.str("BR01", 8);
    w.str("UINFO", 32);
    w.str("123", 3);
    let body = w.into_inner();
    assert_eq!(body.len(), sh::NewOrder::BODY_LEN + 3);
    let o = sh::NewOrder::decode(&body).unwrap();
    assert_eq!(o.extend.custodian, "123");
    let o2 = sh::NewOrder::decode(&body[..sh::NewOrder::BODY_LEN]).unwrap();
    assert_eq!(o2.extend.custodian, "");
    let mut w = BodyWriter::new();
    w.u32(sh::BIZ_ID_FUND_DIVIDEND);
    w.str("PBU00001", 8);
    w.str("A000000001", 10);
    w.str("519888", 12);
    w.str("B880000001", 13);
    w.u8(1);
    w.ch(b'1');
    w.i64(0);
    w.i64(100_000);
    w.ch(b'2');
    w.ch(b'0');
    w.u64(930000001_0000);
    w.str("", 2);
    w.str("CF01", 8);
    w.str("BR01", 8);
    w.str("UINFO", 32);
    w.ch(b'U');
    let o3 = sh::NewOrder::decode(&w.into_inner()).unwrap();
    assert_eq!(o3.extend.dividend_select, b'U');
    let mut w = BodyWriter::new();
    w.u32(sh::BIZ_ID_FUND_CONVERT);
    w.str("PBU00001", 8);
    w.str("A000000001", 10);
    w.str("519888", 12);
    w.str("B880000001", 13);
    w.u8(1);
    w.ch(b'1');
    w.i64(0);
    w.i64(100_000);
    w.ch(b'2');
    w.ch(b'0');
    w.u64(930000001_0000);
    w.str("", 2);
    w.str("CF01", 8);
    w.str("BR01", 8);
    w.str("UINFO", 32);
    w.str("510050", 12);
    let o4 = sh::NewOrder::decode(&w.into_inner()).unwrap();
    assert_eq!(o4.extend.dest_security, "510050");
    let mut e = sh::ExecRpt::default();
    e.biz_id = sh::BIZ_ID_FUND_TRANSFER;
    e.extend.custodian = "123".into();
    let f = e.encode();
    let body = &f[16..f.len() - 4];
    assert_eq!(body.len(), 213 + 3);
    let fields = sh::describe_fields(sh::msg_type::EXEC_RPT, body);
    let cs = fields.iter().find(|x| x.name == "Custodian").unwrap();
    assert_eq!(cs.value, "123");
}

#[test]
fn test_registration_roundtrip() {
    let mut w = BodyWriter::new();
    w.u32(sh::BIZ_ID_DESIGNATION);
    w.str("PBU00001", 8);
    w.str("D000000001", 10);
    w.str("799999", 12);
    w.str("B880000001", 13);
    w.u8(1);
    w.ch(b'1');
    w.ch(b'1');
    w.str("", 10);
    w.u64(930000001_0000);
    w.str("", 8);
    w.str("UINFO", 32);
    let body = w.into_inner();
    assert_eq!(body.len(), sh::RegistrationOrder::BODY_LEN);
    let d = sh::RegistrationOrder::decode(&body).unwrap();
    assert_eq!(d.biz_id, sh::BIZ_ID_DESIGNATION);
    assert_eq!(d.security_id, "799999");
    assert_eq!(d.designation_instruction, b'1');
    assert_eq!(d.designation_trans_type, b'1');
    let fields = sh::describe_fields(sh::msg_type::REGISTRATION, &body);
    let names: Vec<&str> = fields.iter().map(|f| f.name.as_str()).collect();
    assert!(names.contains(&"DesignationInstruction"));
    let r = sh::RegistrationRpt {
        pbu: "PBU00001".into(),
        set_id: sh::SET_ID_DESIGNATION,
        report_index: 1,
        biz_id: sh::BIZ_ID_DESIGNATION,
        exec_type: b'0',
        biz_pbu: "PBU00001".into(),
        cl_ord_id: "D000000001".into(),
        security_id: "799999".into(),
        account: "B880000001".into(),
        owner_type: 1,
        ord_status: b'0',
        ord_cnfm_id: "0000000000000001".into(),
        trade_date: 20260814,
        transact_time: 930000001_0000,
        user_info: "UINFO".into(),
        ..Default::default()
    };
    let f = r.encode();
    assert_eq!(f.len(), sh::RegistrationRpt::BODY_LEN + 20);
    let fields = sh::describe_fields(sh::msg_type::REGISTRATION_RPT, &f[16..f.len() - 4]);
    let names: Vec<&str> = fields.iter().map(|f| f.name.as_str()).collect();
    assert!(names.contains(&"OrdCnfmID"));
    assert!(names.contains(&"ExecType"));
}

#[test]
fn test_password_service_roundtrip() {
    let mut w = BodyWriter::new();
    w.u32(sh::BIZ_ID_PWD_SERVICE);
    w.str("PBU00001", 8);
    w.str("P000000001", 10);
    w.str("799988", 12);
    w.str("B880000001", 13);
    w.u8(1);
    w.u64(930000001_0000);
    w.str("", 8);
    w.ch(b'1');
    w.str("ABCD1234", 8);
    w.str("UINFO", 32);
    let body = w.into_inner();
    assert_eq!(body.len(), sh::PasswordServiceOrder::BODY_LEN);
    let d = sh::PasswordServiceOrder::decode(&body).unwrap();
    assert_eq!(d.biz_id, sh::BIZ_ID_PWD_SERVICE);
    assert_eq!(d.security_id, "799988");
    assert_eq!(d.side, b'1');
    assert_eq!(d.validation_code, "ABCD1234");
    let fields = sh::describe_fields(sh::msg_type::PWD_SERVICE, &body);
    let names: Vec<&str> = fields.iter().map(|f| f.name.as_str()).collect();
    assert!(names.contains(&"ValidationCode"));
    let r = sh::PasswordServiceRsp {
        biz_id: sh::BIZ_ID_PWD_SERVICE,
        biz_pbu: "PBU00001".into(),
        cl_ord_id: "P000000001".into(),
        security_id: "799988".into(),
        account: "B880000001".into(),
        owner_type: 1,
        branch_id: String::new(),
        side: b'1',
        validation_code: "ABCD1234".into(),
        ord_rej_reason: 0,
        trade_date: 20260814,
        transact_time: 930000001_0000,
        user_info: "UINFO".into(),
    };
    let f = r.encode();
    assert_eq!(f.len(), sh::PasswordServiceRsp::BODY_LEN + 20);
    let fields = sh::describe_fields(sh::msg_type::PWD_SERVICE_RSP, &f[16..f.len() - 4]);
    let names: Vec<&str> = fields.iter().map(|f| f.name.as_str()).collect();
    assert!(names.contains(&"OrdRejReason"));
}

#[test]
fn describe_unknown_type_keeps_msgtype_only() {
    let fields = sz::describe_fields(999_999, b"xx");
    assert_eq!(fields.len(), 1);
    assert_eq!(fields[0].name, "MsgType");
    assert!(fields[0].value.contains("未知"));
}

#[test]
fn scaled_formatting() {
    assert_eq!(sz::fmt_scaled(12_3400, 10000), "12.34");
    assert_eq!(sz::fmt_scaled(100_00, 100), "100");
    assert_eq!(sz::fmt_scaled(-5_0000, 10000), "-5");
    assert_eq!(sz::fmt_scaled(0, 10000), "0");
    assert_eq!(sz::fmt_scaled(100_0005, 10000), "100.0005");
}

#[test]
fn test_checksum() {
    assert_eq!(sz::checksum(&[1, 2, 3]), 6);
    assert_eq!(sz::checksum(&[255, 255]), (255u32 + 255) % 256);
}

#[test]
fn test_frame_roundtrip() {
    let body = vec![0x01u8, 0x02, 0x03];
    let f = sz::frame(sz::msg_type::HEARTBEAT, &body);
    assert_eq!(&f[0..4], &3u32.to_be_bytes());
    assert_eq!(&f[4..8], &3u32.to_be_bytes());
    let cks = u32::from_be_bytes(f[f.len() - 4..].try_into().unwrap());
    assert_eq!(cks, sz::checksum(&f[..f.len() - 4]));
}

#[test]
fn the_time_is_written_in_digits() {
    let before = sz::now_timestamp();
    let date = sh::now_date();
    let time = sh::now_ntime();
    let after = sz::now_timestamp();
    assert!(date > 20_200_000 && date % 100 <= 31 && date / 100 % 100 <= 12, "{}", date);
    assert!(time % 10_000 == 0 && time / 100_000_000_000 < 24, "{}", time);
    assert!(before <= after);
    assert!(before / 1_000_000_000 <= date as i64 && date as i64 <= after / 1_000_000_000);
}

#[test]
fn names_tell_message_types_apart() {
    let known = [1, 2, 3, 4, 5, 6, 7, 9, 100_101, 190_007, 290_008, 200_102, 200_115];
    for a in known {
        assert_ne!(sz::msg_type_name(a), "未知消息");
        for b in known {
            assert_eq!(sz::msg_type_name(a) == sz::msg_type_name(b), a == b);
        }
    }
    assert_eq!(sz::msg_type_name(8), "未知消息");
}
