use simx::clock::LocalTime;
use simx::config::{
    CancelMode, DelayConfig, GatewayConfig, PlatformConfig, StrategyConfig, StrategyMode,
};
use simx::engine::Engine;
use simx::note::Level;
use simx::report;
use simx::report::PlannedReport;
use simx::sz::desk::attend;
use simx::sz::log;
use simx::sz::protocol::{checksum, frame, msg_type, ExecRptTrade, Logon};
use simx::sz::session::{
    join_frame, on_stop, parse_head, transmit, Session, SessionCtx, Step,
};
use simx::wire::{BodyReader, BodyWriter};
use std::collections::{HashMap, VecDeque};

const STAMP: i64 = 20_260_731_093_000_123;

fn now() -> LocalTime {
    LocalTime { year: 2026, month: 7, day: 31, hour: 9, minute: 30, second: 0, nanos: 123_000_000 }
}

/// A platform that runs, with one client that talks to it.
struct Desk {
    engine: Engine,
    id: String,
    conn: u64,
    sess: Session,
    inbox: VecDeque<Vec<u8>>,
    /// What the log says of the messages of the client.
    said: Vec<(Level, String)>,
}

impl Desk {
    fn start(gw: GatewayConfig) -> Desk {
        let mut engine = Engine::new(Vec::new());
        let saved = engine.save_gateway(gw).expect("保存网关失败");
        engine.start_gateway(&saved.id).expect("启动网关失败");
        Desk { engine, id: saved.id, conn: 0, sess: Session::new(), inbox: VecDeque::new(), said: Vec::new() }
    }

    fn ctx(&mut self) -> &mut SessionCtx {
        &mut self.engine.running[0].platforms[0].ctx
    }

    fn connect(&mut self) {
        self.conn += 1;
        let conn = self.conn;
        self.sess = Session::new();
        self.inbox.clear();
        let ctx = self.ctx();
        ctx.start_capture(conn, "127.0.0.1:50000", "127.0.0.1", 50000, &now());
        ctx.connected(conn, "127.0.0.1:50000", &now());
    }

    fn disconnect(&mut self) {
        let conn = self.conn;
        self.ctx().disconnected(conn);
    }

    fn emit(&mut self, mut buf: Vec<u8>) {
        let conn = self.conn;
        transmit(self.ctx(), conn, &mut buf, &now());
        self.inbox.push_back(buf);
    }

    fn emit_reports(&mut self, plans: Vec<PlannedReport>) {
        for p in plans {
            if !report::should_send(&p, self.ctx().orders.as_ref()) {
                continue;
            }
            self.emit(p.frame.clone());
            let ctx = self.ctx();
            report::count_report(&mut ctx.stats, p.kind);
            if let Some(book) = ctx.orders.as_mut() {
                report::settle(&p, book);
            }
        }
    }

    fn perform(&mut self, step: Step) {
        match step {
            Step::Quiet | Step::OutOfRange => {}
            Step::LoggedOn { replies, .. } | Step::Reply(replies) => {
                for f in replies {
                    self.emit(f);
                }
            }
            Step::Reports(plans) => self.emit_reports(plans),
            Step::Resumed { replies, reports } => {
                for f in replies {
                    self.emit(f);
                }
                self.emit_reports(reports);
            }
            Step::Later { frame, .. } => self.emit(frame),
            Step::Close(last) => {
                if let Some(f) = last {
                    self.emit(f);
                }
                self.disconnect();
            }
        }
    }

    fn write(&mut self, raw: &[u8]) {
        let (mt, len) = parse_head(&raw[0..8]).unwrap();
        let n = len as usize;
        let body = &raw[8..8 + n];
        let (ok, all) = join_frame(&raw[0..8], body, &raw[8 + n..]);
        assert_eq!(all, raw);
        let conn = self.conn;
        let ctx = &mut self.engine.running[0].platforms[0].ctx;
        let sess = &mut self.sess;
        let (step, notes) =
            attend(ctx, sess, conn, "127.0.0.1:50000", mt, body, &all, ok, &now());
        self.said.extend(notes.into_iter().map(|n| (n.level, n.text)));
        self.perform(step);
    }

    /// The next message that the client gets, with its check value tested.
    fn read(&mut self) -> (u32, Vec<u8>) {
        let f = self.inbox.pop_front().expect("no message");
        let n = f.len();
        let mt = u32::from_be_bytes(f[0..4].try_into().unwrap());
        assert_eq!(u32::from_be_bytes(f[4..8].try_into().unwrap()) as usize, n - 12);
        assert_eq!(
            checksum(&f[0..n - 4]),
            u32::from_be_bytes(f[n - 4..].try_into().unwrap()),
            "回报校验和错误 MsgType={}",
            mt
        );
        (mt, f[8..n - 4].to_vec())
    }

    /// The line that the log said last.
    fn last_said(&self) -> (Level, &str) {
        let (level, text) = self.said.last().expect("nothing said");
        (*level, text.as_str())
    }

    fn silent(&self) -> bool {
        self.inbox.is_empty()
    }

    fn logon(&mut self) {
        let logon = Logon {
            sender_comp_id: "OMS_TEST".into(),
            target_comp_id: "SIMX_TGW".into(),
            heart_bt_int: 30,
            password: String::new(),
            default_appl_ver_id: "1.29".into(),
        };
        self.write(&logon.encode());
        let (mt, body) = self.read();
        assert_eq!(mt, msg_type::LOGON);
        let reply = Logon::decode(&body).unwrap();
        assert_eq!(reply.sender_comp_id, "SIMX_TGW");
        assert_eq!(reply.target_comp_id, "OMS_TEST");
        let (mt, _) = self.read();
        assert_eq!(mt, msg_type::PLATFORM_INFO);
        let (mt, _) = self.read();
        assert_eq!(mt, msg_type::PLATFORM_STATE);
    }

    fn connect_and_logon(&mut self) {
        self.connect();
        self.logon();
    }

    fn stop(&mut self) {
        self.perform(on_stop());
        let id = self.id.clone();
        self.engine.stop_gateway(&id).unwrap();
    }
}

fn new_order_frame(cl_ord_id: &str, qty_100x: i64, price_n13_4: i64, side: u8) -> Vec<u8> {
    new_order_frame_sec(cl_ord_id, "000001", qty_100x, price_n13_4, side)
}

fn order_body(
    appl_id: &str,
    cl_ord_id: &str,
    security_id: &str,
    qty_100x: i64,
    price_n13_4: i64,
    side: u8,
) -> BodyWriter {
    let mut w = BodyWriter::new();
    w.str(appl_id, 3);
    w.str("100001", 6);
    w.str(security_id, 8);
    w.str("102", 4);
    w.u16(1);
    w.str("01", 2);
    w.i64(STAMP);
    w.str("", 8);
    w.str(cl_ord_id, 10);
    w.str("0123456789AB", 12);
    w.str("0001", 4);
    w.str("", 4);
    w.ch(side);
    w.ch(b'2');
    w.i64(qty_100x);
    w.i64(price_n13_4);
    w.i64(0);
    w.i64(0);
    w.u16(0);
    w.ch(b'0');
    w
}

fn new_order_frame_sec(
    cl_ord_id: &str,
    security_id: &str,
    qty_100x: i64,
    price_n13_4: i64,
    side: u8,
) -> Vec<u8> {
    let mut w = order_body("010", cl_ord_id, security_id, qty_100x, price_n13_4, side);
    w.ch(b' ');
    frame(msg_type::NEW_ORDER_CASH, &w.into_inner())
}

fn sync_frame(wanted: &[(i32, i64)]) -> Vec<u8> {
    let mut w = BodyWriter::new();
    w.u32(wanted.len() as u32);
    for (p, begin) in wanted {
        w.i32(*p);
        w.i64(*begin);
    }
    frame(msg_type::REPORT_SYNC, &w.into_inner())
}

fn test_gateway(port: u16, platform_type: u16, strategy: StrategyConfig) -> GatewayConfig {
    GatewayConfig {
        id: String::new(),
        name: "测试网关".into(),
        platforms: vec![PlatformConfig {
            id: String::new(),
            name: "测试平台".into(),
            listen_host: "127.0.0.1".into(),
            port,
            platform_type,
            strategy,
            ..Default::default()
        }],
        ..Default::default()
    }
}

fn in_mode(mode: StrategyMode) -> StrategyConfig {
    StrategyConfig { mode, ..Default::default() }
}

#[test]
fn test_full_single_sync_flow() {
    let mut d = Desk::start(test_gateway(18101, 1, in_mode(StrategyMode::FullSingle)));
    d.connect_and_logon();
    d.write(&new_order_frame("TEST000001", 500_00, 12_3400, b'1'));

    let (mt, body) = d.read();
    assert_eq!(mt, msg_type::EXEC_RPT_CASH_ACK, "第一条应为确认回报");
    let mut r = BodyReader::new(&body);
    let _partition_no = r.i32().unwrap();
    let _report_index = r.i64().unwrap();
    assert_eq!(r.str(3).unwrap(), "010");
    let _ = r.str(6).unwrap();
    let _ = r.str(6).unwrap();
    assert_eq!(r.str(8).unwrap(), "000001");

    let (mt, body) = d.read();
    assert_eq!(mt, msg_type::EXEC_RPT_CASH_TRADE, "第二条应为成交回报");
    let mut r = BodyReader::new(&body);
    let _ = r.i32().unwrap();
    let _ = r.i64().unwrap();
    let _ = r.str(3).unwrap();
    let _ = r.str(6).unwrap();
    let _ = r.str(6).unwrap();
    let _ = r.str(8).unwrap();
    let _ = r.str(4).unwrap();
    let _ = r.u16().unwrap();
    let _ = r.str(2).unwrap();
    let _ = r.i64().unwrap();
    let _ = r.str(8).unwrap();
    let _ = r.str(16).unwrap();
    assert_eq!(r.str(10).unwrap(), "TEST000001");
    let _ = r.str(16).unwrap();
    assert_eq!(r.ch().unwrap(), b'F');
    assert_eq!(r.ch().unwrap(), b'2');
    assert_eq!(r.i64().unwrap(), 12_3400);
    assert_eq!(r.i64().unwrap(), 500_00);
    assert_eq!(r.i64().unwrap(), 0);
    assert_eq!(r.i64().unwrap(), 500_00);

    let snap = d.engine.snapshot();
    let p = &snap.gateways[0].platforms[0];
    assert_eq!(p.stats.orders, 1);
    assert_eq!(p.stats.acks, 1);
    assert_eq!(p.stats.trades, 1);
    assert_eq!(p.connections.len(), 1);
    assert!(p.connections[0].logged_on);
    assert_eq!(p.connections[0].comp_id, "OMS_TEST");
    d.stop();
}

#[test]
fn test_reject_and_ack_only_flow() {
    let mut d = Desk::start(test_gateway(18102, 1, in_mode(StrategyMode::Reject)));
    d.connect_and_logon();
    d.write(&new_order_frame("TESTREJ001", 100_00, 10_0000, b'2'));
    let (mt, body) = d.read();
    assert_eq!(mt, msg_type::EXEC_RPT_CASH_ACK);
    assert_eq!(body[111], b'8', "ExecType 应为拒绝");
    assert_eq!(body[112], b'8', "OrdStatus 应为已拒绝");
    assert!(d.silent());

    d.stop();
    let (mt, _) = d.read();
    assert_eq!(mt, msg_type::LOGOUT, "网关停止时应发送 Logout");
}

#[test]
fn test_split_trades_async_delay() {
    let strategy = StrategyConfig {
        mode: StrategyMode::FullSplit,
        split_count_min: 3,
        split_count_max: 3,
        ack_delay: DelayConfig { min_ms: 10, max_ms: 20 },
        trade_delay: DelayConfig { min_ms: 5, max_ms: 10 },
        ..Default::default()
    };
    let mut d = Desk::start(test_gateway(18103, 1, strategy));
    d.connect_and_logon();
    d.write(&new_order_frame("TESTSPL001", 1000_00, 20_0000, b'1'));
    let (mt, _) = d.read();
    assert_eq!(mt, msg_type::EXEC_RPT_CASH_ACK);
    let mut total_qty = 0i64;
    for _ in 0..3 {
        let (mt, body) = d.read();
        assert_eq!(mt, msg_type::EXEC_RPT_CASH_TRADE);
        total_qty += i64::from_be_bytes(body[111..119].try_into().unwrap());
    }
    assert_eq!(total_qty, 1000_00, "拆单成交数量之和应等于委托数量");
    d.stop();
}

#[test]
fn test_platform_mismatch_business_reject() {
    let mut d = Desk::start(test_gateway(18104, 1, in_mode(StrategyMode::FullSingle)));
    d.connect_and_logon();
    let w = order_body("020", "PLATREJ01", "000001", 100_00, 10_0000, b'1');
    d.write(&frame(msg_type::NEW_ORDER_BOND_REPO, &w.into_inner()));

    let (mt, body) = d.read();
    assert_eq!(mt, msg_type::BUSINESS_REJECT, "平台不符应回业务拒绝");
    assert_eq!(&body[0..3], b"020", "ApplID 应回填委托值");
    let ref_msg_type = u32::from_be_bytes(body[37..41].try_into().unwrap());
    assert_eq!(ref_msg_type, msg_type::NEW_ORDER_BOND_REPO, "RefMsgType 应是被拒消息类型");
    assert_eq!(&body[41..51], b"PLATREJ01 ", "BusinessRejectRefID 应回填 ClOrdID");
    let reason = u16::from_be_bytes(body[51..53].try_into().unwrap());
    assert_eq!(reason, 20108, "拒单码应为 20108");
    let lossy = String::from_utf8_lossy(&body[53..103]);
    let text = lossy.trim_end_matches(char::from(0));
    let text = text.trim_end();
    assert!(text.contains("平台非法"), "{}", text);

    let snap = d.engine.snapshot();
    let p = &snap.gateways[0].platforms[0];
    assert_eq!(p.stats.orders, 0, "平台不符的订单不应计入订单数");
    assert_eq!(p.stats.business_rejects, 1, "应计入业务拒绝数");
    d.stop();
}

#[test]
fn test_report_sync_no_reply_without_history() {
    let mut d = Desk::start(test_gateway(18105, 1, in_mode(StrategyMode::FullSingle)));
    d.connect_and_logon();
    d.write(&sync_frame(&[(1, 1)]));
    assert!(d.silent());

    d.write(&sync_frame(&[(99, 1)]));
    let (mt, body) = d.read();
    assert_eq!(mt, msg_type::BUSINESS_REJECT, "非法分区号应回业务拒绝");
    let ref_msg_type = u32::from_be_bytes(body[37..41].try_into().unwrap());
    assert_eq!(ref_msg_type, msg_type::REPORT_SYNC, "RefMsgType 应是被拒的同步消息类型");
    let reason = u16::from_be_bytes(body[51..53].try_into().unwrap());
    assert_eq!(reason, 20106, "拒单码应为 20106");
    d.stop();
}

#[test]
fn test_report_sync_resends_history_by_begin() {
    let mut d = Desk::start(test_gateway(18108, 1, in_mode(StrategyMode::FullSingle)));
    d.connect_and_logon();
    d.write(&new_order_frame("RESEND001", 500_00, 12_3400, b'1'));
    let (mt, body) = d.read();
    assert_eq!(mt, msg_type::EXEC_RPT_CASH_ACK);
    assert_eq!(i64::from_be_bytes(body[4..12].try_into().unwrap()), 1, "第一条回报记录号应为 1");
    let (mt, trade) = d.read();
    assert_eq!(mt, msg_type::EXEC_RPT_CASH_TRADE);
    assert_eq!(i64::from_be_bytes(trade[4..12].try_into().unwrap()), 2, "第二条回报记录号应为 2");
    d.disconnect();

    d.connect_and_logon();
    d.write(&sync_frame(&[(1, 2)]));
    let (mt, body) = d.read();
    assert_eq!(mt, msg_type::EXEC_RPT_CASH_TRADE, "应重发记录号 2 的成交回报");
    assert_eq!(i64::from_be_bytes(body[4..12].try_into().unwrap()), 2, "重发帧应保留原记录号 2");
    assert_eq!(body, trade);
    assert!(d.silent(), "重发完后不应再收到任何报文（无回报结束消息）");
    d.stop();
}

#[test]
fn test_report_sync_resends_per_partition_contiguous() {
    let mut gw = test_gateway(18109, 1, in_mode(StrategyMode::FullSingle));
    gw.platforms[0].partition_nos = "1,2".into();
    let mut d = Desk::start(gw);

    let snap = d.engine.snapshot();
    let pcfg = &snap.gateways[0].config.platforms[0];
    let mut sec_a = String::new();
    let mut sec_b = String::new();
    let mut pa = 0;
    let mut pb = 0;
    for i in 1..=60 {
        let sec = format!("{:06}", i);
        let p = pcfg.partition_for(&sec);
        if sec_a.is_empty() {
            sec_a = sec;
            pa = p;
        } else if p != pa && sec_b.is_empty() {
            sec_b = sec;
            pb = p;
            break;
        }
    }
    assert!(!sec_b.is_empty(), "应能找到分属两个分区的证券");
    assert_ne!(pa, pb, "两个证券必须落在不同分区");

    d.connect_and_logon();
    d.write(&new_order_frame_sec("PA0000001", &sec_a, 500_00, 12_3400, b'1'));
    d.write(&new_order_frame_sec("PB0000001", &sec_b, 500_00, 12_3400, b'1'));
    let mut got: HashMap<i32, Vec<i64>> = HashMap::new();
    for _ in 0..4 {
        let (_, body) = d.read();
        let p = i32::from_be_bytes(body[0..4].try_into().unwrap());
        let ri = i64::from_be_bytes(body[4..12].try_into().unwrap());
        got.entry(p).or_default().push(ri);
    }
    for (p, list) in &got {
        let mut idx = list.clone();
        idx.sort_unstable();
        assert_eq!(idx, vec![1, 2], "分区 {} 的记录号应连续 1、2", p);
    }
    assert_eq!(got.len(), 2, "两个分区都应收到回报");
    d.disconnect();

    d.connect_and_logon();
    d.write(&sync_frame(&[(pa, 1), (pb, 1)]));
    let mut resent: HashMap<i32, Vec<i64>> = HashMap::new();
    for _ in 0..4 {
        let (_, body) = d.read();
        let p = i32::from_be_bytes(body[0..4].try_into().unwrap());
        let ri = i64::from_be_bytes(body[4..12].try_into().unwrap());
        resent.entry(p).or_default().push(ri);
    }
    for (p, list) in &resent {
        let mut idx = list.clone();
        idx.sort_unstable();
        assert_eq!(idx, vec![1, 2], "分区 {} 重发的记录号应连续 1、2", p);
    }
    assert_eq!(resent.len(), 2, "两个分区都应被重发");
    assert!(d.silent(), "重发完后不应再收到任何报文（无回报结束消息）");
    d.stop();
}

#[test]
fn test_report_sync_skipped_without_capture() {
    let mut gw = test_gateway(18110, 1, in_mode(StrategyMode::FullSingle));
    gw.platforms[0].show_packets = false;
    gw.platforms[0].persist_packets = false;
    let mut d = Desk::start(gw);
    d.connect_and_logon();
    d.write(&new_order_frame("NOCAP0001", 500_00, 12_3400, b'1'));
    let (mt, _) = d.read();
    assert_eq!(mt, msg_type::EXEC_RPT_CASH_ACK);
    let (mt, _) = d.read();
    assert_eq!(mt, msg_type::EXEC_RPT_CASH_TRADE);
    d.disconnect();

    d.connect_and_logon();
    d.write(&sync_frame(&[(1, 1)]));
    assert!(d.silent(), "无捕获缓存时同步请求不应触发任何响应（不重发、不回结束标记）");
    d.stop();
}

#[test]
fn test_fixed_income_session_status() {
    let mut d = Desk::start(test_gateway(18106, 6, in_mode(StrategyMode::FullSingle)));
    d.connect_and_logon();
    let (mt, body) = d.read();
    assert_eq!(mt, msg_type::TRADING_SESSION_STATUS, "固定收益平台登录后应收到交易会话状态");
    assert_eq!(&body[8..9], b"6", "MarketSegmentID 首位应为平台号");
    let start = i64::from_be_bytes(body[26..34].try_into().unwrap());
    let end = i64::from_be_bytes(body[34..42].try_into().unwrap());
    assert!(start > 0 && end > start, "交易会话起止时间应有效");
    assert!(start <= STAMP && STAMP <= end);
    d.stop();
}

fn quote_frame(appl_id: &str, quote_msg_id: &str) -> Vec<u8> {
    let mut w = BodyWriter::new();
    w.str(appl_id, 3);
    w.str("100001", 6);
    w.str("000001", 8);
    w.str("102", 4);
    w.u16(1);
    w.str("01", 2);
    w.i64(STAMP);
    w.str("", 8);
    w.str(quote_msg_id, 10);
    w.str("0123456789AB", 12);
    w.str("", 10);
    w.ch(b'1');
    w.i64(12_3400);
    w.i64(12_3500);
    w.i64(100_00);
    w.i64(100_00);
    w.str("0001", 4);
    w.str("", 10);
    w.str("", 16);
    w.ch(b'0');
    w.i64(0);
    w.ch(b'0');
    w.ch(b'1');
    w.str("100002", 6);
    w.str("", 160);
    frame(msg_type::QUOTE_AGREEMENT, &w.into_inner())
}

#[test]
fn test_quote_platform2_accept_and_reject() {
    let mut d = Desk::start(test_gateway(18107, 2, in_mode(StrategyMode::FullSingle)));
    d.connect_and_logon();

    d.write(&quote_frame("056", "QT00000001"));
    let (mt, body) = d.read();
    assert_eq!(mt, msg_type::QUOTE_STATUS_AGREEMENT, "报价应回报价状态回报");
    let status = u16::from_be_bytes(body[91..93].try_into().unwrap());
    assert_eq!(status, 0, "报价状态应为接受");

    d.write(&quote_frame("010", "QT00000002"));
    let (mt, body) = d.read();
    assert_eq!(mt, msg_type::BUSINESS_REJECT, "平台不符的报价应回业务拒绝");
    let ref_msg_type = u32::from_be_bytes(body[37..41].try_into().unwrap());
    assert_eq!(ref_msg_type, msg_type::QUOTE_AGREEMENT);
    assert_eq!(&body[41..51], b"QT00000002", "报价的业务层 ID 应为 QuoteMsgID（表 5-2）");
    let reason = u16::from_be_bytes(body[51..53].try_into().unwrap());
    assert_eq!(reason, 20108);

    let snap = d.engine.snapshot();
    assert_eq!(snap.gateways[0].platforms[0].stats.business_rejects, 1);
    d.stop();
}

fn cancel_frame(cl_ord_id: &str, orig: &str) -> Vec<u8> {
    let mut w = BodyWriter::new();
    w.str("010", 3);
    w.str("100001", 6);
    w.str("000001", 8);
    w.str("102", 4);
    w.u16(1);
    w.str("01", 2);
    w.i64(STAMP);
    w.str("", 8);
    w.str(cl_ord_id, 10);
    w.str(orig, 10);
    w.ch(b'1');
    w.str("", 16);
    w.i64(500_00);
    w.str("", 4);
    frame(msg_type::ORDER_CANCEL_REQUEST, &w.into_inner())
}

#[test]
fn a_cancel_request_is_granted_once() {
    let mut d = Desk::start(test_gateway(18111, 1, in_mode(StrategyMode::AckOnly)));
    d.connect_and_logon();
    d.write(&new_order_frame("CXL0000001", 500_00, 12_3400, b'1'));
    d.read();
    d.write(&cancel_frame("CXL0000002", "CXL0000001"));
    let (mt, body) = d.read();
    assert_eq!(mt, msg_type::EXEC_RPT_CASH_ACK);
    assert_eq!(body[111], b'4');
    assert_eq!(body[112], b'4');
    d.write(&cancel_frame("CXL0000003", "CXL0000001"));
    let (mt, _) = d.read();
    assert_eq!(mt, msg_type::CANCEL_REJECT);
    let list = d.engine.orders(&d.id, &d.engine.gateways[0].platforms[0].id).unwrap();
    assert_eq!(list.len(), 1);
    assert_eq!(list[0].leaves_qty, 0);
    assert_eq!(d.engine.snapshot().gateways[0].platforms[0].stats.cancels, 2);
}

#[test]
fn nothing_is_answered_before_the_logon() {
    let mut d = Desk::start(test_gateway(18112, 1, in_mode(StrategyMode::FullSingle)));
    d.connect();
    d.write(&new_order_frame("EARLY00001", 500_00, 12_3400, b'1'));
    d.write(&cancel_frame("EARLY00002", "EARLY00001"));
    assert!(d.silent());
    assert_eq!(d.engine.snapshot().gateways[0].platforms[0].stats.orders, 0);
}

#[test]
fn a_wrong_password_ends_the_connection() {
    let mut gw = test_gateway(18113, 1, in_mode(StrategyMode::FullSingle));
    gw.platforms[0].check_password = true;
    gw.platforms[0].password = "right".into();
    let mut d = Desk::start(gw);
    d.connect();
    let logon = Logon {
        sender_comp_id: "OMS_TEST".into(),
        target_comp_id: "SIMX_TGW".into(),
        heart_bt_int: 30,
        password: "wrong".into(),
        default_appl_ver_id: "1.29".into(),
    };
    d.write(&logon.encode());
    let (mt, _) = d.read();
    assert_eq!(mt, msg_type::LOGOUT);
    assert!(d.silent());
    assert!(!d.sess.logged_on);
}

#[test]
fn an_order_out_of_range_is_not_counted() {
    let mut d = Desk::start(test_gateway(18114, 1, in_mode(StrategyMode::PartialSingle)));
    d.connect_and_logon();
    d.write(&new_order_frame("FAR0000001", i64::MIN + 99, 12_3400, b'1'));
    assert!(d.silent());
    assert_eq!(d.engine.snapshot().gateways[0].platforms[0].stats.orders, 0);
    d.write(&new_order_frame("FAR0000002", i64::MIN + 100, 12_3400, b'1'));
    assert_eq!(d.read().0, msg_type::EXEC_RPT_CASH_ACK);
    assert_eq!(d.read().0, msg_type::EXEC_RPT_CASH_TRADE);
    assert_eq!(d.engine.snapshot().gateways[0].platforms[0].stats.orders, 1);
}

fn executed_qty(body: &[u8]) -> i64 {
    ExecRptTrade::decode(msg_type::EXEC_RPT_CASH_TRADE, body).unwrap().last_qty
}

#[test]
fn the_least_quantities_are_answered() {
    let mut d = Desk::start(test_gateway(18120, 1, in_mode(StrategyMode::AckOnly)));
    d.connect_and_logon();
    d.write(&new_order_frame("LOW0000001", i64::MIN, 12_3400, b'1'));
    let (mt, body) = d.read();
    assert_eq!(mt, msg_type::EXEC_RPT_CASH_ACK);
    assert_eq!(i64::from_be_bytes(body[115..123].try_into().unwrap()), i64::MIN);
    d.ctx().strategy.mode = StrategyMode::Reject;
    d.write(&new_order_frame("LOW0000002", i64::MIN, 12_3400, b'1'));
    assert_eq!(d.read().1[111], b'8');
    d.ctx().strategy.mode = StrategyMode::FullSingle;
    d.write(&new_order_frame("LOW0000003", i64::MIN, 12_3400, b'1'));
    d.read();
    assert_eq!(executed_qty(&d.read().1), i64::MIN);
    d.ctx().strategy.mode = StrategyMode::FullSplit;
    d.write(&new_order_frame("LOW0000004", i64::MIN, i64::MAX, b'2'));
    d.read();
    assert_eq!(executed_qty(&d.read().1), -9_223_372_036_854_775_800);
    d.ctx().strategy.mode = StrategyMode::Custom;
    d.write(&new_order_frame("LOW0000005", i64::MIN, 12_3400, b'1'));
    d.read();
    assert!(d.silent());
    assert_eq!(d.engine.snapshot().gateways[0].platforms[0].stats.orders, 5);
}

#[test]
fn prices_are_bounded_by_the_pieces_that_are_made() {
    let mut d = Desk::start(test_gateway(18121, 1, in_mode(StrategyMode::FullSplit)));
    d.ctx().strategy.split_count_min = 3;
    d.ctx().strategy.split_count_max = 3;
    d.ctx().strategy.price_tick = 1_000;
    d.connect_and_logon();
    d.write(&new_order_frame("TOP0000001", 100_00, i64::MAX, b'2'));
    d.read();
    assert_eq!(executed_qty(&d.read().1), 100_00);
    d.write(&new_order_frame("TOP0000002", 300_00, i64::MAX - 200, b'2'));
    d.read();
    assert_eq!(executed_qty(&d.read().1), 100_00);
    d.read();
    d.read();
    d.write(&new_order_frame("TOP0000003", 300_00, i64::MAX - 199, b'2'));
    assert!(d.silent());
    assert_eq!(d.last_said().0, Level::Error);
    assert_eq!(d.engine.snapshot().gateways[0].platforms[0].stats.orders, 2);
}

#[test]
fn a_cancel_repeats_the_price_and_the_quantity() {
    let mut d = Desk::start(test_gateway(18122, 1, in_mode(StrategyMode::AckOnly)));
    d.connect_and_logon();
    d.write(&new_order_frame("CXL0000001", 500_29, 1_1300, b'1'));
    d.read();
    d.write(&cancel_frame("CXL0000002", "CXL0000001"));
    let (_, body) = d.read();
    assert_eq!(i64::from_be_bytes(body[133..141].try_into().unwrap()), 500_29);
    assert_eq!(i64::from_be_bytes(body[141..149].try_into().unwrap()), 1_1300);
}

#[test]
fn a_body_that_is_too_long_is_refused() {
    let mut head = [0u8; 8];
    head[4..8].copy_from_slice(&8_388_609u32.to_be_bytes());
    let e = parse_head(&head).unwrap_err();
    assert_eq!(e.len, 8_388_609);
    head[4..8].copy_from_slice(&8_388_608u32.to_be_bytes());
    assert!(parse_head(&head).is_ok());
}

#[test]
fn a_wrong_check_value_is_noticed() {
    let mut raw = new_order_frame("CHK0000001", 500_00, 12_3400, b'1');
    let n = raw.len();
    let (ok, all) = join_frame(&raw[0..8], &raw[8..n - 4], &raw[n - 4..]);
    assert!(ok);
    assert_eq!(all, raw);
    raw[20] ^= 1;
    let (ok, _) = join_frame(&raw[0..8], &raw[8..n - 4], &raw[n - 4..]);
    assert!(!ok);
}

#[test]
fn the_log_tells_of_logons_and_logouts() {
    let mut d = Desk::start(test_gateway(18115, 1, in_mode(StrategyMode::FullSingle)));
    d.connect();
    d.write(&frame(msg_type::NEW_ORDER_CASH, b"x"));
    assert_eq!(
        d.last_said(),
        (Level::Warn, "柜台 127.0.0.1:50000 未登录即发送消息 MsgType=100101，忽略")
    );
    d.logon();
    assert_eq!(
        d.last_said(),
        (Level::Info, "柜台 127.0.0.1:50000 登录成功 CompID=OMS_TEST 心跳间隔=30s")
    );
    let n = d.said.len();
    d.write(&frame(msg_type::HEARTBEAT, b""));
    assert_eq!(d.said.len(), n);
    d.write(&frame(777_777, b""));
    assert_eq!(d.last_said(), (Level::Warn, "收到暂不支持的消息 MsgType=777777，忽略"));
    d.write(&frame(msg_type::NEW_ORDER_CASH, b"x"));
    assert_eq!(d.last_said(), (Level::Error, "新订单(100101)解析失败: 消息体长度不足"));
    d.write(&frame(msg_type::LOGOUT, b""));
    assert_eq!(d.last_said(), (Level::Info, "柜台 127.0.0.1:50000 请求注销（状态=0）"));
    d.connect();
    d.write(&frame(msg_type::LOGON, b"short"));
    assert_eq!(d.last_said(), (Level::Error, "Logon 消息解析失败: 消息体长度不足"));
}

#[test]
fn the_log_tells_of_orders_and_cancels() {
    let mut d = Desk::start(test_gateway(18116, 1, in_mode(StrategyMode::AckOnly)));
    d.connect_and_logon();
    d.write(&new_order_frame("LOG0000001", 500_00, 12_3405, b'2'));
    assert_eq!(
        d.last_said(),
        (
            Level::Info,
            "收到委托 MsgType=100101 ApplID=010 ClOrdID=LOG0000001 证券=000001 方向=卖 \
             价格=12.3405 数量=500"
        )
    );
    d.write(&cancel_frame("LOG0000002", "LOG0000001"));
    assert_eq!(
        d.last_said(),
        (
            Level::Info,
            "收到撤单请求 ClOrdID=LOG0000002 OrigClOrdID=LOG0000001，原单在途，已回撤单成功(200102)"
        )
    );
    d.ctx().strategy.cancel_reject_reason = 9;
    d.write(&cancel_frame("LOG0000003", "LOG0000001"));
    assert_eq!(
        d.last_said().1,
        "收到撤单请求 ClOrdID=LOG0000003 OrigClOrdID=LOG0000001，原单不存在或不可撤，\
         已回撤单失败响应(290008) 原因=9"
    );
    d.ctx().strategy.cancel_front_reject = true;
    d.write(&cancel_frame("LOG0000004", "LOG0000001"));
    assert_eq!(
        d.last_said().1,
        "收到撤单请求 ClOrdID=LOG0000004 OrigClOrdID=LOG0000001，回业务拒绝(4) 原因=9"
    );
    d.ctx().strategy.cancel_mode = CancelMode::AlwaysSuccess;
    d.write(&cancel_frame("LOG0000005", "LOG0000001"));
    assert_eq!(
        d.last_said().1,
        "收到撤单请求 ClOrdID=LOG0000005 OrigClOrdID=LOG0000001，全部撤单成功模式，\
         已回撤单成功(200102)"
    );
    d.write(&frame(msg_type::ORDER_CANCEL_REQUEST, b""));
    assert_eq!(d.last_said(), (Level::Error, "撤单请求(190007)解析失败: 消息体长度不足"));
    d.ctx().strategy.mode = StrategyMode::PartialSplit;
    d.write(&new_order_frame("LOG0000006", i64::MIN, 1, b'1'));
    assert_eq!(
        d.last_said(),
        (Level::Error, "柜台 127.0.0.1:50000 的报文超出数值范围 MsgType=100101")
    );
}

#[test]
fn the_log_tells_of_other_platforms_and_quotes() {
    let mut d = Desk::start(test_gateway(18117, 2, in_mode(StrategyMode::AckOnly)));
    d.connect_and_logon();
    d.write(&new_order_frame("LOG0000001", 500_00, 12_3400, b'1'));
    assert_eq!(
        d.last_said(),
        (
            Level::Warn,
            "业务拒绝(4) MsgType=100101 ApplID=010 RefID=LOG0000001：业务属于平台1，\
             当前接入平台2（20108 平台非法-委托申报的平台错误,\
             例如向现货集中竞价平台申报发行认购业务的委托"
        )
    );
    d.write(&quote_frame("056", "QT00000001"));
    let (level, text) = d.last_said();
    assert_eq!(level, Level::Info);
    assert!(text.starts_with("收到报价(100505) QuoteMsgID=QT00000001 证券="), "{}", text);
    assert!(text.ends_with("，已接受(200506)"), "{}", text);
    d.write(&quote_frame("zzz", "QT00000002"));
    assert!(d.last_said().1.contains("：业务属于平台未知，当前接入平台2（"));
    d.write(&frame(msg_type::QUOTE_AGREEMENT, b""));
    assert_eq!(d.last_said().1, "报价(100505)解析失败: 消息体长度不足");
}

#[test]
fn the_log_tells_what_is_sent_again() {
    let mut gw = test_gateway(18118, 1, in_mode(StrategyMode::FullSingle));
    gw.platforms[0].show_packets = true;
    gw.platforms[0].partition_no = 3;
    let mut d = Desk::start(gw);
    d.connect_and_logon();
    d.write(&new_order_frame("LOG0000001", 500_00, 12_3400, b'1'));
    let n = d.said.len();
    d.write(&sync_frame(&[(3, 1)]));
    assert_eq!(d.said[n].1, "按回报同步请求重发分区 3 的历史回报 2 条");
    assert_eq!(d.said[n + 1].1, "柜台 127.0.0.1:50000 回报同步完成（1 个分区）");
    d.write(&sync_frame(&[(3, 9)]));
    assert_eq!(d.said.len(), n + 3);
    d.write(&sync_frame(&[(3, 1), (-5, 1), (3, 1)]));
    assert_eq!(
        d.last_said(),
        (
            Level::Warn,
            "柜台 127.0.0.1:50000 回报同步请求含非法/重复分区号 [-5, 3]，回业务拒绝(20106)"
        )
    );
    d.write(&frame(msg_type::REPORT_SYNC, b"xyz"));
    assert_eq!(d.last_said(), (Level::Warn, "回报同步请求解析失败: 消息体长度不足"));
}

#[test]
fn a_wrong_check_value_is_ignored_and_told() {
    let mut d = Desk::start(test_gateway(18119, 1, in_mode(StrategyMode::FullSingle)));
    d.connect_and_logon();
    let mut raw = new_order_frame("CHK0000001", 500_00, 12_3400, b'1');
    raw[20] ^= 1;
    d.write(&raw);
    assert!(d.silent());
    assert_eq!(
        d.last_said(),
        (Level::Warn, "柜台 127.0.0.1:50000 消息校验和错误 MsgType=100101，已忽略")
    );
    d.ctx().stats.exec_seq = u64::MAX;
    d.write(&new_order_frame("CHK0000002", 500_00, 12_3400, b'1'));
    assert!(d.silent());
    assert_eq!(d.last_said().0, Level::Error);
    assert_eq!(d.engine.snapshot().gateways[0].platforms[0].stats.orders, 0);
}

#[test]
fn the_log_tells_of_connections() {
    assert_eq!(log::opened("p").text, "柜台 p 已连接，等待 Logon");
    assert_eq!(log::broken("p", "why").text, "柜台 p 连接断开: why");
    assert_eq!(log::sent("x").text, "发送 x");
    assert_eq!(log::closed("p").text, "柜台 p 会话结束");
    let words = [Level::Info.word(), Level::Warn.word(), Level::Error.word()];
    assert_eq!(words, ["info", "warn", "error"]);
}
