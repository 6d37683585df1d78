use simx::clock::LocalTime;
use simx::config::{
    DelayConfig, GatewayCategory, GatewayConfig, PlatformConfig, StrategyConfig, StrategyMode,
};
use simx::engine::Engine;
use simx::note::Level;
use simx::report;
use simx::report::PlannedReport;
use simx::shjj::desk::attend;
use simx::shjj::log;
use simx::shjj::protocol::{checksum, describe_fields, frame, msg_type, Logon, BIZ_ID_CASH_AUCTION};
use simx::shjj::session::{
    join_frame, on_bad_checksum, on_stop, parse_head, Session, Step, Writer,
};
use simx::sz::session::SessionCtx;
use simx::wire::{BodyReader, BodyWriter};
use std::collections::VecDeque;

const DATE: u32 = 20_260_731;
const TIME: u64 = 930_001_230_000;

fn now() -> LocalTime {
    LocalTime { year: 2026, month: 7, day: 31, hour: 9, minute: 30, second: 0, nanos: 123_000_000 }
}

/// A platform that runs, with one client that talks to it.
struct Desk {
    engine: Engine,
    id: String,
    conn: u64,
    sess: Session,
    writer: Writer,
    /// The number of the last message that was read.
    last_seq: u64,
    inbox: VecDeque<Vec<u8>>,
    /// What the log says of the messages of the client.
    said: Vec<(Level, String)>,
}

impl Desk {
    fn start(gw: GatewayConfig) -> Desk {
        let mut engine = Engine::new(Vec::new());
        let saved = engine.save_gateway(gw).expect("保存网关失败");
        engine.start_gateway(&saved.id).expect("启动网关失败");
        Desk {
            engine,
            id: saved.id,
            conn: 0,
            sess: Session::new(),
            writer: Writer::new(),
            last_seq: 0,
            inbox: VecDeque::new(),
            said: Vec::new(),
        }
    }

    fn ctx(&mut self) -> &mut SessionCtx {
        &mut self.engine.running[0].platforms[0].ctx
    }

    fn connect(&mut self) {
        self.conn += 1;
        let conn = self.conn;
        self.sess = Session::new();
        self.writer = Writer::new();
        self.inbox.clear();
        let ctx = self.ctx();
        ctx.start_capture(conn, "127.0.0.1:50000", "127.0.0.1", 50000, &now());
        ctx.connected(conn, "127.0.0.1:50000", &now());
    }

    fn disconnect(&mut self) {
        let conn = self.conn;
        self.ctx().disconnected(conn);
    }

    fn emit(&mut self, mut buf: Vec<u8>) {
        let conn = self.conn;
        let ctx = &mut self.engine.running[0].platforms[0].ctx;
        self.writer.send(ctx, conn, &mut buf, &now());
        self.inbox.push_back(buf);
    }

    fn emit_reports(&mut self, plans: Vec<PlannedReport>) {
        for p in plans {
            if !report::should_send(&p, self.ctx().orders.as_ref()) {
                continue;
            }
            self.emit(p.frame.clone());
            let ctx = self.ctx();
            report::count_report(&mut ctx.stats, p.kind);
            if let Some(book) = ctx.orders.as_mut() {
                report::settle(&p, book);
            }
        }
    }

    fn perform(&mut self, step: Step) {
        match step {
            Step::Quiet | Step::OutOfRange => {}
            Step::LoggedOn { replies, .. } | Step::Reply(replies) => {
                for f in replies {
                    self.emit(f);
                }
            }
            Step::Reports(plans) => self.emit_reports(plans),
            Step::Resumed { replies, reports } => {
                for f in replies {
                    self.emit(f);
                }
                self.emit_reports(reports);
            }
            Step::Later { frame, .. } => self.emit(frame),
            Step::Close(last) => {
                if let Some(f) = last {
                    self.emit(f);
                }
                self.disconnect();
            }
        }
    }

    fn write(&mut self, raw: &[u8]) {
        let (mt, len) = parse_head(&raw[0..16]).unwrap();
        let n = len as usize;
        let body = &raw[16..16 + n];
        let (ok, all) = join_frame(&raw[0..16], body, &raw[16 + n..]);
        assert_eq!(all, raw);
        let conn = self.conn;
        let ctx = &mut self.engine.running[0].platforms[0].ctx;
        let sess = &mut self.sess;
        let (step, notes) =
            attend(ctx, sess, conn, "127.0.0.1:50000", mt, body, &all, ok, &now());
        self.said.extend(notes.into_iter().map(|n| (n.level, n.text)));
        self.perform(step);
    }

    /// The next message that the client gets, with its check value tested.
    fn read(&mut self) -> (u32, Vec<u8>) {
        let f = self.inbox.pop_front().expect("no message");
        let n = f.len();
        let mt = u32::from_be_bytes(f[0..4].try_into().unwrap());
        assert_eq!(u32::from_be_bytes(f[12..16].try_into().unwrap()) as usize, n - 20);
        assert_eq!(
            checksum(&f[0..n - 4]),
            u32::from_be_bytes(f[n - 4..].try_into().unwrap()),
            "回报校验和错误 MsgType={}",
            mt
        );
        self.last_seq = u64::from_be_bytes(f[4..12].try_into().unwrap());
        (mt, f[16..n - 4].to_vec())
    }

    /// The line that the log said last.
    fn last_said(&self) -> (Level, &str) {
        let (level, text) = self.said.last().expect("nothing said");
        (*level, text.as_str())
    }

    fn silent(&self) -> bool {
        self.inbox.is_empty()
    }

    fn logon(&mut self) {
        let logon = Logon {
            sender_comp_id: "OMS_TEST".into(),
            target_comp_id: "TDGW".into(),
            heart_bt_int: 30,
            prtcl_version: "0.50".into(),
            trade_date: DATE,
            qsize: 32,
        };
        self.write(&logon.encode());
        let (mt, body) = self.read();
        assert_eq!(mt, msg_type::LOGON);
        let reply = Logon::decode(&body).unwrap();
        assert_eq!(reply.sender_comp_id, "SIMX_TGW");
        assert_eq!(reply.target_comp_id, "OMS_TEST");
        assert_eq!(reply.trade_date, DATE);
        let (mt, _) = self.read();
        assert_eq!(mt, msg_type::PLATFORM_STATE);
        let (mt, _) = self.read();
        assert_eq!(mt, msg_type::EXEC_RPT_INFO);
    }

    fn connect_logon_sync(&mut self) {
        self.connect_and_logon();
        self.write(&sync_frame("OMS_TEST", 1));
        let (mt, _) = self.read();
        assert_eq!(mt, msg_type::EXEC_RPT_SYNC_RSP, "同步后应收到同步响应(207)");
    }

    fn connect_and_logon(&mut self) {
        self.connect();
        self.logon();
    }

    fn stop(&mut self) {
        self.perform(on_stop());
        let id = self.id.clone();
        self.engine.stop_gateway(&id).unwrap();
    }
}

fn new_order_frame(cl_ord_id: &str, qty_1000x: i64, price_n13_5: i64, side: u8) -> Vec<u8> {
    business_frame(BIZ_ID_CASH_AUCTION, cl_ord_id, qty_1000x, price_n13_5, side)
}

fn business_frame(
    biz_id: u32,
    cl_ord_id: &str,
    qty_1000x: i64,
    price_n13_5: i64,
    side: u8,
) -> Vec<u8> {
    let mut w = BodyWriter::new();
    w.u32(biz_id);
    w.str("PBU00001", 8);
    w.str(cl_ord_id, 10);
    w.str("600000", 12);
    w.str("B880000001", 13);
    w.u8(1);
    w.ch(side);
    w.i64(price_n13_5);
    w.i64(qty_1000x);
    w.ch(b'2');
    w.ch(b'0');
    w.u64(TIME);
    w.str("", 2);
    w.str("CF01", 8);
    w.str("BR01", 8);
    w.str("UINFO", 32);
    frame(msg_type::NEW_ORDER, &w.into_inner())
}

fn sync_frame(pbu: &str, set_id: u32) -> Vec<u8> {
    let mut w = BodyWriter::new();
    w.u16(1);
    w.str(pbu, 8);
    w.u32(set_id);
    w.u64(1);
    frame(msg_type::EXEC_RPT_SYNC, &w.into_inner())
}

fn cancel_frame(cl_ord_id: &str, orig: &str) -> Vec<u8> {
    let mut w = BodyWriter::new();
    w.u32(BIZ_ID_CASH_AUCTION);
    w.str("PBU00001", 8);
    w.str(cl_ord_id, 10);
    w.str("600000", 12);
    w.str("B880000001", 13);
    w.u8(1);
    w.ch(b'1');
    w.str(orig, 10);
    w.u64(TIME);
    w.str("BR01", 8);
    w.str("", 32);
    frame(msg_type::CANCEL_ORDER, &w.into_inner())
}

fn test_gateway(port: u16, strategy: StrategyConfig) -> GatewayConfig {
    GatewayConfig {
        id: String::new(),
        name: "上海竞价测试网关".into(),
        category: GatewayCategory::Shjj,
        platforms: vec![PlatformConfig {
            id: String::new(),
            name: "竞价平台".into(),
            platform_type: 0,
            listen_host: "127.0.0.1".into(),
            port,
            strategy,
            ..Default::default()
        }],
        ..Default::default()
    }
}

fn in_mode(mode: StrategyMode) -> StrategyConfig {
    StrategyConfig { mode, ..Default::default() }
}

#[test]
fn test_shjj_full_single_sync_flow() {
    let mut d = Desk::start(test_gateway(18201, in_mode(StrategyMode::FullSingle)));
    d.connect_logon_sync();
    d.write(&new_order_frame("A000000001", 500_000, 12_34000, b'1'));

    let (mt, body) = d.read();
    assert_eq!(mt, msg_type::EXEC_RPT, "第一条应为申报响应(32)");
    let mut r = BodyReader::new(&body);
    let _pbu = r.str(8).unwrap();
    let _set_id = r.u32().unwrap();
    let _report_index = r.u64().unwrap();
    assert_eq!(r.u32().unwrap(), BIZ_ID_CASH_AUCTION);
    assert_eq!(r.ch().unwrap(), b'0');
    let _biz_pbu = r.str(8).unwrap();
    assert_eq!(r.str(10).unwrap(), "A000000001");
    assert_eq!(r.str(12).unwrap(), "600000");

    let (mt, body) = d.read();
    assert_eq!(mt, msg_type::TRADE, "第二条应为成交回报(103)");
    let mut r = BodyReader::new(&body);
    let _ = r.str(8).unwrap();
    let _ = r.u32().unwrap();
    let _ = r.u64().unwrap();
    let _ = r.u32().unwrap();
    assert_eq!(r.ch().unwrap(), b'F');
    let _ = r.str(8).unwrap();
    assert_eq!(r.str(10).unwrap(), "A000000001");
    assert_eq!(r.str(12).unwrap(), "600000");
    let _ = r.str(13).unwrap();
    let _ = r.u8().unwrap();
    let _ = r.u64().unwrap();
    assert_eq!(r.i64().unwrap(), 12_34000);
    assert_eq!(r.i64().unwrap(), 500_000);
    assert_eq!(r.i64().unwrap(), 6170_00000);
    let _ = r.ch().unwrap();
    assert_eq!(r.i64().unwrap(), 500_000);
    assert_eq!(r.i64().unwrap(), 0);
    assert_eq!(r.ch().unwrap(), b'2');

    let snap = d.engine.snapshot();
    let p = &snap.gateways[0].platforms[0];
    assert_eq!(p.stats.orders, 1);
    assert_eq!(p.stats.acks, 1);
    assert_eq!(p.stats.trades, 1);
    assert_eq!(p.connections.len(), 1);
    d.stop();
}

#[test]
fn test_shjj_sync_gate_buffers_reports() {
    let mut d = Desk::start(test_gateway(18202, in_mode(StrategyMode::AckOnly)));
    d.connect_and_logon();
    d.write(&new_order_frame("A000000002", 100_000, 10_00000, b'1'));
    assert!(d.silent(), "序号同步前不应推送执行报告");

    d.write(&sync_frame("OMS_TEST", 1));
    let (mt, _) = d.read();
    assert_eq!(mt, msg_type::EXEC_RPT_SYNC_RSP);
    let (mt, _) = d.read();
    assert_eq!(mt, msg_type::EXEC_RPT, "同步后应补发缓存的申报响应(32)");
    d.stop();
}

#[test]
fn test_shjj_cancel_reject_and_logout() {
    let mut d = Desk::start(test_gateway(18203, StrategyConfig::default()));
    d.connect_logon_sync();
    d.write(&cancel_frame("A000000004", "A000000003"));

    let (mt, body) = d.read();
    assert_eq!(mt, msg_type::CANCEL_REJECT, "撤单应回撤单失败(59)");
    let mut r = BodyReader::new(&body);
    let _ = r.str(8).unwrap();
    let _ = r.u32().unwrap();
    let _ = r.u64().unwrap();
    let _ = r.u32().unwrap();
    let _ = r.str(8).unwrap();
    assert_eq!(r.str(10).unwrap(), "A000000004");
    let _ = r.str(12).unwrap();
    assert_eq!(r.str(10).unwrap(), "A000000003");

    d.stop();
    let (mt, _) = d.read();
    assert_eq!(mt, msg_type::LOGOUT, "网关停止时应发送 Logout");
}

#[test]
fn test_shjj_split_trades_async_delay() {
    let strategy = StrategyConfig {
        mode: StrategyMode::FullSplit,
        split_count_min: 3,
        split_count_max: 3,
        ack_delay: DelayConfig { min_ms: 10, max_ms: 20 },
        trade_delay: DelayConfig { min_ms: 5, max_ms: 10 },
        ..Default::default()
    };
    let mut d = Desk::start(test_gateway(18204, strategy));
    d.connect_logon_sync();
    d.write(&new_order_frame("A000000005", 1000_000, 20_00000, b'1'));
    let (mt, _) = d.read();
    assert_eq!(mt, msg_type::EXEC_RPT);
    let mut total_qty = 0i64;
    for _ in 0..3 {
        let (mt, body) = d.read();
        assert_eq!(mt, msg_type::TRADE);
        total_qty += i64::from_be_bytes(body[85..93].try_into().unwrap());
    }
    assert_eq!(total_qty, 1000_000, "拆单成交数量之和应等于委托数量");
    d.stop();
}

#[test]
fn test_shjj_sync_resends_history_by_begin() {
    let mut d = Desk::start(test_gateway(18205, in_mode(StrategyMode::FullSingle)));
    d.connect_logon_sync();
    d.write(&new_order_frame("RESEND001", 500_000, 12_34000, b'1'));
    let (mt, ack) = d.read();
    assert_eq!(mt, msg_type::EXEC_RPT);
    assert_eq!(u64::from_be_bytes(ack[12..20].try_into().unwrap()), 1, "第一条回报记录号应为 1");
    let (mt, trade) = d.read();
    assert_eq!(mt, msg_type::TRADE);
    assert_eq!(u64::from_be_bytes(trade[12..20].try_into().unwrap()), 2, "第二条回报记录号应为 2");
    d.disconnect();

    d.connect_logon_sync();
    assert_eq!(d.last_seq, 4);
    let (mt, body) = d.read();
    assert_eq!(mt, msg_type::EXEC_RPT, "应重发申报响应(32)");
    assert_eq!(u64::from_be_bytes(body[12..20].try_into().unwrap()), 1, "重发帧应保留原记录号 1");
    assert_eq!(body, ack);
    assert_eq!(d.last_seq, 5);
    let (mt, body) = d.read();
    assert_eq!(mt, msg_type::TRADE, "应重发成交回报(103)");
    assert_eq!(u64::from_be_bytes(body[12..20].try_into().unwrap()), 2, "重发帧应保留原记录号 2");
    assert_eq!(body, trade);
    assert_eq!(d.last_seq, 6);
    d.stop();
}

#[test]
fn the_sync_answer_tells_the_last_index() {
    let mut d = Desk::start(test_gateway(18206, in_mode(StrategyMode::FullSingle)));
    d.connect_logon_sync();
    d.write(&new_order_frame("END0000001", 500_000, 12_34000, b'1'));
    d.read();
    d.read();
    d.disconnect();
    d.connect_and_logon();
    d.write(&sync_frame("OMS_TEST", 1));
    let (mt, body) = d.read();
    assert_eq!(mt, msg_type::EXEC_RPT_SYNC_RSP);
    let mut r = BodyReader::new(&body);
    assert_eq!(r.u16().unwrap(), 1);
    assert_eq!(r.str(8).unwrap(), "OMS_TEST");
    assert_eq!(r.u32().unwrap(), 1);
    assert_eq!(r.u64().unwrap(), 1);
    assert_eq!(r.u64().unwrap(), 2);
    assert_eq!(r.u32().unwrap(), 0);
}

#[test]
fn an_unknown_business_is_rejected() {
    let mut d = Desk::start(test_gateway(18207, in_mode(StrategyMode::FullSingle)));
    d.connect_and_logon();
    d.write(&business_frame(999_999, "BIZ0000001", 500_000, 12_34000, b'1'));
    let (mt, body) = d.read();
    assert_eq!(mt, msg_type::ORDER_REJECT);
    assert_eq!(u32::from_be_bytes(body[34..38].try_into().unwrap()), 4012);
    let snap = d.engine.snapshot();
    let p = &snap.gateways[0].platforms[0];
    assert_eq!(p.stats.orders, 0);
    assert_eq!(p.stats.order_rejects, 1);
}

#[test]
fn a_cancel_before_the_sync_silences_the_order() {
    let mut d = Desk::start(test_gateway(18208, in_mode(StrategyMode::FullSingle)));
    d.connect_and_logon();
    d.write(&new_order_frame("CXL0000001", 500_000, 12_34000, b'1'));
    d.write(&cancel_frame("CXL0000002", "CXL0000001"));
    assert!(d.silent());
    d.write(&sync_frame("OMS_TEST", 1));
    let (mt, _) = d.read();
    assert_eq!(mt, msg_type::EXEC_RPT_SYNC_RSP);
    let (mt, body) = d.read();
    assert_eq!(mt, msg_type::EXEC_RPT);
    assert_eq!(body[24], b'4');
    assert_eq!(i64::from_be_bytes(body[86..94].try_into().unwrap()), 0);
    assert_eq!(i64::from_be_bytes(body[94..102].try_into().unwrap()), 500_000);
    assert!(d.silent());
}

fn registration(biz_id: u32, security: &str, instruction: u8) -> Vec<u8> {
    let mut w = BodyWriter::new();
    w.u32(biz_id);
    w.str("PBU00001", 8);
    w.str("REG0000001", 10);
    w.str(security, 12);
    w.str("B880000001", 13);
    w.u8(1);
    w.ch(instruction);
    w.ch(b'1');
    w.str("", 10);
    w.u64(TIME);
    w.str("BR01", 8);
    w.str("", 32);
    frame(msg_type::REGISTRATION, &w.into_inner())
}

#[test]
fn registrations_are_checked() {
    let mut d = Desk::start(test_gateway(18209, StrategyConfig::default()));
    d.connect_logon_sync();
    d.write(&registration(300_200, "799999", b'1'));
    let (mt, body) = d.read();
    assert_eq!(mt, msg_type::REGISTRATION_RPT);
    assert_eq!(u32::from_be_bytes(body[8..12].try_into().unwrap()), 992);
    assert_eq!(u64::from_be_bytes(body[12..20].try_into().unwrap()), 1);
    assert_eq!(body[24], b'0');
    d.write(&registration(300_201, "799998", b'2'));
    assert_eq!(d.read().1[24], b'0');
    d.write(&registration(300_201, "799999", b'2'));
    assert_eq!(d.read().1[24], b'8');
    d.write(&registration(300_200, "799999", b'2'));
    assert_eq!(d.read().1[24], b'8');
    assert_eq!(d.engine.snapshot().gateways[0].platforms[0].stats.orders, 0);
}

fn password_request(biz_id: u32) -> Vec<u8> {
    let mut w = BodyWriter::new();
    w.u32(biz_id);
    w.str("PBU00001", 8);
    w.str("PWD0000001", 10);
    w.str("799988", 12);
    w.str("B880000001", 13);
    w.u8(1);
    w.u64(TIME);
    w.str("BR01", 8);
    w.ch(b'1');
    w.str("12345678", 8);
    w.str("", 32);
    frame(msg_type::PWD_SERVICE, &w.into_inner())
}

#[test]
fn password_requests_are_answered() {
    let mut d = Desk::start(test_gateway(18210, StrategyConfig::default()));
    d.connect_logon_sync();
    d.write(&password_request(300_100));
    let (mt, ok) = d.read();
    assert_eq!(mt, msg_type::PWD_SERVICE_RSP);
    d.write(&password_request(300_101));
    let (_, refused) = d.read();
    let at = ok.iter().zip(refused.iter()).rposition(|(a, b)| a != b).unwrap();
    assert_eq!(u32::from_be_bytes(ok[at - 3..at + 1].try_into().unwrap()), 0);
    assert_eq!(u32::from_be_bytes(refused[at - 3..at + 1].try_into().unwrap()), 4012);
}

#[test]
fn a_wrong_check_value_ends_the_connection() {
    match on_bad_checksum() {
        Step::Close(Some(f)) => {
            assert_eq!(u32::from_be_bytes(f[0..4].try_into().unwrap()), msg_type::LOGOUT);
            assert_eq!(u32::from_be_bytes(f[16..20].try_into().unwrap()), 5001);
        }
        _ => panic!("the connection goes on"),
    }
}

#[test]
fn too_many_waiting_reports_are_dropped() {
    let mut d = Desk::start(test_gateway(18211, in_mode(StrategyMode::AckOnly)));
    d.connect_and_logon();
    for i in 0..4097 {
        d.write(&new_order_frame(&format!("W{:09}", i), 100_000, 10_00000, b'1'));
    }
    assert_eq!(d.sess.pending.len(), 4096);
    assert_eq!(d.engine.snapshot().gateways[0].platforms[0].stats.orders, 4097);
}

#[test]
fn shares_of_the_logon() {
    let mut d = Desk::start(test_gateway(18212, StrategyConfig::default()));
    d.connect();
    let logon = Logon {
        sender_comp_id: "ABCDEFGHIJKL".into(),
        target_comp_id: "TDGW".into(),
        heart_bt_int: 0,
        prtcl_version: String::new(),
        trade_date: DATE,
        qsize: 32,
    };
    d.write(&logon.encode());
    let (_, body) = d.read();
    let reply = Logon::decode(&body).unwrap();
    assert_eq!(reply.heart_bt_int, 30);
    assert_eq!(reply.prtcl_version, "0.50");
    assert_eq!(d.sess.pbu, "ABCDEFGH");
    assert_eq!(d.sess.hb_secs, 30);
}

#[test]
fn messages_of_an_unknown_type_are_not_described() {
    assert!(describe_fields(999, b"xx").is_empty());
    assert!(describe_fields(34, b"").is_empty());
    assert!(describe_fields(msg_type::LOGON, b"short").is_empty());
    let fields = describe_fields(msg_type::HEARTBEAT, b"");
    assert_eq!(fields.len(), 1);
    assert_eq!(fields[0].name, "MsgType");
    assert_eq!(fields[0].value, "心跳 Heartbeat (33)");
}

#[test]
fn messages_are_numbered_from_one() {
    let mut d = Desk::start(test_gateway(18213, in_mode(StrategyMode::AckOnly)));
    d.connect();
    d.logon();
    assert_eq!(d.last_seq, 3);
    d.write(&sync_frame("OMS_TEST", 1));
    d.read();
    assert_eq!(d.last_seq, 4);
    d.connect();
    d.logon();
    assert_eq!(d.last_seq, 3);
    let mut w = Writer::new();
    assert_eq!((w.next(), w.next(), w.next()), (1, 2, 3));
}

#[test]
fn the_log_tells_of_a_session() {
    let mut d = Desk::start(test_gateway(18214, in_mode(StrategyMode::AckOnly)));
    d.connect();
    d.write(&new_order_frame("LOG0000001", 100_000, 10_00000, b'1'));
    assert_eq!(
        d.last_said(),
        (Level::Warn, "连接 127.0.0.1:50000 登录前收到业务报文 MsgType=58，忽略")
    );
    d.logon();
    assert_eq!(
        d.last_said(),
        (Level::Info, "连接 127.0.0.1:50000 登录成功 CompID=OMS_TEST 心跳=30s，等待执行回报同步")
    );
    let n = d.said.len();
    d.write(&new_order_frame("LOG0000001", 100_500, 10_00001, b'1'));
    assert_eq!(
        d.said[n].1,
        "收到委托 ClOrdID=LOG0000001 证券=600000 方向=买入 价格=10.00001 数量=100"
    );
    assert_eq!(
        d.last_said(),
        (Level::Warn, "OMS 尚未完成执行回报同步(206)，ClOrdID=LOG0000001 的委托已缓冲（共 1 笔）")
    );
    d.write(&cancel_frame("LOG0000002", "LOG0000001"));
    assert_eq!(
        d.last_said().1,
        "收到撤单 ClOrdID=LOG0000002 OrigClOrdID=LOG0000001，原单在途，已回撤单成功(32)（同步后补发）"
    );
    d.write(&sync_frame("OMS_TEST", 1));
    let k = d.said.len();
    assert_eq!(d.said[k - 2].1, "执行回报同步(206) 共 1 个分区，发送同步回应(207)");
    assert_eq!(d.said[k - 1].1, "同步完成，补发缓冲的委托 2 笔");
    d.write(&cancel_frame("LOG0000003", "LOG0000001"));
    assert_eq!(
        d.last_said().1,
        "收到撤单 ClOrdID=LOG0000003 OrigClOrdID=LOG0000001，原单不存在或不可撤，回撤单失败(59)"
    );
    d.write(&business_frame(1, "LOG0000004", 100_000, 10_00000, b'1'));
    assert_eq!(d.last_said(), (Level::Warn, "未知业务 BizID=1，回申报拒绝(204) 4012"));
    d.write(&registration(300_200, "799999", b'1'));
    assert_eq!(
        d.last_said().1,
        "收到注册处理申报(301) BizID=300200 SecurityID=799999 指令=1 类型=1，回执行回报(302) 申报成功"
    );
    d.write(&password_request(300_101));
    assert_eq!(
        d.last_said().1,
        "收到网络密码服务申报(306) ClOrdID=PWD0000001 SecurityID=799988 Side=1，回申报响应(308) 拒绝"
    );
    d.write(&frame(999, b""));
    assert_eq!(d.last_said().1, "连接 127.0.0.1:50000 收到未知会话报文 MsgType=999，忽略");
    d.write(&frame(msg_type::CANCEL_ORDER, b""));
    assert_eq!(d.last_said(), (Level::Error, "撤单(61)处理失败: 消息体长度不足"));
    d.write(&frame(msg_type::LOGOUT, b""));
    assert_eq!(d.last_said().1, "连接 127.0.0.1:50000 收到注销确认，会话状态=0");
}

#[test]
fn dropped_reports_are_told() {
    let mut d = Desk::start(test_gateway(18215, in_mode(StrategyMode::AckOnly)));
    d.connect_and_logon();
    for i in 0..4097 {
        d.write(&new_order_frame(&format!("W{:09}", i), 100_000, 10_00000, b'1'));
    }
    assert_eq!(
        d.last_said(),
        (Level::Error, "同步前回报缓冲已满（4096 条），ClOrdID=W000004096 的委托回报被丢弃")
    );
    d.ctx().strategy.mode = StrategyMode::NoAutoReply;
    d.write(&new_order_frame("LAST000001", 100_000, 10_00000, b'1'));
    assert_eq!(
        d.last_said(),
        (Level::Warn, "OMS 尚未完成执行回报同步(206)，ClOrdID=LAST000001 的委托已缓冲（共 0 笔）")
    );
}

#[test]
fn a_wrong_check_value_ends_the_session_and_is_told() {
    let mut d = Desk::start(test_gateway(18216, in_mode(StrategyMode::AckOnly)));
    d.connect_and_logon();
    let mut raw = new_order_frame("CHK0000001", 100_000, 10_00000, b'1');
    raw[20] ^= 1;
    d.write(&raw);
    assert_eq!(d.read().0, msg_type::LOGOUT);
    assert_eq!(
        d.last_said(),
        (Level::Warn, "连接 127.0.0.1:50000 校验和错误 MsgType=58，回注销后关闭")
    );
}

#[test]
fn the_log_tells_of_connections_in_shanghai() {
    assert_eq!(log::opened("p").text, "收到 p 的连接，等待 Logon");
    assert_eq!(log::broken("p", "why").text, "连接 p 读失败: why");
    assert_eq!(log::sent("x").text, "发送: x");
    assert_eq!(log::closed("p").text, "连接 p 已关闭");
}

#[test]
fn the_least_quantities_are_answered_in_shanghai() {
    let mut d = Desk::start(test_gateway(18217, in_mode(StrategyMode::AckOnly)));
    d.connect_and_logon();
    d.write(&sync_frame("OMS_TEST", 1));
    d.read();
    d.write(&new_order_frame("LOW0000001", i64::MIN, 10_00000, b'1'));
    let (mt, body) = d.read();
    assert_eq!(mt, msg_type::EXEC_RPT);
    assert_eq!(i64::from_be_bytes(body[86..94].try_into().unwrap()), i64::MIN);
    d.ctx().strategy.mode = StrategyMode::FullSplit;
    d.write(&new_order_frame("LOW0000002", i64::MIN, i64::MAX, b'2'));
    assert_eq!(d.read().0, msg_type::EXEC_RPT);
    assert_eq!(d.read().0, msg_type::TRADE);
    d.ctx().strategy.mode = StrategyMode::PartialSingle;
    d.write(&new_order_frame("LOW0000003", i64::MIN + 999, 10_00000, b'1'));
    assert!(d.silent());
    assert_eq!(
        d.last_said(),
        (Level::Error, "连接 127.0.0.1:50000 的报文超出数值范围 MsgType=58")
    );
    d.write(&new_order_frame("LOW0000004", i64::MIN + 1000, 10_00000, b'1'));
    assert_eq!(d.read().0, msg_type::EXEC_RPT);
    assert_eq!(d.read().0, msg_type::TRADE);
    assert_eq!(d.engine.snapshot().gateways[0].platforms[0].stats.orders, 3);
}

#[test]
fn a_cancel_in_shanghai_repeats_the_price_and_the_quantity() {
    let mut d = Desk::start(test_gateway(18218, in_mode(StrategyMode::AckOnly)));
    d.connect_and_logon();
    d.write(&sync_frame("OMS_TEST", 1));
    d.read();
    d.write(&new_order_frame("CXL0000001", 500_290, 1_13000, b'1'));
    d.read();
    d.write(&cancel_frame("CXL0000002", "CXL0000001"));
    let (_, body) = d.read();
    assert_eq!(i64::from_be_bytes(body[70..78].try_into().unwrap()), 1_13000);
    assert_eq!(i64::from_be_bytes(body[78..86].try_into().unwrap()), 500_290);
    assert_eq!(i64::from_be_bytes(body[94..102].try_into().unwrap()), 500_290);
}
