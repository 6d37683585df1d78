use simx::api::{describe, dispatch, Command, Outcome};
use simx::clock::LocalTime;
use simx::config::{GatewayCategory, GatewayConfig, PlatformConfig, StrategyConfig, StrategyMode};
use simx::engine::{
    accept_failed, gen_id, last_connection, listen_address, listen_failure, listening, make_id,
    refuse_connection, sent_by_hand, started, stopped, unserved, Engine,
};
use simx::manual::ManualReportKind;
use simx::note::Level;
use simx::oplog::OpLog;
use simx::orderbook::{OrderEntry, OrderStatus};
use simx::sz::session::{receive, transmit};

fn now() -> LocalTime {
    LocalTime { year: 2026, month: 8, day: 16, hour: 10, minute: 0, second: 0, nanos: 123_000_000 }
}

fn test_gateway(name: &str, port: u16) -> GatewayConfig {
    GatewayConfig {
        name: name.into(),
        platforms: vec![PlatformConfig {
            name: "现货集中竞价交易平台".into(),
            listen_host: "127.0.0.1".into(),
            port,
            strategy: StrategyConfig::default(),
            ..Default::default()
        }],
        ..Default::default()
    }
}

/// What is kept of the gateways when the program ends.
fn reloaded(e: &Engine) -> Engine {
    Engine::new(e.gateways.iter().map(|g| g.clone()).collect())
}

fn was_running(e: &Engine, id: &str) -> bool {
    e.gateways.iter().find(|g| g.id == id).map(|g| g.was_running).unwrap_or(false)
}

/// Starts what was running, with nothing in the way.
fn restart(e: &mut Engine) -> Vec<(String, String)> {
    let hs: Vec<Option<String>> = e.previously_running().iter().map(|_| None).collect();
    e.auto_start_previous(&hs)
}

#[test]
fn gateways_that_fail_to_start_are_told_in_order() {
    let mut engine = Engine::new(Vec::new());
    let mut ids = Vec::new();
    for k in 0..4 {
        let gw = engine.save_gateway(test_gateway(&format!("网关{}", k), 18410 + k)).unwrap();
        engine.start_gateway(&gw.id).unwrap();
        ids.push(gw.id);
    }
    engine.stop_gateway(&ids[1]).unwrap();
    let mut engine2 = reloaded(&engine);
    engine2.gateways[2].platforms.clear();
    assert_eq!(
        engine2.previously_running(),
        vec![ids[0].clone(), ids[2].clone(), ids[3].clone()]
    );
    let hs = vec![Some("端口被占用".to_string()), Some("不用".to_string()), None];
    let failures = engine2.auto_start_previous(&hs);
    assert_eq!(
        failures,
        vec![
            (ids[0].clone(), "端口被占用".to_string()),
            (ids[2].clone(), "网关下没有配置平台，请先添加平台".to_string()),
        ]
    );
    assert!(engine2.is_running(&ids[3]));
    assert_eq!(engine2.running.len(), 1);
    assert_eq!(engine2.previously_running().len(), 3);
}

#[test]
fn auto_start_restores_only_last_running_gateways() {
    let mut engine = Engine::new(Vec::new());
    let gw1 = engine.save_gateway(test_gateway("网关A", 18401)).unwrap();
    let gw2 = engine.save_gateway(test_gateway("网关B", 18402)).unwrap();
    engine.start_gateway(&gw1.id).unwrap();
    engine.start_gateway(&gw2.id).unwrap();
    engine.stop_gateway(&gw2.id).unwrap();
    assert!(was_running(&engine, &gw1.id), "启动的 A 应标记为上次运行中");
    assert!(!was_running(&engine, &gw2.id), "停止的 B 不应带运行标记");

    let mut engine2 = reloaded(&engine);
    let failures = restart(&mut engine2);
    assert!(failures.is_empty(), "自动启动失败: {:?}", failures);
    assert!(engine2.is_running(&gw1.id), "上次运行中的 A 应被恢复");
    assert!(!engine2.is_running(&gw2.id), "上次已停止的 B 不应被恢复");
}

#[test]
fn no_auto_start_leaves_all_gateways_stopped() {
    let mut engine = Engine::new(Vec::new());
    let gw1 = engine.save_gateway(test_gateway("网关A", 18403)).unwrap();
    engine.start_gateway(&gw1.id).unwrap();
    assert!(was_running(&engine, &gw1.id), "启动的 A 应带运行标记");

    let mut engine2 = reloaded(&engine);
    let gws = engine2.snapshot().gateways;
    assert!(gws.iter().all(|g| !g.running), "不带 --auto-start 时网关不应自动启动");
    engine2.start_gateway(&gw1.id).unwrap();
}

#[test]
fn deleted_gateway_mark_is_cleaned_with_config() {
    let mut engine = Engine::new(Vec::new());
    let gw1 = engine.save_gateway(test_gateway("网关A", 18404)).unwrap();
    engine.start_gateway(&gw1.id).unwrap();
    assert!(was_running(&engine, &gw1.id));
    engine.stop_gateway(&gw1.id).unwrap();
    assert!(!was_running(&engine, &gw1.id), "停止后运行标记应清除");

    let mut engine2 = reloaded(&engine);
    engine2.delete_gateway(&gw1.id).unwrap();
    assert!(!was_running(&engine2, &gw1.id), "删除后网关不应残留任何标记");
    let failures = restart(&mut engine2);
    assert!(failures.is_empty(), "已删除网关不应出现在失败列表");
    assert!(engine2.snapshot().gateways.is_empty());
}

#[test]
fn missing_or_corrupt_config_means_nothing_to_start() {
    let mut engine = Engine::new(Vec::new());
    let gw1 = engine.save_gateway(test_gateway("网关A", 18405)).unwrap();
    engine.start_gateway(&gw1.id).unwrap();
    assert!(was_running(&engine, &gw1.id));

    let mut engine2 = Engine::new(Vec::new());
    let failures = restart(&mut engine2);
    assert!(failures.is_empty());
    assert!(!engine2.is_running(&gw1.id));
    let gw = engine2.save_gateway(test_gateway("网关A", 18405)).unwrap();
    engine2.start_gateway(&gw.id).unwrap();
    assert!(was_running(&engine2, &gw.id), "重新启动后应重新落盘运行标记");
}

#[test]
fn op_log_writes_dated_file() {
    let mut oplog = OpLog::new();
    assert_eq!(oplog.turn(&now()).as_deref(), Some("20260816"));
    let first = OpLog::line(&now(), "192.168.0.1", "新建网关 测试网关（1 个平台）");
    assert_eq!(oplog.turn(&now()), None);
    let second = OpLog::line(&now(), "192.168.0.1", "启动网关 测试网关");
    let content = first + &second;
    let lines: Vec<&str> = content.lines().collect();
    assert_eq!(lines.len(), 2, "两条操作应各占一行");
    assert!(lines[0].contains("192.168.0.1"), "行内应含前端 IP");
    assert!(lines[0].contains("新建网关 测试网关"), "行内应含操作描述");
    assert!(lines[1].contains("启动网关 测试网关"));
    assert_eq!(lines[1], "2026-08-16 10:00:00.123  192.168.0.1  启动网关 测试网关");
    let tomorrow = LocalTime { day: 17, ..now() };
    assert_eq!(oplog.turn(&tomorrow).as_deref(), Some("20260817"));
}

#[test]
fn test_oplog_records_dispatch_ops() {
    let mut engine = Engine::new(Vec::new());
    let gw = GatewayConfig { name: "日志测试网关".into(), ..Default::default() };
    let cmd = Command::SaveGateway { gateway: gw };
    let said = describe(&engine, &cmd).unwrap();
    assert_eq!(said, "新建网关 日志测试网关（0 个平台）");
    let line = OpLog::line(&now(), "192.168.0.1", &said);
    assert!(line.contains("192.168.0.1"), "日志应含前端 IP");
    assert!(line.contains("新建网关 日志测试网关"), "日志应含操作描述：{}", line);
    let id = match dispatch(&mut engine, cmd, &vec![], &now()) {
        Outcome::Saved(gw) => gw.id,
        _ => panic!("保存网关应成功"),
    };

    let cmd = Command::DeleteGateway { id };
    let said = describe(&engine, &cmd).unwrap();
    assert_eq!(said, "删除网关 日志测试网关");
    assert!(matches!(dispatch(&mut engine, cmd, &vec![], &now()), Outcome::Deleted));
    assert!(engine.gateways.is_empty());
}

#[test]
fn saving_fills_in_what_is_missing() {
    let mut engine = Engine::new(Vec::new());
    let mut gw = test_gateway("网关A", 18406);
    gw.platforms[0].show_packets = false;
    gw.platforms[0].persist_packets = true;
    let saved = engine.save_gateway(gw).unwrap();
    assert_eq!(saved.id.len(), 16);
    assert_eq!(saved.platforms[0].id.len(), 16);
    assert!(!saved.platforms[0].persist_packets);
    assert_eq!(engine.gateways[0].id, saved.id);

    engine.start_gateway(&saved.id).unwrap();
    engine.stop_gateway(&saved.id).unwrap();
    engine.start_gateway(&saved.id).unwrap();
    assert_eq!(
        engine.save_gateway(saved.clone()).unwrap_err(),
        "网关正在运行，请先停止后再修改"
    );
    let mut again = reloaded(&engine);
    let mut changed = saved.clone();
    changed.name = "改名".into();
    changed.was_running = false;
    let kept = again.save_gateway(changed).unwrap();
    assert!(kept.was_running);
    assert_eq!(again.gateways.len(), 1);
    assert_eq!(again.gateway_name(&saved.id).as_deref(), Some("改名"));
}

#[test]
fn gateways_are_refused_for_a_reason() {
    let mut engine = Engine::new(Vec::new());
    assert_eq!(
        engine.save_gateway(test_gateway("  ", 18407)).unwrap_err(),
        "网关名称不能为空"
    );
    let mut twice = test_gateway("网关A", 18407);
    twice.platforms.push(twice.platforms[0].clone());
    assert_eq!(engine.save_gateway(twice).unwrap_err(), "同一网关下平台监听端口不能重复");
    assert_eq!(engine.start_gateway("x").unwrap_err(), "网关不存在");
    assert_eq!(engine.stop_gateway("x").unwrap_err(), "网关未在运行");
    assert_eq!(engine.reset_stats("x").unwrap_err(), "网关未在运行");
    let empty = engine
        .save_gateway(GatewayConfig { name: "空".into(), ..Default::default() })
        .unwrap();
    assert_eq!(engine.start_gateway(&empty.id).unwrap_err(), "网关下没有配置平台，请先添加平台");
    let gw = engine.save_gateway(test_gateway("网关A", 18407)).unwrap();
    engine.start_gateway(&gw.id).unwrap();
    assert_eq!(engine.start_gateway(&gw.id).unwrap_err(), "网关已在运行");
    assert_eq!(engine.delete_gateway(&gw.id).unwrap_err(), "网关正在运行，请先停止后再删除");
    assert_eq!(engine.orders(&gw.id, "x").unwrap_err(), "平台不存在");
    let p = &gw.platforms[0];
    assert_eq!(listen_address(p), "127.0.0.1:18407");
    assert_eq!(
        listen_failure(p, "in use"),
        "平台 [现货集中竞价交易平台] 监听 127.0.0.1:18407 失败: in use"
    );
}

#[test]
fn a_strategy_is_replaced_everywhere() {
    let mut engine = Engine::new(Vec::new());
    let gw = engine.save_gateway(test_gateway("网关A", 18408)).unwrap();
    let p = gw.platforms[0].id.clone();
    let st = StrategyConfig { mode: StrategyMode::Reject, ..Default::default() };
    assert_eq!(
        engine.update_strategy(&gw.id, &p, st.clone()).unwrap(),
        "平台 [现货集中竞价交易平台] 的模拟回报策略已热更新（运行中实时生效）"
    );
    engine.start_gateway(&gw.id).unwrap();
    assert_eq!(engine.running[0].platforms[0].ctx.strategy.mode, StrategyMode::Reject);
    let st = StrategyConfig { mode: StrategyMode::AckOnly, ..Default::default() };
    engine.update_strategy(&gw.id, &p, st.clone()).unwrap();
    assert_eq!(engine.running[0].platforms[0].ctx.strategy.mode, StrategyMode::AckOnly);
    assert_eq!(engine.gateways[0].platforms[0].strategy.mode, StrategyMode::AckOnly);
    assert_eq!(engine.update_strategy(&gw.id, "x", st.clone()).unwrap_err(), "平台不存在");
    assert_eq!(engine.update_strategy("x", &p, st).unwrap_err(), "网关不存在");
}

#[test]
fn ids_are_made_of_time_and_number() {
    assert_eq!(make_id(&now(), 0x1a2b), "2608161000001a2b");
    let id = gen_id();
    assert_eq!(id.len(), 16);
    assert!(id[..12].chars().all(|c| c.is_ascii_digit()));
    assert!(id[12..].chars().all(|c| c.is_ascii_hexdigit()));
}

fn entry(cl: &str, status: OrderStatus) -> OrderEntry {
    OrderEntry {
        cl_ord_id: cl.into(),
        order_id: "0000000000000001".into(),
        security_id: "000001".into(),
        side: "买".into(),
        price: 10_0000,
        qty: 1000_00,
        cum_qty: 0,
        leaves_qty: 1000_00,
        status,
        ord_type: b'2',
        account: "0123456789".into(),
        branch: "0001".into(),
        ts: "09:30:00".into(),
        conn_id: 1,
        pbu: "100001".into(),
        biz_id: 0,
        biz_pbu: String::new(),
        owner_type: 1,
        credit_tag: String::new(),
        clearing_firm: "01".into(),
        user_info: String::new(),
        biz: "010".into(),
    }
}

/// An engine whose platform keeps the given orders.
fn with_orders(category: GatewayCategory, orders: Vec<OrderEntry>) -> (Engine, String, String) {
    let mut engine = Engine::new(Vec::new());
    let mut gw = test_gateway("网关A", 18409);
    gw.category = category;
    let gw = engine.save_gateway(gw).unwrap();
    engine.start_gateway(&gw.id).unwrap();
    let book = engine.running[0].platforms[0].ctx.orders.as_mut().unwrap();
    for o in orders {
        book.add(o);
    }
    (engine, gw.id, gw.platforms[0].id.clone())
}

#[test]
fn a_report_sent_by_hand_goes_out_on_the_last_connection() {
    let (mut e, g, p) = with_orders(GatewayCategory::Sz, vec![entry("H1", OrderStatus::New)]);
    assert_eq!(e.units(&g, &p), Some((10_000, 100)));
    assert!(e.can_report(&g, &p));
    let out = e
        .send_report(
            &g,
            &p,
            "H1",
            ManualReportKind::Trade,
            Some(300),
            None,
            None,
            false,
            &vec![3, 9, 5],
            &now(),
        )
        .unwrap();
    assert_eq!(out.conn_id, 9);
    assert_eq!(out.report.desc, "手动成交回报(200115) ClOrdID=H1 价格=10.0000 数量=300 剩余=700");
    e.report_sent(&g, &p, "H1", ManualReportKind::Trade, &out.report.update);
    let list = e.orders(&g, &p).unwrap();
    assert_eq!(list[0].cum_qty, 300_00);
    assert_eq!(list[0].leaves_qty, 700_00);
    assert_eq!(list[0].status, OrderStatus::Partial);
    assert_eq!(e.snapshot().gateways[0].platforms[0].stats.trades, 1);
}

#[test]
fn reports_sent_by_hand_are_refused_for_a_reason() {
    let (mut e, g, p) = with_orders(
        GatewayCategory::Sz,
        vec![entry("H1", OrderStatus::New), entry("H2", OrderStatus::Filled)],
    );
    let kind = ManualReportKind::Trade;
    let mut send = |cl: &str, qty: Option<i64>, conns: Vec<u64>| {
        e.send_report(&g, &p, cl, kind, qty, None, None, false, &conns, &now())
            .map(|o| o.conn_id)
            .unwrap_err()
    };
    assert_eq!(send("H3", None, vec![1]), "订单不存在");
    assert_eq!(send("H2", None, vec![1]), "订单 [H2] 已是终态，不能再手动回复");
    assert_eq!(send("H1", Some(0), vec![1]), "成交数量必须大于 0");
    assert_eq!(send("H1", None, vec![]), "当前无活动连接，无法发送回报");
    assert_eq!(last_connection(&vec![]), None);
}

#[test]
fn bond_platforms_take_no_reports_by_hand() {
    let (mut e, g, p) = with_orders(GatewayCategory::Shbond, vec![entry("H1", OrderStatus::New)]);
    assert!(!e.can_report(&g, &p));
    let cmd = Command::SendReport {
        gateway_id: g,
        platform_id: p,
        cl_ord_id: "H1".into(),
        kind: ManualReportKind::Ack,
        qty: None,
        price: None,
        reason: None,
        front_reject: false,
    };
    assert_eq!(
        describe(&e, &cmd).unwrap(),
        "手动回复订单 H1（确认）：网关 网关A 平台 现货集中竞价交易平台"
    );
    match dispatch(&mut e, cmd, &vec![1], &now()) {
        Outcome::Refused(why) => assert_eq!(why, "该订单不能手动回复"),
        _ => panic!("the report goes out"),
    }
}

#[test]
fn the_log_tells_of_gateways() {
    let gw = test_gateway("网关A", 18420);
    let p = &gw.platforms[0];
    let line = listening("网关A", p).text;
    assert_eq!(line, format!("[网关A/{}] 开始监听 {}:18420", p.name, p.listen_host));
    assert_eq!(started("网关A").text, "网关 [网关A] 已启动");
    assert_eq!(stopped().text, "网关已停止");
    assert_eq!(accept_failed("why").text, "accept 失败: why");
    assert_eq!(accept_failed("why").level, Level::Error);
    assert!(unserved(GatewayCategory::Sz).is_none());
    assert!(unserved(GatewayCategory::Shjj).is_none());
    let note = unserved(GatewayCategory::Shbond).unwrap();
    assert_eq!((note.level, note.text.as_str()), (Level::Warn, "该网关分类没有会话处理器，拒绝接入"));
    assert_eq!(sent_by_hand("平台", "x").text, "[平台] x");
}

#[test]
fn messages_of_all_connections_come_in_order() {
    let (mut e, g, p) = with_orders(GatewayCategory::Sz, vec![]);
    let ctx = &mut e.running[0].platforms[0].ctx;
    for conn in [7u64, 4] {
        ctx.start_capture(conn, "10.0.0.1:1", "10.0.0.1", 1, &now());
    }
    for conn in [7u64, 4, 7, 4, 4] {
        receive(ctx, conn, 3, &[], &[0, 0, 0, 3], &now());
    }
    let mut beat = simx::sz::protocol::encode_heartbeat();
    transmit(ctx, 7, &mut beat, &now());
    let page = e.platform_packets(&g, &p, 1).unwrap();
    let seqs: Vec<u64> = page.packets.iter().map(|r| r.seq).collect();
    assert_eq!(seqs, vec![2, 3, 4, 5, 6]);
    assert_eq!(page.latest_seq, 6);
    let ids: Vec<u64> = page.conns.iter().map(|c| c.conn_id).collect();
    assert_eq!(ids, vec![4, 7]);
    let own = e.conn_packets(&g, &p, 4, 0).unwrap();
    let seqs: Vec<u64> = own.packets.iter().map(|r| r.seq).collect();
    assert_eq!(seqs, vec![2, 4, 5]);
    assert_eq!(own.conns.len(), 1);
    assert_eq!(e.conn_packets(&g, &p, 99, 0).unwrap_err(), "连接不存在或未开启报文捕获");
}

#[test]
fn a_platform_serves_one_connection() {
    let (mut e, _, _) = with_orders(GatewayCategory::Sz, vec![]);
    let ctx = &mut e.running[0].platforms[0].ctx;
    assert_eq!(refuse_connection(ctx, "10.0.0.2:2"), None);
    ctx.connected(1, "10.0.0.1:1", &now());
    assert_eq!(
        refuse_connection(ctx, "10.0.0.2:2").unwrap(),
        "已有柜台连接（10.0.0.1:1），拒绝新连接 10.0.0.2:2 接入"
    );
    ctx.disconnected(1);
    assert_eq!(refuse_connection(ctx, "10.0.0.2:2"), None);
}

#[test]
fn counters_start_over_but_numbers_do_not() {
    let (mut e, g, p) = with_orders(GatewayCategory::Sz, vec![entry("H1", OrderStatus::New)]);
    let out = e
        .send_report(
            &g,
            &p,
            "H1",
            ManualReportKind::Ack,
            None,
            None,
            None,
            false,
            &vec![1],
            &now(),
        )
        .unwrap();
    e.report_sent(&g, &p, "H1", ManualReportKind::Ack, &out.report.update);
    assert_eq!(e.snapshot().gateways[0].platforms[0].stats.acks, 1);
    let used = e.running[0].platforms[0].ctx.stats.exec_seq;
    e.reset_stats(&g).unwrap();
    assert_eq!(e.snapshot().gateways[0].platforms[0].stats.acks, 0);
    assert_eq!(e.running[0].platforms[0].ctx.stats.exec_seq, used);
}

#[test]
fn commands_are_told_in_the_log() {
    let (e, g, p) = with_orders(GatewayCategory::Sz, vec![]);
    let said = |cmd: Command| describe(&e, &cmd);
    assert_eq!(said(Command::GetSnapshot), None);
    assert_eq!(said(Command::StartGateway { id: g.clone() }).unwrap(), "启动网关 网关A");
    assert_eq!(said(Command::StopGateway { id: "x".into() }).unwrap(), "停止网关 x");
    assert_eq!(said(Command::ResetStats { id: g.clone() }).unwrap(), "重置网关 网关A 统计");
    assert_eq!(
        said(Command::UpdateStrategy {
            gateway_id: g.clone(),
            platform_id: p,
            strategy: StrategyConfig::default(),
        })
        .unwrap(),
        "热更新网关 网关A 平台 现货集中竞价交易平台 的模拟回报策略"
    );
    assert_eq!(
        said(Command::GetOrders { gateway_id: g.clone(), platform_id: "x".into() }),
        None
    );
}
