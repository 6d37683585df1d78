use simx::config::{CustomFill, DelayConfig, PlatformConfig, StrategyConfig, StrategyMode};
use simx::fills::{partial_shares, split_shares};
use simx::report::ReportKind;
use simx::stats::PlatformStats;
use simx::sz::protocol::{msg_type, ord_status, ExecRptTrade, NewOrder, OrderCommon};
use simx::sz::strategy::{
    biz_info, biz_info_by_appl_id, check_fits, draw_fills, plan_reports, platform_of_appl_id,
    with_ladder_prices, QTY_UNIT,
};

/// Yuan in the units of the interface.
fn px_raw(yuan: f64) -> i64 {
    (yuan * 10_000.0).round() as i64
}

/// An order of a business, in shares and yuan.
fn mk_order(mt: u32, qty_shares: i64, price: f64, side: u8) -> NewOrder {
    let biz = biz_info(mt);
    NewOrder {
        msg_type: mt,
        common: OrderCommon {
            appl_id: biz.appl_id.into(),
            submitting_pbu_id: "100001".into(),
            security_id: "000001".into(),
            security_id_source: "102".into(),
            cl_ord_id: "CL001".into(),
            side,
            ord_type: b'2',
            order_qty: qty_shares * QTY_UNIT,
            price: px_raw(price),
            ..Default::default()
        },
        extend: Default::default(),
    }
}

/// A platform with splits in three and a price step of 0.01 yuan.
fn mk_cfg(mode: StrategyMode) -> PlatformConfig {
    PlatformConfig {
        strategy: StrategyConfig {
            mode,
            split_count_min: 3,
            split_count_max: 3,
            price_tick: 1000,
            custom_fills: vec![
                CustomFill { qty: 300_000, price: 1_001_000 },
                CustomFill { qty: 200_000, price: 1_002_000 },
            ],
            ack_delay: DelayConfig::default(),
            trade_delay: DelayConfig::default(),
            ..Default::default()
        },
        ..Default::default()
    }
}

#[test]
fn test_full_single() {
    let mut stats = PlatformStats::default();
    let order = mk_order(msg_type::NEW_ORDER_CASH, 1000, 10.0, b'1');
    let cfg = mk_cfg(StrategyMode::FullSingle);
    let plans = plan_reports(&cfg.strategy, cfg.partition_no, &order, &mut stats);
    assert_eq!(plans.len(), 2);
    assert_eq!(plans[0].kind, ReportKind::Ack);
    assert_eq!(plans[1].kind, ReportKind::Trade);
}

#[test]
fn test_ack_and_trade_msg_type_follow_business() {
    let mut stats = PlatformStats::default();
    let order = mk_order(msg_type::NEW_ORDER_BOND_REPO, 1000, 10.0, b'1');
    let cfg = mk_cfg(StrategyMode::FullSingle);
    let plans = plan_reports(&cfg.strategy, cfg.partition_no, &order, &mut stats);
    assert_eq!(plans.len(), 2);
    assert_eq!(u32::from_be_bytes(plans[0].frame[0..4].try_into().unwrap()), 200_202);
    assert_eq!(u32::from_be_bytes(plans[1].frame[0..4].try_into().unwrap()), 200_215);
}

#[test]
fn test_non_cash_business_downgrades_partial_to_full() {
    let mut stats = PlatformStats::default();
    let order = mk_order(msg_type::NEW_ORDER_BOND_REPO, 1000, 10.0, b'1');
    let cfg = mk_cfg(StrategyMode::PartialSingle);
    let plans = plan_reports(&cfg.strategy, cfg.partition_no, &order, &mut stats);
    assert_eq!(plans.len(), 2);
    let trade = ExecRptTrade::decode(
        msg_type::EXEC_RPT_BOND_REPO_TRADE,
        &plans[1].frame[8..plans[1].frame.len() - 4],
    )
    .unwrap();
    assert_eq!(trade.last_qty, 1000 * QTY_UNIT);
    assert_eq!(trade.ord_status, ord_status::FILLED);
}

#[test]
fn test_business_without_trade_ack_only() {
    let mut stats = PlatformStats::default();
    let order = mk_order(msg_type::NEW_ORDER_ETF_SUB_RED, 1000, 10.0, b'1');
    let cfg = mk_cfg(StrategyMode::FullSingle);
    let plans = plan_reports(&cfg.strategy, cfg.partition_no, &order, &mut stats);
    assert_eq!(plans.len(), 1);
    assert_eq!(plans[0].kind, ReportKind::Ack);
    assert_eq!(u32::from_be_bytes(plans[0].frame[0..4].try_into().unwrap()), 201_202);
}

#[test]
fn test_cash_business_still_allows_partial() {
    let mut stats = PlatformStats::default();
    let order = mk_order(msg_type::NEW_ORDER_CASH, 1000, 10.0, b'1');
    let cfg = mk_cfg(StrategyMode::PartialSingle);
    let plans = plan_reports(&cfg.strategy, cfg.partition_no, &order, &mut stats);
    assert_eq!(plans.len(), 2);
    let trade = ExecRptTrade::decode(
        msg_type::EXEC_RPT_CASH_TRADE,
        &plans[1].frame[8..plans[1].frame.len() - 4],
    )
    .unwrap();
    assert!(trade.last_qty < 1000 * QTY_UNIT);
    assert_eq!(trade.ord_status, ord_status::PARTIALLY_FILLED);
}

#[test]
fn test_hk_ack_uses_hk_msg_type() {
    let mut stats = PlatformStats::default();
    let order = mk_order(msg_type::NEW_ORDER_HK_CONNECT, 1000, 10.0, b'1');
    let cfg = mk_cfg(StrategyMode::AckOnly);
    let plans = plan_reports(&cfg.strategy, cfg.partition_no, &order, &mut stats);
    assert_eq!(plans.len(), 1);
    assert_eq!(u32::from_be_bytes(plans[0].frame[0..4].try_into().unwrap()), 206_302);
}

#[test]
fn test_full_split_sums_to_total() {
    for _ in 0..50 {
        let qtys = split_shares(1000, 3);
        assert_eq!(qtys.len(), 3);
        assert_eq!(qtys.iter().sum::<i64>(), 1000);
        assert!(qtys.iter().all(|&q| q >= 100));
    }
}

#[test]
fn test_partial_less_than_total() {
    for _ in 0..50 {
        let p = partial_shares(1000);
        assert!(p >= 100 && p < 1000);
    }
}

#[test]
fn test_ladder_prices_buy_ascend_to_limit() {
    let st = mk_cfg(StrategyMode::FullSplit).strategy;
    let order = mk_order(msg_type::NEW_ORDER_CASH, 300, 10.0, b'1');
    let fills = with_ladder_prices(&st, &order, &[100, 100, 100]);
    assert_eq!(fills[0].1, px_raw(9.98));
    assert_eq!(fills[1].1, px_raw(9.99));
    assert_eq!(fills[2].1, px_raw(10.0));
}

#[test]
fn test_ladder_prices_sell_descend_to_limit() {
    let st = mk_cfg(StrategyMode::FullSplit).strategy;
    let order = mk_order(msg_type::NEW_ORDER_CASH, 300, 10.0, b'2');
    let fills = with_ladder_prices(&st, &order, &[100, 100, 100]);
    assert_eq!(fills[0].1, px_raw(10.02));
    assert_eq!(fills[2].1, px_raw(10.0));
}

#[test]
fn test_reject_only_one_report() {
    let mut stats = PlatformStats::default();
    let order = mk_order(msg_type::NEW_ORDER_CASH, 1000, 10.0, b'1');
    let cfg = mk_cfg(StrategyMode::Reject);
    let plans = plan_reports(&cfg.strategy, cfg.partition_no, &order, &mut stats);
    assert_eq!(plans.len(), 1);
    assert_eq!(plans[0].kind, ReportKind::Reject);
}

#[test]
fn test_ack_only() {
    let mut stats = PlatformStats::default();
    let order = mk_order(msg_type::NEW_ORDER_CASH, 1000, 10.0, b'1');
    let cfg = mk_cfg(StrategyMode::AckOnly);
    let plans = plan_reports(&cfg.strategy, cfg.partition_no, &order, &mut stats);
    assert_eq!(plans.len(), 1);
    assert_eq!(plans[0].kind, ReportKind::Ack);
}

#[test]
fn test_custom_fills() {
    let mut stats = PlatformStats::default();
    let order = mk_order(msg_type::NEW_ORDER_CASH, 1000, 10.0, b'1');
    let cfg = mk_cfg(StrategyMode::Custom);
    let plans = plan_reports(&cfg.strategy, cfg.partition_no, &order, &mut stats);
    assert_eq!(plans.len(), 3);
}

#[test]
fn test_custom_fills_clamped_to_order_qty() {
    let mut stats = PlatformStats::default();
    let order = mk_order(msg_type::NEW_ORDER_CASH, 400, 10.0, b'1');
    let cfg = mk_cfg(StrategyMode::Custom);
    let plans = plan_reports(&cfg.strategy, cfg.partition_no, &order, &mut stats);
    assert_eq!(plans.len(), 3);
    let t1 = ExecRptTrade::decode(
        msg_type::EXEC_RPT_CASH_TRADE,
        &plans[1].frame[8..plans[1].frame.len() - 4],
    )
    .unwrap();
    assert_eq!(t1.last_qty, 300 * QTY_UNIT);
    let t2 = ExecRptTrade::decode(
        msg_type::EXEC_RPT_CASH_TRADE,
        &plans[2].frame[8..plans[2].frame.len() - 4],
    )
    .unwrap();
    assert_eq!(t2.last_qty, 100 * QTY_UNIT);
    assert_eq!(t2.cum_qty, 400 * QTY_UNIT);
    assert_eq!(t2.ord_status, ord_status::FILLED);
}

#[test]
fn test_custom_fills_downgraded_outside_cash() {
    let mut stats = PlatformStats::default();
    let order = mk_order(msg_type::NEW_ORDER_BOND_REPO, 1000, 10.0, b'1');
    let cfg = mk_cfg(StrategyMode::Custom);
    let plans = plan_reports(&cfg.strategy, cfg.partition_no, &order, &mut stats);
    assert_eq!(plans.len(), 2);
    let trade = ExecRptTrade::decode(
        msg_type::EXEC_RPT_BOND_REPO_TRADE,
        &plans[1].frame[8..plans[1].frame.len() - 4],
    )
    .unwrap();
    assert_eq!(trade.last_qty, 1000 * QTY_UNIT);
}

#[test]
fn test_biz_info_mapping_covers_all_order_types() {
    let b = biz_info(msg_type::NEW_ORDER_OPTION_AUCTION);
    assert_eq!(b.ack_msg_type, 200_402);
    assert_eq!(b.trade_msg_type, Some(200_415));
    assert!(!b.allow_partial);
    let b = biz_info(msg_type::NEW_ORDER_DISPOSAL);
    assert_eq!(b.ack_msg_type, 202_702);
    assert_eq!(b.trade_msg_type, None);
    let b = biz_info(msg_type::NEW_ORDER_BOND_BID);
    assert_eq!(b.ack_msg_type, 204_129);
    assert_eq!(b.trade_msg_type, Some(204_130));
    let b = biz_info(msg_type::NEW_ORDER_CASH);
    assert!(b.allow_partial);
    let b = biz_info(msg_type::NEW_ORDER_3P_REPO);
    assert_eq!(b.appl_id, "330");
    assert_eq!(b.ack_msg_type, 203_302);
    assert_eq!(b.trade_msg_type, None);
    assert!(!b.allow_partial);
}

#[test]
fn test_biz_info_by_appl_id_mapping() {
    let b = biz_info_by_appl_id("010").unwrap();
    assert_eq!(b.ack_msg_type, 200_102);
    assert!(b.allow_partial);
    assert_eq!(
        biz_info_by_appl_id("051").unwrap().ack_msg_type,
        biz_info_by_appl_id("052").unwrap().ack_msg_type
    );
    assert_eq!(
        biz_info_by_appl_id("330").unwrap().ack_msg_type,
        biz_info_by_appl_id("331").unwrap().ack_msg_type
    );
    assert_eq!(
        biz_info_by_appl_id("130").unwrap().ack_msg_type,
        biz_info_by_appl_id("132").unwrap().ack_msg_type
    );
    assert!(biz_info_by_appl_id("999").is_none());
    assert!(biz_info_by_appl_id("").is_none());
}

#[test]
fn businesses_have_platforms() {
    assert_eq!(platform_of_appl_id("010"), Some(1));
    assert_eq!(platform_of_appl_id("020"), Some(6));
    assert_eq!(platform_of_appl_id("040"), Some(4));
    assert_eq!(platform_of_appl_id("630"), Some(5));
    assert_eq!(platform_of_appl_id("630  "), Some(5));
    assert_eq!(platform_of_appl_id(""), None);
    for mt in [msg_type::NEW_ORDER_CASH, msg_type::NEW_ORDER_3P_REPO, msg_type::NEW_ORDER_ISSUE] {
        let b = biz_info(mt);
        let same = biz_info_by_appl_id(b.appl_id).unwrap();
        assert_eq!((same.name, same.ack_msg_type), (b.name, b.ack_msg_type));
        assert!(platform_of_appl_id(b.appl_id).is_some());
    }
}

#[test]
fn businesses_without_executions_have_no_range() {
    let mut stats = PlatformStats::default();
    let mut order = mk_order(msg_type::NEW_ORDER_DISPOSAL, 300, 10.0, b'2');
    order.common.price = i64::MAX;
    let cfg = mk_cfg(StrategyMode::FullSplit);
    assert!(check_fits(&cfg.strategy, &order));
    assert_eq!(draw_fills(&cfg.strategy, &order), Some(Vec::new()));
    assert_eq!(plan_reports(&cfg.strategy, 1, &order, &mut stats).len(), 1);
    let mut order = mk_order(msg_type::NEW_ORDER_CASH, 300, 10.0, b'2');
    order.common.price = i64::MAX;
    assert!(!check_fits(&cfg.strategy, &order));
    assert_eq!(draw_fills(&cfg.strategy, &order), None);
}
