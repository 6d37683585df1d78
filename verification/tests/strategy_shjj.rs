use simx::config::{DelayConfig, PlatformConfig, StrategyConfig, StrategyMode};
use simx::fills::{partial_shares, split_shares};
use simx::report::ReportKind;
use simx::shjj::protocol;
use simx::shjj::protocol::{
    NewOrder, BIZ_ID_CASH_AUCTION, SET_ID_DESIGNATION, SET_ID_OTHER_BIZ,
};
use simx::shjj::strategy::{
    amount_raw, biz_info, gen_fills, plan_reports, qty_raw, with_ladder_prices, QTY_UNIT,
};
use simx::stats::PlatformStats;
use simx::wire::BodyReader;

/// Yuan in the units of the interface.
fn px_raw(yuan: f64) -> i64 {
    (yuan * 100_000.0).round() as i64
}

/// An order, in shares and yuan.
fn mk_order(qty_shares: i64, price: f64, side: u8) -> NewOrder {
    NewOrder {
        biz_id: BIZ_ID_CASH_AUCTION,
        biz_pbu: "PBU00001".into(),
        cl_ord_id: "A000000001".into(),
        security_id: "600000".into(),
        account: "B880000001".into(),
        side,
        ord_type: b'2',
        order_qty: qty_shares * QTY_UNIT,
        price: px_raw(price),
        ..Default::default()
    }
}

/// A platform with splits in three and a price step of 0.01 yuan.
fn mk_cfg(mode: StrategyMode) -> PlatformConfig {
    PlatformConfig {
        strategy: StrategyConfig {
            mode,
            split_count_min: 3,
            split_count_max: 3,
            price_tick: 1000,
            ack_delay: DelayConfig::default(),
            trade_delay: DelayConfig::default(),
            ..Default::default()
        },
        ..Default::default()
    }
}

#[test]
fn strategy_test_full_single() {
    let mut stats = PlatformStats::default();
    let order = mk_order(1000, 10.0, b'1');
    let cfg = mk_cfg(StrategyMode::FullSingle);
    let plans = plan_reports(&cfg.strategy, cfg.partition_no, &order, &mut stats, "PBU1");
    assert_eq!(plans.len(), 2);
    assert_eq!(plans[0].kind, ReportKind::Ack);
    assert_eq!(plans[1].kind, ReportKind::Trade);
}

#[test]
fn strategy_test_full_split_sums_to_total() {
    for _ in 0..50 {
        let qtys = split_shares(1000, 3);
        assert_eq!(qtys.len(), 3);
        assert_eq!(qtys.iter().sum::<i64>(), 1000);
        assert!(qtys.iter().all(|&q| q >= 100));
    }
}

#[test]
fn strategy_test_partial_less_than_total() {
    for _ in 0..50 {
        let p = partial_shares(1000);
        assert!(p >= 100 && p < 1000);
    }
}

#[test]
fn strategy_test_ladder_prices_buy_ascend_to_limit() {
    let st = mk_cfg(StrategyMode::FullSplit).strategy;
    let order = mk_order(300, 10.0, b'1');
    let fills = with_ladder_prices(&st, &order, &[100, 100, 100]);
    assert_eq!(fills[0].1, px_raw(9.98));
    assert_eq!(fills[1].1, px_raw(9.99));
    assert_eq!(fills[2].1, px_raw(10.0));
}

#[test]
fn strategy_test_ladder_prices_sell_descend_to_limit() {
    let st = mk_cfg(StrategyMode::FullSplit).strategy;
    let order = mk_order(300, 10.0, b'2');
    let fills = with_ladder_prices(&st, &order, &[100, 100, 100]);
    assert_eq!(fills[0].1, px_raw(10.02));
    assert_eq!(fills[2].1, px_raw(10.0));
}

#[test]
fn strategy_test_reject_only_one_report() {
    let mut stats = PlatformStats::default();
    let order = mk_order(1000, 10.0, b'1');
    let cfg = mk_cfg(StrategyMode::Reject);
    let plans = plan_reports(&cfg.strategy, cfg.partition_no, &order, &mut stats, "PBU1");
    assert_eq!(plans.len(), 1);
    assert_eq!(plans[0].kind, ReportKind::Reject);
}

#[test]
fn strategy_test_ack_only() {
    let mut stats = PlatformStats::default();
    let order = mk_order(1000, 10.0, b'1');
    let cfg = mk_cfg(StrategyMode::AckOnly);
    let plans = plan_reports(&cfg.strategy, cfg.partition_no, &order, &mut stats, "PBU1");
    assert_eq!(plans.len(), 1);
    assert_eq!(plans[0].kind, ReportKind::Ack);
}

#[test]
fn test_amount_raw() {
    assert_eq!(amount_raw(px_raw(10.0), qty_raw(100)), 100_000_000);
}

#[test]
fn test_other_biz_set_id_fixed() {
    let mut stats = PlatformStats::default();
    let mut order = mk_order(1000, 10.0, b'1');
    order.biz_id = protocol::BIZ_ID_TENDER_ACCEPT;
    let cfg = mk_cfg(StrategyMode::FullSingle);
    let plans = plan_reports(&cfg.strategy, 3, &order, &mut stats, "PBU1");
    assert_eq!(plans.len(), 1);
    assert_eq!(plans[0].kind, ReportKind::Ack);
    let body = &plans[0].frame[16..plans[0].frame.len() - 4];
    let mut r = BodyReader::new(body);
    r.str(8).unwrap();
    assert_eq!(r.u32().unwrap(), SET_ID_OTHER_BIZ);
    let order2 = mk_order(1000, 10.0, b'1');
    let plans2 = plan_reports(&cfg.strategy, 5, &order2, &mut stats, "PBU1");
    let body2 = &plans2[0].frame[16..plans2[0].frame.len() - 4];
    let mut r2 = BodyReader::new(body2);
    r2.str(8).unwrap();
    assert_eq!(r2.u32().unwrap(), 5);
}

#[test]
fn test_gen_fills_degrade_for_other_biz() {
    let st = mk_cfg(StrategyMode::PartialSingle).strategy;
    let mut order = mk_order(1000, 10.0, b'1');
    order.biz_id = protocol::BIZ_ID_RIGHTS;
    let fills = gen_fills(&st, &order, &biz_info(order.biz_id));
    assert_eq!(fills.len(), 1);
    assert_eq!(fills[0].0, order.order_qty);
    let order2 = mk_order(1000, 10.0, b'1');
    let fills2 = gen_fills(&st, &order2, &biz_info(order2.biz_id));
    assert_eq!(fills2.len(), 1);
    assert!(fills2[0].0 < order2.order_qty);
}

#[test]
fn test_biz_info_flags() {
    let cash = biz_info(protocol::BIZ_ID_CASH_AUCTION);
    assert!(cash.allow_cancel && cash.allow_trade && cash.allow_partial);
    assert!(!biz_info(protocol::BIZ_ID_RIGHTS).allow_cancel);
    assert!(biz_info(protocol::BIZ_ID_RIGHTS).allow_trade);
    assert!(!biz_info(protocol::BIZ_ID_RIGHTS).allow_partial);
    assert!(biz_info(protocol::BIZ_ID_RIGHTS_BOND).allow_trade);
    assert!(biz_info(protocol::BIZ_ID_TENDER_ACCEPT).allow_cancel);
    assert!(!biz_info(protocol::BIZ_ID_TENDER_ACCEPT).allow_trade);
    assert_eq!(biz_info(protocol::BIZ_ID_DESIGNATION).set_id, SET_ID_DESIGNATION);
    assert_eq!(biz_info(protocol::BIZ_ID_DESIGNATION_CANCEL).set_id, SET_ID_DESIGNATION);
    assert_eq!(biz_info(protocol::BIZ_ID_FUND_SUB).set_id, SET_ID_OTHER_BIZ);
    assert_eq!(biz_info(protocol::BIZ_ID_FUND_TRANSFER).set_id, SET_ID_OTHER_BIZ);
    assert!(biz_info(protocol::BIZ_ID_FUND_TRANSFER).allow_cancel);
    assert!(biz_info(protocol::BIZ_ID_FUND_DIVIDEND).allow_cancel);
    assert!(biz_info(protocol::BIZ_ID_FUND_CONVERT).allow_cancel);
}
