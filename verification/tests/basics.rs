use simx::clock;
use simx::clock::LocalTime;
use simx::config::{
    gateway_category_name, platform_type_name, CustomFill, DelayConfig, GatewayCategory,
    PlatformConfig, StrategyConfig, StrategyMode,
};
use simx::event::EngineEvent;
use simx::fills;
use simx::fills::{Terms, Units};
use simx::manual;
use simx::orderbook::{OrderBook, OrderEntry, OrderStatus, OrderUpdate};
use simx::report;
use simx::report::{PlannedReport, ReportKind};
use simx::stats::PlatformStats;
use simx::sz::strategy::platform_of_appl_id;
use simx::text;
use simx::wire::{read_be, sum_bytes, BodyReader, BodyWriter};

fn noon() -> LocalTime {
    LocalTime { year: 2026, month: 7, day: 5, hour: 12, minute: 3, second: 9, nanos: 45_999_999 }
}

#[test]
fn times_are_written_in_all_forms() {
    let t = noon();
    assert_eq!(clock::timestamp(&t), 20_260_705_120_309_045);
    assert_eq!(clock::date(&t), 20_260_705);
    assert_eq!(clock::ntime(&t), 1_203_090_450_000);
    assert_eq!(clock::hms(&t), "12:03:09");
    assert_eq!(clock::hms_millis(&t), "12:03:09.045");
    assert_eq!(clock::compact_time(&t), "120309");
    assert_eq!(clock::dashed_date(&t), "2026-07-05");
    assert_eq!(clock::compact_date(&t), "20260705");
}

#[test]
fn leap_seconds_are_second_sixty() {
    let t = LocalTime { second: 59, nanos: 1_250_000_000, ..noon() };
    assert_eq!(clock::hms_millis(&t), "12:03:60.250");
}

#[test]
fn unusual_years_carry_a_sign() {
    assert_eq!(clock::dashed_date(&LocalTime { year: 12_026, ..noon() }), "+12026-07-05");
    assert_eq!(clock::dashed_date(&LocalTime { year: -5, ..noon() }), "-0005-07-05");
    assert_eq!(clock::date(&LocalTime { year: -5, ..noon() }), 0);
}

#[test]
fn events_carry_the_time_of_day() {
    let e = EngineEvent::log("warn", "g", "p", "m".to_string());
    match e {
        EngineEvent::Log { level, message, ts, gateway_id, platform_id } => {
            assert_eq!((level.as_str(), message.as_str()), ("warn", "m"));
            assert_eq!((gateway_id.as_str(), platform_id.as_str()), ("g", "p"));
            assert_eq!(ts.len(), 12);
            assert_eq!((&ts[2..3], &ts[5..6], &ts[8..9]), (":", ":", "."));
        }
    }
}

#[test]
fn numbers_are_written_in_decimal() {
    assert_eq!(text::dec_string(0), "0");
    assert_eq!(text::dec_string(u64::MAX), "18446744073709551615");
    assert_eq!(text::int_string(i64::MIN), "-9223372036854775808");
    assert_eq!(text::padded(42, 5), "00042");
    assert_eq!(text::padded(123_456, 5), "123456");
    assert_eq!(text::fmt_scaled(-123_400, 10_000), "-12.34");
    assert_eq!(text::fmt_scaled(120_000, 10_000), "12");
    assert_eq!(text::fmt_scaled(i64::MIN, 1), "-9223372036854775808");
}

#[test]
fn numbers_are_read_within_their_range() {
    let read = |s: &str| {
        let c: Vec<char> = s.chars().collect();
        (text::parse_nat(&c, 0, c.len()), text::parse_i32(&c, 0, c.len()))
    };
    assert_eq!(read("17"), (Some(17), Some(17)));
    assert_eq!(read("+17"), (Some(17), Some(17)));
    assert_eq!(read("-17"), (None, Some(-17)));
    assert_eq!(read(""), (None, None));
    assert_eq!(read("1a"), (None, None));
    assert_eq!(read("4294967295"), (Some(u32::MAX), None));
    assert_eq!(read("4294967296"), (None, None));
    assert_eq!(read("-2147483648"), (None, Some(i32::MIN)));
    let c: Vec<char> = "18446744073709551615".chars().collect();
    assert_eq!(text::parse_u64(&c, 0, c.len()), Some(u64::MAX));
    let c: Vec<char> = "18446744073709551616".chars().collect();
    assert_eq!(text::parse_u64(&c, 0, c.len()), None);
}

#[test]
fn codes_are_read_without_the_space_behind_them() {
    assert_eq!(platform_of_appl_id("010 \u{3000}\n"), Some(1));
    assert_eq!(platform_of_appl_id(" 010"), None);
    assert_eq!(platform_of_appl_id("999"), None);
}

#[test]
fn fields_come_back_as_they_were_written() {
    let mut w = BodyWriter::new();
    w.str("买入", 8);
    w.str("too long", 3);
    w.ch(b'x');
    w.u8(7);
    w.u16(0xbeef);
    w.u32(0xdead_beef);
    w.u64(u64::MAX - 1);
    w.i32(-2);
    w.i64(i64::MIN);
    w.raw(&[9, 8]);
    let b = w.into_inner();
    let mut r = BodyReader::new(&b);
    assert_eq!(r.str(8).unwrap(), "买入");
    assert_eq!(r.str(3).unwrap(), "too");
    assert_eq!(r.ch().unwrap(), b'x');
    assert_eq!(r.u8().unwrap(), 7);
    assert_eq!(r.u16().unwrap(), 0xbeef);
    assert_eq!(r.u32().unwrap(), 0xdead_beef);
    assert_eq!(r.u64().unwrap(), u64::MAX - 1);
    assert_eq!(r.i32().unwrap(), -2);
    assert_eq!(r.i64().unwrap(), i64::MIN);
    assert_eq!(r.remaining(), 2);
    assert!(r.u32().is_err());
}

#[test]
fn bytes_that_are_no_text_are_repaired() {
    let mut r = BodyReader::new(&[b'a', 0xff, b'b', b' ']);
    assert_eq!(r.str(4).unwrap(), "a\u{fffd}b");
}

#[test]
fn sums_and_numbers_of_bytes() {
    assert_eq!(sum_bytes(&[20, 10, 5, 9], 3), 35);
    assert_eq!(sum_bytes(&[200, 100, 50, 9], 3), 350 - 256);
    assert_eq!(read_be(&[0, 1, 2, 3], 1, 3), 0x01_0203);
}

#[test]
fn delays_lie_in_their_range() {
    assert_eq!(DelayConfig { min_ms: 5, max_ms: 5 }.sample(), 5);
    assert!(DelayConfig { min_ms: 0, max_ms: 0 }.is_zero());
    for _ in 0..100 {
        let ms = DelayConfig { min_ms: 9, max_ms: 3 }.sample();
        assert!((3..=9).contains(&ms));
    }
}

#[test]
fn split_counts_lie_in_their_range() {
    let mut st = StrategyConfig::default();
    st.split_count_min = 6;
    st.split_count_max = 2;
    for _ in 0..100 {
        assert!((2..=6).contains(&fills::sample_split_count(&st)));
    }
    st.split_count_min = 0;
    st.split_count_max = 0;
    assert_eq!(fills::sample_split_count(&st), 1);
}

#[test]
fn parts_leave_something_open() {
    assert_eq!(fills::partial_from(1_000, 3), 300);
    assert_eq!(fills::partial_shares(150), 75);
    assert_eq!(fills::partial_shares(1), 1);
    for _ in 0..100 {
        let part = fills::partial_shares(1_050);
        assert!(part % 100 == 0 && part >= 100 && part < 1_050);
    }
}

#[test]
fn pieces_add_up() {
    assert_eq!(fills::split_from(1_050, &vec![3, 2]), vec![300, 200, 550]);
    for _ in 0..100 {
        let pieces = fills::split_shares(1_050, 4);
        assert_eq!(pieces.len(), 4);
        assert_eq!(pieces.iter().sum::<i64>(), 1_050);
        assert!(pieces.iter().all(|p| *p > 0));
    }
    assert_eq!(fills::split_shares(150, 4), vec![150]);
}

#[test]
fn ladders_end_at_the_limit() {
    assert_eq!(fills::ladder_price(10_000, false, 100, 2), 9_800);
    assert_eq!(fills::ladder_price(10_000, true, 100, 2), 10_200);
    assert_eq!(fills::ladder_price(10_000, true, 100, 0), 10_000);
    assert_eq!(fills::ladder_price(150, false, 100, 2), 100);
}

#[test]
fn configured_fills_stay_within_the_order() {
    let list = vec![
        CustomFill { qty: 100_000, price: 1 },
        CustomFill { qty: -5, price: 2 },
        CustomFill { qty: 400, price: 3 },
        CustomFill { qty: 900_500, price: 4 },
        CustomFill { qty: 1_000, price: 5 },
    ];
    assert_eq!(fills::custom_shares(&list, 300), vec![(100, 1), (1, 3), (199, 4)]);
}

#[test]
fn some_businesses_fill_whole_orders_only() {
    assert_eq!(fills::effective_mode(StrategyMode::PartialSplit, false), StrategyMode::FullSplit);
    assert_eq!(fills::effective_mode(StrategyMode::Custom, false), StrategyMode::FullSingle);
    assert_eq!(fills::effective_mode(StrategyMode::Custom, true), StrategyMode::Custom);
    assert_eq!(fills::effective_mode(StrategyMode::Reject, false), StrategyMode::Reject);
}

#[test]
fn quotients_go_toward_zero() {
    assert_eq!(fills::div_toward_zero(-7, 2), -3);
    assert_eq!(fills::div_toward_zero(7, 2), 3);
    assert_eq!(fills::div_toward_zero(i64::MIN, 1), i64::MIN);
    assert_eq!(fills::div_toward_zero(i64::MIN, 1_000), -9_223_372_036_854_775);
}

#[test]
fn numbers_of_reports_are_consecutive_in_each_partition() {
    let mut st = PlatformStats::default();
    assert_eq!(st.partition_end_index(3), 0);
    assert_eq!(st.next_report_index_for(3), 1);
    assert_eq!(st.next_report_index_for(3), 2);
    assert_eq!(st.next_report_index_for(-1), 1);
    assert_eq!(st.partition_end_index(3), 2);
    st.reset();
    assert_eq!(st.next_report_index_for(3), 3);
    assert_eq!(st.next_order_id(), "0000000000000001");
    assert_eq!(st.next_order_id(), "0000000000000002");
    assert_eq!(st.next_exec_id(), "0000000000000001");
}

#[test]
fn partitions_are_read_and_chosen() {
    let mut cfg = PlatformConfig::default();
    cfg.partition_no = 4;
    cfg.partition_nos = String::new();
    assert_eq!(cfg.partitions(), vec![4]);
    cfg.partition_nos = "2, 7,x,9".to_string();
    assert_eq!(cfg.partitions(), vec![2, 7, 9]);
    let sum: usize = "000001".bytes().map(|b| b as usize).sum();
    assert_eq!(cfg.partition_for("000001"), [2, 7, 9][sum % 3]);
    assert_eq!(cfg.partition_for("000001"), cfg.partition_for("000001"));
}

#[test]
fn kinds_have_names() {
    assert!(!gateway_category_name(GatewayCategory::Sz).is_empty());
    assert_ne!(
        gateway_category_name(GatewayCategory::Shjj),
        gateway_category_name(GatewayCategory::Shbond)
    );
    assert_ne!(platform_type_name(1), platform_type_name(2));
}

fn entry(cl_ord_id: &str) -> OrderEntry {
    OrderEntry {
        cl_ord_id: cl_ord_id.into(),
        order_id: "1".into(),
        security_id: "000001".into(),
        side: "买".into(),
        price: 100_000,
        qty: 10_000,
        cum_qty: 0,
        leaves_qty: 10_000,
        status: OrderStatus::New,
        ord_type: b'2',
        account: String::new(),
        branch: String::new(),
        ts: String::new(),
        conn_id: 1,
        pbu: String::new(),
        biz_id: 0,
        biz_pbu: String::new(),
        owner_type: 0,
        credit_tag: String::new(),
        clearing_firm: String::new(),
        user_info: String::new(),
        biz: String::new(),
    }
}

fn plan(kind: ReportKind, delay_ms: u64) -> PlannedReport {
    PlannedReport {
        delay_ms,
        kind,
        frame: vec![0; 16],
        desc: String::new(),
        cl_ord_id: "A".into(),
        order_update: Some(OrderUpdate {
            status: OrderStatus::Filled,
            cum_qty: 10_000,
            leaves_qty: 0,
            order_id: "77".into(),
        }),
    }
}

#[test]
fn a_cancelled_order_gets_no_more_reports() {
    let mut book = OrderBook::new();
    book.add(entry("A"));
    let trade = plan(ReportKind::Trade, 0);
    assert!(report::should_send(&trade, Some(&book)));
    assert!(book.cancel_inflight("A"));
    assert!(!report::should_send(&trade, Some(&book)));
    assert!(report::should_send(&plan(ReportKind::Cancel, 0), Some(&book)));
    assert!(report::should_send(&trade, None));
    let mut part = plan(ReportKind::Trade, 0);
    if let Some(u) = part.order_update.as_mut() {
        u.status = OrderStatus::Partial;
    }
    report::settle(&part, &mut book);
    assert_eq!(book.find("A").unwrap().status, OrderStatus::Cancelled);
}

#[test]
fn reports_that_were_sent_are_counted() {
    let mut st = PlatformStats::default();
    report::count_report(&mut st, ReportKind::Ack);
    report::count_report(&mut st, ReportKind::Trade);
    report::count_report(&mut st, ReportKind::Trade);
    report::count_report(&mut st, ReportKind::Reject);
    report::count_report(&mut st, ReportKind::BusinessReject);
    report::count_report(&mut st, ReportKind::Cancel);
    let s = st.snapshot();
    assert_eq!((s.acks, s.trades, s.order_rejects, s.business_rejects), (1, 2, 1, 1));
    assert_eq!((s.cancels, s.orders), (0, 0));
}

#[test]
fn one_delay_makes_a_plan_wait() {
    let none = vec![plan(ReportKind::Ack, 0), plan(ReportKind::Trade, 0)];
    assert!(report::all_immediate(&none));
    let some = vec![plan(ReportKind::Ack, 0), plan(ReportKind::Trade, 1)];
    assert!(!report::all_immediate(&some));
}

#[test]
fn shares_to_fill_are_what_is_open_at_most() {
    let e = entry("A");
    assert_eq!(manual::add_filled(&e, 30), e.cum_qty + 30);
    let most = OrderEntry { cum_qty: i64::MAX - 29, ..entry("A") };
    assert_eq!(manual::add_filled(&most, 30), i64::MAX);
    assert_eq!(manual::shares_to_fill(&e, None, 100), 100);
    assert_eq!(manual::shares_to_fill(&e, Some(30), 100), 30);
    assert_eq!(manual::shares_to_fill(&e, Some(1_000), 100), 100);
}

#[test]
fn a_draw_is_tested_by_what_it_makes() {
    let u = Units { share: 100, price: 10 };
    let mut st = StrategyConfig::default();
    st.mode = StrategyMode::FullSplit;
    st.split_count_min = 1;
    st.split_count_max = 3;
    st.price_tick = 1_000;
    let t = Terms { qty: 300_00, price: i64::MAX - 100, side: b'2' };
    assert!(fills::check_draw(&st, true, t, u, 100, 1));
    assert!(fills::check_draw(&st, true, t, u, 100, 2));
    assert!(!fills::check_draw(&st, true, t, u, 100, 3));
    assert_eq!(fills::fills_from(&st, true, t, u, 100, 3), None);
    assert_eq!(fills::fills_from(&st, true, t, u, 100, 1), Some(vec![(300_00, i64::MAX - 100)]));
    let buy = Terms { qty: 300_00, price: i64::MIN + 199, side: b'1' };
    assert!(fills::check_draw(&st, true, buy, u, 100, 2));
    assert!(!fills::check_draw(&st, true, buy, u, 100, 3));
    st.mode = StrategyMode::PartialSingle;
    let low = Terms { qty: i64::MIN + 99, price: 1, side: b'1' };
    assert!(!fills::check_draw(&st, true, low, u, 1, 1));
    assert!(fills::check_draw(&st, false, low, u, 1, 1));
}
