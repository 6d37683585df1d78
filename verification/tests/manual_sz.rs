use simx::config::PlatformConfig;
use simx::manual::{ManualReport, ManualReportKind};
use simx::orderbook::{OrderEntry, OrderStatus};
use simx::stats::PlatformStats;
use simx::sz::session::build_manual_report;

const NOW: i64 = 20_260_731_093_000_123;

/// An order of 500 shares at 12.34 yuan, of which 200 were executed.
fn sample_entry(biz: &str) -> OrderEntry {
    OrderEntry {
        cl_ord_id: "CL0000001".into(),
        order_id: "0000000000000042".into(),
        security_id: "000001".into(),
        side: "卖".into(),
        price: 123_400,
        qty: 50_000,
        cum_qty: 20_000,
        leaves_qty: 30_000,
        status: OrderStatus::Partial,
        ord_type: b'2',
        account: "0100000001".into(),
        branch: "0001".into(),
        ts: "09:30:00".into(),
        conn_id: 1,
        pbu: "PBU001".into(),
        biz_id: 0,
        biz_pbu: String::new(),
        owner_type: 1,
        credit_tag: String::new(),
        clearing_firm: "CF".into(),
        user_info: "U".into(),
        biz: biz.into(),
    }
}

fn report(
    entry: &OrderEntry,
    kind: ManualReportKind,
    qty: Option<i64>,
    price: Option<i64>,
    reason: Option<i32>,
    front_reject: bool,
) -> Result<ManualReport, String> {
    let mut stats = PlatformStats::default();
    let cfg = PlatformConfig { partition_no: 4, ..PlatformConfig::default() };
    build_manual_report(&cfg, &mut stats, entry, kind, qty, price, reason, front_reject, NOW)
}

fn msg_type(r: &ManualReport) -> u32 {
    u32::from_be_bytes(r.frame[0..4].try_into().unwrap())
}

#[test]
fn a_manual_fill_takes_the_quantity_and_price_that_are_asked() {
    let e = sample_entry("010");
    let r = report(&e, ManualReportKind::Trade, Some(100), Some(123_000), None, false).unwrap();
    assert_eq!(msg_type(&r), 200_115);
    assert_eq!(r.update.status, OrderStatus::Partial);
    assert_eq!((r.update.cum_qty, r.update.leaves_qty), (30_000, 20_000));
    assert!(r.desc.contains("12.3"), "{}", r.desc);
}

#[test]
fn a_manual_fill_takes_all_that_is_open() {
    let e = sample_entry("010");
    for qty in [None, Some(300), Some(9_999)] {
        let r = report(&e, ManualReportKind::Trade, qty, None, None, false).unwrap();
        assert_eq!(r.update.status, OrderStatus::Filled);
        assert_eq!((r.update.cum_qty, r.update.leaves_qty), (50_000, 0));
    }
}

#[test]
fn a_manual_fill_needs_something_open() {
    let mut e = sample_entry("010");
    e.leaves_qty = 99;
    assert!(report(&e, ManualReportKind::Trade, None, None, None, false).is_err());
}

#[test]
fn a_manual_acknowledgement_changes_no_quantity() {
    let e = sample_entry("010");
    let r = report(&e, ManualReportKind::Ack, None, None, None, false).unwrap();
    assert_eq!(msg_type(&r), 200_102);
    assert_eq!((r.update.cum_qty, r.update.leaves_qty), (20_000, 30_000));
}

#[test]
fn a_manual_rejection_goes_out_in_two_ways() {
    let e = sample_entry("010");
    let r = report(&e, ManualReportKind::Reject, None, None, Some(20_009), false).unwrap();
    assert_eq!(msg_type(&r), 200_102);
    assert_eq!(r.update.status, OrderStatus::Rejected);
    let r = report(&e, ManualReportKind::Reject, None, None, Some(20_009), true).unwrap();
    assert_eq!(msg_type(&r), 4);
    assert_eq!(r.update.status, OrderStatus::Rejected);
}

#[test]
fn a_manual_cancel_ends_the_order() {
    let e = sample_entry("010");
    let r = report(&e, ManualReportKind::Cancel, None, None, None, false).unwrap();
    assert_eq!(msg_type(&r), 200_102);
    assert_eq!(r.update.status, OrderStatus::Cancelled);
}
