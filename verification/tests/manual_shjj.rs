use simx::config::PlatformConfig;
use simx::manual::ManualReport;
use simx::orderbook::{OrderEntry, OrderStatus, OrderUpdate};
use simx::shjj::protocol::{BIZ_ID_CASH_AUCTION, BIZ_ID_FUND_TRANSFER, BIZ_ID_RIGHTS};
use simx::shjj::session::{build_manual_report, ManualReportKind};
use simx::stats::PlatformStats;

const DATE: u32 = 20_260_731;
const TIME: u64 = 930_000_010_000;

/// An order of 100 shares at 12.34 yuan that was acknowledged.
fn sample_entry() -> OrderEntry {
    OrderEntry {
        cl_ord_id: "A000000001".into(),
        order_id: "0000000000000001".into(),
        security_id: "600000".into(),
        side: "买".into(),
        price: 12_34000,
        qty: 100_000,
        cum_qty: 0,
        leaves_qty: 100_000,
        status: OrderStatus::New,
        ord_type: b'2',
        account: "B880000001".into(),
        branch: "BR01".into(),
        ts: "09:30:00".into(),
        conn_id: 1,
        pbu: "PBU00001".into(),
        biz_id: BIZ_ID_CASH_AUCTION,
        biz_pbu: "PBU00001".into(),
        owner_type: 0,
        credit_tag: String::new(),
        clearing_firm: "CF01".into(),
        user_info: "UINFO".into(),
        biz: String::new(),
    }
}

/// A report on an order that is sent by hand, with quantity and price left open.
fn report(
    entry: &OrderEntry,
    kind: ManualReportKind,
    reason: Option<i32>,
    front_reject: bool,
) -> Result<(Vec<u8>, String, OrderUpdate), String> {
    let cfg = PlatformConfig::default();
    let mut stats = PlatformStats::default();
    let r = build_manual_report(
        &cfg, &mut stats, entry, kind, None, None, reason, front_reject, DATE, TIME,
    );
    r.map(|m: ManualReport| (m.frame, m.desc, m.update))
}

#[test]
fn manual_reject_frame_is_reject_not_cancel() {
    let (frame, desc, update) = report(&sample_entry(), ManualReportKind::Reject, Some(1025), false).unwrap();
    assert_eq!(frame.len(), 16 + 213 + 4);
    assert_eq!(u32::from_be_bytes(frame[0..4].try_into().unwrap()), 32);
    let pbu = String::from_utf8_lossy(&frame[16..24]).trim().to_string();
    assert_eq!(pbu, "PBU00001", "Pbu 必须回填登录分区（当前={:?}）", pbu);
    assert_eq!(
        u32::from_be_bytes(frame[36..40].try_into().unwrap()),
        BIZ_ID_CASH_AUCTION
    );
    assert_eq!(frame[40], b'8', "ExecType 必须是 '8'（申报拒绝），实际={:#04x}", frame[40]);
    assert_eq!(frame[120], b'8', "OrdStatus 必须是 '8'（已拒绝），实际={:#04x}", frame[120]);
    let reason = u32::from_be_bytes(frame[149..153].try_into().unwrap());
    assert_eq!(reason, 1025, "OrdRejReason 必须等于 1025，实际={}", reason);
    assert!(desc.contains("手动拒单回报(32)"), "desc={}", desc);
    assert_eq!(update.status, OrderStatus::Rejected);
}

#[test]
fn manual_cancel_frame_is_cancel() {
    let (frame, desc, _) = report(&sample_entry(), ManualReportKind::Cancel, None, false).unwrap();
    assert_eq!(u32::from_be_bytes(frame[0..4].try_into().unwrap()), 32);
    assert_eq!(frame[40], b'4', "ExecType 必须是 '4'（撤销成功）");
    assert_eq!(frame[120], b'4', "OrdStatus 必须是 '4'（已撤销）");
    assert!(desc.contains("手动撤单成功回报(32)"), "desc={}", desc);
}

#[test]
fn manual_trade_frame_is_trade() {
    let (frame, desc, _) = report(&sample_entry(), ManualReportKind::Trade, None, false).unwrap();
    assert_eq!(u32::from_be_bytes(frame[0..4].try_into().unwrap()), 103);
    assert!(desc.contains("手动成交回报(103)"), "desc={}", desc);
}

#[test]
fn manual_trade_rejected_for_no_trade_biz() {
    let mut entry = sample_entry();
    entry.biz_id = BIZ_ID_FUND_TRANSFER;
    let r = report(&entry, ManualReportKind::Trade, None, false);
    assert!(r.is_err(), "转托管不应允许手动成交");
    assert!(r.unwrap_err().contains("无成交回报"));
    let mut entry2 = sample_entry();
    entry2.biz_id = BIZ_ID_RIGHTS;
    let (frame, desc, _) = report(&entry2, ManualReportKind::Trade, None, false).unwrap();
    assert_eq!(u32::from_be_bytes(frame[0..4].try_into().unwrap()), 103);
    assert!(desc.contains("手动成交回报(103)"), "desc={}", desc);
}

#[test]
fn manual_ack_frame_is_new() {
    let (frame, desc, update) = report(&sample_entry(), ManualReportKind::Ack, None, false).unwrap();
    assert_eq!(u32::from_be_bytes(frame[0..4].try_into().unwrap()), 32);
    assert_eq!(frame[40], b'0', "ExecType 必须是 '0'（申报成功）");
    assert!(desc.contains("手动确认回报(32)"), "desc={}", desc);
    assert_eq!(update.status, OrderStatus::New);
    assert_eq!(update.leaves_qty, 100_000);
}

#[test]
fn manual_front_reject_sends_order_reject() {
    let (frame, desc, update) = report(&sample_entry(), ManualReportKind::Reject, Some(1025), true).unwrap();
    assert_eq!(u32::from_be_bytes(frame[0..4].try_into().unwrap()), 204);
    assert!(desc.contains("手动前台拒单(204)"), "desc={}", desc);
    assert_eq!(update.status, OrderStatus::Rejected);
    let reason = u32::from_be_bytes(frame[16 + 34..16 + 38].try_into().unwrap());
    assert_eq!(reason, 1025);
}
