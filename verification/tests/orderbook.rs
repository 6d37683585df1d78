use simx::orderbook::{OrderBook, OrderEntry, OrderStatus, OrderUpdate, MAX_ORDERS};

/// An order of 1000 shares at 10 yuan, in the units of Shenzhen.
fn entry(cl: &str, status: OrderStatus) -> OrderEntry {
    OrderEntry {
        cl_ord_id: cl.into(),
        order_id: String::new(),
        security_id: "000001".into(),
        side: "买".into(),
        price: 10_0000,
        qty: 1000_00,
        cum_qty: 0,
        leaves_qty: 1000_00,
        status,
        ord_type: b'2',
        account: "B880000001".into(),
        branch: "0001".into(),
        ts: "09:30:00".into(),
        conn_id: 1,
        pbu: String::new(),
        biz_id: 0,
        biz_pbu: String::new(),
        owner_type: 0,
        credit_tag: String::new(),
        clearing_firm: String::new(),
        user_info: String::new(),
        biz: String::new(),
    }
}

/// Shares in the units of Shenzhen.
fn shares(n: f64) -> i64 {
    (n * 100.0).round() as i64
}

#[test]
fn inflight_status_rules() {
    assert!(OrderStatus::New.is_inflight());
    assert!(OrderStatus::Partial.is_inflight());
    assert!(!OrderStatus::Filled.is_inflight());
    assert!(!OrderStatus::Cancelled.is_inflight());
    assert!(!OrderStatus::Rejected.is_inflight());
}

#[test]
fn cancel_inflight_succeeds_and_cancelled_fails() {
    let mut book = OrderBook::new();
    book.add(entry("CL1", OrderStatus::New));
    book.add(entry("CL2", OrderStatus::Filled));
    book.add(entry("CL3", OrderStatus::Cancelled));
    book.add(entry("CL4", OrderStatus::Rejected));
    book.add(entry("CL5", OrderStatus::Partial));

    assert!(book.cancel_inflight("CL1"));
    assert!(book.cancel_inflight("CL5"));
    let o = book.find("CL1").unwrap();
    assert_eq!(o.status, OrderStatus::Cancelled);
    assert_eq!(o.leaves_qty, shares(0.0));

    assert!(!book.cancel_inflight("CL2"));
    assert!(!book.cancel_inflight("CL3"));
    assert!(!book.cancel_inflight("CL4"));
    assert_eq!(book.find("CL2").unwrap().status, OrderStatus::Filled);

    assert!(!book.cancel_inflight("NO_SUCH"));
}

#[test]
fn apply_updates_fields_and_newest_first() {
    let mut book = OrderBook::new();
    book.add(entry("CL1", OrderStatus::New));
    book.apply(
        "CL1",
        &OrderUpdate {
            order_id: "0000000000001234".into(),
            cum_qty: shares(300.0),
            leaves_qty: shares(700.0),
            status: OrderStatus::Partial,
        },
    );
    let o = book.find("CL1").unwrap();
    assert_eq!(o.order_id, "0000000000001234");
    assert_eq!(o.cum_qty, shares(300.0));
    assert_eq!(o.status, OrderStatus::Partial);

    book.add(entry("CL2", OrderStatus::New));
    let all = book.all();
    assert_eq!(all[0].cl_ord_id, "CL2");
    assert_eq!(all[1].cl_ord_id, "CL1");
}

#[test]
fn apply_never_reverts_terminal_to_inflight() {
    let mut book = OrderBook::new();
    book.add(entry("CL1", OrderStatus::New));
    assert!(book.cancel_inflight("CL1"));
    book.apply(
        "CL1",
        &OrderUpdate {
            order_id: "0000000000005678".into(),
            cum_qty: shares(0.0),
            leaves_qty: shares(1000.0),
            status: OrderStatus::New,
        },
    );
    let o = book.find("CL1").unwrap();
    assert_eq!(o.status, OrderStatus::Cancelled);
    assert_eq!(o.leaves_qty, shares(0.0));
}

#[test]
fn overflow_drops_oldest() {
    let mut book = OrderBook::new();
    for i in 0..(MAX_ORDERS + 50) {
        book.add(entry(&format!("CL{}", i), OrderStatus::New));
    }
    let all = book.all();
    assert_eq!(all.len(), MAX_ORDERS);
    assert!(book.find("CL0").is_none());
    assert!(book.find(&format!("CL{}", MAX_ORDERS + 49)).is_some());
}
