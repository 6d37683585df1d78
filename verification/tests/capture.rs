use simx::capture::{to_hex, ConnRecorder, SeqSource, MEM_CAP};

#[test]
fn hex_format() {
    assert_eq!(to_hex(&[0xFE, 0x3F, 0x86, 0x0C]), "FE 3F 86 0C");
    assert_eq!(to_hex(&[]), "");
}

#[test]
fn ring_buffer_caps_when_not_persist() {
    let mut src = SeqSource { last: 0 };
    let mut r = ConnRecorder::new(
        1,
        false,
        "127.0.0.1:10001".into(),
        "09:00:00".into(),
    );
    for _ in 0..(MEM_CAP + 100) {
        r.record_recv(&mut src, &[0x01], vec![]);
    }
    let page = r.page(0);
    assert_eq!(page.packets.len(), MEM_CAP);
    assert!(!page.persist);
    assert_eq!(page.latest_seq, (MEM_CAP + 100) as u64);
}

#[test]
fn after_seq_incremental() {
    let mut src = SeqSource { last: 0 };
    let mut r = ConnRecorder::new(
        1,
        true,
        "127.0.0.1:10001".into(),
        "09:00:00".into(),
    );
    r.record_recv(&mut src, &[0x01], vec![]);
    r.record_send(&mut src, &[0x02], vec![]);
    r.record_recv(&mut src, &[0x03], vec![]);
    let page = r.page(1);
    assert_eq!(page.packets.len(), 2);
    assert_eq!(page.packets[0].seq, 2);
    assert_eq!(page.latest_seq, 3);
    assert_eq!(page.packets[0].conn_id, 1);
}

#[test]
fn brief_reports_alive_and_dead() {
    let mut src = SeqSource { last: 0 };
    let mut r = ConnRecorder::new(
        7,
        true,
        "192.168.1.100:8080".into(),
        "09:28:30".into(),
    );
    r.record_recv(&mut src, &[0x01], vec![]);
    let b = r.brief();
    assert_eq!(b.conn_id, 7);
    assert_eq!(b.peer, "192.168.1.100:8080");
    assert_eq!(b.since, "09:28:30");
    assert!(b.alive);
    r.mark_dead();
    assert!(!r.brief().alive);
    assert_eq!(r.page(0).packets.len(), 1);
}

#[test]
fn seq_global_across_conns() {
    let mut src = SeqSource { last: 0 };
    let mut a = ConnRecorder::new(
        1,
        true,
        "127.0.0.1:10001".into(),
        "09:00:00".into(),
    );
    let mut b = ConnRecorder::new(
        2,
        true,
        "127.0.0.1:10002".into(),
        "09:01:00".into(),
    );
    a.record_recv(&mut src, &[0x01], vec![]);
    b.record_recv(&mut src, &[0x02], vec![]);
    b.record_send(&mut src, &[0x03], vec![]);
    let pa = a.page(0);
    let pb = b.page(0);
    assert_eq!(pa.packets[0].seq, 1);
    assert_eq!(pa.packets[0].conn_id, 1);
    assert_eq!(pb.packets[0].seq, 2);
    assert_eq!(pb.packets[0].conn_id, 2);
    assert_eq!(pb.packets[1].seq, 3);
}

#[test]
fn report_cache_since_and_dedup() {
    let mut r = ConnRecorder::new(
        1,
        true,
        "127.0.0.1:10001".into(),
        "09:00:00".into(),
    );
    r.record_report(1, 1, b"frame-1");
    r.record_report(1, 2, b"frame-2");
    r.record_report(2, 1, b"other-part");
    let got = r.reports_since(1, 2);
    assert_eq!(got.len(), 1);
    assert_eq!(got[0], (2, b"frame-2".to_vec()));
    let all = r.reports_since(1, 1);
    assert_eq!(all.len(), 2);
    assert_eq!(all[0].0, 1);
    assert_eq!(all[1].0, 2);
    r.record_report(1, 2, b"frame-2-resend");
    assert_eq!(r.reports_since(1, 1).len(), 2);
    assert_eq!(r.reports_since(1, 2)[0].1, b"frame-2-resend");
    assert!(r.reports_since(1, 3).is_empty());
    assert!(r.reports_since(3, 1).is_empty());
}
