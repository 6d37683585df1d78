//! What a client of a Shenzhen platform is told about its connection, read out of the messages
//! that it gets: the answers to its logon, to its requests for reports and to its quotes.
use vstd::prelude::*;

use super::answers::{counts_only, is_business_rejection};
use super::fields;
use super::fields::{body_of, is_message};
use super::filings;
use super::protocol;
use super::protocol::{LogonView, LogoutView};
use super::session;
use super::session::{Session, SessionCtx};
use super::strategy;
use crate::capture;
use crate::capture::ConnRecorder;
use crate::clock;
use crate::clock::LocalTime;
use crate::config;
use crate::config::PlatformConfig;
use crate::stats;
use crate::stats::{PlatformStats, StatsSnapshot};
use crate::step;
use crate::step::StepView;
use crate::text;
use crate::wire;
use crate::wire::{be, int_at, nat_at, nil, text_at, text_held, with_int, with_nat};

verus! {

/// Partition numbers stand one behind the other, four bytes each.
proof fn lemma_partitions(body: Seq<u8>, parts: Seq<i32>) -> (r: Seq<u8>)
    ensures
        r == body + protocol::partition_bytes(parts),
        r.len() == body.len() + 4 * parts.len(),
        forall|i: int|
            0 <= i < parts.len() ==> int_at(r, body.len() + 4 * i, 4) == #[trigger] parts[i],
        forall|a: int, b: int|
            0 <= a <= b <= body.len() ==> #[trigger] r.subrange(a, b) == body.subrange(a, b),
    decreases parts.len(),
{
    wire::lemma_pow256_values();
    if parts.len() == 0 {
        assert(body + nil() =~= body);
        body
    } else {
        let front = parts.drop_last();
        let c = lemma_partitions(body, front);
        let r = with_int(c, parts.last() as int, 4);
        assert(r =~= body + protocol::partition_bytes(parts));
        assert forall|i: int| 0 <= i < parts.len() implies int_at(r, body.len() + 4 * i, 4)
            == #[trigger] parts[i] by {
            if i < front.len() {
                assert(front[i] == parts[i]);
                assert(r.subrange(body.len() + 4 * i, body.len() + 4 * i + 4) == c.subrange(
                    body.len() + 4 * i,
                    body.len() + 4 * i + 4,
                ));
            }
        }
        assert forall|a: int, b: int| 0 <= a <= b <= body.len() implies #[trigger] r.subrange(a, b)
            == body.subrange(a, b) by {
            assert(r.subrange(a, b) == c.subrange(a, b));
        }
        r
    }
}

/// The heartbeat interval: 30 seconds where none is asked for, and else what is asked for, but
/// at least 1 and at most 300 seconds.
pub open spec fn is_interval(asked: i32, secs: int) -> bool {
    &&& asked == 0 ==> secs == 30
    &&& 1 <= asked <= 300 ==> secs == asked
    &&& asked > 300 ==> secs == 300
    &&& asked < 0 ==> secs == 1
}

/// What a logon leads to, as the client reads it. One that cannot be read ends the connection
/// without an answer; one with a wrong password, where passwords are checked, is answered by a
/// logout with the status 5. Any other is answered by a logon with the names turned round and
/// the interval that is used, by the partitions of the platform, in order, and by its state,
/// which is open; on the platform for bonds also by the part of the trading day.
#[verifier::spinoff_prover]
#[verifier::rlimit(40)]
pub proof fn law_logon_is_answered(
    cfg: PlatformConfig,
    sess: Session,
    body: Seq<u8>,
    now: LocalTime,
)
    requires
        now.wf(),
        session::partitions(cfg).len() < 0x1000_0000,
    ensures
        ({
            let (step, after) = session::logon_step(cfg, sess, body, now);
            let l = LogonView::of(body);
            let parts = session::partitions(cfg);
            if body.len() < 92 {
                step == StepView::Close(None) && after == sess
            } else if cfg.check_password && l.password != cfg.password@ {
                &&& step matches StepView::Close(Some(f))
                &&& after == sess
                &&& is_message(f, 2, 204)
                &&& int_at(body_of(f), 0, 4) == 5
                &&& text_held(body_of(f), 4, 200, "不合法的用户名或口令"@)
            } else {
                &&& step matches StepView::LoggedOn { replies, comp_id }
                &&& comp_id == l.sender_comp_id
                &&& after.logged_on
                &&& is_interval(l.heart_bt_int, after.hb_secs as int)
                &&& replies.len() == (if cfg.platform_type == 6 {
                    4int
                } else {
                    3
                })
                &&& is_message(replies[0], 1, 92)
                &&& text_held(body_of(replies[0]), 0, 20, cfg.comp_id@)
                &&& text_held(body_of(replies[0]), 20, 20, l.sender_comp_id)
                &&& int_at(body_of(replies[0]), 40, 4) == after.hb_secs
                &&& text_held(body_of(replies[0]), 44, 16, Seq::empty())
                &&& l.default_appl_ver_id.len() > 0 ==> text_held(
                    body_of(replies[0]),
                    60,
                    32,
                    l.default_appl_ver_id,
                )
                &&& l.default_appl_ver_id.len() == 0 ==> text_held(
                    body_of(replies[0]),
                    60,
                    32,
                    "1.29"@,
                )
                &&& tells_partitions(replies[1], cfg.platform_type, parts)
                &&& is_message(replies[2], 6, 4)
                &&& nat_at(body_of(replies[2]), 0, 2) == cfg.platform_type
                &&& nat_at(body_of(replies[2]), 2, 2) == 2
                &&& cfg.platform_type == 6 ==> is_part_of_day(replies[3], now)
            }
        }),
{
    wire::lemma_pow256_values();
    let l = LogonView::of(body);
    let parts = session::partitions(cfg);
    fields::law_logout_fields(
        LogoutView { session_status: 5, text: "不合法的用户名或口令"@ },
    );
    fields::law_logon_fields(session::logon_reply(cfg, l));
    lemma_part_of_day(now);
    lemma_platform_info(cfg.platform_type, parts);
    let b = with_nat(nil(), cfg.platform_type as int, 2);
    let state = with_nat(b, 2, 2);
    fields::law_framed_body(6, state);
}

/// A message that tells the partitions of a platform, in order.
pub open spec fn tells_partitions(f: Seq<u8>, platform_type: u16, parts: Seq<i32>) -> bool {
    let b = body_of(f);
    &&& is_message(f, 9, 6 + 4 * parts.len() as int)
    &&& nat_at(b, 0, 2) == platform_type
    &&& nat_at(b, 2, 4) == parts.len()
    &&& forall|i: int| 0 <= i < parts.len() ==> int_at(b, 6 + 4 * i, 4) == #[trigger] parts[i]
}

#[verifier::spinoff_prover]
#[verifier::rlimit(40)]
proof fn lemma_platform_info(platform_type: u16, parts: Seq<i32>)
    requires
        parts.len() < 0x1000_0000,
    ensures
        tells_partitions(
            protocol::framed(
                9,
                nil() + be(platform_type as int, 2) + be(parts.len() as int, 4)
                    + protocol::partition_bytes(parts),
            ),
            platform_type,
            parts,
        ),
{
    wire::lemma_pow256_values();
    let b = with_nat(nil(), platform_type as int, 2);
    let b = with_nat(b, parts.len() as int, 4);
    let info = lemma_partitions(b, parts);
    fields::law_framed_body(9, info);
    assert(info.subrange(0, 2) == b.subrange(0, 2));
    assert(info.subrange(2, 6) == b.subrange(2, 6));
}

/// The part of the trading day that a message tells holds the minute: its start is not after
/// it and its end not before, as time stamps of the day.
pub open spec fn is_part_of_day(f: Seq<u8>, now: LocalTime) -> bool {
    let b = body_of(f);
    let minute = LocalTime { second: 0, nanos: 0, ..now };
    &&& is_message(f, 10, 42)
    &&& text_held(b, 0, 8, Seq::empty())
    &&& text_held(b, 8, 8, "6"@)
    &&& text_held(b, 16, 4, Seq::empty())
    &&& nat_at(b, 24, 2) == 0
    &&& now.year >= 0 ==> {
        &&& int_at(b, 26, 8) <= clock::timestamp_of(minute)
        &&& clock::timestamp_of(minute) <= int_at(b, 34, 8)
        &&& int_at(b, 26, 8) / 1_000_000_000 == clock::date_of(now)
        &&& int_at(b, 34, 8) / 1_000_000_000 == clock::date_of(now)
    }
}

proof fn lemma_part_of_day(now: LocalTime)
    requires
        now.wf(),
    ensures
        is_part_of_day(protocol::framed(10, session::session_status(now).body()), now),
{
    session::law_session_holds_now(now);
    let h = session::part_hours(session::session_part(now.hour, now.minute));
    let from = session::same_day(now, h.0, h.1, 0);
    let to = session::same_day(now, h.2, h.3, h.4);
    let minute = LocalTime { second: 0, nanos: 0, ..now };
    clock::law_stamps(from, to);
    clock::law_stamps(to, from);
    clock::law_stamps(minute, from);
    fields::law_session_status_fields(session::session_status(now));
}

/// What a request for reports leads to, as the client reads it. One that cannot be read leads
/// to nothing; one that names a partition that the platform does not have, or one twice, is
/// refused with the code 20106; and any other is answered by the reports that it wants, as
/// they were sent, and by nothing else.
#[verifier::spinoff_prover]
#[verifier::rlimit(40)]
pub proof fn law_request_is_answered(
    cfg: PlatformConfig,
    recorders: Seq<ConnRecorder>,
    body: Seq<u8>,
    now: i64,
    before: StatsSnapshot,
    after: StatsSnapshot,
    step: StepView,
)
    requires
        session::is_sync_step(cfg, recorders, body, now, before, after, step),
    ensures
        ({
            let n = nat_at(body, 0, 4);
            let sent = capture::all_sent(recorders);
            let wanted = protocol::sync_partitions(body);
            let parts = session::partitions(cfg);
            if body.len() < 4 || body.len() < 4 + 12 * n {
                step is Quiet && after == before
            } else {
                &&& wanted.len() == n
                &&& step matches StepView::Reply(out)
                &&& if (exists|i: int|
                    0 <= i < n && !parts.contains((#[trigger] wanted[i]).partition_no)) || (exists|
                    i: int,
                    j: int,
                |
                    0 <= i < j < n && (#[trigger] wanted[i]).partition_no == (
                    #[trigger] wanted[j]).partition_no) {
                    &&& out.len() == 1
                    &&& is_business_rejection(
                        out[0],
                        Seq::empty(),
                        now,
                        Seq::empty(),
                        Seq::empty(),
                        Seq::empty(),
                        5,
                        Seq::empty(),
                        20_106,
                        "回报同步消息含非法分区号"@,
                    )
                    &&& counts_only(before, after, 0, 1, 0)
                } else {
                    &&& after == before
                    &&& forall|i: int, index: i64| #[trigger]
                        step::is_wanted(sent, wanted, i, index) ==> out.contains(
                            sent[(wanted[i].partition_no, index)],
                        )
                    &&& forall|k: int|
                        0 <= k < out.len() ==> step::is_resent(sent, wanted, #[trigger] out[k])
                }
            }
        }),
{
    wire::lemma_be_nat_bound(body.subrange(0, 4));
    fields::law_business_rejection_fields(session::sync_reject(now));
    let wanted = protocol::sync_partitions(body);
    if protocol::sync_complete(body) && session::sync_ok(session::partitions(cfg), wanted) {
        step::law_wanted_reports_are_resent(
            capture::all_sent(recorders),
            wanted,
            step->Reply_0,
        );
    }
}

/// A request for reports is read as the client wrote it: the number of partitions, and of each
/// its number and the first report that is wanted.
pub proof fn law_request_is_read(body: Seq<u8>, p: int, index: int, i: int)
    requires
        -0x8000_0000 <= p <= 0x7fff_ffff,
        -0x8000_0000_0000_0000 <= index <= 0x7fff_ffff_ffff_ffff,
        body.len() >= 4,
        0 <= i < nat_at(body, 0, 4),
        body.len() >= 4 + 12 * nat_at(body, 0, 4),
        body.subrange(4 + 12 * i, 8 + 12 * i) == be(p, 4),
        body.subrange(8 + 12 * i, 16 + 12 * i) == be(index, 8),
    ensures
        protocol::sync_complete(body),
        protocol::sync_partitions(body)[i].partition_no == p,
        protocol::sync_partitions(body)[i].report_index == index,
{
    wire::lemma_pow256_values();
    wire::lemma_be_int_inverse(p, 4);
    wire::lemma_be_int_inverse(index, 8);
}

/// The state that accepts the quote in `body`, as the client reads it: every field is repeated
/// byte for byte, bids as bids and offers as offers, without a reason to reject it.
pub open spec fn is_quote_state(f: Seq<u8>, body: Seq<u8>, partition_no: i32, now: i64) -> bool {
    let b = body_of(f);
    &&& is_message(f, 200_506, 128)
    &&& int_at(b, 0, 4) == partition_no
    &&& int_at(b, 4, 8) == 0
    &&& text_held(b, 12, 3, text_at(body, 0, 3))
    &&& text_held(b, 15, 6, text_at(body, 3, 6))
    &&& text_held(b, 21, 6, text_at(body, 3, 6))
    &&& text_held(b, 27, 8, text_at(body, 9, 8))
    &&& text_held(b, 35, 4, text_at(body, 17, 4))
    &&& nat_at(b, 39, 2) == nat_at(body, 21, 2)
    &&& text_held(b, 41, 2, text_at(body, 23, 2))
    &&& int_at(b, 43, 8) == now
    &&& text_held(b, 51, 8, text_at(body, 33, 8))
    &&& text_held(b, 59, 10, text_at(body, 41, 10))
    &&& text_held(b, 69, 12, text_at(body, 51, 12))
    &&& text_held(b, 81, 10, text_at(body, 63, 10))
    &&& nat_at(b, 91, 2) == 0
    &&& nat_at(b, 93, 2) == 0
    &&& nat_at(b, 95, 1) == nat_at(body, 73, 1)
    &&& int_at(b, 96, 8) == int_at(body, 74, 8)
    &&& int_at(b, 104, 8) == int_at(body, 82, 8)
    &&& int_at(b, 112, 8) == int_at(body, 90, 8)
    &&& int_at(b, 120, 8) == int_at(body, 98, 8)
}

/// What the quote of an agreed trade leads to, from the bytes that the client sent to those
/// that it gets. One that is too short leads to nothing; one whose business is not done on the
/// platform is refused with the code 20108 and counted as refused; and any other is accepted
/// in the partition of its security, and takes an order number and an execution number.
#[verifier::spinoff_prover]
#[verifier::rlimit(40)]
pub proof fn law_quote_is_answered(
    cfg: PlatformConfig,
    body: Seq<u8>,
    now: i64,
    before: PlatformStats,
    after: PlatformStats,
    step: StepView,
)
    requires
        session::is_quote_step(cfg, body, now, before, after, step),
    ensures
        if body.len() < 313 {
            step is Quiet && after == before
        } else {
            &&& step matches StepView::Reply(replies)
            &&& replies.len() == 1
            &&& if strategy::platform_of(text::trimmed(text_at(body, 0, 3))) == Some(
                cfg.platform_type,
            ) {
                &&& is_quote_state(
                    replies[0],
                    body,
                    config::partition_of(cfg.partition_list(), text_at(body, 9, 8)) as i32,
                    now,
                )
                &&& after.counters() == before.counters()
                &&& after.order_seq == before.order_seq + 1
                &&& after.exec_seq == before.exec_seq + 1
            } else {
                &&& is_business_rejection(
                    replies[0],
                    text::trimmed(text_at(body, 0, 3)),
                    now,
                    text_at(body, 3, 6),
                    text_at(body, 9, 8),
                    text_at(body, 17, 4),
                    100_505,
                    text_at(body, 41, 10),
                    20_108,
                    "平台非法-委托申报的平台错误,例如向现货集中竞价平台申报发行认购业务的委托"@,
                )
                &&& counts_only(before.counters(), after.counters(), 0, 1, 0)
                &&& after.order_seq == before.order_seq
                &&& after.exec_seq == before.exec_seq
            }
        },
{
    if body.len() >= 313 {
        let q = choose|q: filings::Quote|
            #[trigger] filings::is_agreement_quote(q, body) && session::is_quote_answer(
                cfg,
                q,
                now,
                before,
                after,
                step,
            );
        if session::on_platform(q.appl_id@, cfg.platform_type) {
            let r = choose|r: filings::QuoteStatusReport|
                #[trigger] filings::is_quote_accepted(
                    r,
                    q,
                    200_506,
                    config::partition_of(cfg.partition_list(), q.security_id@) as i32,
                    stats::id_text(before.order_seq + 1),
                    stats::id_text(before.exec_seq + 1),
                    now,
                ) && step == StepView::Reply(
                    seq![protocol::framed(200_506, filings::quote_status_body(r))],
                );
            fields::law_quote_status_fields(r);
        } else {
            fields::law_business_rejection_fields(
                session::platform_reject(
                    session::FilingView {
                        msg_type: 100_505,
                        appl_id: q.appl_id@,
                        ref_id: q.quote_msg_id@,
                        submitting_pbu_id: q.submitting_pbu_id@,
                        security_id: q.security_id@,
                        security_id_source: q.security_id_source@,
                    },
                    now,
                ),
            );
        }
    }
}

/// What becomes of a message on its way out. A report, whose type has six digits and starts
/// with a 2, gets the index that follows the last of its partition, where it has none yet; but
/// for the index and the check value it stays as it is, and its length and check value are
/// right. Any other message stays as it is. The index is used up in its own partition and in
/// no other.
pub proof fn law_report_gets_next_index(indices: Map<i32, i64>, f: Seq<u8>, p: i32)
    requires
        protocol::well_framed(f),
        f.len() >= 24,
        session::index_left(indices, f),
    ensures
        ({
            let g = session::as_sent(indices, f);
            let after = session::indices_after(indices, f);
            let mt = nat_at(f, 0, 4);
            let part = int_at(f, 8, 4);
            if 200_000 <= mt <= 299_999 && int_at(f, 12, 8) == 0 {
                &&& g.len() == f.len()
                &&& int_at(g, 12, 8) == stats::end_index(indices, part as i32) + 1
                &&& forall|i: int|
                    0 <= i < f.len() - 4 && !(12 <= i < 20) ==> #[trigger] g[i] == f[i]
                &&& nat_at(g, g.len() - 4, 4) == wire::byte_sum(g.subrange(0, g.len() - 4)) % 256
                &&& stats::end_index(after, part as i32) == int_at(g, 12, 8)
                &&& p != part ==> stats::end_index(after, p) == stats::end_index(indices, p)
            } else {
                g == f && after == indices
            }
        }),
{
    wire::lemma_pow256_values();
    wire::lemma_be_nat_bound(f.subrange(0, 4));
    lemma_int_range(f.subrange(8, 12), 4);
    lemma_int_range(f.subrange(12, 20), 8);
    if session::needs_index(f) {
        protocol::law_report_index(
            f,
            (stats::end_index(indices, session::partition_in(f)) + 1) as i64,
        );
    }
}

/// Signed numbers of 4 and of 8 bytes have room in as many bits.
proof fn lemma_int_range(s: Seq<u8>, n: nat)
    requires
        s.len() == n,
        n == 4 || n == 8,
    ensures
        n == 4 ==> i32::MIN <= wire::be_int(s) <= i32::MAX,
        n == 8 ==> i64::MIN <= wire::be_int(s) <= i64::MAX,
{
    wire::lemma_pow256_values();
    wire::lemma_be_nat_bound(s);
    wire::lemma_be_int_range(s);
}

/// How long a connection may be silent: three heartbeat intervals, but never less than ten
/// seconds.
pub proof fn law_idle_limit(hb_secs: u64)
    ensures
        session::idle_limit(hb_secs) >= 10,
        session::idle_limit(hb_secs) >= 3 * hb_secs,
        session::idle_limit(hb_secs) == 10 || session::idle_limit(hb_secs) == 3 * hb_secs,
{
}

/// Which messages do what. A heartbeat, and a message whose type means nothing here, do
/// nothing at all; a logout is confirmed with the status 4, and the connection ends. After the
/// logon an order that can be read is always answered, unless its numbers have no room, and so
/// are a request to cancel and a quote; and none of them changes the connection.
#[verifier::spinoff_prover]
#[verifier::rlimit(40)]
pub proof fn law_messages_by_type(
    ctx: SessionCtx,
    sess: Session,
    conn_id: u64,
    mt: u32,
    body: Seq<u8>,
    now: LocalTime,
    ctx_after: SessionCtx,
    sess_after: Session,
    step: StepView,
)
    requires
        session::is_step(ctx, sess, conn_id, mt, body, now, ctx_after, sess_after, step),
    ensures
        mt == 3 || mt == 0 || mt == 4 || 6 <= mt <= 99_999 || mt >= 200_000 ==> step is Quiet
            && ctx_after == ctx && sess_after == sess,
        mt == 2 ==> {
            &&& step matches StepView::Close(Some(f))
            &&& is_message(f, 2, 204)
            &&& int_at(body_of(f), 0, 4) == 4
            &&& text_held(body_of(f), 4, 200, "会话退登完成"@)
            &&& ctx_after == ctx
            &&& sess_after == sess
        },
        mt != 1 ==> sess_after == sess,
        mt == 1 ==> ctx_after.stats == ctx.stats && ctx_after.orders == ctx.orders,
        sess.logged_on && protocol::new_order_type(mt) ==> (body.len() < 89 <==> step is Quiet),
        sess.logged_on && mt == 190_007 ==> (body.len() < 86 <==> step is Quiet),
        sess.logged_on && mt == 100_505 ==> (body.len() < 313 <==> step is Quiet),
        ctx_after.cfg == ctx.cfg,
        ctx_after.strategy == ctx.strategy,
        ctx_after.recorders == ctx.recorders,
        ctx_after.stats.partition_report_index@ == ctx.stats.partition_report_index@,
{
    fields::law_logout_fields(LogoutView { session_status: 4, text: "会话退登完成"@ });
    reveal(strategy::may_plan);
}

} // verus!
