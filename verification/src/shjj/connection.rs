//! What a client of a Shanghai auction platform is told about its connection, read out of the
//! messages that it gets: the answers to its logon and to its requests for reports.
use vstd::prelude::*;

use super::fields;
use super::fields::{body_of, is_message};
use super::protocol;
use super::protocol::{LogonView, LogoutView, SyncGroupView, SyncRspGroupView};
use super::session;
use super::session::SessionView;
use crate::capture;
use crate::capture::ConnRecorder;
use crate::clock::LocalTime;
use crate::config::PlatformConfig;
use crate::stats;
use crate::step;
use crate::step::StepView;
use crate::sz::session::{partitions, SessionCtx};
use crate::wire;
use crate::wire::{nat_at, nil, text_held, with_nat, with_text};

verus! {

/// Partition numbers stand one behind the other, four bytes each.
proof fn lemma_sets(body: Seq<u8>, sets: Seq<u32>) -> (r: Seq<u8>)
    ensures
        r == body + protocol::set_bytes(sets),
        r.len() == body.len() + 4 * sets.len(),
        forall|i: int|
            0 <= i < sets.len() ==> nat_at(r, body.len() + 4 * i, 4) == #[trigger] sets[i],
        forall|a: int, b: int|
            0 <= a <= b <= body.len() ==> #[trigger] r.subrange(a, b) == body.subrange(a, b),
    decreases sets.len(),
{
    wire::lemma_pow256_values();
    if sets.len() == 0 {
        assert(body + nil() =~= body);
        body
    } else {
        let front = sets.drop_last();
        let c = lemma_sets(body, front);
        let r = with_nat(c, sets.last() as int, 4);
        assert(r =~= body + protocol::set_bytes(sets));
        assert forall|i: int| 0 <= i < sets.len() implies nat_at(r, body.len() + 4 * i, 4)
            == #[trigger] sets[i] by {
            if i < front.len() {
                assert(front[i] == sets[i]);
                assert(r.subrange(body.len() + 4 * i, body.len() + 4 * i + 4) == c.subrange(
                    body.len() + 4 * i,
                    body.len() + 4 * i + 4,
                ));
            }
        }
        assert forall|a: int, b: int| 0 <= a <= b <= body.len() implies #[trigger] r.subrange(a, b)
            == body.subrange(a, b) by {
            assert(r.subrange(a, b) == c.subrange(a, b));
        }
        r
    }
}

/// The heartbeat interval: 30 seconds where none is asked for, and else what is asked for, but
/// at least 5 and at most 60 seconds.
pub open spec fn is_interval(asked: u16, secs: int) -> bool {
    &&& asked == 0 ==> secs == 30
    &&& 1 <= asked < 5 ==> secs == 5
    &&& 5 <= asked <= 60 ==> secs == asked
    &&& asked > 60 ==> secs == 60
}

/// A message that tells the partitions in which a trading unit gets reports.
pub open spec fn tells_partitions(
    f: Seq<u8>,
    platform_type: u16,
    unit: Seq<char>,
    parts: Seq<i32>,
) -> bool {
    let b = body_of(f);
    &&& is_message(f, 208, 14 + 4 * parts.len() as int)
    &&& nat_at(b, 0, 2) == platform_type
    &&& nat_at(b, 2, 2) == 1
    &&& text_held(b, 4, 8, unit)
    &&& nat_at(b, 12, 2) == parts.len()
    &&& forall|i: int|
        0 <= i < parts.len() && parts[i] >= 0 ==> nat_at(b, 14 + 4 * i, 4) == #[trigger] parts[i]
}

#[verifier::spinoff_prover]
#[verifier::rlimit(40)]
proof fn lemma_unit_info(cfg: PlatformConfig, unit: Seq<char>)
    requires
        partitions(cfg).len() < 65_536,
    ensures
        tells_partitions(
            protocol::framed(
                208,
                nil() + wire::be(cfg.platform_type as int, 2) + wire::be(1, 2) + (nil()
                    + wire::text_field(unit, 8) + wire::be(session::set_ids(cfg).len() as int, 2)
                    + protocol::set_bytes(session::set_ids(cfg))),
            ),
            cfg.platform_type,
            unit,
            partitions(cfg),
        ),
{
    wire::lemma_pow256_values();
    let sets = session::set_ids(cfg);
    let a = with_nat(nil(), cfg.platform_type as int, 2);
    let a = with_nat(a, 1, 2);
    let b = with_text(a, unit, 8);
    let b = with_nat(b, sets.len() as int, 2);
    let info = lemma_sets(b, sets);
    fields::law_framed_body(208, info);
    assert(info.subrange(0, 2) == b.subrange(0, 2));
    assert(info.subrange(2, 4) == b.subrange(2, 4));
    assert(info.subrange(4, 12) == b.subrange(4, 12));
    assert(info.subrange(12, 14) == b.subrange(12, 14));
    assert(info =~= nil() + wire::be(cfg.platform_type as int, 2) + wire::be(1, 2) + (nil()
        + wire::text_field(unit, 8) + wire::be(session::set_ids(cfg).len() as int, 2)
        + protocol::set_bytes(session::set_ids(cfg))));
    assert forall|i: int| 0 <= i < partitions(cfg).len() && partitions(cfg)[i] >= 0 implies nat_at(
        info,
        14 + 4 * i,
        4,
    ) == #[trigger] partitions(cfg)[i] by {
        assert(sets[i] == partitions(cfg)[i] as u32);
    }
}

/// What a logon leads to, as the client reads it. One that cannot be read ends the connection
/// without an answer. Any other is answered by a logon with the names turned round and the
/// interval that is used, by the state of the platform, which is open, and by the partitions
/// in which the trading unit gets reports: the unit is named by the first eight characters of
/// the client's name. Whether the client has told which reports it has does not change, and
/// neither do the reports that wait.
#[verifier::spinoff_prover]
#[verifier::rlimit(40)]
pub proof fn law_logon_is_answered(
    cfg: PlatformConfig,
    sess: SessionView,
    body: Seq<u8>,
    date: u32,
)
    requires
        partitions(cfg).len() < 65_536,
    ensures
        ({
            let (step, after) = session::logon_step(cfg, sess, body, date);
            let l = LogonView::of(body);
            if body.len() < 82 {
                step == StepView::Close(None) && after == sess
            } else {
                &&& step matches StepView::LoggedOn { replies, comp_id }
                &&& comp_id == l.sender_comp_id
                &&& after.logged_on
                &&& after.synced == sess.synced
                &&& after.pending == sess.pending
                &&& is_interval(l.heart_bt_int, after.hb_secs as int)
                &&& l.sender_comp_id.len() <= 8 ==> after.pbu == l.sender_comp_id
                &&& l.sender_comp_id.len() > 8 ==> after.pbu == l.sender_comp_id.take(8)
                &&& replies.len() == 3
                &&& is_logon_reply(replies[0], cfg, l, after.hb_secs as int, date)
                &&& tells_open(replies[1], cfg.platform_type)
                &&& tells_partitions(replies[2], cfg.platform_type, after.pbu, partitions(cfg))
            }
        }),
{
    let l = LogonView::of(body);
    lemma_logon_reply(cfg, l, date);
    lemma_tells_open(cfg.platform_type);
    lemma_unit_info(cfg, session::unit_of(l.sender_comp_id));
    if l.sender_comp_id.len() > 8 {
        assert(l.sender_comp_id.take(8) =~= l.sender_comp_id.subrange(0, 8));
    }
}

/// The logon that answers a logon.
pub open spec fn is_logon_reply(
    f: Seq<u8>,
    cfg: PlatformConfig,
    l: LogonView,
    secs: int,
    date: u32,
) -> bool {
    let b = body_of(f);
    &&& is_message(f, 40, 82)
    &&& text_held(b, 0, 32, cfg.comp_id@)
    &&& text_held(b, 32, 32, l.sender_comp_id)
    &&& nat_at(b, 64, 2) == secs
    &&& l.prtcl_version.len() > 0 ==> text_held(b, 66, 8, l.prtcl_version)
    &&& l.prtcl_version.len() == 0 ==> text_held(b, 66, 8, "0.50"@)
    &&& nat_at(b, 74, 4) == date
    &&& nat_at(b, 78, 4) == l.qsize
}

proof fn lemma_logon_reply(cfg: PlatformConfig, l: LogonView, date: u32)
    ensures
        is_logon_reply(
            protocol::framed(40, session::logon_reply(cfg, l, date).body()),
            cfg,
            l,
            session::interval(l.heart_bt_int),
            date,
        ),
{
    fields::law_logon_fields(session::logon_reply(cfg, l, date));
}

/// A message that tells that a platform is open.
pub open spec fn tells_open(f: Seq<u8>, platform_type: u16) -> bool {
    let b = body_of(f);
    &&& is_message(f, 209, 4)
    &&& nat_at(b, 0, 2) == platform_type
    &&& nat_at(b, 2, 2) == 2
}

proof fn lemma_tells_open(platform_type: u16)
    ensures
        tells_open(
            protocol::framed(209, nil() + wire::be(platform_type as int, 2) + wire::be(2, 2)),
            platform_type,
        ),
{
    wire::lemma_pow256_values();
    let b = with_nat(nil(), platform_type as int, 2);
    let b = with_nat(b, 2, 2);
    fields::law_framed_body(209, b);
}

/// The answer on the `i`-th partition of a request, in the 96 bytes that it takes: it repeats
/// the request and tells the last report of the partition.
pub open spec fn tells_end(b: Seq<u8>, i: int, g: SyncGroupView, end: int) -> bool {
    let at = 2 + 96 * i;
    &&& text_held(b, at, 8, g.pbu)
    &&& nat_at(b, at + 8, 4) == g.set_id
    &&& nat_at(b, at + 12, 8) == g.begin_report_index
    &&& nat_at(b, at + 20, 8) == end
    &&& nat_at(b, at + 28, 4) == 0
    &&& text_held(b, at + 32, 64, "OK"@)
}

/// What is held in the bytes of one partition of an answer.
pub open spec fn holds_group(b: Seq<u8>, at: int, g: SyncRspGroupView) -> bool {
    &&& text_held(b, at, 8, g.pbu)
    &&& nat_at(b, at + 8, 4) == g.set_id
    &&& nat_at(b, at + 12, 8) == g.begin_report_index
    &&& nat_at(b, at + 20, 8) == g.end_report_index
    &&& nat_at(b, at + 28, 4) == g.rej_reason
    &&& text_held(b, at + 32, 64, g.text)
}

proof fn lemma_holds_group(b: Seq<u8>, c: Seq<u8>, at: int, g: SyncRspGroupView)
    requires
        0 <= at,
        at + 96 <= b.len(),
        at + 96 <= c.len(),
        b.subrange(at, at + 96) == c.subrange(at, at + 96),
        holds_group(b, at, g),
    ensures
        holds_group(c, at, g),
{
    assert forall|x: int, y: int| 0 <= x <= y <= 96 implies #[trigger] b.subrange(at + x, at + y)
        == c.subrange(at + x, at + y) by {
        assert(b.subrange(at + x, at + y) =~= b.subrange(at, at + 96).subrange(x, y));
        assert(c.subrange(at + x, at + y) =~= c.subrange(at, at + 96).subrange(x, y));
    }
    assert(b.subrange(at + 0, at + 8) == c.subrange(at + 0, at + 8));
    assert(b.subrange(at + 8, at + 12) == c.subrange(at + 8, at + 12));
    assert(b.subrange(at + 12, at + 20) == c.subrange(at + 12, at + 20));
    assert(b.subrange(at + 20, at + 28) == c.subrange(at + 20, at + 28));
    assert(b.subrange(at + 28, at + 32) == c.subrange(at + 28, at + 32));
    assert(b.subrange(at + 32, at + 96) == c.subrange(at + 32, at + 96));
}

#[verifier::spinoff_prover]
#[verifier::rlimit(40)]
proof fn lemma_groups(body: Seq<u8>, groups: Seq<SyncRspGroupView>) -> (r: Seq<u8>)
    ensures
        r == body + protocol::sync_rsp_bytes(groups),
        r.len() == body.len() + 96 * groups.len(),
        forall|i: int|
            0 <= i < groups.len() ==> holds_group(r, body.len() + 96 * i, #[trigger] groups[i]),
        forall|a: int, b: int|
            0 <= a <= b <= body.len() ==> #[trigger] r.subrange(a, b) == body.subrange(a, b),
    decreases groups.len(),
{
    wire::lemma_pow256_values();
    if groups.len() == 0 {
        assert(body + nil() =~= body);
        body
    } else {
        let front = groups.drop_last();
        let g = groups.last();
        let c = lemma_groups(body, front);
        let d = with_text(c, g.pbu, 8);
        let d = with_nat(d, g.set_id as int, 4);
        let d = with_nat(d, g.begin_report_index as int, 8);
        let d = with_nat(d, g.end_report_index as int, 8);
        let d = with_nat(d, g.rej_reason as int, 4);
        let r = with_text(d, g.text, 64);
        assert(r =~= body + protocol::sync_rsp_bytes(groups));
        assert(holds_group(r, body.len() + 96 * (groups.len() - 1), g));
        assert forall|i: int| 0 <= i < groups.len() implies holds_group(
            r,
            body.len() + 96 * i,
            #[trigger] groups[i],
        ) by {
            if i < front.len() {
                assert(front[i] == groups[i]);
                let at = body.len() + 96 * i;
                assert(r.subrange(at, at + 96) == c.subrange(at, at + 96));
                lemma_holds_group(c, r, at, groups[i]);
            }
        }
        assert forall|a: int, b: int| 0 <= a <= b <= body.len() implies #[trigger] r.subrange(a, b)
            == body.subrange(a, b) by {
            assert(r.subrange(a, b) == c.subrange(a, b));
        }
        r
    }
}

/// What a request for reports leads to, as the client reads it. One that cannot be read leads
/// to nothing. Any other is answered, partition by partition, by the last report that there
/// is; then come the reports that it wants, as they were sent, and no others, and behind them
/// those that have waited, after which none wait. From now on reports go out at once.
#[verifier::spinoff_prover]
#[verifier::rlimit(40)]
pub proof fn law_request_is_answered(
    m: Map<i32, i64>,
    recorders: Seq<ConnRecorder>,
    body: Seq<u8>,
    sess: SessionView,
    after: SessionView,
    step: StepView,
)
    requires
        session::is_sync_step(m, recorders, body, sess, after, step),
        forall|p: i32| #[trigger] m.contains_key(p) ==> m[p] >= 0,
    ensures
        ({
            let n = nat_at(body, 0, 2);
            let groups = protocol::sync_groups(body);
            let sent = capture::all_sent(recorders);
            let wanted = session::wanted_of(groups);
            if body.len() < 2 || body.len() < 2 + 20 * n {
                step is Quiet && after == sess
            } else {
                &&& groups.len() == n
                &&& wanted.len() == n
                &&& step matches StepView::Resumed { replies, reports }
                &&& reports == sess.pending
                &&& after.synced
                &&& after.pending.len() == 0
                &&& after.hb_secs == sess.hb_secs
                &&& after.logged_on == sess.logged_on
                &&& after.pbu == sess.pbu
                &&& replies.len() >= 1
                &&& is_message(replies[0], 207, 2 + 96 * n)
                &&& nat_at(body_of(replies[0]), 0, 2) == n
                &&& forall|i: int|
                    0 <= i < n ==> tells_end(
                        body_of(replies[0]),
                        i,
                        #[trigger] groups[i],
                        stats::end_index(m, groups[i].set_id as i32),
                    )
                &&& forall|i: int|
                    0 <= i < n ==> {
                        let w = #[trigger] wanted[i];
                        &&& groups[i].set_id <= 0x7fff_ffff ==> w.partition_no == groups[i].set_id
                        &&& groups[i].begin_report_index <= 0x7fff_ffff_ffff_ffff
                            ==> w.report_index == groups[i].begin_report_index
                    }
                &&& forall|i: int, index: i64| #[trigger]
                    step::is_wanted(sent, wanted, i, index) ==> replies.drop_first().contains(
                        sent[(wanted[i].partition_no, index)],
                    )
                &&& forall|k: int|
                    1 <= k < replies.len() ==> step::is_resent(sent, wanted, #[trigger] replies[k])
            }
        }),
{
    wire::lemma_pow256_values();
    wire::lemma_be_nat_bound(body.subrange(0, 2));
    if protocol::sync_complete(body) {
        let n = nat_at(body, 0, 2);
        let groups = protocol::sync_groups(body);
        let answers = session::sync_answers(m, groups);
        let replies = step->Resumed_replies;
        let b = with_nat(nil(), n, 2);
        let b = lemma_groups(b, answers);
        fields::law_framed_body(207, b);
        assert forall|i: int| 0 <= i < n implies tells_end(
            body_of(replies[0]),
            i,
            #[trigger] groups[i],
            stats::end_index(m, groups[i].set_id as i32),
        ) by {
            assert(holds_group(b, 2 + 96 * i, answers[i]));
        }
        let out = replies.drop_first();
        step::law_wanted_reports_are_resent(
            capture::all_sent(recorders),
            session::wanted_of(groups),
            out,
        );
        assert forall|k: int| 1 <= k < replies.len() implies step::is_resent(
            capture::all_sent(recorders),
            session::wanted_of(groups),
            #[trigger] replies[k],
        ) by {
            assert(out[k - 1] == replies[k]);
        }
    }
}

/// What becomes of a message on its way out: it gets its number in the connection. A report,
/// which has one of four types, also gets the index that follows the last of its partition,
/// where it has none yet. But for these and the check value it stays as it is, and its length
/// and check value are right. The index is used up in its own partition and in no other.
#[verifier::spinoff_prover]
#[verifier::rlimit(40)]
pub proof fn law_message_is_numbered(indices: Map<i32, i64>, f: Seq<u8>, seq: u64, p: i32)
    requires
        protocol::well_framed(f),
        f.len() >= 40,
        session::index_left(indices, f, seq),
    ensures
        ({
            let g = session::as_sent(indices, f, seq);
            let after = session::indices_after(indices, f, seq);
            let mt = nat_at(f, 0, 4);
            let part = session::partition_in(f);
            let report = (mt == 32 || mt == 59 || mt == 103 || mt == 302) && nat_at(f, 28, 8) == 0;
            &&& g.len() == f.len()
            &&& nat_at(g, 4, 8) == seq
            &&& forall|i: int|
                0 <= i < f.len() - 4 && !(4 <= i < 12) && !(28 <= i < 36) ==> #[trigger] g[i]
                    == f[i]
            &&& nat_at(g, g.len() - 4, 4) == wire::byte_sum(g.subrange(0, g.len() - 4)) % 256
            &&& nat_at(f, 24, 4) <= 0x7fff_ffff ==> part == nat_at(f, 24, 4)
            &&& if report {
                &&& nat_at(g, 28, 8) == stats::end_index(indices, part) + 1
                &&& stats::end_index(after, part) == nat_at(g, 28, 8)
                &&& p != part ==> stats::end_index(after, p) == stats::end_index(indices, p)
            } else {
                &&& nat_at(g, 28, 8) == nat_at(f, 28, 8)
                &&& after == indices
            }
        }),
{
    wire::lemma_pow256_values();
    wire::lemma_be_nat_bound(f.subrange(0, 4));
    wire::lemma_be_nat_bound(f.subrange(24, 28));
    wire::lemma_be_nat_bound(f.subrange(28, 36));
    let h = session::finished(f, seq);
    wire::lemma_be_len(seq as int, 8);
    wire::lemma_be_nat_inverse(seq as int, 8);
    wire::lemma_resealed(wire::overlaid(f, 4, wire::be(seq as int, 8)));
    assert(h.len() == f.len());
    assert(h.subrange(0, 4) =~= f.subrange(0, 4));
    assert(h.subrange(4, 12) =~= wire::be(seq as int, 8));
    assert(h.subrange(12, 16) =~= f.subrange(12, 16));
    assert(h.subrange(24, 28) =~= f.subrange(24, 28));
    assert(h.subrange(28, 36) =~= f.subrange(28, 36));
    let v = nat_at(f, 28, 8) as u64;
    assert(v as i64 == 0 <==> v == 0) by (bit_vector);
    if session::needs_index(h) {
        let n = (stats::end_index(indices, session::partition_in(h)) + 1) as i64;
        protocol::law_report_index(h, n as u64);
        let g = session::as_sent(indices, f, seq);
        assert(g.subrange(4, 12) =~= h.subrange(4, 12));
    }
    let g = session::as_sent(indices, f, seq);
    assert(nat_at(g, 4, 8) == seq);
    assert(g.len() == f.len());
    assert forall|i: int|
        0 <= i < f.len() - 4 && !(4 <= i < 12) && !(28 <= i < 36) implies #[trigger] g[i] == f[i] by {
        assert(h.subrange(0, f.len() - 4)[i] == h[i]);
    }
    assert(nat_at(g, g.len() - 4, 4) == wire::byte_sum(g.subrange(0, g.len() - 4)) % 256);
    assert(nat_at(f, 24, 4) <= 0x7fff_ffff ==> session::partition_in(f) == nat_at(f, 24, 4));
    assert(session::partition_in(h) == session::partition_in(f));
    assert(session::needs_index(h) <==> (nat_at(f, 0, 4) == 32 || nat_at(f, 0, 4) == 59 || nat_at(
        f,
        0,
        4,
    ) == 103 || nat_at(f, 0, 4) == 302) && nat_at(f, 28, 8) == 0);
}

/// How long a connection may be silent: three heartbeat intervals, but never less than 15
/// seconds.
pub proof fn law_idle_limit(hb_secs: u64)
    ensures
        session::idle_limit(hb_secs) >= 15,
        session::idle_limit(hb_secs) >= 3 * hb_secs,
        session::idle_limit(hb_secs) == 15 || session::idle_limit(hb_secs) == 3 * hb_secs,
{
}

/// Which messages do what. A heartbeat, and a message whose type means nothing here, do
/// nothing at all; a logout is confirmed with the status 0, and the connection ends. Only a
/// request for reports makes reports go out at once from then on. A registration that is
/// registered takes an order number, and neither it nor a request of the password service
/// counts as an order.
#[verifier::spinoff_prover]
#[verifier::rlimit(40)]
pub proof fn law_messages_by_type(
    ctx: SessionCtx,
    sess: SessionView,
    conn_id: u64,
    mt: u32,
    body: Seq<u8>,
    now: LocalTime,
    ctx_after: SessionCtx,
    sess_after: SessionView,
    step: StepView,
)
    requires
        session::is_step(ctx, sess, conn_id, mt, body, now, ctx_after, sess_after, step),
    ensures
        mt == 33 || !known_type(mt) ==> step is Quiet && ctx_after == ctx && sess_after == sess,
        mt == 41 ==> {
            &&& step matches StepView::Close(Some(f))
            &&& is_message(f, 41, 68)
            &&& nat_at(body_of(f), 0, 4) == 0
            &&& text_held(body_of(f), 4, 64, "Normal Logout"@)
            &&& ctx_after == ctx
            &&& sess_after == sess
        },
        mt != 40 ==> sess_after.logged_on == sess.logged_on && sess_after.pbu == sess.pbu
            && sess_after.hb_secs == sess.hb_secs,
        mt != 206 ==> sess_after.synced == sess.synced,
        mt == 40 || mt == 206 ==> ctx_after.stats == ctx.stats && ctx_after.orders == ctx.orders,
        sess.logged_on && mt == 206 ==> (body.len() >= 2 && body.len() >= 2 + 20 * nat_at(
            body,
            0,
            2,
        ) <==> step is Resumed),
        mt == 301 || mt == 306 ==> {
            &&& ctx_after.stats.counters() == ctx.stats.counters()
            &&& ctx_after.orders == ctx.orders
            &&& ctx_after.stats.exec_seq == ctx.stats.exec_seq
            &&& mt == 306 ==> ctx_after.stats.order_seq == ctx.stats.order_seq
        },
        sess.logged_on && mt == 301 ==> (body.len() < 108 <==> step is Quiet),
        sess.logged_on && mt == 306 ==> (body.len() < 105 <==> step is Quiet),
        ctx_after.cfg == ctx.cfg,
        ctx_after.strategy == ctx.strategy,
        ctx_after.recorders == ctx.recorders,
{
    fields::law_logout_fields(LogoutView { session_status: 0, text: "Normal Logout"@ });
}

/// The types of messages that a client may send.
pub open spec fn known_type(mt: u32) -> bool {
    ||| mt == 33
    ||| mt == 40
    ||| mt == 41
    ||| mt == 58
    ||| mt == 61
    ||| mt == 206
    ||| mt == 301
    ||| mt == 306
}

} // verus!
