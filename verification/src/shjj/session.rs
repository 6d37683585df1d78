//! The connections of clients to a Shanghai auction platform: what a message that arrives
//! leads to, and what happens to a message on its way out.
//!
//! After the logon a client tells which reports it has, and gets those that it lacks. Until
//! then no report goes out: reports that orders and cancel requests give rise to wait.
use vstd::prelude::*;

use super::protocol;
use super::protocol::{
    designation_instruction, exec_type, msg_type, ord_status, platform_state, CancelOrder,
    CancelOrderView, CancelReject, CancelRejectView, ExecRpt, ExecRptView, ExtendFields, Logon,
    LogonView, Logout, LogoutView, NewOrder, NewOrderView, PasswordServiceOrder,
    PasswordServiceOrderView, PasswordServiceRsp, PasswordServiceRspView, RegistrationOrder,
    RegistrationOrderView, RegistrationRpt, RegistrationRptView, SyncGroup, SyncGroupView,
    SyncRspGroup, SyncRspGroupView,
};
use super::strategy;
use crate::capture;
use crate::capture::{ConnRecorder, Dir, ParsedField, SeqSource};
use crate::clock;
use crate::clock::LocalTime;
use crate::config::{partition_of, PlatformConfig, StrategyConfig};
use crate::fills;
use crate::orderbook;
use crate::orderbook::{OrderBook, OrderEntry, OrderStatus, OrderUpdate, OrderUpdateView};
use crate::report;
use crate::report::{PlannedReport, PlannedReportView, ReportKind};
use crate::stats;
use crate::stats::{PlatformStats, StatsSnapshot};
use crate::step::{frames, is_resend, reply_with, resend_all};
use crate::sz::protocol::SyncPartition;
use crate::sz::session as shared;
use crate::sz::session::{
    cancel_named, find_named, is_logged_on, is_noted, kept, named_order, names_inflight, one_more_cancel,
    one_more_order, orders_cancelled, orders_wf, partition_vec, partitions, SessionCtx,
};
use crate::text;
use crate::wire;

pub use super::manual::build_manual_report;
pub use crate::manual::ManualReportKind;
pub use crate::step::{Step, StepView};
pub use crate::sz::session::join_frame;

verus! {

/// The longest body that is read.
pub const MAX_BODY: u32 = 8_388_608;

/// A length that is too great to be meant.
#[derive(Debug, Clone, Copy, PartialEq, Eq, Structural)]
pub struct BadLength {
    pub len: u32,
}

impl BadLength {
    /// What the error says.
    pub fn message(&self) -> (r: String)
        ensures
            r@ == "消息体长度非法: "@ + text::dec(self.len as nat),
    {
        let mut out = "消息体长度非法: ".to_owned();
        text::push_dec(&mut out, self.len as u64);
        out
    }
}

/// Reads the head of a message: its type and the length of its body.
pub fn parse_head(head: &[u8]) -> (r: Result<(u32, u32), BadLength>)
    requires
        head@.len() == 16,
    ensures
        match r {
            Ok((mt, len)) => mt == wire::nat_at(head@, 0, 4) && len == wire::nat_at(head@, 12, 4)
                && len <= MAX_BODY,
            Err(e) => e.len == wire::nat_at(head@, 12, 4) && e.len > MAX_BODY,
        },
{
    let mt: u64 = wire::read_be(head, 0, 4);
    let len: u64 = wire::read_be(head, 12, 4);
    proof {
        wire::lemma_pow256_values();
    }
    if len > MAX_BODY as u64 {
        return Err(BadLength { len: len as u32 });
    }
    Ok((mt as u32, len as u32))
}

/// A message that was framed is read back: its head gives its type and the length of its
/// body, and its check value is right.
pub proof fn law_framed_is_read(mt: u32, seq: u64, body: Seq<u8>)
    requires
        body.len() <= MAX_BODY,
    ensures
        ({
            let f = protocol::framed_as(mt, seq, body);
            let n = body.len() as int;
            &&& wire::nat_at(f.subrange(0, 16), 0, 4) == mt
            &&& wire::nat_at(f.subrange(0, 16), 12, 4) == n
            &&& f.subrange(16, 16 + n) == body
            &&& wire::nat_at(f.subrange(16 + n, 20 + n), 0, 4) == wire::check_sum(
                f.subrange(0, 16) + body,
            )
        }),
{
    let f = protocol::framed_as(mt, seq, body);
    let n = body.len() as int;
    protocol::law_framed(mt, seq, body);
    let head = f.subrange(0, 16);
    let tail = f.subrange(16 + n, 20 + n);
    assert(head.subrange(0, 4) =~= f.subrange(0, 4));
    assert(head.subrange(12, 16) =~= f.subrange(12, 16));
    assert(tail.subrange(0, 4) =~= f.subrange(f.len() - 4, f.len() as int));
    assert(head + body =~= f.subrange(0, f.len() - 4));
}

/// How many seconds may pass without a message: three intervals, at least 15 seconds.
pub open spec fn idle_limit(hb_secs: u64) -> int {
    if hb_secs * 3 < 15 {
        15
    } else {
        hb_secs * 3
    }
}

/// How many seconds may pass without a message.
pub fn idle_secs(hb_secs: u64) -> (r: u64)
    requires
        hb_secs <= 60,
    ensures
        r == idle_limit(hb_secs),
{
    let t: u64 = hb_secs * 3;
    if t < 15 {
        15
    } else {
        t
    }
}

/// The fields that are shown of a message.
pub open spec fn shown_fields(mt: u32, body: Seq<u8>) -> Seq<(Seq<char>, Seq<char>)> {
    match protocol::described(mt, body) {
        Some((fields, _)) => fields,
        None => Seq::empty(),
    }
}

/// Captures a message that was received.
pub fn capture_recv(
    rec: &mut ConnRecorder,
    source: &mut SeqSource,
    mt: u32,
    body: &[u8],
    raw: &[u8],
    now: &LocalTime,
)
    requires
        old(rec).wf(),
        old(source).last < u64::MAX,
        now.wf(),
    ensures
        capture::captured(
            *old(rec),
            *final(rec),
            *old(source),
            *final(source),
            Dir::Recv,
            raw@,
            shown_fields(mt, body@),
            *now,
        ),
        final(rec).sent() == old(rec).sent(),
{
    let fields = protocol::describe_fields(mt, body);
    assert(capture::field_views(fields@) =~= shown_fields(mt, body@));
    rec.record(source, Dir::Recv, raw, fields, now);
}

/// The type of a message.
pub open spec fn frame_type(f: Seq<u8>) -> u32 {
    wire::nat_at(f, 0, 4) as u32
}

fn type_of_frame(f: &[u8]) -> (r: u32)
    requires
        f@.len() >= 4,
    ensures
        r == frame_type(f@),
{
    let mt: u64 = wire::read_be(f, 0, 4);
    proof {
        wire::lemma_pow256_values();
    }
    mt as u32
}

/// Whether a message is a report that carries partition and index.
pub open spec fn numbered(f: Seq<u8>) -> bool {
    f.len() >= 36 && protocol::is_report(frame_type(f))
}

/// The partition of a report.
pub open spec fn partition_in(f: Seq<u8>) -> i32 {
    (wire::nat_at(f, 24, 4) as u32) as i32
}

/// The index of a report.
pub open spec fn index_in(f: Seq<u8>) -> i64 {
    (wire::nat_at(f, 28, 8) as u64) as i64
}

fn frame_partition(f: &[u8]) -> (r: i32)
    requires
        f@.len() >= 36,
    ensures
        r == partition_in(f@),
{
    let v: u64 = wire::read_be(f, 24, 4);
    proof {
        wire::lemma_pow256_values();
    }
    let p: u32 = v as u32;
    #[verifier::truncate]
    (p as i32)
}

fn frame_report_index(f: &[u8]) -> (r: i64)
    requires
        f@.len() >= 36,
    ensures
        r == index_in(f@),
{
    let v: u64 = wire::read_be(f, 28, 8);
    #[verifier::truncate]
    (v as i64)
}

/// Whether a report still has to get its index; one that is sent again keeps its own.
pub open spec fn needs_index(f: Seq<u8>) -> bool {
    numbered(f) && index_in(f) == 0
}

/// A message with its number in the connection.
pub open spec fn finished(f: Seq<u8>, seq: u64) -> Seq<u8> {
    protocol::with_seq(f, seq)
}

/// Numbers a message on its way out: it gets its number in the connection, and a report
/// without an index gets the next one of its partition.
pub fn number_frame(stats: &mut PlatformStats, buf: &mut Vec<u8>, seq: u64)
    requires
        old(buf)@.len() >= 16,
        needs_index(finished(old(buf)@, seq)) ==> 0 <= stats::end_index(
            old(stats).partition_report_index@,
            partition_in(finished(old(buf)@, seq)),
        ) < i64::MAX,
    ensures
        ({
            let f = finished(old(buf)@, seq);
            &&& !needs_index(f) ==> final(buf)@ == f && *final(stats) == *old(stats)
            &&& needs_index(f) ==> {
                let p = partition_in(f);
                let n = (stats::end_index(old(stats).partition_report_index@, p) + 1) as i64;
                &&& final(buf)@ == protocol::with_report_index(f, n as u64)
                &&& final(stats).partition_report_index@
                    == old(stats).partition_report_index@.insert(p, n)
            }
        }),
        final(stats).counters() == old(stats).counters(),
        final(stats).order_seq == old(stats).order_seq,
        final(stats).exec_seq == old(stats).exec_seq,
{
    protocol::finalize_seq(buf, seq);
    if buf.len() >= 36 {
        if protocol::is_report_frame(type_of_frame(buf.as_slice())) {
            if frame_report_index(buf.as_slice()) == 0 {
                let p: i32 = frame_partition(buf.as_slice());
                let n: i64 = stats.next_report_index_for(p);
                protocol::patch_report_index(buf, n as u64);
            }
        }
    }
}

/// The fields that are shown of a message that is sent.
pub open spec fn sent_fields(f: Seq<u8>) -> Seq<(Seq<char>, Seq<char>)> {
    if f.len() >= 20 {
        shown_fields(frame_type(f), f.subrange(16, f.len() - 4))
    } else {
        Seq::empty()
    }
}

/// Captures a message that is sent; a report is kept so that it can be sent again.
pub fn capture_send(rec: &mut ConnRecorder, source: &mut SeqSource, buf: &[u8], now: &LocalTime)
    requires
        old(rec).wf(),
        old(source).last < u64::MAX,
        now.wf(),
    ensures
        capture::captured(
            *old(rec),
            *final(rec),
            *old(source),
            *final(source),
            Dir::Send,
            buf@,
            sent_fields(buf@),
            *now,
        ),
        final(rec).sent() == (if numbered(buf@) {
            old(rec).sent().insert((partition_in(buf@), index_in(buf@)), buf@)
        } else {
            old(rec).sent()
        }),
{
    let total: usize = buf.len();
    let fields: Vec<ParsedField> = if total >= 20 {
        let body = wire::slice_of(buf, 16, total - 20);
        assert(body@ =~= buf@.subrange(16, buf@.len() - 4));
        protocol::describe_fields(type_of_frame(buf), body)
    } else {
        Vec::new()
    };
    assert(capture::field_views(fields@) =~= sent_fields(buf@));
    rec.record(source, Dir::Send, buf, fields, now);
    if total >= 36 {
        if protocol::is_report_frame(type_of_frame(buf)) {
            rec.record_report(frame_partition(buf), frame_report_index(buf), buf);
        }
    }
}

/// What a connection has sent of reports after one more message.
pub open spec fn kept_reports(before: Map<(i32, i64), Seq<u8>>, raw: Seq<u8>) -> Map<
    (i32, i64),
    Seq<u8>,
> {
    if numbered(raw) {
        before.insert((partition_in(raw), index_in(raw)), raw)
    } else {
        before
    }
}

/// Captures a message that came in on a connection.
pub fn receive(
    ctx: &mut SessionCtx,
    conn_id: u64,
    mt: u32,
    body: &[u8],
    raw: &[u8],
    now: &LocalTime,
)
    requires
        now.wf(),
        capture::all_wf(old(ctx).recorders@),
        old(ctx).capture_seq.last < u64::MAX,
    ensures
        capture::all_wf(final(ctx).recorders@),
        is_noted(*old(ctx), *final(ctx), conn_id, Dir::Recv, raw@, shown_fields(mt, body@), *now),
        capture::recorder_place(old(ctx).recorders@, conn_id) < old(ctx).recorders@.len() ==> {
            let k = capture::recorder_place(old(ctx).recorders@, conn_id);
            final(ctx).recorders@[k].sent() == old(ctx).recorders@[k].sent()
        },
        *final(ctx) == (SessionCtx {
            recorders: final(ctx).recorders,
            capture_seq: final(ctx).capture_seq,
            ..*old(ctx)
        }),
{
    let k: usize = capture::find_recorder(&ctx.recorders, conn_id);
    if k < ctx.recorders.len() {
        capture_recv(&mut ctx.recorders[k], &mut ctx.capture_seq, mt, body, raw, now);
        assert(ctx.recorders@ =~= old(ctx).recorders@.update(k as int, ctx.recorders@[k as int]));
    }
}

/// A message as it is sent: with its number in the connection and, where it is a report that
/// has none yet, with the next index of its partition.
pub open spec fn as_sent(indices: Map<i32, i64>, f: Seq<u8>, seq: u64) -> Seq<u8> {
    let g = finished(f, seq);
    if needs_index(g) {
        protocol::with_report_index(
            g,
            (stats::end_index(indices, partition_in(g)) + 1) as i64 as u64,
        )
    } else {
        g
    }
}

/// The indices after a message was sent.
pub open spec fn indices_after(indices: Map<i32, i64>, f: Seq<u8>, seq: u64) -> Map<i32, i64> {
    let g = finished(f, seq);
    if needs_index(g) {
        indices.insert(
            partition_in(g),
            (stats::end_index(indices, partition_in(g)) + 1) as i64,
        )
    } else {
        indices
    }
}

/// Whether the partition of a report has an index left.
pub open spec fn index_left(indices: Map<i32, i64>, f: Seq<u8>, seq: u64) -> bool {
    let g = finished(f, seq);
    needs_index(g) ==> 0 <= stats::end_index(indices, partition_in(g)) < i64::MAX
}

/// Whether the partition of a report has an index left.
pub fn has_index_left(stats: &PlatformStats, buf: &[u8], seq: u64) -> (r: bool)
    requires
        buf@.len() >= 16,
    ensures
        r == index_left(stats.partition_report_index@, buf@, seq),
{
    let mut g = capture::bytes_of(buf);
    protocol::finalize_seq(&mut g, seq);
    if g.len() >= 36 && protocol::is_report_frame(type_of_frame(g.as_slice()))
        && frame_report_index(g.as_slice()) == 0 {
        let end: i64 = stats.partition_end_index(frame_partition(g.as_slice()));
        0 <= end && end < i64::MAX
    } else {
        true
    }
}

/// What the connections share after a message was made ready: the index that it got is
/// used, and the message is captured.
pub open spec fn is_transmitted(
    before: SessionCtx,
    after: SessionCtx,
    conn_id: u64,
    f: Seq<u8>,
    ready: Seq<u8>,
    seq: u64,
    now: LocalTime,
) -> bool {
    let k = capture::recorder_place(before.recorders@, conn_id);
    &&& after.stats.partition_report_index@ == indices_after(
        before.stats.partition_report_index@,
        f,
        seq,
    )
    &&& after.stats.counters() == before.stats.counters()
    &&& after.stats.order_seq == before.stats.order_seq
    &&& after.stats.exec_seq == before.stats.exec_seq
    &&& is_noted(before, after, conn_id, Dir::Send, ready, sent_fields(ready), now)
    &&& k < before.recorders@.len() ==> after.recorders@[k].sent() == kept_reports(
        before.recorders@[k].sent(),
        ready,
    )
    &&& after == (SessionCtx {
        stats: after.stats,
        recorders: after.recorders,
        capture_seq: after.capture_seq,
        ..before
    })
}

/// Makes a message ready to be sent on a connection: numbers it and captures it. `seq` is
/// its number in the connection.
pub fn transmit(ctx: &mut SessionCtx, conn_id: u64, buf: &mut Vec<u8>, seq: u64, now: &LocalTime)
    requires
        now.wf(),
        capture::all_wf(old(ctx).recorders@),
        old(ctx).capture_seq.last < u64::MAX,
        old(buf)@.len() >= 16,
        index_left(old(ctx).stats.partition_report_index@, old(buf)@, seq),
    ensures
        capture::all_wf(final(ctx).recorders@),
        final(buf)@ == as_sent(old(ctx).stats.partition_report_index@, old(buf)@, seq),
        is_transmitted(*old(ctx), *final(ctx), conn_id, old(buf)@, final(buf)@, seq, *now),
{
    number_frame(&mut ctx.stats, buf, seq);
    let k: usize = capture::find_recorder(&ctx.recorders, conn_id);
    if k < ctx.recorders.len() {
        capture_send(&mut ctx.recorders[k], &mut ctx.capture_seq, buf.as_slice(), now);
        assert(ctx.recorders@ =~= old(ctx).recorders@.update(k as int, ctx.recorders@[k as int]));
    }
}

/// A report that was numbered and is sent again on another connection keeps its index: only
/// its number in the connection and its check value change.
pub proof fn law_resent_keeps_index(f: Seq<u8>, n: u64, seq: u64)
    requires
        protocol::well_framed(f),
        f.len() >= 40,
        0 < n <= i64::MAX,
        protocol::is_report(frame_type(f)),
    ensures
        ({
            let sent = protocol::with_report_index(f, n);
            let again = finished(sent, seq);
            &&& numbered(again)
            &&& index_in(again) == n
            &&& partition_in(again) == partition_in(f)
            &&& !needs_index(again)
        }),
{
    let sent = protocol::with_report_index(f, n);
    let again = finished(sent, seq);
    protocol::law_report_index(f, n);
    wire::lemma_be_len(seq as int, 8);
    wire::lemma_be_len(
        wire::check_sum(wire::overlaid(sent, 4, wire::be(seq as int, 8)).subrange(0, f.len() - 4)),
        4,
    );
    assert(again.len() == f.len());
    assert(again.subrange(0, 4) =~= f.subrange(0, 4));
    assert(again.subrange(24, 28) =~= f.subrange(24, 28));
    assert(again.subrange(28, 36) =~= sent.subrange(28, 36));
}

/// The sending side of a connection: how many messages it has sent.
pub struct Writer {
    pub sent: u64,
}

impl Writer {
    /// A connection that has sent nothing.
    pub fn new() -> (r: Self)
        ensures
            r.sent == 0,
    {
        Writer { sent: 0 }
    }

    /// The number of the next message: one more than that of the message before.
    pub fn next(&mut self) -> (r: u64)
        requires
            old(self).sent < u64::MAX,
        ensures
            r == old(self).sent + 1,
            final(self).sent == r,
    {
        self.sent = self.sent + 1;
        self.sent
    }

    /// Makes the next message ready to be sent: numbers it, gives a report its index, and
    /// captures it.
    pub fn send(&mut self, ctx: &mut SessionCtx, conn_id: u64, buf: &mut Vec<u8>, now: &LocalTime)
        requires
            now.wf(),
            old(self).sent < u64::MAX,
            capture::all_wf(old(ctx).recorders@),
            old(ctx).capture_seq.last < u64::MAX,
            old(buf)@.len() >= 16,
            index_left(
                old(ctx).stats.partition_report_index@,
                old(buf)@,
                (old(self).sent + 1) as u64,
            ),
        ensures
            final(self).sent == old(self).sent + 1,
            capture::all_wf(final(ctx).recorders@),
            final(buf)@ == as_sent(
                old(ctx).stats.partition_report_index@,
                old(buf)@,
                final(self).sent,
            ),
            is_transmitted(
                *old(ctx),
                *final(ctx),
                conn_id,
                old(buf)@,
                final(buf)@,
                final(self).sent,
                *now,
            ),
    {
        let seq: u64 = self.next();
        transmit(ctx, conn_id, buf, seq, now);
    }
}

/// The messages of a connection are numbered from 1 on, without gaps: the message that takes
/// the sending side from one state of the list to the next has the number of that place.
pub proof fn law_messages_are_numbered(states: Seq<Writer>, i: int)
    requires
        states.len() > 0,
        states[0].sent == 0,
        forall|k: int|
            0 <= k < states.len() - 1 ==> (#[trigger] states[k + 1]).sent == states[k].sent + 1,
        0 <= i < states.len(),
    ensures
        states[i].sent == i,
    decreases i,
{
    if i > 0 {
        law_messages_are_numbered(states, i - 1);
        assert(states[i - 1 + 1].sent == states[i - 1].sent + 1);
    }
}

/// The state of a connection.
pub struct Session {
    /// The heartbeat interval in seconds.
    pub hb_secs: u64,
    /// Orders and requests are taken only after the logon.
    pub logged_on: bool,
    /// Reports go out only after the client has told which ones it has.
    pub synced: bool,
    /// The trading unit that is reported to.
    pub pbu: String,
    /// The reports that wait.
    pub pending: Vec<PlannedReport>,
}

/// The values of [`Session`].
pub struct SessionView {
    pub hb_secs: u64,
    pub logged_on: bool,
    pub synced: bool,
    pub pbu: Seq<char>,
    pub pending: Seq<PlannedReportView>,
}

impl View for Session {
    type V = SessionView;

    open spec fn view(&self) -> SessionView {
        SessionView {
            hb_secs: self.hb_secs,
            logged_on: self.logged_on,
            synced: self.synced,
            pbu: self.pbu@,
            pending: report::plan_views(self.pending@),
        }
    }
}

impl Session {
    /// A connection that has just been made.
    pub fn new() -> (r: Self)
        ensures
            r@ == (SessionView {
                hb_secs: 30,
                logged_on: false,
                synced: false,
                pbu: Seq::empty(),
                pending: Seq::empty(),
            }),
    {
        let r = Session {
            hb_secs: 30,
            logged_on: false,
            synced: false,
            pbu: String::new(),
            pending: Vec::new(),
        };
        assert(report::plan_views(r.pending@) =~= Seq::<PlannedReportView>::empty());
        r
    }
}

/// A logout with the given status and text.
pub open spec fn logout_frame(status: u32, why: Seq<char>) -> Seq<u8> {
    protocol::framed(
        msg_type::LOGOUT,
        (LogoutView { session_status: status, text: why }).body(),
    )
}

/// A logout with the given status and text.
pub fn encode_logout(status: u32, why: &str) -> (r: Vec<u8>)
    ensures
        r@ == logout_frame(status, why@),
{
    let l = Logout { session_status: status, text: why.to_owned() };
    assert(l@ == (LogoutView { session_status: status, text: why@ }));
    l.encode()
}

/// What the end of the platform leads to: a last logout.
pub fn on_stop() -> (r: Step)
    ensures
        r@ == StepView::Close(Some(logout_frame(0, "网关停止"@))),
{
    Step::Close(Some(encode_logout(0, "网关停止")))
}

/// What a logout leads to: it is confirmed, and the connection ends.
pub fn on_logout() -> (r: Step)
    ensures
        r@ == StepView::Close(Some(logout_frame(0, "Normal Logout"@))),
{
    Step::Close(Some(encode_logout(0, "Normal Logout")))
}

/// What a message with a wrong check value leads to: a logout, and the connection ends.
pub fn on_bad_checksum() -> (r: Step)
    ensures
        r@ == StepView::Close(Some(logout_frame(5001, "CheckSum Error"@))),
{
    Step::Close(Some(encode_logout(5001, "CheckSum Error")))
}

/// The heartbeat interval that is used: 30 seconds where none is asked for, and from 5 to 60
/// seconds.
pub open spec fn interval(asked: u16) -> int {
    if asked == 0 {
        30
    } else if asked < 5 {
        5
    } else if asked > 60 {
        60
    } else {
        asked as int
    }
}

/// The heartbeat interval that is used.
pub fn heartbeat_secs(asked: u16) -> (r: u64)
    ensures
        r == interval(asked),
        5 <= r <= 60,
{
    if asked == 0 {
        30
    } else if asked < 5 {
        5
    } else if asked > 60 {
        60
    } else {
        asked as u64
    }
}

/// The trading unit that a sender is reported to: its first eight characters.
pub open spec fn unit_of(sender: Seq<char>) -> Seq<char> {
    if sender.len() > 8 {
        sender.subrange(0, 8)
    } else {
        sender
    }
}

fn trading_unit(sender: &str) -> (r: String)
    ensures
        r@ == unit_of(sender@),
{
    let chars = text::chars_of(sender);
    if chars.len() > 8 {
        text::string_of(&chars, 0, 8)
    } else {
        sender.to_owned()
    }
}

/// The answer to a logon.
pub open spec fn logon_reply(cfg: PlatformConfig, l: LogonView, date: u32) -> LogonView {
    LogonView {
        sender_comp_id: cfg.comp_id@,
        target_comp_id: l.sender_comp_id,
        heart_bt_int: interval(l.heart_bt_int) as u16,
        prtcl_version: if l.prtcl_version.len() == 0 {
            "0.50"@
        } else {
            l.prtcl_version
        },
        trade_date: date,
        qsize: l.qsize,
    }
}

/// The partitions of a platform as reports carry them.
pub open spec fn set_ids(cfg: PlatformConfig) -> Seq<u32> {
    partitions(cfg).map_values(|p: i32| p as u32)
}

fn set_id_vec(cfg: &PlatformConfig) -> (r: Vec<u32>)
    ensures
        r@ == set_ids(*cfg),
{
    let parts = partition_vec(cfg);
    let mut out: Vec<u32> = Vec::new();
    let mut i: usize = 0;
    while i < parts.len()
        invariant
            i <= parts@.len(),
            parts@ == partitions(*cfg),
            out@ =~= set_ids(*cfg).take(i as int),
        decreases parts@.len() - i,
    {
        #[verifier::truncate]
        let p: u32 = parts[i] as u32;
        out.push(p);
        i += 1;
    }
    assert(set_ids(*cfg).take(i as int) =~= set_ids(*cfg));
    out
}

/// What goes out after a logon: the answer, the state of the platform, and the partitions
/// of the trading unit.
pub open spec fn logon_frames(cfg: PlatformConfig, l: LogonView, date: u32) -> Seq<Seq<u8>> {
    let sets = set_ids(cfg);
    seq![
        protocol::framed(msg_type::LOGON, logon_reply(cfg, l, date).body()),
        protocol::framed(
            msg_type::PLATFORM_STATE,
            wire::nil() + wire::be(cfg.platform_type as int, 2) + wire::be(
                platform_state::OPEN as int,
                2,
            ),
        ),
        protocol::framed(
            msg_type::EXEC_RPT_INFO,
            wire::nil() + wire::be(cfg.platform_type as int, 2) + wire::be(1, 2) + (wire::nil()
                + wire::text_field(unit_of(l.sender_comp_id), 8) + wire::be(sets.len() as int, 2)
                + protocol::set_bytes(sets)),
        ),
    ]
}

/// What a logon leads to, and the state of the connection after it.
pub open spec fn logon_step(
    cfg: PlatformConfig,
    sess: SessionView,
    body: Seq<u8>,
    date: u32,
) -> (StepView, SessionView) {
    let l = LogonView::of(body);
    if body.len() < 82 {
        (StepView::Close(None), sess)
    } else {
        (
            StepView::LoggedOn {
                replies: logon_frames(cfg, l, date),
                comp_id: l.sender_comp_id,
            },
            SessionView {
                hb_secs: interval(l.heart_bt_int) as u64,
                logged_on: true,
                pbu: unit_of(l.sender_comp_id),
                ..sess
            },
        )
    }
}

fn encode_unit_info(cfg: &PlatformConfig, pbu: &str) -> (r: Vec<u8>)
    ensures
        r@ == protocol::framed(
            msg_type::EXEC_RPT_INFO,
            wire::nil() + wire::be(cfg.platform_type as int, 2) + wire::be(1, 2) + (wire::nil()
                + wire::text_field(pbu@, 8) + wire::be(set_ids(*cfg).len() as int, 2)
                + protocol::set_bytes(set_ids(*cfg))),
        ),
{
    let sets = set_id_vec(cfg);
    let mut units: Vec<(&str, &[u32])> = Vec::new();
    units.push((pbu, sets.as_slice()));
    proof {
        assert(units@.len() == 1);
        assert(units@.drop_last() =~= Seq::<(&str, &[u32])>::empty());
        assert(protocol::pbu_bytes(units@.drop_last()) == wire::nil());
    }
    protocol::encode_exec_rpt_info(cfg.platform_type, units.as_slice())
}

fn logon_replies(cfg: &PlatformConfig, l: &Logon, hb_secs: u64, pbu: &str, date: u32) -> (r: Vec<
    Vec<u8>,
>)
    requires
        hb_secs == interval(l.heart_bt_int),
        pbu@ == unit_of(l.sender_comp_id@),
    ensures
        frames(r@) == logon_frames(*cfg, l@, date),
{
    let reply = Logon {
        sender_comp_id: cfg.comp_id.clone(),
        target_comp_id: l.sender_comp_id.clone(),
        heart_bt_int: hb_secs as u16,
        prtcl_version: if l.prtcl_version.as_str().is_empty() {
            "0.50".to_owned()
        } else {
            l.prtcl_version.clone()
        },
        trade_date: date,
        qsize: l.qsize,
    };
    assert(reply@ == logon_reply(*cfg, l@, date));
    let mut out: Vec<Vec<u8>> = Vec::new();
    out.push(reply.encode());
    out.push(protocol::encode_platform_state(cfg.platform_type, platform_state::OPEN));
    out.push(encode_unit_info(cfg, pbu));
    assert(frames(out@) =~= logon_frames(*cfg, l@, date));
    out
}

/// What a logon leads to.
pub fn on_logon(cfg: &PlatformConfig, sess: &mut Session, body: &[u8], date: u32) -> (r: Step)
    ensures
        (r@, final(sess)@) == logon_step(*cfg, old(sess)@, body@, date),
{
    let l = match Logon::decode(body) {
        Ok(l) => l,
        Err(_) => {
            return Step::Close(None);
        },
    };
    let hb_secs: u64 = heartbeat_secs(l.heart_bt_int);
    let pbu = trading_unit(l.sender_comp_id.as_str());
    let replies = logon_replies(cfg, &l, hb_secs, pbu.as_str(), date);
    sess.hb_secs = hb_secs;
    sess.logged_on = true;
    sess.pbu = pbu;
    Step::LoggedOn { replies, comp_id: l.sender_comp_id }
}

/// The first report that a client wants, as reports are kept.
pub open spec fn begin_of(begin: u64) -> i64 {
    if begin > i64::MAX {
        i64::MAX
    } else {
        begin as i64
    }
}

/// The reports that a client wants, as reports are kept.
pub open spec fn wanted_of(groups: Seq<SyncGroupView>) -> Seq<SyncPartition> {
    groups.map_values(
        |g: SyncGroupView|
            SyncPartition {
                partition_no: g.set_id as i32,
                report_index: begin_of(g.begin_report_index),
            },
    )
}

/// The answer on one partition: what is there of it.
pub open spec fn sync_answer(m: Map<i32, i64>, g: SyncGroupView) -> SyncRspGroupView {
    SyncRspGroupView {
        pbu: g.pbu,
        set_id: g.set_id,
        begin_report_index: g.begin_report_index,
        end_report_index: stats::end_index(m, g.set_id as i32) as u64,
        rej_reason: 0,
        text: "OK"@,
    }
}

/// The answers on all partitions.
pub open spec fn sync_answers(m: Map<i32, i64>, groups: Seq<SyncGroupView>) -> Seq<
    SyncRspGroupView,
> {
    groups.map_values(|g: SyncGroupView| sync_answer(m, g))
}

/// The message with the answers.
pub open spec fn sync_response(m: Map<i32, i64>, groups: Seq<SyncGroupView>) -> Seq<u8> {
    protocol::framed(
        msg_type::EXEC_RPT_SYNC_RSP,
        wire::nil() + wire::be(groups.len() as int, 2) + protocol::sync_rsp_bytes(
            sync_answers(m, groups),
        ),
    )
}

/// What a request for reports leads to: nothing where it cannot be read; otherwise the
/// answers, the reports that are wanted again, and then those that have waited.
pub open spec fn is_sync_step(
    m: Map<i32, i64>,
    recorders: Seq<ConnRecorder>,
    body: Seq<u8>,
    sess: SessionView,
    after: SessionView,
    step: StepView,
) -> bool {
    let groups = protocol::sync_groups(body);
    if !protocol::sync_complete(body) {
        step == StepView::Quiet && after == sess
    } else {
        &&& after == (SessionView { synced: true, pending: Seq::empty(), ..sess })
        &&& step matches StepView::Resumed { replies, reports } && {
            &&& reports == sess.pending
            &&& replies.len() >= 1
            &&& replies[0] == sync_response(m, groups)
            &&& is_resend(
                capture::all_sent(recorders),
                wanted_of(groups),
                groups.len() as int,
                replies.drop_first(),
            )
        }
    }
}

fn encode_sync_response(stats: &PlatformStats, groups: &Vec<SyncGroup>, Ghost(views): Ghost<
    Seq<SyncGroupView>,
>) -> (r: Vec<u8>)
    requires
        views == groups@.map_values(|g: SyncGroup| g@),
    ensures
        r@ == sync_response(stats.partition_report_index@, views),
{
    let ghost m = stats.partition_report_index@;
    let mut out: Vec<SyncRspGroup> = Vec::new();
    let mut i: usize = 0;
    while i < groups.len()
        invariant
            i <= groups@.len(),
            m == stats.partition_report_index@,
            views == groups@.map_values(|g: SyncGroup| g@),
            out@.len() == i,
            forall|k: int| 0 <= k < i ==> (#[trigger] out@[k])@ == sync_answer(m, views[k]),
        decreases groups@.len() - i,
    {
        let g = &groups[i];
        #[verifier::truncate]
        let p: i32 = g.set_id as i32;
        let end: i64 = stats.partition_end_index(p);
        let a = SyncRspGroup {
            pbu: g.pbu.clone(),
            set_id: g.set_id,
            begin_report_index: g.begin_report_index,
            end_report_index: #[verifier::truncate]
            (end as u64),
            rej_reason: 0,
            text: "OK".to_owned(),
        };
        assert(views[i as int] == g@);
        assert(a@ == sync_answer(m, views[i as int]));
        out.push(a);
        i += 1;
    }
    assert(out@.map_values(|g: SyncRspGroup| g@) =~= sync_answers(m, views));
    protocol::encode_exec_rpt_sync_rsp(out.as_slice())
}

fn wanted_vec(groups: &Vec<SyncGroup>, Ghost(views): Ghost<Seq<SyncGroupView>>) -> (r: Vec<
    SyncPartition,
>)
    requires
        views == groups@.map_values(|g: SyncGroup| g@),
    ensures
        r@ == wanted_of(views),
{
    let mut out: Vec<SyncPartition> = Vec::new();
    let mut i: usize = 0;
    while i < groups.len()
        invariant
            i <= groups@.len(),
            views == groups@.map_values(|g: SyncGroup| g@),
            out@ =~= wanted_of(views).take(i as int),
        decreases groups@.len() - i,
    {
        let g = &groups[i];
        assert(views[i as int] == g@);
        #[verifier::truncate]
        let partition_no: i32 = g.set_id as i32;
        let report_index: i64 = if g.begin_report_index > i64::MAX as u64 {
            i64::MAX
        } else {
            g.begin_report_index as i64
        };
        out.push(SyncPartition { partition_no, report_index });
        i += 1;
    }
    assert(wanted_of(views).take(i as int) =~= wanted_of(views));
    out
}

/// What a request for reports leads to.
pub fn handle_sync(
    stats: &PlatformStats,
    recorders: &Vec<ConnRecorder>,
    sess: &mut Session,
    body: &[u8],
) -> (r: Step)
    requires
        capture::all_wf(recorders@),
    ensures
        is_sync_step(
            stats.partition_report_index@,
            recorders@,
            body@,
            old(sess)@,
            final(sess)@,
            r@,
        ),
{
    let groups = match protocol::decode_exec_rpt_sync(body) {
        Ok(g) => g,
        Err(_) => {
            return Step::Quiet;
        },
    };
    let ghost views = groups@.map_values(|g: SyncGroup| g@);
    let rsp = encode_sync_response(stats, &groups, Ghost(views));
    let wanted = wanted_vec(&groups, Ghost(views));
    let again = resend_all(recorders, &wanted);
    let replies = with_first(rsp, again);
    let mut waiting: Vec<PlannedReport> = Vec::new();
    std::mem::swap(&mut waiting, &mut sess.pending);
    sess.synced = true;
    assert(report::plan_views(sess.pending@) =~= Seq::<PlannedReportView>::empty());
    Step::Resumed { replies, reports: waiting }
}

/// `first`, followed by `rest`.
fn with_first(first: Vec<u8>, rest: Vec<Vec<u8>>) -> (r: Vec<Vec<u8>>)
    ensures
        frames(r@).len() >= 1,
        frames(r@)[0] == first@,
        frames(r@).drop_first() == frames(rest@),
{
    let mut out: Vec<Vec<u8>> = Vec::new();
    let mut more = rest;
    out.push(first);
    out.append(&mut more);
    assert(frames(out@).drop_first() =~= frames(rest@));
    out
}

/// The most reports that wait.
pub const MAX_PENDING_PLANS: usize = 4096;

/// The side in words.
pub open spec fn side_text(side: u8) -> Seq<char> {
    if side == 0x31 {
        "买入"@
    } else if side == 0x32 {
        "卖出"@
    } else {
        "未知"@
    }
}

/// The side in words.
pub fn side_name(side: u8) -> (r: &'static str)
    ensures
        r@ == side_text(side),
{
    if side == 0x31 {
        "买入"
    } else if side == 0x32 {
        "卖出"
    } else {
        "未知"
    }
}

/// Buys and sales keep their side when they are kept in words.
pub proof fn law_side_round_trip(side: u8)
    requires
        side == 0x31 || side == 0x32,
    ensures
        shared::side_code(side_text(side)) == side,
{
    reveal_strlit("买入");
    reveal_strlit("卖出");
    assert("卖出"@[0] == '卖');
}

/// The order that is kept of a new order.
pub open spec fn is_entry(
    e: OrderEntry,
    o: NewOrderView,
    pbu: Seq<char>,
    conn_id: u64,
    now: LocalTime,
) -> bool {
    &&& e.cl_ord_id@ == o.cl_ord_id
    &&& e.order_id@.len() == 0
    &&& e.security_id@ == o.security_id
    &&& e.side@ == side_text(o.side)
    &&& e.price == o.price
    &&& e.qty == o.order_qty
    &&& e.cum_qty == 0
    &&& e.leaves_qty == o.order_qty
    &&& e.status == OrderStatus::New
    &&& e.ord_type == o.ord_type
    &&& e.account@ == o.account
    &&& e.branch@ == o.branch_id
    &&& e.ts@ == clock::hms_text(now)
    &&& e.conn_id == conn_id
    &&& e.pbu@ == pbu
    &&& e.biz_id == o.biz_id
    &&& e.biz_pbu@ == o.biz_pbu
    &&& e.owner_type == o.owner_type
    &&& e.credit_tag@ == o.credit_tag
    &&& e.clearing_firm@ == o.clearing_firm
    &&& e.user_info@ == o.user_info
    &&& e.biz@ == text::dec(o.biz_id as nat)
}

/// The order that is kept of a new order.
pub fn entry_of(order: &NewOrder, pbu: &str, conn_id: u64, now: &LocalTime) -> (r: OrderEntry)
    requires
        now.wf(),
    ensures
        is_entry(r, order@, pbu@, conn_id, *now),
{
    OrderEntry {
        cl_ord_id: order.cl_ord_id.clone(),
        order_id: String::new(),
        security_id: order.security_id.clone(),
        side: side_name(order.side).to_owned(),
        price: order.price,
        qty: order.order_qty,
        cum_qty: 0,
        leaves_qty: order.order_qty,
        status: OrderStatus::New,
        ord_type: order.ord_type,
        account: order.account.clone(),
        branch: order.branch_id.clone(),
        ts: clock::hms(now),
        conn_id,
        pbu: pbu.to_owned(),
        biz_id: order.biz_id,
        biz_pbu: order.biz_pbu.clone(),
        owner_type: order.owner_type as u16,
        credit_tag: order.credit_tag.clone(),
        clearing_firm: order.clearing_firm.clone(),
        user_info: order.user_info.clone(),
        biz: text::dec_string(order.biz_id as u64),
    }
}

/// The orders after a new one came in.
pub open spec fn is_kept(
    before: Option<Seq<OrderEntry>>,
    after: Option<Seq<OrderEntry>>,
    o: NewOrderView,
    pbu: Seq<char>,
    conn_id: u64,
    now: LocalTime,
) -> bool {
    match before {
        None => after is None,
        Some(book) => exists|e: OrderEntry|
            #[trigger] is_entry(e, o, pbu, conn_id, now) && after == Some(
                orderbook::added(book, e),
            ),
    }
}

fn keep_order(
    orders: &mut Option<OrderBook>,
    order: &NewOrder,
    pbu: &str,
    conn_id: u64,
    now: &LocalTime,
)
    requires
        now.wf(),
        orders_wf(*old(orders)),
    ensures
        orders_wf(*final(orders)),
        is_kept(kept(*old(orders)), kept(*final(orders)), order@, pbu@, conn_id, *now),
{
    match orders.take() {
        Some(mut book) => {
            let e = entry_of(order, pbu, conn_id, now);
            let ghost entry = e;
            book.add(e);
            *orders = Some(book);
            assert(is_entry(entry, order@, pbu@, conn_id, *now));
        },
        None => {
            *orders = None;
        },
    }
}

/// The reports on an order that was counted.
pub open spec fn is_planned(
    cfg: PlatformConfig,
    st: StrategyConfig,
    o: NewOrderView,
    pbu: Seq<char>,
    before: PlatformStats,
    counted: PlatformStats,
    after: PlatformStats,
    plans: Seq<PlannedReportView>,
    fs: Seq<(i64, i64)>,
    delays: Seq<u64>,
    at: LocalTime,
) -> bool {
    &&& counted.counters() == one_more_order(before.counters())
    &&& counted.sequences() == before.sequences()
    &&& strategy::may_plan(
        st,
        partition_of(cfg.partition_list(), o.security_id) as i32,
        o,
        pbu,
        counted,
        after,
        plans,
        fs,
        delays,
        at,
    )
}

/// Reports that the settings allow for an order.
pub open spec fn are_planned(
    cfg: PlatformConfig,
    st: StrategyConfig,
    o: NewOrderView,
    pbu: Seq<char>,
    before: PlatformStats,
    after: PlatformStats,
    plans: Seq<PlannedReportView>,
) -> bool {
    exists|
        counted: PlatformStats,
        fs: Seq<(i64, i64)>,
        delays: Seq<u64>,
        at: LocalTime,
    |
        is_planned(cfg, st, o, pbu, before, counted, after, plans, fs, delays, at)
}

/// Counts a new order and plans the reports on it.
fn plan_order(
    cfg: &PlatformConfig,
    st: &StrategyConfig,
    stats: &mut PlatformStats,
    order: &NewOrder,
    pbu: &str,
    fs: &Vec<(i64, i64)>,
) -> (r: Vec<PlannedReport>)
    requires
        stats::ids_left(*old(stats)),
        strategy::are_executions(*st, order@, fs@),
        fills::sums_fit(order.order_qty, fs@),
        fs@.len() <= 0x7fff_ffff_ffff_ffff,
    ensures
        are_planned(
            *cfg,
            *st,
            order@,
            pbu@,
            *old(stats),
            *final(stats),
            report::plan_views(r@),
        ),
{
    stats.orders = stats::bump(stats.orders);
    let ghost counted = *stats;
    let partition: i32 = cfg.partition_for(order.security_id.as_str());
    let plans = strategy::plan_fills(st, partition, order, stats, pbu, fs);
    proof {
        let (delays, at) = choose|delays: Seq<u64>, at: LocalTime|
            strategy::may_plan(
                *st,
                partition,
                order@,
                pbu@,
                counted,
                *stats,
                report::plan_views(plans@),
                fs@,
                delays,
                at,
            );
        assert(is_planned(
            *cfg,
            *st,
            order@,
            pbu@,
            *old(stats),
            counted,
            *stats,
            report::plan_views(plans@),
            fs@,
            delays,
            at,
        ));
    }
    plans
}

/// The counters after one more order was rejected.
pub open spec fn one_more_order_reject(c: StatsSnapshot) -> StatsSnapshot {
    StatsSnapshot { order_rejects: stats::next_count(c.order_rejects), ..c }
}

/// What becomes of the reports on an order: after the client has told which reports it has,
/// they go out; before, they wait, or are dropped where too many wait.
pub open spec fn reports_step(sess: SessionView, plans: Seq<PlannedReportView>) -> (
    StepView,
    SessionView,
) {
    if sess.synced {
        (StepView::Reports(plans), sess)
    } else if sess.pending.len() + plans.len() > MAX_PENDING_PLANS {
        (StepView::Quiet, sess)
    } else {
        (StepView::Quiet, SessionView { pending: sess.pending + plans, ..sess })
    }
}

/// What becomes of the reports on an order.
pub fn hold_reports(sess: &mut Session, plans: Vec<PlannedReport>) -> (r: Step)
    ensures
        (r@, final(sess)@) == reports_step(old(sess)@, report::plan_views(plans@)),
{
    if sess.synced {
        return Step::Reports(plans);
    }
    let waiting: usize = sess.pending.len();
    if waiting > MAX_PENDING_PLANS || plans.len() > MAX_PENDING_PLANS - waiting {
        return Step::Quiet;
    }
    let mut more = plans;
    let ghost was = sess.pending@;
    sess.pending.append(&mut more);
    proof {
        assert(report::plan_views(sess.pending@) =~= report::plan_views(was)
            + report::plan_views(plans@));
    }
    Step::Quiet
}

/// What a new order that could be read leads to: a rejection with reason 4012 where its
/// business is not known; and otherwise it is counted, kept, and answered as the strategy
/// says.
pub open spec fn is_order_answer(
    ctx: SessionCtx,
    sess: SessionView,
    o: NewOrderView,
    conn_id: u64,
    now: LocalTime,
    date: u32,
    time: u64,
    stats_after: PlatformStats,
    orders_after: Option<Seq<OrderEntry>>,
    sess_after: SessionView,
    step: StepView,
) -> bool {
    if !strategy::known(o.biz_id) {
        &&& step == StepView::Reply(
            seq![
                protocol::framed(
                    msg_type::ORDER_REJECT,
                    strategy::order_reject_of(o, 4012, date, time).body(),
                ),
            ],
        )
        &&& stats_after.counters() == one_more_order_reject(ctx.stats.counters())
        &&& stats_after.sequences() == ctx.stats.sequences()
        &&& orders_after == kept(ctx.orders)
        &&& sess_after == sess
    } else if step == StepView::OutOfRange {
        &&& strategy::may_leave(ctx.strategy, o)
        &&& stats_after == ctx.stats
        &&& orders_after == kept(ctx.orders)
        &&& sess_after == sess
    } else {
        &&& is_kept(kept(ctx.orders), orders_after, o, sess.pbu, conn_id, now)
        &&& exists|plans: Seq<PlannedReportView>|
            #[trigger] are_planned(
                ctx.cfg,
                ctx.strategy,
                o,
                sess.pbu,
                ctx.stats,
                stats_after,
                plans,
            ) && (step, sess_after) == reports_step(sess, plans)
    }
}

/// What a new order that could be read leads to.
pub fn answer_order(
    ctx: &mut SessionCtx,
    sess: &mut Session,
    order: &NewOrder,
    conn_id: u64,
    now: &LocalTime,
    date: u32,
    time: u64,
) -> (r: Step)
    requires
        now.wf(),
        old(ctx).wf(),
    ensures
        orders_wf(final(ctx).orders),
        *final(ctx) == (SessionCtx {
            stats: final(ctx).stats,
            orders: final(ctx).orders,
            ..*old(ctx)
        }),
        is_order_answer(
            *old(ctx),
            old(sess)@,
            order@,
            conn_id,
            *now,
            date,
            time,
            final(ctx).stats,
            kept(final(ctx).orders),
            final(sess)@,
            r@,
        ),
{
    if !strategy::is_known_biz(order.biz_id) {
        ctx.stats.order_rejects = stats::bump(ctx.stats.order_rejects);
        let rej = strategy::build_order_reject(order, 4012, date, time);
        return reply_with(rej.encode());
    }
    let fs = match strategy::draw_fills(&ctx.strategy, order) {
        Some(fs) => fs,
        None => {
            return Step::OutOfRange;
        },
    };
    keep_order(&mut ctx.orders, order, sess.pbu.as_str(), conn_id, now);
    let plans = plan_order(
        &ctx.cfg,
        &ctx.strategy,
        &mut ctx.stats,
        order,
        sess.pbu.as_str(),
        &fs,
    );
    assert(are_planned(
        old(ctx).cfg,
        old(ctx).strategy,
        order@,
        old(sess)@.pbu,
        old(ctx).stats,
        ctx.stats,
        report::plan_views(plans@),
    ));
    hold_reports(sess, plans)
}

/// What a new order leads to: nothing where it cannot be read.
pub open spec fn is_new_order_step(
    ctx: SessionCtx,
    sess: SessionView,
    body: Seq<u8>,
    conn_id: u64,
    now: LocalTime,
    date: u32,
    time: u64,
    stats_after: PlatformStats,
    orders_after: Option<Seq<OrderEntry>>,
    sess_after: SessionView,
    step: StepView,
) -> bool {
    if body.len() < 125 {
        &&& step == StepView::Quiet
        &&& stats_after == ctx.stats
        &&& orders_after == kept(ctx.orders)
        &&& sess_after == sess
    } else {
        is_order_answer(
            ctx,
            sess,
            NewOrderView::of(body),
            conn_id,
            now,
            date,
            time,
            stats_after,
            orders_after,
            sess_after,
            step,
        )
    }
}

/// What a new order leads to.
pub fn handle_new_order(
    ctx: &mut SessionCtx,
    sess: &mut Session,
    body: &[u8],
    conn_id: u64,
    now: &LocalTime,
    date: u32,
    time: u64,
) -> (r: Step)
    requires
        now.wf(),
        old(ctx).wf(),
    ensures
        orders_wf(final(ctx).orders),
        *final(ctx) == (SessionCtx {
            stats: final(ctx).stats,
            orders: final(ctx).orders,
            ..*old(ctx)
        }),
        is_new_order_step(
            *old(ctx),
            old(sess)@,
            body@,
            conn_id,
            *now,
            date,
            time,
            final(ctx).stats,
            kept(final(ctx).orders),
            final(sess)@,
            r@,
        ),
{
    match NewOrder::decode(body) {
        Ok(order) => answer_order(ctx, sess, &order, conn_id, now, date, time),
        Err(_) => Step::Quiet,
    }
}

/// The report on an order that a request cancelled: nothing is open, and what was open is
/// cancelled. The price and the quantity are those of the order, as it came.
pub open spec fn cancelled_of(
    set_id: u32,
    q: CancelOrderView,
    e: OrderEntry,
    pbu: Seq<char>,
    ord_cnfm_id: Seq<char>,
    date: u32,
    time: u64,
) -> ExecRptView {
    ExecRptView {
        pbu,
        set_id,
        report_index: 0,
        biz_id: q.biz_id,
        exec_type: exec_type::CANCELLED,
        biz_pbu: q.biz_pbu,
        cl_ord_id: q.cl_ord_id,
        security_id: q.security_id,
        account: e.account@,
        owner_type: q.owner_type,
        side: q.side,
        price: e.price,
        order_qty: e.qty,
        leaves_qty: 0,
        cxl_qty: e.leaves_qty,
        ord_type: e.ord_type,
        time_in_force: 0,
        ord_status: ord_status::CANCELLED,
        credit_tag: Seq::empty(),
        orig_cl_ord_id: q.orig_cl_ord_id,
        clearing_firm: Seq::empty(),
        branch_id: e.branch@,
        ord_rej_reason: 0,
        ord_cnfm_id,
        orig_ord_cnfm_id: e.order_id@,
        trade_date: date,
        transact_time: time,
        user_info: q.user_info,
        extend: protocol::no_extend(),
    }
}

/// The report on a cancelled order repeats the price and the quantity that the order came
/// with, to the last unit, and cancels what was open of it.
pub proof fn law_cancel_repeats_order(
    o: NewOrderView,
    pbu: Seq<char>,
    conn_id: u64,
    kept_at: LocalTime,
    e: OrderEntry,
    set_id: u32,
    q: CancelOrderView,
    ord_cnfm_id: Seq<char>,
    date: u32,
    time: u64,
)
    requires
        is_entry(e, o, pbu, conn_id, kept_at),
    ensures
        ({
            let r = cancelled_of(set_id, q, e, pbu, ord_cnfm_id, date, time);
            r.price == o.price && r.order_qty == o.order_qty && r.cxl_qty == o.order_qty
        }),
{
}

fn build_cancelled(
    set_id: u32,
    req: &CancelOrder,
    entry: &OrderEntry,
    pbu: &str,
    ord_cnfm_id: String,
    date: u32,
    time: u64,
) -> (r: ExecRpt)
    ensures
        r@ == cancelled_of(set_id, req@, *entry, pbu@, ord_cnfm_id@, date, time),
{
    let r = ExecRpt {
        pbu: pbu.to_owned(),
        set_id,
        report_index: 0,
        biz_id: req.biz_id,
        exec_type: exec_type::CANCELLED,
        biz_pbu: req.biz_pbu.clone(),
        cl_ord_id: req.cl_ord_id.clone(),
        security_id: req.security_id.clone(),
        account: entry.account.clone(),
        owner_type: req.owner_type,
        side: req.side,
        price: entry.price,
        order_qty: entry.qty,
        leaves_qty: 0,
        cxl_qty: entry.leaves_qty,
        ord_type: entry.ord_type,
        time_in_force: 0,
        ord_status: ord_status::CANCELLED,
        credit_tag: String::new(),
        orig_cl_ord_id: req.orig_cl_ord_id.clone(),
        clearing_firm: String::new(),
        branch_id: entry.branch.clone(),
        ord_rej_reason: 0,
        ord_cnfm_id,
        orig_ord_cnfm_id: entry.order_id.clone(),
        trade_date: date,
        transact_time: time,
        user_info: req.user_info.clone(),
        extend: ExtendFields {
            custodian: String::new(),
            dividend_select: 0,
            dest_security: String::new(),
        },
    };
    assert(r.extend@ == protocol::no_extend());
    r
}

/// The refusal of a request to cancel.
pub open spec fn cancel_reject_of(
    set_id: u32,
    q: CancelOrderView,
    pbu: Seq<char>,
    date: u32,
    time: u64,
) -> CancelRejectView {
    CancelRejectView {
        pbu,
        set_id,
        report_index: 0,
        biz_id: q.biz_id,
        biz_pbu: q.biz_pbu,
        cl_ord_id: q.cl_ord_id,
        security_id: q.security_id,
        orig_cl_ord_id: q.orig_cl_ord_id,
        branch_id: q.branch_id,
        cxl_rej_reason: 1,
        trade_date: date,
        transact_time: time,
        user_info: q.user_info,
    }
}

/// What the log says of a report on a cancelled order that waits.
pub open spec fn cancelled_desc(q: CancelOrderView) -> Seq<char> {
    "撤单成功(32) ClOrdID="@ + q.cl_ord_id + " OrigClOrdID="@ + q.orig_cl_ord_id
        + "（同步后补发）"@
}

/// What the log says of a refusal to cancel that waits.
pub open spec fn cancel_reject_desc(q: CancelOrderView) -> Seq<char> {
    "收到撤单 ClOrdID="@ + q.cl_ord_id + " OrigClOrdID="@ + q.orig_cl_ord_id
        + "，原单不存在或不可撤，回撤单失败(59)"@ + "（同步后补发）"@
}

/// The answer to a request to cancel goes out after the client has told which reports it
/// has; before, it waits behind the reports on the order.
pub open spec fn cancel_step(sess: SessionView, plan: PlannedReportView) -> (StepView, SessionView) {
    if sess.synced {
        (StepView::Reply(seq![plan.frame]), sess)
    } else {
        (StepView::Quiet, SessionView { pending: sess.pending.push(plan), ..sess })
    }
}

/// The answer to a request to cancel that is granted.
pub open spec fn cancelled_plan(
    set_id: u32,
    q: CancelOrderView,
    e: OrderEntry,
    pbu: Seq<char>,
    ord_cnfm_id: Seq<char>,
    date: u32,
    time: u64,
) -> PlannedReportView {
    PlannedReportView {
        delay_ms: 0,
        kind: ReportKind::Cancel,
        frame: protocol::framed(
            msg_type::EXEC_RPT,
            cancelled_of(set_id, q, e, pbu, ord_cnfm_id, date, time).body(),
        ),
        desc: cancelled_desc(q),
        cl_ord_id: q.orig_cl_ord_id,
        order_update: Some(
            OrderUpdateView {
                order_id: e.order_id@,
                cum_qty: e.cum_qty,
                leaves_qty: 0,
                status: OrderStatus::Cancelled,
            },
        ),
    }
}

/// The answer to a request to cancel that is refused.
pub open spec fn cancel_reject_plan(
    set_id: u32,
    q: CancelOrderView,
    pbu: Seq<char>,
    date: u32,
    time: u64,
) -> PlannedReportView {
    PlannedReportView {
        delay_ms: 0,
        kind: ReportKind::Cancel,
        frame: protocol::framed(
            msg_type::CANCEL_REJECT,
            cancel_reject_of(set_id, q, pbu, date, time).body(),
        ),
        desc: cancel_reject_desc(q),
        cl_ord_id: q.orig_cl_ord_id,
        order_update: None,
    }
}

/// Whether a request to cancel is granted: its business allows it, and the order is in
/// flight.
pub open spec fn cancel_granted(orders: Option<Seq<OrderEntry>>, q: CancelOrderView) -> bool {
    strategy::business(q.biz_id).allow_cancel && names_inflight(orders, q.orig_cl_ord_id)
}

/// What is left when a request to cancel has been answered.
pub struct Answered {
    pub step: StepView,
    pub sess: SessionView,
    pub orders: Option<Seq<OrderEntry>>,
    pub counters: StatsSnapshot,
    /// How many order numbers were used.
    pub ids: int,
}

/// What a request to cancel that could be read leads to: the report on the cancelled order,
/// or the refusal.
pub open spec fn request_answer(
    ctx: SessionCtx,
    sess: SessionView,
    q: CancelOrderView,
    date: u32,
    time: u64,
) -> Answered {
    let orders = kept(ctx.orders);
    let set_id = strategy::set_of(
        strategy::business(q.biz_id),
        partition_of(ctx.cfg.partition_list(), q.security_id) as i32,
    );
    let granted = cancel_granted(orders, q);
    let plan = if granted {
        cancelled_plan(
            set_id,
            q,
            named_order(orders, q.orig_cl_ord_id)->0,
            sess.pbu,
            stats::id_text(ctx.stats.order_seq + 1),
            date,
            time,
        )
    } else {
        cancel_reject_plan(set_id, q, sess.pbu, date, time)
    };
    let (step, sess_after) = cancel_step(sess, plan);
    Answered {
        step,
        sess: sess_after,
        orders: if granted {
            orders_cancelled(orders, q.orig_cl_ord_id)
        } else {
            orders
        },
        counters: one_more_cancel(ctx.stats.counters()),
        ids: if granted {
            1
        } else {
            0
        },
    }
}

/// What a request to cancel leads to: nothing where it cannot be read.
pub open spec fn cancel_answer(
    ctx: SessionCtx,
    sess: SessionView,
    body: Seq<u8>,
    date: u32,
    time: u64,
) -> Answered {
    if body.len() < 107 {
        Answered {
            step: StepView::Quiet,
            sess,
            orders: kept(ctx.orders),
            counters: ctx.stats.counters(),
            ids: 0,
        }
    } else {
        request_answer(ctx, sess, CancelOrderView::of(body), date, time)
    }
}

/// The state that an answer describes.
pub open spec fn is_answered(
    ctx: SessionCtx,
    ctx_after: SessionCtx,
    sess_after: SessionView,
    step: StepView,
    a: Answered,
) -> bool {
    &&& step == a.step
    &&& sess_after == a.sess
    &&& kept(ctx_after.orders) == a.orders
    &&& ctx_after.stats.counters() == a.counters
    &&& ctx_after.stats.order_seq == ctx.stats.order_seq + a.ids
    &&& ctx_after.stats.exec_seq == ctx.stats.exec_seq
    &&& ctx_after.stats.partition_report_index@ == ctx.stats.partition_report_index@
    &&& ctx_after == (SessionCtx { stats: ctx_after.stats, orders: ctx_after.orders, ..ctx })
}

fn hold_answer(sess: &mut Session, plan: PlannedReport) -> (r: Step)
    ensures
        (r@, final(sess)@) == cancel_step(old(sess)@, plan@),
{
    if sess.synced {
        return reply_with(plan.frame);
    }
    let ghost was = sess.pending@;
    sess.pending.push(plan);
    assert(report::plan_views(sess.pending@) =~= report::plan_views(was).push(plan@));
    Step::Quiet
}

fn plan_cancelled(
    set_id: u32,
    req: &CancelOrder,
    entry: &OrderEntry,
    pbu: &str,
    ord_cnfm_id: String,
    date: u32,
    time: u64,
) -> (r: PlannedReport)
    ensures
        r@ == cancelled_plan(set_id, req@, *entry, pbu@, ord_cnfm_id@, date, time),
{
    let cxl = build_cancelled(set_id, req, entry, pbu, ord_cnfm_id, date, time);
    let mut desc = "撤单成功(32) ClOrdID=".to_owned();
    desc.push_str(req.cl_ord_id.as_str());
    desc.push_str(" OrigClOrdID=");
    desc.push_str(req.orig_cl_ord_id.as_str());
    desc.push_str("（同步后补发）");
    PlannedReport {
        delay_ms: 0,
        kind: ReportKind::Cancel,
        frame: cxl.encode(),
        desc,
        cl_ord_id: req.orig_cl_ord_id.clone(),
        order_update: Some(
            OrderUpdate {
                order_id: entry.order_id.clone(),
                cum_qty: entry.cum_qty,
                leaves_qty: 0,
                status: OrderStatus::Cancelled,
            },
        ),
    }
}

/// The refusal of a request to cancel.
pub fn send_cancel_reject(req: &CancelOrder, pbu: &str, set_id: u32, date: u32, time: u64) -> (r:
    PlannedReport)
    ensures
        r@ == cancel_reject_plan(set_id, req@, pbu@, date, time),
{
    let rej = CancelReject {
        pbu: pbu.to_owned(),
        set_id,
        report_index: 0,
        biz_id: req.biz_id,
        biz_pbu: req.biz_pbu.clone(),
        cl_ord_id: req.cl_ord_id.clone(),
        security_id: req.security_id.clone(),
        orig_cl_ord_id: req.orig_cl_ord_id.clone(),
        branch_id: req.branch_id.clone(),
        cxl_rej_reason: 1,
        trade_date: date,
        transact_time: time,
        user_info: req.user_info.clone(),
    };
    assert(rej@ == cancel_reject_of(set_id, req@, pbu@, date, time));
    let mut desc = "收到撤单 ClOrdID=".to_owned();
    desc.push_str(req.cl_ord_id.as_str());
    desc.push_str(" OrigClOrdID=");
    desc.push_str(req.orig_cl_ord_id.as_str());
    desc.push_str("，原单不存在或不可撤，回撤单失败(59)");
    desc.push_str("（同步后补发）");
    PlannedReport {
        delay_ms: 0,
        kind: ReportKind::Cancel,
        frame: rej.encode(),
        desc,
        cl_ord_id: req.orig_cl_ord_id.clone(),
        order_update: None,
    }
}

/// What a request to cancel that could be read leads to.
pub fn answer_request(
    ctx: &mut SessionCtx,
    sess: &mut Session,
    req: &CancelOrder,
    date: u32,
    time: u64,
) -> (r: Step)
    requires
        old(ctx).wf(),
    ensures
        orders_wf(final(ctx).orders),
        is_answered(
            *old(ctx),
            *final(ctx),
            final(sess)@,
            r@,
            request_answer(*old(ctx), old(sess)@, req@, date, time),
        ),
{
    ctx.stats.cancels = stats::bump(ctx.stats.cancels);
    let biz = strategy::biz_info(req.biz_id);
    let partition: i32 = ctx.cfg.partition_for(req.security_id.as_str());
    let set_id: u32 = strategy::report_set(&biz, partition);
    if biz.allow_cancel {
        let found = find_named(&ctx.orders, req.orig_cl_ord_id.as_str());
        if let Some(entry) = found {
            if cancel_named(&mut ctx.orders, req.orig_cl_ord_id.as_str()) {
                let id = ctx.stats.next_order_id();
                let plan = plan_cancelled(
                    set_id,
                    req,
                    &entry,
                    sess.pbu.as_str(),
                    id,
                    date,
                    time,
                );
                return hold_answer(sess, plan);
            }
        }
    }
    let plan = send_cancel_reject(req, sess.pbu.as_str(), set_id, date, time);
    hold_answer(sess, plan)
}

/// What a request to cancel leads to.
pub fn handle_cancel(
    ctx: &mut SessionCtx,
    sess: &mut Session,
    body: &[u8],
    date: u32,
    time: u64,
) -> (r: Step)
    requires
        old(ctx).wf(),
    ensures
        orders_wf(final(ctx).orders),
        is_answered(
            *old(ctx),
            *final(ctx),
            final(sess)@,
            r@,
            cancel_answer(*old(ctx), old(sess)@, body@, date, time),
        ),
{
    match CancelOrder::decode(body) {
        Ok(req) => answer_request(ctx, sess, &req, date, time),
        Err(_) => Step::Quiet,
    }
}

/// Whether a registration is one of the two that there are: a designation, or its
/// revocation.
pub open spec fn registers(q: RegistrationOrderView) -> bool {
    if q.biz_id == protocol::BIZ_ID_DESIGNATION {
        q.security_id == "799999"@ && q.designation_instruction
            == designation_instruction::REGISTER && q.designation_trans_type == 0x31
    } else if q.biz_id == protocol::BIZ_ID_DESIGNATION_CANCEL {
        q.security_id == "799998"@ && q.designation_instruction == designation_instruction::CANCEL
            && q.designation_trans_type == 0x31
    } else {
        false
    }
}

/// Whether a registration is one of the two that there are.
pub fn may_register(req: &RegistrationOrder) -> (r: bool)
    ensures
        r == registers(req@),
{
    if req.biz_id == protocol::BIZ_ID_DESIGNATION {
        text::same_text(req.security_id.as_str(), "799999") && req.designation_instruction
            == designation_instruction::REGISTER && req.designation_trans_type == 0x31
    } else if req.biz_id == protocol::BIZ_ID_DESIGNATION_CANCEL {
        text::same_text(req.security_id.as_str(), "799998") && req.designation_instruction
            == designation_instruction::CANCEL && req.designation_trans_type == 0x31
    } else {
        false
    }
}

/// The report on a registration; one that there is none of is rejected with reason 4012 and
/// gets no order number.
pub open spec fn registration_report(
    q: RegistrationOrderView,
    pbu: Seq<char>,
    order_no: int,
    date: u32,
    time: u64,
) -> RegistrationRptView {
    let ok = registers(q);
    RegistrationRptView {
        pbu,
        set_id: protocol::SET_ID_DESIGNATION,
        report_index: 0,
        biz_id: q.biz_id,
        exec_type: if ok {
            exec_type::NEW
        } else {
            exec_type::REJECT
        },
        biz_pbu: q.biz_pbu,
        cl_ord_id: q.cl_ord_id,
        security_id: q.security_id,
        account: q.account,
        owner_type: q.owner_type,
        ord_status: if ok {
            ord_status::NEW
        } else {
            ord_status::REJECTED
        },
        orig_cl_ord_id: Seq::empty(),
        branch_id: Seq::empty(),
        ord_rej_reason: if ok {
            0
        } else {
            4012
        },
        ord_cnfm_id: if ok {
            stats::id_text(order_no + 1)
        } else {
            Seq::empty()
        },
        orig_ord_cnfm_id: Seq::empty(),
        trade_date: date,
        transact_time: time,
        user_info: q.user_info,
    }
}

/// What a registration leads to: nothing where it cannot be read, and otherwise its report.
pub open spec fn registration_step(
    body: Seq<u8>,
    pbu: Seq<char>,
    order_no: int,
    date: u32,
    time: u64,
) -> StepView {
    if body.len() < 108 {
        StepView::Quiet
    } else {
        StepView::Reply(
            seq![
                protocol::framed(
                    msg_type::REGISTRATION_RPT,
                    registration_report(
                        RegistrationOrderView::of(body),
                        pbu,
                        order_no,
                        date,
                        time,
                    ).body(),
                ),
            ],
        )
    }
}

/// What a registration leads to. It is not counted as an order.
pub fn handle_registration(
    stats: &mut PlatformStats,
    body: &[u8],
    pbu: &str,
    date: u32,
    time: u64,
) -> (r: Step)
    requires
        old(stats).order_seq < u64::MAX,
    ensures
        r@ == registration_step(body@, pbu@, old(stats).order_seq as int, date, time),
        final(stats).counters() == old(stats).counters(),
        final(stats).exec_seq == old(stats).exec_seq,
        final(stats).partition_report_index@ == old(stats).partition_report_index@,
        final(stats).order_seq == old(stats).order_seq + (if body@.len() >= 108 && registers(
            RegistrationOrderView::of(body@),
        ) {
            1int
        } else {
            0
        }),
{
    let req = match RegistrationOrder::decode(body) {
        Ok(q) => q,
        Err(_) => {
            return Step::Quiet;
        },
    };
    let ok = may_register(&req);
    let rpt = RegistrationRpt {
        pbu: pbu.to_owned(),
        set_id: protocol::SET_ID_DESIGNATION,
        report_index: 0,
        biz_id: req.biz_id,
        exec_type: if ok {
            exec_type::NEW
        } else {
            exec_type::REJECT
        },
        biz_pbu: req.biz_pbu.clone(),
        cl_ord_id: req.cl_ord_id.clone(),
        security_id: req.security_id.clone(),
        account: req.account.clone(),
        owner_type: req.owner_type,
        ord_status: if ok {
            ord_status::NEW
        } else {
            ord_status::REJECTED
        },
        orig_cl_ord_id: String::new(),
        branch_id: String::new(),
        ord_rej_reason: if ok {
            0
        } else {
            4012
        },
        ord_cnfm_id: if ok {
            stats.next_order_id()
        } else {
            String::new()
        },
        orig_ord_cnfm_id: String::new(),
        trade_date: date,
        transact_time: time,
        user_info: req.user_info.clone(),
    };
    assert(rpt@ == registration_report(req@, pbu@, old(stats).order_seq as int, date, time));
    reply_with(rpt.encode())
}

/// The answer to a request of the password service; another business is rejected with
/// reason 4012.
pub open spec fn password_response(q: PasswordServiceOrderView, date: u32, time: u64) -> PasswordServiceRspView {
    PasswordServiceRspView {
        biz_id: q.biz_id,
        biz_pbu: q.biz_pbu,
        cl_ord_id: q.cl_ord_id,
        security_id: q.security_id,
        account: q.account,
        owner_type: q.owner_type,
        branch_id: q.branch_id,
        side: q.side,
        validation_code: q.validation_code,
        ord_rej_reason: if q.biz_id == protocol::BIZ_ID_PWD_SERVICE {
            0
        } else {
            4012
        },
        trade_date: date,
        transact_time: time,
        user_info: q.user_info,
    }
}

/// What a request of the password service leads to: nothing where it cannot be read, and
/// otherwise its answer, which is no report.
pub open spec fn password_step(body: Seq<u8>, date: u32, time: u64) -> StepView {
    if body.len() < 105 {
        StepView::Quiet
    } else {
        StepView::Reply(
            seq![
                protocol::framed(
                    msg_type::PWD_SERVICE_RSP,
                    password_response(PasswordServiceOrderView::of(body), date, time).body(),
                ),
            ],
        )
    }
}

/// What a request of the password service leads to.
pub fn handle_password_service(body: &[u8], date: u32, time: u64) -> (r: Step)
    ensures
        r@ == password_step(body@, date, time),
{
    let req = match PasswordServiceOrder::decode(body) {
        Ok(q) => q,
        Err(_) => {
            return Step::Quiet;
        },
    };
    let rsp = PasswordServiceRsp {
        biz_id: req.biz_id,
        biz_pbu: req.biz_pbu.clone(),
        cl_ord_id: req.cl_ord_id.clone(),
        security_id: req.security_id.clone(),
        account: req.account.clone(),
        owner_type: req.owner_type,
        branch_id: req.branch_id.clone(),
        side: req.side,
        validation_code: req.validation_code.clone(),
        ord_rej_reason: if req.biz_id == protocol::BIZ_ID_PWD_SERVICE {
            0
        } else {
            4012
        },
        trade_date: date,
        transact_time: time,
        user_info: req.user_info.clone(),
    };
    assert(rsp@ == password_response(req@, date, time));
    reply_with(rsp.encode())
}

/// What a message leads to, and what is left after it.
pub open spec fn is_step(
    ctx: SessionCtx,
    sess: SessionView,
    conn_id: u64,
    mt: u32,
    body: Seq<u8>,
    now: LocalTime,
    ctx_after: SessionCtx,
    sess_after: SessionView,
    step: StepView,
) -> bool {
    let date = clock::date_of(now) as u32;
    let time = clock::ntime_of(now) as u64;
    if mt == msg_type::LOGON {
        &&& (step, sess_after) == logon_step(ctx.cfg, sess, body, date)
        &&& ctx_after == (SessionCtx { connections: ctx_after.connections, ..ctx })
        &&& step matches StepView::LoggedOn { comp_id, .. } ==> is_logged_on(
            ctx.connections@,
            ctx_after.connections@,
            conn_id,
            comp_id,
        )
        &&& !(step is LoggedOn) ==> ctx_after == ctx
    } else if mt == msg_type::HEARTBEAT {
        step == StepView::Quiet && ctx_after == ctx && sess_after == sess
    } else if mt == msg_type::LOGOUT {
        step == StepView::Close(Some(logout_frame(0, "Normal Logout"@))) && ctx_after == ctx
            && sess_after == sess
    } else if sess.logged_on && mt == msg_type::EXEC_RPT_SYNC {
        &&& is_sync_step(
            ctx.stats.partition_report_index@,
            ctx.recorders@,
            body,
            sess,
            sess_after,
            step,
        )
        &&& ctx_after == ctx
    } else if sess.logged_on && mt == msg_type::NEW_ORDER {
        &&& is_new_order_step(
            ctx,
            sess,
            body,
            conn_id,
            now,
            date,
            time,
            ctx_after.stats,
            kept(ctx_after.orders),
            sess_after,
            step,
        )
        &&& ctx_after == (SessionCtx {
            stats: ctx_after.stats,
            orders: ctx_after.orders,
            ..ctx
        })
    } else if sess.logged_on && mt == msg_type::CANCEL_ORDER {
        is_answered(ctx, ctx_after, sess_after, step, cancel_answer(ctx, sess, body, date, time))
    } else if sess.logged_on && mt == msg_type::REGISTRATION {
        &&& step == registration_step(body, sess.pbu, ctx.stats.order_seq as int, date, time)
        &&& ctx_after.stats.counters() == ctx.stats.counters()
        &&& ctx_after.stats.exec_seq == ctx.stats.exec_seq
        &&& ctx_after.stats.partition_report_index@ == ctx.stats.partition_report_index@
        &&& ctx_after.stats.order_seq == ctx.stats.order_seq + (if body.len() >= 108 && registers(
            RegistrationOrderView::of(body),
        ) {
            1int
        } else {
            0
        })
        &&& ctx_after == (SessionCtx { stats: ctx_after.stats, ..ctx })
        &&& sess_after == sess
    } else if sess.logged_on && mt == msg_type::PWD_SERVICE {
        step == password_step(body, date, time) && ctx_after == ctx && sess_after == sess
    } else {
        step == StepView::Quiet && ctx_after == ctx && sess_after == sess
    }
}

/// What a message leads to. A message of a type that is not known, and one that needs a
/// logon and comes before it, leads to nothing.
pub fn on_frame(
    ctx: &mut SessionCtx,
    sess: &mut Session,
    conn_id: u64,
    mt: u32,
    body: &[u8],
    now: &LocalTime,
) -> (r: Step)
    requires
        now.wf(),
        old(ctx).wf(),
    ensures
        capture::all_wf(final(ctx).recorders@),
        orders_wf(final(ctx).orders),
        is_step(
            *old(ctx),
            old(sess)@,
            conn_id,
            mt,
            body@,
            *now,
            *final(ctx),
            final(sess)@,
            r@,
        ),
{
    let date: u32 = clock::date(now);
    let time: u64 = clock::ntime(now);
    if mt == msg_type::LOGON {
        let step = on_logon(&ctx.cfg, sess, body, date);
        if let Step::LoggedOn { comp_id, .. } = &step {
            ctx.logged_on(conn_id, comp_id.as_str());
        }
        step
    } else if mt == msg_type::HEARTBEAT {
        Step::Quiet
    } else if mt == msg_type::LOGOUT {
        on_logout()
    } else if sess.logged_on && mt == msg_type::EXEC_RPT_SYNC {
        handle_sync(&ctx.stats, &ctx.recorders, sess, body)
    } else if sess.logged_on && mt == msg_type::NEW_ORDER {
        handle_new_order(ctx, sess, body, conn_id, now, date, time)
    } else if sess.logged_on && mt == msg_type::CANCEL_ORDER {
        handle_cancel(ctx, sess, body, date, time)
    } else if sess.logged_on && mt == msg_type::REGISTRATION {
        handle_registration(&mut ctx.stats, body, sess.pbu.as_str(), date, time)
    } else if sess.logged_on && mt == msg_type::PWD_SERVICE {
        handle_password_service(body, date, time)
    } else {
        Step::Quiet
    }
}

/// Before a client has logged on, only a logon or a logout has any effect.
pub proof fn law_logon_first(
    ctx: SessionCtx,
    sess: SessionView,
    conn_id: u64,
    mt: u32,
    body: Seq<u8>,
    now: LocalTime,
    ctx_after: SessionCtx,
    sess_after: SessionView,
    step: StepView,
)
    requires
        is_step(ctx, sess, conn_id, mt, body, now, ctx_after, sess_after, step),
        !sess.logged_on,
        mt != msg_type::LOGON,
        mt != msg_type::LOGOUT,
    ensures
        step == StepView::Quiet,
        ctx_after == ctx,
        sess_after == sess,
{
}

/// Until the client has told which reports it has, neither an order nor a request to cancel
/// makes a report go out; only an order whose business is not known is answered, by a
/// message that is no report.
pub proof fn law_no_report_before_sync(
    ctx: SessionCtx,
    sess: SessionView,
    conn_id: u64,
    mt: u32,
    body: Seq<u8>,
    now: LocalTime,
    ctx_after: SessionCtx,
    sess_after: SessionView,
    step: StepView,
)
    requires
        is_step(ctx, sess, conn_id, mt, body, now, ctx_after, sess_after, step),
        !sess.synced,
        mt == msg_type::NEW_ORDER || mt == msg_type::CANCEL_ORDER,
    ensures
        step == StepView::Quiet || step == StepView::OutOfRange || mt == msg_type::NEW_ORDER
            && !strategy::known(NewOrderView::of(body).biz_id),
        !sess_after.synced,
        !protocol::is_report(msg_type::ORDER_REJECT),
{
}

/// What has waited goes out, once and in the order in which it came in, when the client has
/// told which reports it has.
pub proof fn law_waiting_reports_go_out(
    m: Map<i32, i64>,
    recorders: Seq<ConnRecorder>,
    body: Seq<u8>,
    sess: SessionView,
    after: SessionView,
    step: StepView,
)
    requires
        is_sync_step(m, recorders, body, sess, after, step),
        protocol::sync_complete(body),
    ensures
        step matches StepView::Resumed { reports, .. } && reports == sess.pending,
        after.synced,
        after.pending.len() == 0,
{
}

/// A granted request leaves no order in flight under the number that it names first, and a
/// refused one leaves the orders as they are.
pub proof fn law_cancel_orders(
    ctx: SessionCtx,
    sess: SessionView,
    q: CancelOrderView,
    date: u32,
    time: u64,
)
    ensures
        ({
            let a = request_answer(ctx, sess, q, date, time);
            &&& cancel_granted(kept(ctx.orders), q) ==> !names_inflight(a.orders, q.orig_cl_ord_id)
            &&& !cancel_granted(kept(ctx.orders), q) ==> a.orders == kept(ctx.orders) && a.ids == 0
        }),
{
    shared::law_cancelled_once(kept(ctx.orders), q.orig_cl_ord_id);
}

/// A response, an execution or another report that was sent can be looked up by its partition
/// and index, and what was sent before under other numbers stays; a message that is no report
/// is not kept.
pub proof fn law_sent_report_is_kept(
    before: Map<(i32, i64), Seq<u8>>,
    raw: Seq<u8>,
    partition: i32,
    index: i64,
)
    ensures
        ({
            let mt = frame_type(raw);
            let same = partition == (wire::nat_at(raw, 24, 4) as u32) as i32 && index == (
            wire::nat_at(raw, 28, 8) as u64) as i64;
            let report = raw.len() >= 36 && (mt == 32 || mt == 59 || mt == 103 || mt == 302);
            let after = kept_reports(before, raw);
            &&& report && same ==> after.contains_key((partition, index)) && after[(
                partition,
                index,
            )] == raw
            &&& !same ==> (after.contains_key((partition, index)) <==> before.contains_key(
                (partition, index),
            ))
            &&& !same && before.contains_key((partition, index)) ==> after[(partition, index)]
                == before[(partition, index)]
            &&& !report ==> after == before
        }),
{
}

} // verus!
