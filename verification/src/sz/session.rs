//! The connections of clients to a Shenzhen platform: what a message that arrives leads to,
//! and what happens to a message on its way out.
//!
//! A client connects, logs on, and then sends orders and requests while both sides exchange
//! heartbeats. [`on_frame`] takes one message and says what goes out because of it; the
//! caller does the reading, the waiting and the sending.
use vstd::prelude::*;

use super::filings;
use super::filings::{Quote, QuoteStatusReport};
use super::protocol;
use super::protocol::{
    exec_type, msg_type, ord_status, BusinessReject, BusinessRejectView, CancelReject,
    CancelRejectView, ExecRptAck, ExecRptAckView, Logon, LogonView, Logout, LogoutView, NewOrder,
    NewOrderView, OrderCancelRequest, OrderCancelRequestView, ReportSync, SyncPartition,
    TradingSessionStatus, TradingSessionStatusView,
};
use super::strategy;
use super::strategy::BizInfo;
use crate::capture;
use crate::capture::{ConnRecorder, Dir, ParsedField, SeqSource};
use crate::clock;
use crate::clock::LocalTime;
use crate::config::{CancelMode, PlatformConfig, StrategyConfig};
use crate::event::ConnInfo;
use crate::fills;
use crate::orderbook;
use crate::orderbook::{OrderBook, OrderEntry, OrderStatus};
use crate::report;
use crate::report::{PlannedReport, PlannedReportView};
use crate::stats;
use crate::stats::{PlatformStats, StatsSnapshot};
use crate::step::{frames, is_resend, reply_with, resend_all};
use crate::text;
use crate::wire;

pub use super::manual::build_manual_report;
pub use crate::capture::resend_reports_since;
pub use crate::manual::ManualReportKind;
pub use crate::step::{Step, StepView};

verus! {

/// Characters that file names cannot hold.
pub open spec fn barred(c: char) -> bool {
    c == '\\' || c == '/' || c == ':' || c == '*' || c == '?' || c == '"' || c == '<' || c == '>'
        || c == '|'
}

/// `s` with an underscore for every barred character.
pub open spec fn unbarred(s: Seq<char>) -> Seq<char> {
    s.map_values(
        |c: char|
            if barred(c) {
                '_'
            } else {
                c
            },
    )
}

/// A name that can be part of a path.
pub open spec fn file_name_of(s: Seq<char>) -> Seq<char> {
    let t = text::trimmed_both(unbarred(s));
    if t.len() == 0 {
        "未命名"@
    } else {
        t
    }
}

/// A name that can be part of a path: barred characters become underscores, white space at
/// the ends goes, and an empty name gets a default.
pub fn sanitize_file_name(s: &str) -> (r: String)
    ensures
        r@ == file_name_of(s@),
{
    let chars = text::chars_of(s);
    let mut out: Vec<char> = Vec::new();
    let mut i: usize = 0;
    while i < chars.len()
        invariant
            i <= chars@.len(),
            chars@ == s@,
            out@ =~= unbarred(s@.take(i as int)),
        decreases chars@.len() - i,
    {
        let c: char = chars[i];
        let bad = c == '\\' || c == '/' || c == ':' || c == '*' || c == '?' || c == '"' || c == '<'
            || c == '>' || c == '|';
        out.push(
            if bad {
                '_'
            } else {
                c
            },
        );
        i += 1;
    }
    assert(s@.take(i as int) =~= s@);
    let (from, to) = text::trim_range(&out);
    if from == to {
        "未命名".to_owned()
    } else {
        text::string_of(&out, from, to)
    }
}

/// `s` with an underscore for every dot.
pub open spec fn undotted(s: Seq<char>) -> Seq<char> {
    s.map_values(
        |c: char|
            if c == '.' {
                '_'
            } else {
                c
            },
    )
}

fn without_dots(s: &str) -> (r: String)
    ensures
        r@ == undotted(s@),
{
    let chars = text::chars_of(s);
    let mut out = String::new();
    let mut i: usize = 0;
    while i < chars.len()
        invariant
            i <= chars@.len(),
            chars@ == s@,
            out@ =~= undotted(s@.take(i as int)),
        decreases chars@.len() - i,
    {
        let c: char = chars[i];
        out.push(
            if c == '.' {
                '_'
            } else {
                c
            },
        );
        i += 1;
    }
    assert(s@.take(i as int) =~= s@);
    out
}

/// The name of the file that the messages of a connection go to.
pub open spec fn packet_file_text(ip: Seq<char>, port: u16, now: LocalTime) -> Seq<char> {
    "pkg_"@ + clock::compact_time_text(now) + "_ip-"@ + file_name_of(undotted(ip)) + "_port-"@
        + text::dec(port as nat) + ".log"@
}

/// The name of the file that the messages of a connection go to: the time of connection and
/// the address of the client.
pub fn packet_file_name(ip: &str, port: u16, now: &LocalTime) -> (r: String)
    requires
        now.wf(),
    ensures
        r@ == packet_file_text(ip@, port, *now),
{
    let mut out = "pkg_".to_owned();
    out.push_str(clock::compact_time(now).as_str());
    out.push_str("_ip-");
    out.push_str(sanitize_file_name(without_dots(ip).as_str()).as_str());
    out.push_str("_port-");
    text::push_dec(&mut out, port as u64);
    out.push_str(".log");
    out
}

/// Where the messages of a connection go: below the directory of packets a directory per
/// day, in it one per gateway and platform, in it the file.
#[derive(Debug)]
pub struct PacketPath {
    pub day: String,
    pub folder: String,
    pub file: String,
}

/// The path of the messages of a connection.
pub open spec fn is_packet_path(
    p: PacketPath,
    gateway: Seq<char>,
    platform: Seq<char>,
    ip: Seq<char>,
    port: u16,
    now: LocalTime,
) -> bool {
    &&& p.day@ == clock::compact_date_text(now)
    &&& p.folder@ == file_name_of(gateway) + seq!['_'] + file_name_of(platform)
    &&& p.file@ == packet_file_text(ip, port, now)
}

/// What the connections of a platform share.
pub struct SessionCtx {
    pub gateway_id: String,
    pub gateway_name: String,
    pub cfg: PlatformConfig,
    /// The strategy in force; it can change while the platform runs.
    pub strategy: StrategyConfig,
    pub stats: PlatformStats,
    /// The connections that are there.
    pub connections: Vec<ConnInfo>,
    /// The captures of all connections, those that are gone as well.
    pub recorders: Vec<ConnRecorder>,
    /// The orders, where they are kept.
    pub orders: Option<OrderBook>,
    pub capture_seq: SeqSource,
}

/// The orders, where they are kept.
pub open spec fn kept(orders: Option<OrderBook>) -> Option<Seq<OrderEntry>> {
    match orders {
        Some(b) => Some(b@),
        None => None,
    }
}

/// The orders are well-formed, where they are kept.
pub open spec fn orders_wf(orders: Option<OrderBook>) -> bool {
    match orders {
        Some(b) => b.wf(),
        None => true,
    }
}

/// What the log says of something that happens on a platform.
pub open spec fn log_line(gateway: Seq<char>, platform: Seq<char>, msg: Seq<char>) -> Seq<char> {
    "["@ + gateway + "/"@ + platform + "] "@ + msg
}

/// The connection with the given number, if it is there.
pub open spec fn conn_slot(s: Seq<ConnInfo>, id: u64) -> int
    decreases s.len(),
{
    if s.len() == 0 || s[0].id == id {
        0
    } else {
        1 + conn_slot(s.drop_first(), id)
    }
}

proof fn lemma_conn_slot(s: Seq<ConnInfo>, id: u64, k: int)
    requires
        0 <= k <= s.len(),
        k < s.len() ==> s[k].id == id,
        forall|i: int| 0 <= i < k ==> (#[trigger] s[i]).id != id,
    ensures
        conn_slot(s, id) == k,
    decreases s.len(),
{
    if k > 0 {
        assert(s[0].id != id);
        let t = s.drop_first();
        assert forall|i: int| 0 <= i < k - 1 implies (#[trigger] t[i]).id != id by {
            assert(t[i] == s[i + 1]);
        }
        lemma_conn_slot(t, id, k - 1);
    }
}

/// The place of a connection; the length where it is not there.
fn find_conn(s: &Vec<ConnInfo>, id: u64) -> (r: usize)
    ensures
        r == conn_slot(s@, id),
        r <= s@.len(),
        r < s@.len() ==> s@[r as int].id == id,
{
    let mut i: usize = 0;
    while i < s.len() && s[i].id != id
        invariant
            i <= s@.len(),
            forall|k: int| 0 <= k < i ==> (#[trigger] s@[k]).id != id,
        decreases s@.len() - i,
    {
        i += 1;
    }
    proof {
        lemma_conn_slot(s@, id, i as int);
    }
    i
}

impl SessionCtx {
    /// Everything that the connections share is well-formed.
    pub open spec fn wf(&self) -> bool {
        &&& capture::all_wf(self.recorders@)
        &&& orders_wf(self.orders)
        &&& stats::ids_left(self.stats)
    }

    /// What the log says of something that happens on the platform.
    pub fn log_text(&self, msg: &str) -> (r: String)
        ensures
            r@ == log_line(self.gateway_name@, self.cfg.name@, msg@),
    {
        let mut out = "[".to_owned();
        out.push_str(self.gateway_name.as_str());
        out.push_str("/");
        out.push_str(self.cfg.name.as_str());
        out.push_str("] ");
        out.push_str(msg);
        out
    }

    /// Starts the capture of a connection, where messages are shown or written to files,
    /// and says which file they go to, where they are written.
    pub fn start_capture(&mut self, conn_id: u64, peer: &str, ip: &str, port: u16, now: &LocalTime) -> (r:
        Option<PacketPath>)
        requires
            now.wf(),
            capture::all_wf(old(self).recorders@),
        ensures
            capture::all_wf(final(self).recorders@),
            r is Some <==> old(self).cfg.persist_packets,
            r matches Some(p) ==> is_packet_path(
                p,
                old(self).gateway_name@,
                old(self).cfg.name@,
                ip@,
                port,
                *now,
            ),
            !old(self).cfg.show_packets && !old(self).cfg.persist_packets
                ==> final(self).recorders@ == old(self).recorders@,
            old(self).cfg.show_packets || old(self).cfg.persist_packets ==> {
                &&& final(self).recorders@.len() == old(self).recorders@.len() + 1
                &&& final(self).recorders@.drop_last() == old(self).recorders@
                &&& final(self).recorders@.last().id() == conn_id
                &&& final(self).recorders@.last().persists() == old(self).cfg.persist_packets
                &&& final(self).recorders@.last().about() == (peer@, clock::hms_text(*now), true)
                &&& final(self).recorders@.last().packets().len() == 0
                &&& final(self).recorders@.last().sent() == Map::<(i32, i64), Seq<u8>>::empty()
            },
            *final(self) == (SessionCtx { recorders: final(self).recorders, ..*old(self) }),
    {
        if !self.cfg.show_packets && !self.cfg.persist_packets {
            return None;
        }
        let path = if self.cfg.persist_packets {
            let mut folder = sanitize_file_name(self.gateway_name.as_str());
            folder.push('_');
            folder.push_str(sanitize_file_name(self.cfg.name.as_str()).as_str());
            assert(folder@ =~= file_name_of(self.gateway_name@) + seq!['_'] + file_name_of(
                self.cfg.name@,
            ));
            Some(
                PacketPath {
                    day: clock::compact_date(now),
                    folder,
                    file: packet_file_name(ip, port, now),
                },
            )
        } else {
            None
        };
        let rec = ConnRecorder::new(
            conn_id,
            self.cfg.persist_packets,
            peer.to_owned(),
            clock::hms(now),
        );
        let ghost before = self.recorders@;
        self.recorders.push(rec);
        assert(self.recorders@.drop_last() =~= before);
        assert(capture::all_wf(self.recorders@)) by {
            assert forall|i: int| 0 <= i < self.recorders@.len() implies (
            #[trigger] self.recorders@[i]).wf() by {
                if i < before.len() {
                    assert(self.recorders@[i] == before[i]);
                }
            }
        }
        path
    }

    /// Adds a connection and counts it.
    pub fn connected(&mut self, conn_id: u64, peer: &str, now: &LocalTime)
        requires
            now.wf(),
        ensures
            final(self).connections@ == old(self).connections@.push(
                final(self).connections@.last(),
            ),
            ({
                let c = final(self).connections@.last();
                &&& c.id == conn_id
                &&& c.peer@ == peer@
                &&& c.comp_id@.len() == 0
                &&& !c.logged_on
                &&& c.since@ == clock::hms_text(*now)
            }),
            final(self).stats.counters() == (StatsSnapshot {
                total_connections: stats::next_count(old(self).stats.total_connections),
                ..old(self).stats.counters()
            }),
            final(self).stats.sequences() == old(self).stats.sequences(),
            *final(self) == (SessionCtx {
                connections: final(self).connections,
                stats: final(self).stats,
                ..*old(self)
            }),
    {
        self.stats.total_connections = stats::bump(self.stats.total_connections);
        self.connections.push(
            ConnInfo {
                id: conn_id,
                peer: peer.to_owned(),
                comp_id: String::new(),
                logged_on: false,
                since: clock::hms(now),
            },
        );
    }

    /// Notes that a client has logged on.
    pub fn logged_on(&mut self, conn_id: u64, comp_id: &str)
        ensures
            is_logged_on(old(self).connections@, final(self).connections@, conn_id, comp_id@),
            *final(self) == (SessionCtx { connections: final(self).connections, ..*old(self) }),
    {
        let k: usize = find_conn(&self.connections, conn_id);
        if k < self.connections.len() {
            let mut c = self.connections[k].clone();
            c.comp_id = comp_id.to_owned();
            c.logged_on = true;
            self.connections.set(k, c);
        }
    }

    /// Removes a connection.
    pub fn disconnected(&mut self, conn_id: u64)
        ensures
            final(self).connections@ == (if conn_slot(old(self).connections@, conn_id)
                < old(self).connections@.len() {
                old(self).connections@.remove(conn_slot(old(self).connections@, conn_id))
            } else {
                old(self).connections@
            }),
            *final(self) == (SessionCtx { connections: final(self).connections, ..*old(self) }),
    {
        let k: usize = find_conn(&self.connections, conn_id);
        if k < self.connections.len() {
            self.connections.remove(k);
        }
    }
}

/// The longest body that is read.
pub const MAX_BODY: u32 = 8_388_608;

/// A length that is too great to be meant.
#[derive(Debug, Clone, Copy, PartialEq, Eq, Structural)]
pub struct BadLength {
    pub len: u32,
}

impl BadLength {
    /// What the error says.
    pub fn message(&self) -> (r: String)
        ensures
            r@ == "消息体长度异常: "@ + text::dec(self.len as nat),
    {
        let mut out = "消息体长度异常: ".to_owned();
        text::push_dec(&mut out, self.len as u64);
        out
    }
}

/// Reads the head of a message: its type and the length of its body.
pub fn parse_head(head: &[u8]) -> (r: Result<(u32, u32), BadLength>)
    requires
        head@.len() == 8,
    ensures
        match r {
            Ok((mt, len)) => mt == wire::nat_at(head@, 0, 4) && len == wire::nat_at(head@, 4, 4)
                && len <= MAX_BODY,
            Err(e) => e.len == wire::nat_at(head@, 4, 4) && e.len > MAX_BODY,
        },
{
    let mt: u64 = wire::read_be(head, 0, 4);
    let len: u64 = wire::read_be(head, 4, 4);
    proof {
        wire::lemma_pow256_values();
    }
    if len > MAX_BODY as u64 {
        return Err(BadLength { len: len as u32 });
    }
    Ok((mt as u32, len as u32))
}

/// Puts the parts of a message together and says whether its check value is right.
pub fn join_frame(head: &[u8], body: &[u8], tail: &[u8]) -> (r: (bool, Vec<u8>))
    requires
        tail@.len() == 4,
    ensures
        r.0 == (wire::nat_at(tail@, 0, 4) == wire::check_sum(head@ + body@)),
        r.1@ == head@ + body@ + tail@,
{
    let mut all: Vec<u8> = Vec::new();
    wire::append_bytes(&mut all, head);
    wire::append_bytes(&mut all, body);
    assert(all@ =~= head@ + body@);
    let sum: u32 = protocol::checksum(all.as_slice());
    let got: u64 = wire::read_be(tail, 0, 4);
    wire::append_bytes(&mut all, tail);
    (sum as u64 == got, all)
}

/// A message that was framed is read back: its head gives its type and the length of its
/// body, and its check value is right.
pub proof fn law_framed_is_read(mt: u32, body: Seq<u8>)
    requires
        body.len() <= MAX_BODY,
    ensures
        ({
            let f = protocol::framed(mt, body);
            let n = body.len() as int;
            &&& wire::nat_at(f.subrange(0, 8), 0, 4) == mt
            &&& wire::nat_at(f.subrange(0, 8), 4, 4) == n
            &&& f.subrange(8, 8 + n) == body
            &&& wire::nat_at(f.subrange(8 + n, 12 + n), 0, 4) == wire::check_sum(
                f.subrange(0, 8) + body,
            )
        }),
{
    let f = protocol::framed(mt, body);
    let n = body.len() as int;
    protocol::law_framed(mt, body);
    let head = f.subrange(0, 8);
    let tail = f.subrange(8 + n, 12 + n);
    assert(head.subrange(0, 4) =~= f.subrange(0, 4));
    assert(head.subrange(4, 8) =~= f.subrange(4, 8));
    assert(tail.subrange(0, 4) =~= f.subrange(f.len() - 4, f.len() as int));
    assert(head + body =~= f.subrange(0, f.len() - 4));
}

/// How many seconds may pass without a message: three intervals, at least ten seconds.
pub open spec fn idle_limit(hb_secs: u64) -> int {
    if hb_secs * 3 < 10 {
        10
    } else {
        hb_secs * 3
    }
}

/// How many seconds may pass without a message.
pub fn idle_secs(hb_secs: u64) -> (r: u64)
    requires
        hb_secs <= 300,
    ensures
        r == idle_limit(hb_secs),
{
    let t: u64 = hb_secs * 3;
    if t < 10 {
        10
    } else {
        t
    }
}

/// Captures a message that was received.
pub fn capture_recv(
    rec: &mut ConnRecorder,
    source: &mut SeqSource,
    mt: u32,
    body: &[u8],
    raw: &[u8],
    now: &LocalTime,
)
    requires
        old(rec).wf(),
        old(source).last < u64::MAX,
        now.wf(),
    ensures
        capture::captured(
            *old(rec),
            *final(rec),
            *old(source),
            *final(source),
            Dir::Recv,
            raw@,
            shown_fields(mt, body@),
            *now,
        ),
        final(rec).sent() == old(rec).sent(),
{
    let fields = protocol::describe_fields(mt, body);
    assert(capture::field_views(fields@) =~= shown_fields(mt, body@));
    rec.record(source, Dir::Recv, raw, fields, now);
}

/// The fields that are shown of a message.
pub open spec fn shown_fields(mt: u32, body: Seq<u8>) -> Seq<(Seq<char>, Seq<char>)> {
    match protocol::described(mt, body) {
        Some((fields, _)) => fields,
        None => Seq::empty(),
    }
}

/// The type of a message.
pub open spec fn frame_type(f: Seq<u8>) -> u32 {
    wire::nat_at(f, 0, 4) as u32
}

fn type_of_frame(f: &[u8]) -> (r: u32)
    requires
        f@.len() >= 4,
    ensures
        r == frame_type(f@),
{
    let mt: u64 = wire::read_be(f, 0, 4);
    proof {
        wire::lemma_pow256_values();
    }
    mt as u32
}

/// Whether a message is a report that carries partition and index.
pub open spec fn numbered(f: Seq<u8>) -> bool {
    f.len() >= 20 && protocol::is_report(frame_type(f))
}

/// The partition of a report.
pub open spec fn partition_in(f: Seq<u8>) -> i32 {
    wire::int_at(f, 8, 4) as i32
}

/// The index of a report.
pub open spec fn index_in(f: Seq<u8>) -> i64 {
    wire::int_at(f, 12, 8) as i64
}

/// Whether a report still has to get its index; one that is sent again keeps its own.
pub open spec fn needs_index(f: Seq<u8>) -> bool {
    numbered(f) && index_in(f) == 0
}

/// Numbers a message on its way out: a report without an index gets the next one of its
/// partition.
pub fn number_report(stats: &mut PlatformStats, buf: &mut Vec<u8>)
    requires
        needs_index(old(buf)@) ==> stats::end_index(
            old(stats).partition_report_index@,
            partition_in(old(buf)@),
        ) < i64::MAX,
    ensures
        !needs_index(old(buf)@) ==> final(buf)@ == old(buf)@ && *final(stats) == *old(stats),
        needs_index(old(buf)@) ==> {
            let p = partition_in(old(buf)@);
            let n = (stats::end_index(old(stats).partition_report_index@, p) + 1) as i64;
            &&& final(buf)@ == protocol::with_report_index(old(buf)@, n)
            &&& final(stats).partition_report_index@
                == old(stats).partition_report_index@.insert(p, n)
        },
        final(stats).counters() == old(stats).counters(),
        final(stats).order_seq == old(stats).order_seq,
        final(stats).exec_seq == old(stats).exec_seq,
{
    if buf.len() >= 20 {
        let mt: u32 = type_of_frame(buf.as_slice());
        if protocol::is_report_frame(mt) {
            if protocol::frame_report_index(buf.as_slice()) == 0 {
                let partition: i32 = protocol::frame_partition(buf.as_slice());
                let n: i64 = stats.next_report_index_for(partition);
                protocol::patch_report_index(buf, n);
            }
        }
    }
}

/// The fields that are shown of a message that is sent.
pub open spec fn sent_fields(f: Seq<u8>) -> Seq<(Seq<char>, Seq<char>)> {
    if f.len() >= 12 {
        shown_fields(frame_type(f), f.subrange(8, f.len() - 4))
    } else {
        Seq::empty()
    }
}

/// Captures a message that is sent; a report is kept so that it can be sent again.
pub fn capture_send(rec: &mut ConnRecorder, source: &mut SeqSource, buf: &[u8], now: &LocalTime)
    requires
        old(rec).wf(),
        old(source).last < u64::MAX,
        now.wf(),
    ensures
        capture::captured(
            *old(rec),
            *final(rec),
            *old(source),
            *final(source),
            Dir::Send,
            buf@,
            sent_fields(buf@),
            *now,
        ),
        final(rec).sent() == (if numbered(buf@) {
            old(rec).sent().insert((partition_in(buf@), index_in(buf@)), buf@)
        } else {
            old(rec).sent()
        }),
{
    let total: usize = buf.len();
    let fields: Vec<ParsedField> = if total >= 12 {
        let body = wire::slice_of(buf, 8, total - 12);
        assert(body@ =~= buf@.subrange(8, buf@.len() - 4));
        protocol::describe_fields(type_of_frame(buf), body)
    } else {
        Vec::new()
    };
    assert(capture::field_views(fields@) =~= sent_fields(buf@));
    rec.record(source, Dir::Send, buf, fields, now);
    if total >= 20 {
        if protocol::is_report_frame(type_of_frame(buf)) {
            rec.record_report(
                protocol::frame_partition(buf),
                protocol::frame_report_index(buf),
                buf,
            );
        }
    }
}

/// The captures after one more message on a connection; nothing where it is not captured.
pub open spec fn is_noted(
    before: SessionCtx,
    after: SessionCtx,
    conn_id: u64,
    dir: Dir,
    raw: Seq<u8>,
    fields: Seq<(Seq<char>, Seq<char>)>,
    now: LocalTime,
) -> bool {
    let k = capture::recorder_place(before.recorders@, conn_id);
    if k >= before.recorders@.len() {
        after.recorders == before.recorders && after.capture_seq == before.capture_seq
    } else {
        &&& after.recorders@ == before.recorders@.update(k, after.recorders@[k])
        &&& capture::captured(
            before.recorders@[k],
            after.recorders@[k],
            before.capture_seq,
            after.capture_seq,
            dir,
            raw,
            fields,
            now,
        )
    }
}

/// What a connection has sent of reports after one more message.
pub open spec fn kept_reports(before: Map<(i32, i64), Seq<u8>>, raw: Seq<u8>) -> Map<
    (i32, i64),
    Seq<u8>,
> {
    if numbered(raw) {
        before.insert((partition_in(raw), index_in(raw)), raw)
    } else {
        before
    }
}

/// Captures a message that came in on a connection.
pub fn receive(
    ctx: &mut SessionCtx,
    conn_id: u64,
    mt: u32,
    body: &[u8],
    raw: &[u8],
    now: &LocalTime,
)
    requires
        now.wf(),
        capture::all_wf(old(ctx).recorders@),
        old(ctx).capture_seq.last < u64::MAX,
    ensures
        capture::all_wf(final(ctx).recorders@),
        is_noted(*old(ctx), *final(ctx), conn_id, Dir::Recv, raw@, shown_fields(mt, body@), *now),
        capture::recorder_place(old(ctx).recorders@, conn_id) < old(ctx).recorders@.len() ==> {
            let k = capture::recorder_place(old(ctx).recorders@, conn_id);
            final(ctx).recorders@[k].sent() == old(ctx).recorders@[k].sent()
        },
        *final(ctx) == (SessionCtx {
            recorders: final(ctx).recorders,
            capture_seq: final(ctx).capture_seq,
            ..*old(ctx)
        }),
{
    let k: usize = capture::find_recorder(&ctx.recorders, conn_id);
    if k < ctx.recorders.len() {
        capture_recv(&mut ctx.recorders[k], &mut ctx.capture_seq, mt, body, raw, now);
        assert(ctx.recorders@ =~= old(ctx).recorders@.update(k as int, ctx.recorders@[k as int]));
    }
}

/// A message as it is sent: with the next index of its partition, where it has none yet.
pub open spec fn as_sent(indices: Map<i32, i64>, f: Seq<u8>) -> Seq<u8> {
    if needs_index(f) {
        protocol::with_report_index(
            f,
            (stats::end_index(indices, partition_in(f)) + 1) as i64,
        )
    } else {
        f
    }
}

/// The indices after a message was sent.
pub open spec fn indices_after(indices: Map<i32, i64>, f: Seq<u8>) -> Map<i32, i64> {
    if needs_index(f) {
        indices.insert(
            partition_in(f),
            (stats::end_index(indices, partition_in(f)) + 1) as i64,
        )
    } else {
        indices
    }
}

/// Whether the partition of a report has an index left.
pub open spec fn index_left(indices: Map<i32, i64>, f: Seq<u8>) -> bool {
    needs_index(f) ==> stats::end_index(indices, partition_in(f)) < i64::MAX
}

/// Whether the partition of a report has an index left.
pub fn has_index_left(stats: &PlatformStats, buf: &[u8]) -> (r: bool)
    ensures
        r == index_left(stats.partition_report_index@, buf@),
{
    if buf.len() >= 20 && protocol::is_report_frame(type_of_frame(buf)) {
        protocol::frame_report_index(buf) != 0 || stats.partition_end_index(
            protocol::frame_partition(buf),
        ) < i64::MAX
    } else {
        true
    }
}

/// Makes a message ready to be sent on a connection: numbers it and captures it.
pub fn transmit(ctx: &mut SessionCtx, conn_id: u64, buf: &mut Vec<u8>, now: &LocalTime)
    requires
        now.wf(),
        capture::all_wf(old(ctx).recorders@),
        old(ctx).capture_seq.last < u64::MAX,
        index_left(old(ctx).stats.partition_report_index@, old(buf)@),
    ensures
        capture::all_wf(final(ctx).recorders@),
        final(buf)@ == as_sent(old(ctx).stats.partition_report_index@, old(buf)@),
        final(ctx).stats.partition_report_index@ == indices_after(
            old(ctx).stats.partition_report_index@,
            old(buf)@,
        ),
        final(ctx).stats.counters() == old(ctx).stats.counters(),
        final(ctx).stats.order_seq == old(ctx).stats.order_seq,
        final(ctx).stats.exec_seq == old(ctx).stats.exec_seq,
        is_noted(
            *old(ctx),
            *final(ctx),
            conn_id,
            Dir::Send,
            final(buf)@,
            sent_fields(final(buf)@),
            *now,
        ),
        capture::recorder_place(old(ctx).recorders@, conn_id) < old(ctx).recorders@.len() ==> {
            let k = capture::recorder_place(old(ctx).recorders@, conn_id);
            final(ctx).recorders@[k].sent() == kept_reports(
                old(ctx).recorders@[k].sent(),
                final(buf)@,
            )
        },
        *final(ctx) == (SessionCtx {
            stats: final(ctx).stats,
            recorders: final(ctx).recorders,
            capture_seq: final(ctx).capture_seq,
            ..*old(ctx)
        }),
{
    number_report(&mut ctx.stats, buf);
    let k: usize = capture::find_recorder(&ctx.recorders, conn_id);
    if k < ctx.recorders.len() {
        capture_send(&mut ctx.recorders[k], &mut ctx.capture_seq, buf.as_slice(), now);
        assert(ctx.recorders@ =~= old(ctx).recorders@.update(k as int, ctx.recorders@[k as int]));
    }
}

/// Reports of one partition get consecutive numbers in the order in which they are sent, and
/// the numbers of other partitions stay as they are.
pub proof fn law_indices_follow_sending(
    m: Map<i32, i64>,
    p: i32,
    other: i32,
)
    requires
        stats::end_index(m, p) < i64::MAX - 1,
        other != p,
    ensures
        ({
            let n = (stats::end_index(m, p) + 1) as i64;
            let after = m.insert(p, n);
            &&& stats::end_index(after, p) == n
            &&& stats::end_index(after, other) == stats::end_index(m, other)
        }),
{
}

/// A report that was numbered is found again by its partition and index, and is not
/// numbered a second time.
pub proof fn law_numbered_once(f: Seq<u8>, n: i64)
    requires
        needs_index(f),
        protocol::well_framed(f),
        f.len() >= 24,
        n > 0,
    ensures
        ({
            let g = protocol::with_report_index(f, n);
            &&& numbered(g)
            &&& partition_in(g) == partition_in(f)
            &&& index_in(g) == n
            &&& !needs_index(g)
            &&& protocol::well_framed(g)
        }),
{
    protocol::law_report_index(f, n);
    let g = protocol::with_report_index(f, n);
    assert(g.subrange(0, 4) =~= f.subrange(0, 4));
    assert(g.subrange(8, 12) =~= f.subrange(8, 12));
}

/// The state of a connection.
#[derive(Debug, Clone, Copy, PartialEq, Eq, Structural)]
pub struct Session {
    /// The heartbeat interval in seconds.
    pub hb_secs: u64,
    /// Orders and requests are taken only after the logon.
    pub logged_on: bool,
}

impl Session {
    /// A connection that has just been made.
    pub fn new() -> (r: Self)
        ensures
            r == (Session { hb_secs: 30, logged_on: false }),
    {
        Session { hb_secs: 30, logged_on: false }
    }
}

/// A logout with the given status and text.
pub open spec fn logout_frame(status: i32, why: Seq<char>) -> Seq<u8> {
    protocol::framed(
        msg_type::LOGOUT,
        (LogoutView { session_status: status, text: why }).body(),
    )
}

/// A logout with the given status and text.
pub fn encode_logout(status: i32, why: &str) -> (r: Vec<u8>)
    ensures
        r@ == logout_frame(status, why@),
{
    let l = Logout { session_status: status, text: why.to_owned() };
    assert(l@ == (LogoutView { session_status: status, text: why@ }));
    l.encode()
}

/// What the end of the platform leads to: a last logout.
pub fn on_stop() -> (r: Step)
    ensures
        r@ == StepView::Close(Some(logout_frame(4, "网关停止"@))),
{
    Step::Close(Some(encode_logout(4, "网关停止")))
}

/// What a logout leads to: it is confirmed, and the connection ends.
pub fn on_logout() -> (r: Step)
    ensures
        r@ == StepView::Close(Some(logout_frame(4, "会话退登完成"@))),
{
    Step::Close(Some(encode_logout(4, "会话退登完成")))
}

/// What a message with a wrong check value leads to: it is ignored.
pub fn on_bad_checksum() -> (r: Step)
    ensures
        r@ == StepView::Quiet,
{
    Step::Quiet
}

/// The part of the trading day on the fixed-income platform.
pub open spec fn session_part(hour: u32, minute: u32) -> Seq<char> {
    let hm = hour * 100 + minute;
    if hm <= 859 {
        "0"@
    } else if hm <= 914 {
        "100"@
    } else if hm <= 919 {
        "130"@
    } else if hm <= 924 {
        "150"@
    } else if hm <= 929 {
        "170"@
    } else if hm <= 959 {
        "200"@
    } else if hm <= 1129 {
        "230"@
    } else if hm <= 1259 {
        "300"@
    } else if hm <= 1329 {
        "400"@
    } else if hm <= 1459 {
        "430"@
    } else if hm <= 1526 {
        "450"@
    } else if hm <= 1529 {
        "480"@
    } else {
        "600"@
    }
}

/// The part of the trading day on the fixed-income platform.
pub fn trading_session_sub_id(now: &LocalTime) -> (r: &'static str)
    requires
        now.wf(),
    ensures
        r@ == session_part(now.hour, now.minute),
{
    let hm: u32 = now.hour * 100 + now.minute;
    if hm <= 859 {
        "0"
    } else if hm <= 914 {
        "100"
    } else if hm <= 919 {
        "130"
    } else if hm <= 924 {
        "150"
    } else if hm <= 929 {
        "170"
    } else if hm <= 959 {
        "200"
    } else if hm <= 1129 {
        "230"
    } else if hm <= 1259 {
        "300"
    } else if hm <= 1329 {
        "400"
    } else if hm <= 1459 {
        "430"
    } else if hm <= 1526 {
        "450"
    } else if hm <= 1529 {
        "480"
    } else {
        "600"
    }
}

/// When a part of the trading day starts and ends: hours and minutes, and the millisecond
/// of the end.
pub open spec fn part_hours(part: Seq<char>) -> (u32, u32, u32, u32, u32) {
    if part == "0"@ {
        (0, 0, 9, 0, 0)
    } else if part == "100"@ {
        (9, 0, 9, 15, 0)
    } else if part == "130"@ {
        (9, 15, 9, 20, 0)
    } else if part == "150"@ {
        (9, 20, 9, 25, 0)
    } else if part == "170"@ {
        (9, 25, 9, 30, 0)
    } else if part == "200"@ {
        (9, 30, 10, 0, 0)
    } else if part == "230"@ {
        (10, 0, 11, 30, 0)
    } else if part == "300"@ {
        (11, 30, 13, 0, 0)
    } else if part == "400"@ {
        (13, 0, 13, 30, 0)
    } else if part == "430"@ {
        (13, 30, 15, 0, 0)
    } else if part == "450"@ {
        (15, 0, 15, 27, 0)
    } else if part == "480"@ {
        (15, 27, 15, 30, 0)
    } else {
        (15, 30, 23, 59, 999)
    }
}

fn hours_of(part: &str) -> (r: (u32, u32, u32, u32, u32))
    ensures
        r == part_hours(part@),
        r.0 <= 23 && r.1 <= 59 && r.2 <= 23 && r.3 <= 59 && r.4 <= 999,
{
    if text::same_text(part, "0") {
        (0, 0, 9, 0, 0)
    } else if text::same_text(part, "100") {
        (9, 0, 9, 15, 0)
    } else if text::same_text(part, "130") {
        (9, 15, 9, 20, 0)
    } else if text::same_text(part, "150") {
        (9, 20, 9, 25, 0)
    } else if text::same_text(part, "170") {
        (9, 25, 9, 30, 0)
    } else if text::same_text(part, "200") {
        (9, 30, 10, 0, 0)
    } else if text::same_text(part, "230") {
        (10, 0, 11, 30, 0)
    } else if text::same_text(part, "300") {
        (11, 30, 13, 0, 0)
    } else if text::same_text(part, "400") {
        (13, 0, 13, 30, 0)
    } else if text::same_text(part, "430") {
        (13, 30, 15, 0, 0)
    } else if text::same_text(part, "450") {
        (15, 0, 15, 27, 0)
    } else if text::same_text(part, "480") {
        (15, 27, 15, 30, 0)
    } else {
        (15, 30, 23, 59, 999)
    }
}

/// The same day at another time.
pub open spec fn same_day(now: LocalTime, hour: u32, minute: u32, ms: u32) -> LocalTime {
    LocalTime { hour, minute, second: 0, nanos: (ms * 1_000_000) as u32, ..now }
}

/// When a part of the trading day starts and ends, as time stamps of the current day.
pub fn session_time_range(now: &LocalTime, sub: &str) -> (r: (i64, i64))
    requires
        now.wf(),
    ensures
        ({
            let h = part_hours(sub@);
            &&& r.0 == clock::timestamp_of(same_day(*now, h.0, h.1, 0))
            &&& r.1 == clock::timestamp_of(same_day(*now, h.2, h.3, h.4))
        }),
{
    let h = hours_of(sub);
    let from = LocalTime { hour: h.0, minute: h.1, second: 0, nanos: 0, ..*now };
    let to = LocalTime { hour: h.2, minute: h.3, second: 0, nanos: h.4 * 1_000_000, ..*now };
    (clock::timestamp(&from), clock::timestamp(&to))
}

/// The trading session at the given time.
pub open spec fn session_status(now: LocalTime) -> TradingSessionStatusView {
    let part = session_part(now.hour, now.minute);
    let h = part_hours(part);
    TradingSessionStatusView {
        market_id: Seq::empty(),
        market_segment_id: "6"@,
        trading_session_id: Seq::empty(),
        trading_session_sub_id: part,
        trad_ses_status: 0,
        trad_ses_start_time: clock::timestamp_of(same_day(now, h.0, h.1, 0)) as i64,
        trad_ses_end_time: clock::timestamp_of(same_day(now, h.2, h.3, h.4)) as i64,
    }
}

/// The message on the trading session at the given time.
pub fn encode_session_status(now: &LocalTime) -> (r: Vec<u8>)
    requires
        now.wf(),
    ensures
        r@ == protocol::framed(msg_type::TRADING_SESSION_STATUS, session_status(*now).body()),
{
    let sub = trading_session_sub_id(now);
    let (start, end) = session_time_range(now, sub);
    let m = TradingSessionStatus {
        market_id: String::new(),
        market_segment_id: "6".to_owned(),
        trading_session_id: String::new(),
        trading_session_sub_id: sub.to_owned(),
        trad_ses_status: 0,
        trad_ses_start_time: start,
        trad_ses_end_time: end,
    };
    assert(m@ == session_status(*now));
    m.encode()
}

/// The trading session that is reported is the one that holds the current minute.
pub proof fn law_session_holds_now(now: LocalTime)
    requires
        now.wf(),
    ensures
        ({
            let h = part_hours(session_part(now.hour, now.minute));
            let hm = now.hour * 100 + now.minute;
            &&& h.0 * 100 + h.1 <= hm
            &&& hm < h.2 * 100 + h.3 || (hm == 2359 && h.2 * 100 + h.3 == 2359)
        }),
{
    reveal_strlit("0");
    reveal_strlit("100");
    reveal_strlit("130");
    reveal_strlit("150");
    reveal_strlit("170");
    reveal_strlit("200");
    reveal_strlit("230");
    reveal_strlit("300");
    reveal_strlit("400");
    reveal_strlit("430");
    reveal_strlit("450");
    reveal_strlit("480");
    reveal_strlit("600");
    assert("0"@.len() == 1);
    assert("100"@.len() == 3 && "100"@[0] == '1' && "100"@[1] == '0');
    assert("130"@.len() == 3 && "130"@[0] == '1' && "130"@[1] == '3');
    assert("150"@.len() == 3 && "150"@[0] == '1' && "150"@[1] == '5');
    assert("170"@.len() == 3 && "170"@[0] == '1' && "170"@[1] == '7');
    assert("200"@.len() == 3 && "200"@[0] == '2' && "200"@[1] == '0');
    assert("230"@.len() == 3 && "230"@[0] == '2' && "230"@[1] == '3');
    assert("300"@.len() == 3 && "300"@[0] == '3' && "300"@[1] == '0');
    assert("400"@.len() == 3 && "400"@[0] == '4' && "400"@[1] == '0');
    assert("430"@.len() == 3 && "430"@[0] == '4' && "430"@[1] == '3');
    assert("450"@.len() == 3 && "450"@[0] == '4' && "450"@[1] == '5');
    assert("480"@.len() == 3 && "480"@[0] == '4' && "480"@[1] == '8');
    assert("600"@.len() == 3 && "600"@[0] == '6' && "600"@[1] == '0');
}

/// The heartbeat interval that is used: 30 seconds where none is asked for, and from 1 to
/// 300 seconds.
pub open spec fn interval(asked: i32) -> int {
    if asked == 0 {
        30
    } else if asked < 1 {
        1
    } else if asked > 300 {
        300
    } else {
        asked as int
    }
}

/// The heartbeat interval that is used.
pub fn heartbeat_secs(asked: i32) -> (r: u64)
    ensures
        r == interval(asked),
        1 <= r <= 300,
{
    if asked == 0 {
        30
    } else if asked < 1 {
        1
    } else if asked > 300 {
        300
    } else {
        asked as u64
    }
}

/// The answer to a logon.
pub open spec fn logon_reply(cfg: PlatformConfig, l: LogonView) -> LogonView {
    LogonView {
        sender_comp_id: cfg.comp_id@,
        target_comp_id: l.sender_comp_id,
        heart_bt_int: interval(l.heart_bt_int) as i32,
        password: Seq::empty(),
        default_appl_ver_id: if l.default_appl_ver_id.len() == 0 {
            "1.29"@
        } else {
            l.default_appl_ver_id
        },
    }
}

/// The partitions of a platform.
pub open spec fn partitions(cfg: PlatformConfig) -> Seq<i32> {
    cfg.partition_list().map_values(|p: int| p as i32)
}

/// The partitions of a platform.
pub fn partition_vec(cfg: &PlatformConfig) -> (r: Vec<i32>)
    ensures
        r@ == partitions(*cfg),
        r@.len() >= 1,
{
    let r = cfg.partitions();
    proof {
        let list = cfg.partition_list();
        assert(r@.map_values(|p: i32| p as int).len() == r@.len());
        assert forall|i: int| 0 <= i < r@.len() implies #[trigger] r@[i] == partitions(*cfg)[i] by {
            assert(r@.map_values(|p: i32| p as int)[i] == list[i]);
        }
        assert(r@ =~= partitions(*cfg));
    }
    r
}

/// What goes out after a logon: the answer, the partitions, the state of the platform (2 is
/// open), and on the fixed-income platform the trading session.
pub open spec fn logon_frames(cfg: PlatformConfig, l: LogonView, now: LocalTime) -> Seq<Seq<u8>> {
    let parts = partitions(cfg);
    let first = seq![
        protocol::framed(msg_type::LOGON, logon_reply(cfg, l).body()),
        protocol::framed(
            msg_type::PLATFORM_INFO,
            wire::nil() + wire::be(cfg.platform_type as int, 2) + wire::be(parts.len() as int, 4)
                + protocol::partition_bytes(parts),
        ),
        protocol::framed(
            msg_type::PLATFORM_STATE,
            wire::nil() + wire::be(cfg.platform_type as int, 2) + wire::be(2, 2),
        ),
    ];
    if cfg.platform_type == 6 {
        first.push(
            protocol::framed(msg_type::TRADING_SESSION_STATUS, session_status(now).body()),
        )
    } else {
        first
    }
}

/// What a logon leads to, and the state of the connection after it.
pub open spec fn logon_step(
    cfg: PlatformConfig,
    sess: Session,
    body: Seq<u8>,
    now: LocalTime,
) -> (StepView, Session) {
    let l = LogonView::of(body);
    if body.len() < 92 {
        (StepView::Close(None), sess)
    } else if cfg.check_password && l.password != cfg.password@ {
        (StepView::Close(Some(logout_frame(5, "不合法的用户名或口令"@))), sess)
    } else {
        (
            StepView::LoggedOn {
                replies: logon_frames(cfg, l, now),
                comp_id: l.sender_comp_id,
            },
            Session { hb_secs: interval(l.heart_bt_int) as u64, logged_on: true },
        )
    }
}

fn logon_replies(cfg: &PlatformConfig, l: &Logon, hb_secs: u64, now: &LocalTime) -> (r: Vec<Vec<u8>>)
    requires
        now.wf(),
        hb_secs == interval(l.heart_bt_int),
    ensures
        frames(r@) == logon_frames(*cfg, l@, *now),
{
    let reply = Logon {
        sender_comp_id: cfg.comp_id.clone(),
        target_comp_id: l.sender_comp_id.clone(),
        heart_bt_int: hb_secs as i32,
        password: String::new(),
        default_appl_ver_id: if l.default_appl_ver_id.as_str().is_empty() {
            "1.29".to_owned()
        } else {
            l.default_appl_ver_id.clone()
        },
    };
    assert(reply@ == logon_reply(*cfg, l@));
    let parts = partition_vec(cfg);
    let mut out: Vec<Vec<u8>> = Vec::new();
    out.push(reply.encode());
    out.push(protocol::encode_platform_info(cfg.platform_type, parts.as_slice()));
    out.push(protocol::encode_platform_state(cfg.platform_type, 2));
    if cfg.platform_type == 6 {
        out.push(encode_session_status(now));
    }
    assert(frames(out@) =~= logon_frames(*cfg, l@, *now));
    out
}

/// What a logon leads to.
pub fn on_logon(cfg: &PlatformConfig, sess: &mut Session, body: &[u8], now: &LocalTime) -> (r: Step)
    requires
        now.wf(),
    ensures
        (r@, *final(sess)) == logon_step(*cfg, *old(sess), body@, *now),
{
    let l = match Logon::decode(body) {
        Ok(l) => l,
        Err(_) => {
            return Step::Close(None);
        },
    };
    if cfg.check_password && !text::same_text(l.password.as_str(), cfg.password.as_str()) {
        return Step::Close(Some(encode_logout(5, "不合法的用户名或口令")));
    }
    let hb_secs: u64 = heartbeat_secs(l.heart_bt_int);
    let replies = logon_replies(cfg, &l, hb_secs, now);
    sess.hb_secs = hb_secs;
    sess.logged_on = true;
    Step::LoggedOn { replies, comp_id: l.sender_comp_id }
}

/// A platform that checks passwords lets nobody in with another one.
pub proof fn law_wrong_password_is_kept_out(
    cfg: PlatformConfig,
    sess: Session,
    body: Seq<u8>,
    now: LocalTime,
)
    requires
        cfg.check_password,
        LogonView::of(body).password != cfg.password@,
    ensures
        logon_step(cfg, sess, body, now).1 == sess,
        logon_step(cfg, sess, body, now).0 is Close,
{
}

/// The partitions of a request for reports are known, and none is named twice.
pub open spec fn sync_ok(valid: Seq<i32>, wanted: Seq<SyncPartition>) -> bool {
    &&& forall|i: int| 0 <= i < wanted.len() ==> valid.contains((#[trigger] wanted[i]).partition_no)
    &&& forall|i: int, j: int|
        0 <= i < j < wanted.len() ==> (#[trigger] wanted[i]).partition_no != (
        #[trigger] wanted[j]).partition_no
}

/// Whether a partition is among those of a platform.
pub fn known_partition(valid: &Vec<i32>, p: i32) -> (r: bool)
    ensures
        r == valid@.contains(p),
{
    let mut i: usize = 0;
    while i < valid.len()
        invariant
            i <= valid@.len(),
            forall|k: int| 0 <= k < i ==> #[trigger] valid@[k] != p,
        decreases valid@.len() - i,
    {
        if valid[i] == p {
            assert(valid@[i as int] == p);
            return true;
        }
        i += 1;
    }
    false
}

/// Whether a partition is among the first `n` of a request.
pub fn named_before(wanted: &Vec<SyncPartition>, n: usize, p: i32) -> (r: bool)
    requires
        n <= wanted@.len(),
    ensures
        r == (exists|k: int| 0 <= k < n && (#[trigger] wanted@[k]).partition_no == p),
{
    let mut i: usize = 0;
    while i < n
        invariant
            i <= n <= wanted@.len(),
            forall|k: int| 0 <= k < i ==> (#[trigger] wanted@[k]).partition_no != p,
        decreases n - i,
    {
        if wanted[i].partition_no == p {
            assert(wanted@[i as int].partition_no == p);
            return true;
        }
        i += 1;
    }
    false
}

/// Whether a request for reports can be met.
pub fn check_sync(valid: &Vec<i32>, wanted: &Vec<SyncPartition>) -> (r: bool)
    ensures
        r == sync_ok(valid@, wanted@),
{
    let mut i: usize = 0;
    while i < wanted.len()
        invariant
            i <= wanted@.len(),
            forall|k: int|
                0 <= k < i ==> valid@.contains((#[trigger] wanted@[k]).partition_no),
            forall|a: int, b: int|
                0 <= a < b < i ==> (#[trigger] wanted@[a]).partition_no != (
                #[trigger] wanted@[b]).partition_no,
        decreases wanted@.len() - i,
    {
        let p: i32 = wanted[i].partition_no;
        if !known_partition(valid, p) {
            assert(!valid@.contains(wanted@[i as int].partition_no));
            return false;
        }
        if named_before(wanted, i, p) {
            proof {
                let k = choose|k: int| 0 <= k < i && (#[trigger] wanted@[k]).partition_no == p;
                assert(wanted@[k].partition_no == wanted@[i as int].partition_no);
            }
            return false;
        }
        i += 1;
    }
    true
}

/// The refusal of a request for reports.
pub open spec fn sync_reject(now: i64) -> BusinessRejectView {
    BusinessRejectView {
        appl_id: Seq::empty(),
        transact_time: now,
        submitting_pbu_id: Seq::empty(),
        security_id: Seq::empty(),
        security_id_source: Seq::empty(),
        ref_seq_num: 0,
        ref_msg_type: msg_type::REPORT_SYNC,
        business_reject_ref_id: Seq::empty(),
        business_reject_reason: 20106,
        business_reject_text: "回报同步消息含非法分区号"@,
    }
}

/// A business rejection as a message.
pub open spec fn business_reject_frame(v: BusinessRejectView) -> Seq<u8> {
    protocol::framed(msg_type::BUSINESS_REJECT, v.body())
}

/// The counters after a business rejection.
pub open spec fn one_more_reject(c: StatsSnapshot) -> StatsSnapshot {
    StatsSnapshot { business_rejects: stats::next_count(c.business_rejects), ..c }
}

/// What a request for reports leads to: nothing where it cannot be read, a business
/// rejection where a partition is unknown or named twice, and otherwise the reports.
pub open spec fn is_sync_step(
    cfg: PlatformConfig,
    recorders: Seq<ConnRecorder>,
    body: Seq<u8>,
    now: i64,
    before: StatsSnapshot,
    after: StatsSnapshot,
    step: StepView,
) -> bool {
    if !protocol::sync_complete(body) {
        step == StepView::Quiet && after == before
    } else if !sync_ok(partitions(cfg), protocol::sync_partitions(body)) {
        step == StepView::Reply(seq![business_reject_frame(sync_reject(now))]) && after
            == one_more_reject(before)
    } else {
        step matches StepView::Reply(out) && is_resend(
            capture::all_sent(recorders),
            protocol::sync_partitions(body),
            protocol::sync_partitions(body).len() as int,
            out,
        ) && after == before
    }
}

/// Counts a business rejection.
pub fn count_reject(stats: &mut PlatformStats)
    ensures
        final(stats).counters() == one_more_reject(old(stats).counters()),
        final(stats).sequences() == old(stats).sequences(),
{
    stats.business_rejects = stats::bump(stats.business_rejects);
}

/// What a request for reports leads to.
pub fn on_report_sync(
    cfg: &PlatformConfig,
    stats: &mut PlatformStats,
    recorders: &Vec<ConnRecorder>,
    body: &[u8],
    now: i64,
) -> (r: Step)
    requires
        capture::all_wf(recorders@),
    ensures
        is_sync_step(
            *cfg,
            recorders@,
            body@,
            now,
            old(stats).counters(),
            final(stats).counters(),
            r@,
        ),
        final(stats).sequences() == old(stats).sequences(),
{
    let rs = match ReportSync::decode(body) {
        Ok(rs) => rs,
        Err(_) => {
            return Step::Quiet;
        },
    };
    let valid = partition_vec(cfg);
    if !check_sync(&valid, &rs.partitions) {
        let rej = BusinessReject {
            appl_id: String::new(),
            transact_time: now,
            submitting_pbu_id: String::new(),
            security_id: String::new(),
            security_id_source: String::new(),
            ref_seq_num: 0,
            ref_msg_type: msg_type::REPORT_SYNC,
            business_reject_ref_id: String::new(),
            business_reject_reason: 20106,
            business_reject_text: "回报同步消息含非法分区号".to_owned(),
        };
        assert(rej@ == sync_reject(now));
        count_reject(stats);
        return reply_with(rej.encode());
    }
    Step::Reply(resend_all(recorders, &rs.partitions))
}

/// The words of a refusal because of the platform.
pub open spec fn platform_reject_text() -> Seq<char> {
    "平台非法-委托申报的平台错误,例如向现货集中竞价平台申报发行认购业务的委托"@
}

/// What of a message its refusal repeats.
#[derive(Debug)]
pub struct Filing {
    pub msg_type: u32,
    pub appl_id: String,
    /// The number of the message in its business.
    pub ref_id: String,
    pub submitting_pbu_id: String,
    pub security_id: String,
    pub security_id_source: String,
}

/// The values of [`Filing`].
pub struct FilingView {
    pub msg_type: u32,
    pub appl_id: Seq<char>,
    pub ref_id: Seq<char>,
    pub submitting_pbu_id: Seq<char>,
    pub security_id: Seq<char>,
    pub security_id_source: Seq<char>,
}

impl View for Filing {
    type V = FilingView;

    open spec fn view(&self) -> FilingView {
        FilingView {
            msg_type: self.msg_type,
            appl_id: self.appl_id@,
            ref_id: self.ref_id@,
            submitting_pbu_id: self.submitting_pbu_id@,
            security_id: self.security_id@,
            security_id_source: self.security_id_source@,
        }
    }
}

/// Whether a business is done on a platform.
pub open spec fn on_platform(appl_id: Seq<char>, platform_type: u16) -> bool {
    strategy::platform_of(text::trimmed(appl_id)) == Some(platform_type)
}

/// The refusal of a message whose business is not done on the platform.
pub open spec fn platform_reject(f: FilingView, now: i64) -> BusinessRejectView {
    BusinessRejectView {
        appl_id: text::trimmed(f.appl_id),
        transact_time: now,
        submitting_pbu_id: f.submitting_pbu_id,
        security_id: f.security_id,
        security_id_source: f.security_id_source,
        ref_seq_num: 0,
        ref_msg_type: f.msg_type,
        business_reject_ref_id: f.ref_id,
        business_reject_reason: 20108,
        business_reject_text: platform_reject_text(),
    }
}

/// Refuses a message whose business is not done on the platform; nothing for one that is.
pub fn reject_platform(cfg: &PlatformConfig, stats: &mut PlatformStats, f: &Filing, now: i64) -> (r:
    Option<Vec<u8>>)
    ensures
        match r {
            None => on_platform(f.appl_id@, cfg.platform_type) && *final(stats) == *old(stats),
            Some(frame) => {
                &&& !on_platform(f.appl_id@, cfg.platform_type)
                &&& frame@ == business_reject_frame(platform_reject(f@, now))
                &&& final(stats).counters() == one_more_reject(old(stats).counters())
            },
        },
        final(stats).sequences() == old(stats).sequences(),
{
    if let Some(p) = strategy::platform_of_appl_id(f.appl_id.as_str()) {
        if p == cfg.platform_type {
            return None;
        }
    }
    let rej = BusinessReject {
        appl_id: text::trim_end(f.appl_id.as_str()).to_owned(),
        transact_time: now,
        submitting_pbu_id: f.submitting_pbu_id.clone(),
        security_id: f.security_id.clone(),
        security_id_source: f.security_id_source.clone(),
        ref_seq_num: 0,
        ref_msg_type: f.msg_type,
        business_reject_ref_id: f.ref_id.clone(),
        business_reject_reason: 20108,
        business_reject_text: "平台非法-委托申报的平台错误,例如向现货集中竞价平台申报发行认购业务的委托".to_owned(),
    };
    assert(rej@ == platform_reject(f@, now));
    count_reject(stats);
    Some(rej.encode())
}

/// The side in words.
pub open spec fn side_text(side: u8) -> Seq<char> {
    if side == 0x31 {
        "买"@
    } else if side == 0x32 {
        "卖"@
    } else {
        "?"@
    }
}

/// The side in words.
pub fn side_name(side: u8) -> (r: &'static str)
    ensures
        r@ == side_text(side),
{
    if side == 0x31 {
        "买"
    } else if side == 0x32 {
        "卖"
    } else {
        "?"
    }
}

/// The side of an order that is kept: a sale where its words say so.
pub open spec fn side_code(side: Seq<char>) -> u8 {
    if side.contains('卖') {
        0x32
    } else {
        0x31
    }
}

/// The side of an order that is kept.
pub fn side_byte(side: &str) -> (r: u8)
    ensures
        r == side_code(side@),
{
    let chars = text::chars_of(side);
    let mut i: usize = 0;
    while i < chars.len()
        invariant
            i <= chars@.len(),
            chars@ == side@,
            forall|k: int| 0 <= k < i ==> #[trigger] chars@[k] != '卖',
        decreases chars@.len() - i,
    {
        if chars[i] == '卖' {
            assert(side@[i as int] == '卖');
            return 0x32;
        }
        i += 1;
    }
    0x31
}

/// Buys and sales keep their side when they are kept in words.
pub proof fn law_side_round_trip(side: u8)
    requires
        side == 0x31 || side == 0x32,
    ensures
        side_code(side_text(side)) == side,
{
    reveal_strlit("买");
    reveal_strlit("卖");
    assert("卖"@[0] == '卖');
}

/// The order that is kept of a new order.
pub open spec fn is_entry(e: OrderEntry, o: NewOrderView, conn_id: u64, now: LocalTime) -> bool {
    &&& e.cl_ord_id@ == o.common.cl_ord_id
    &&& e.order_id@.len() == 0
    &&& e.security_id@ == o.common.security_id
    &&& e.side@ == side_text(o.common.side)
    &&& e.price == o.common.price
    &&& e.qty == o.common.order_qty
    &&& e.cum_qty == 0
    &&& e.leaves_qty == o.common.order_qty
    &&& e.status == OrderStatus::New
    &&& e.ord_type == o.common.ord_type
    &&& e.account@ == o.common.account_id
    &&& e.branch@ == o.common.branch_id
    &&& e.ts@ == clock::hms_text(now)
    &&& e.conn_id == conn_id
    &&& e.pbu@ == o.common.submitting_pbu_id
    &&& e.biz_id == 0
    &&& e.biz_pbu@.len() == 0
    &&& e.owner_type == o.common.owner_type
    &&& e.credit_tag@.len() == 0
    &&& e.clearing_firm@ == o.common.clearing_firm
    &&& e.user_info@ == o.common.user_info
    &&& e.biz@ == o.common.appl_id
}

/// The order that is kept of a new order.
pub fn entry_of(order: &NewOrder, conn_id: u64, now: &LocalTime) -> (r: OrderEntry)
    requires
        now.wf(),
    ensures
        is_entry(r, order@, conn_id, *now),
{
    let c = &order.common;
    OrderEntry {
        cl_ord_id: c.cl_ord_id.clone(),
        order_id: String::new(),
        security_id: c.security_id.clone(),
        side: side_name(c.side).to_owned(),
        price: c.price,
        qty: c.order_qty,
        cum_qty: 0,
        leaves_qty: c.order_qty,
        status: OrderStatus::New,
        ord_type: c.ord_type,
        account: c.account_id.clone(),
        branch: c.branch_id.clone(),
        ts: clock::hms(now),
        conn_id,
        pbu: c.submitting_pbu_id.clone(),
        biz_id: 0,
        biz_pbu: String::new(),
        owner_type: c.owner_type,
        credit_tag: String::new(),
        clearing_firm: c.clearing_firm.clone(),
        user_info: c.user_info.clone(),
        biz: c.appl_id.clone(),
    }
}

/// The new order that a body holds.
pub open spec fn order_in(mt: u32, body: Seq<u8>) -> NewOrderView {
    NewOrderView {
        msg_type: mt,
        common: protocol::OrderCommonView::of(body),
        extend: protocol::extend_at(mt, body),
    }
}

/// What of a new order its refusal repeats.
pub open spec fn order_filing(o: NewOrderView) -> FilingView {
    FilingView {
        msg_type: o.msg_type,
        appl_id: o.common.appl_id,
        ref_id: o.common.cl_ord_id,
        submitting_pbu_id: o.common.submitting_pbu_id,
        security_id: o.common.security_id,
        security_id_source: o.common.security_id_source,
    }
}

/// The counters after one more order.
pub open spec fn one_more_order(c: StatsSnapshot) -> StatsSnapshot {
    StatsSnapshot { orders: stats::next_count(c.orders), ..c }
}

/// The orders after a new one came in.
pub open spec fn is_kept(
    before: Option<Seq<OrderEntry>>,
    after: Option<Seq<OrderEntry>>,
    o: NewOrderView,
    conn_id: u64,
    now: LocalTime,
) -> bool {
    match before {
        None => after is None,
        Some(book) => exists|e: OrderEntry|
            #[trigger] is_entry(e, o, conn_id, now) && after == Some(orderbook::added(book, e)),
    }
}

/// The reports on an order that was counted.
pub open spec fn is_planned(
    cfg: PlatformConfig,
    st: StrategyConfig,
    o: NewOrderView,
    before: PlatformStats,
    counted: PlatformStats,
    after: PlatformStats,
    plans: Seq<PlannedReportView>,
    fs: Seq<(i64, i64)>,
    delays: Seq<u64>,
    at: LocalTime,
) -> bool {
    &&& counted.counters() == one_more_order(before.counters())
    &&& counted.sequences() == before.sequences()
    &&& strategy::may_plan(
        st,
        crate::config::partition_of(cfg.partition_list(), o.common.security_id) as i32,
        o,
        counted,
        after,
        plans,
        fs,
        delays,
        at,
    )
}

/// What a new order that could be read leads to: a business rejection where its business is
/// not done on the platform; and otherwise it is counted, kept, and answered as the strategy
/// says.
pub open spec fn is_order_answer(
    cfg: PlatformConfig,
    st: StrategyConfig,
    o: NewOrderView,
    conn_id: u64,
    now: LocalTime,
    before: PlatformStats,
    after: PlatformStats,
    orders: Option<Seq<OrderEntry>>,
    orders_after: Option<Seq<OrderEntry>>,
    step: StepView,
) -> bool {
    if !on_platform(o.common.appl_id, cfg.platform_type) {
        &&& step == StepView::Reply(
            seq![
                business_reject_frame(
                    platform_reject(order_filing(o), clock::timestamp_of(now) as i64),
                ),
            ],
        )
        &&& after.counters() == one_more_reject(before.counters())
        &&& after.sequences() == before.sequences()
        &&& orders_after == orders
    } else if step == StepView::OutOfRange {
        strategy::may_leave(st, o) && after == before && orders_after == orders
    } else {
        &&& is_kept(orders, orders_after, o, conn_id, now)
        &&& step is Reports
        &&& exists|
            counted: PlatformStats,
            fs: Seq<(i64, i64)>,
            delays: Seq<u64>,
            at: LocalTime,
        |
            is_planned(cfg, st, o, before, counted, after, step->Reports_0, fs, delays, at)
    }
}

/// What a new order leads to: nothing where it cannot be read.
pub open spec fn is_new_order_step(
    cfg: PlatformConfig,
    st: StrategyConfig,
    mt: u32,
    body: Seq<u8>,
    conn_id: u64,
    now: LocalTime,
    before: PlatformStats,
    after: PlatformStats,
    orders: Option<Seq<OrderEntry>>,
    orders_after: Option<Seq<OrderEntry>>,
    step: StepView,
) -> bool {
    if body.len() < 89 {
        step == StepView::Quiet && after == before && orders_after == orders
    } else {
        is_order_answer(
            cfg,
            st,
            order_in(mt, body),
            conn_id,
            now,
            before,
            after,
            orders,
            orders_after,
            step,
        )
    }
}

/// What a new order leads to.
pub fn handle_new_order(
    mt: u32,
    cfg: &PlatformConfig,
    st: &StrategyConfig,
    stats: &mut PlatformStats,
    orders: &mut Option<OrderBook>,
    body: &[u8],
    conn_id: u64,
    now: &LocalTime,
) -> (r: Step)
    requires
        now.wf(),
        orders_wf(*old(orders)),
        stats::ids_left(*old(stats)),
    ensures
        orders_wf(*final(orders)),
        is_new_order_step(
            *cfg,
            *st,
            mt,
            body@,
            conn_id,
            *now,
            *old(stats),
            *final(stats),
            kept(*old(orders)),
            kept(*final(orders)),
            r@,
        ),
{
    match NewOrder::decode(mt, body) {
        Ok(order) => answer_order(cfg, st, stats, orders, &order, conn_id, now),
        Err(_) => Step::Quiet,
    }
}

/// What a new order that could be read leads to.
pub fn answer_order(
    cfg: &PlatformConfig,
    st: &StrategyConfig,
    stats: &mut PlatformStats,
    orders: &mut Option<OrderBook>,
    order: &NewOrder,
    conn_id: u64,
    now: &LocalTime,
) -> (r: Step)
    requires
        now.wf(),
        orders_wf(*old(orders)),
        stats::ids_left(*old(stats)),
    ensures
        orders_wf(*final(orders)),
        is_order_answer(
            *cfg,
            *st,
            order@,
            conn_id,
            *now,
            *old(stats),
            *final(stats),
            kept(*old(orders)),
            kept(*final(orders)),
            r@,
        ),
{
    let filing = Filing {
        msg_type: order.msg_type,
        appl_id: order.common.appl_id.clone(),
        ref_id: order.common.cl_ord_id.clone(),
        submitting_pbu_id: order.common.submitting_pbu_id.clone(),
        security_id: order.common.security_id.clone(),
        security_id_source: order.common.security_id_source.clone(),
    };
    assert(filing@ == order_filing(order@));
    if let Some(rej) = reject_platform(cfg, stats, &filing, clock::timestamp(now)) {
        return reply_with(rej);
    }
    let fs = match strategy::draw_fills(st, order) {
        Some(fs) => fs,
        None => {
            return Step::OutOfRange;
        },
    };
    keep_order(orders, order, conn_id, now);
    let plans = plan_order(cfg, st, stats, order, &fs);
    proof {
        let (counted, delays, at) = choose|counted: PlatformStats, delays: Seq<u64>, at: LocalTime|
            is_planned(
                *cfg,
                *st,
                order@,
                *old(stats),
                counted,
                *stats,
                report::plan_views(plans@),
                fs@,
                delays,
                at,
            );
        assert(Step::Reports(plans)@->Reports_0 == report::plan_views(plans@));
        assert(is_planned(
            *cfg,
            *st,
            order@,
            *old(stats),
            counted,
            *stats,
            Step::Reports(plans)@->Reports_0,
            fs@,
            delays,
            at,
        ));
    }
    Step::Reports(plans)
}

/// Counts a new order and plans the reports on it.
fn plan_order(
    cfg: &PlatformConfig,
    st: &StrategyConfig,
    stats: &mut PlatformStats,
    order: &NewOrder,
    fs: &Vec<(i64, i64)>,
) -> (r: Vec<PlannedReport>)
    requires
        stats::ids_left(*old(stats)),
        strategy::are_executions(*st, order@, fs@),
        fills::sums_fit(order.common.order_qty, fs@),
        fs@.len() <= 0x7fff_ffff_ffff_ffff,
    ensures
        exists|counted: PlatformStats, delays: Seq<u64>, at: LocalTime|
            is_planned(
                *cfg,
                *st,
                order@,
                *old(stats),
                counted,
                *final(stats),
                report::plan_views(r@),
                fs@,
                delays,
                at,
            ),
{
    stats.orders = stats::bump(stats.orders);
    let ghost counted = *stats;
    let partition: i32 = cfg.partition_for(order.common.security_id.as_str());
    let plans = strategy::plan_fills(st, partition, order, stats, fs);
    proof {
        let (delays, at) = choose|delays: Seq<u64>, at: LocalTime|
            strategy::may_plan(
                *st,
                partition,
                order@,
                counted,
                *stats,
                report::plan_views(plans@),
                fs@,
                delays,
                at,
            );
        assert(is_planned(
            *cfg,
            *st,
            order@,
            *old(stats),
            counted,
            *stats,
            report::plan_views(plans@),
            fs@,
            delays,
            at,
        ));
    }
    plans
}

fn keep_order(orders: &mut Option<OrderBook>, order: &NewOrder, conn_id: u64, now: &LocalTime)
    requires
        now.wf(),
        orders_wf(*old(orders)),
    ensures
        orders_wf(*final(orders)),
        is_kept(kept(*old(orders)), kept(*final(orders)), order@, conn_id, *now),
{
    match orders.take() {
        Some(mut book) => {
            let e = entry_of(order, conn_id, now);
            let ghost entry = e;
            book.add(e);
            *orders = Some(book);
            assert(is_entry(entry, order@, conn_id, *now));
        },
        None => {
            *orders = None;
        },
    }
}

/// The request to cancel that a body holds.
pub open spec fn cancel_in(body: Seq<u8>) -> OrderCancelRequestView {
    OrderCancelRequestView::of(body)
}

/// What of a request to cancel its refusal repeats.
pub open spec fn cancel_filing(q: OrderCancelRequestView) -> FilingView {
    FilingView {
        msg_type: msg_type::ORDER_CANCEL_REQUEST,
        appl_id: q.appl_id,
        ref_id: q.cl_ord_id,
        submitting_pbu_id: q.submitting_pbu_id,
        security_id: q.security_id,
        security_id_source: q.security_id_source,
    }
}

/// The business of an order that is kept; the cash auction where it is not known.
pub open spec fn entry_business(biz: Seq<char>) -> BizInfo {
    match strategy::business_of(biz) {
        Some(b) => b,
        None => strategy::business(msg_type::NEW_ORDER_CASH),
    }
}

/// The business of an order that is kept.
pub fn business_of_entry(biz: &str) -> (r: BizInfo)
    ensures
        r == entry_business(biz@),
{
    match strategy::biz_info_by_appl_id(biz) {
        Some(b) => b,
        None => strategy::biz_info(msg_type::NEW_ORDER_CASH),
    }
}

/// The report on a cancelled order. Its number, price and quantity are those of the order that
/// was kept, as it came; where none was, they come from the request.
pub open spec fn cancelled_of(
    partition_no: i32,
    q: OrderCancelRequestView,
    e: Option<OrderEntry>,
    exec_id: Seq<char>,
    now: i64,
) -> ExecRptAckView {
    let biz = match e {
        Some(x) => entry_business(x.biz@),
        None => strategy::business(msg_type::NEW_ORDER_CASH),
    };
    ExecRptAckView {
        msg_type: biz.ack_msg_type,
        partition_no,
        report_index: 0,
        appl_id: strategy::filled_or(q.appl_id, biz.appl_id@),
        reporting_pbu_id: q.submitting_pbu_id,
        submitting_pbu_id: q.submitting_pbu_id,
        security_id: q.security_id,
        security_id_source: strategy::filled_or(q.security_id_source, "102"@),
        owner_type: q.owner_type,
        clearing_firm: q.clearing_firm,
        transact_time: now,
        user_info: q.user_info,
        order_id: match e {
            Some(x) => x.order_id@,
            None => q.order_id,
        },
        cl_ord_id: q.cl_ord_id,
        orig_cl_ord_id: q.orig_cl_ord_id,
        exec_id,
        exec_type: exec_type::CANCELLED,
        ord_status: ord_status::CANCELLED,
        ord_rej_reason: 0,
        leaves_qty: 0,
        cum_qty: match e {
            Some(x) => x.cum_qty,
            None => 0,
        },
        side: q.side,
        ord_type: match e {
            Some(x) => x.ord_type,
            None => 0,
        },
        order_qty: match e {
            Some(x) => x.qty,
            None => q.order_qty,
        },
        price: match e {
            Some(x) => x.price,
            None => 0,
        },
        account_id: match e {
            Some(x) => x.account@,
            None => Seq::empty(),
        },
        branch_id: match e {
            Some(x) => x.branch@,
            None => Seq::empty(),
        },
        order_restrictions: Seq::empty(),
        extend: protocol::no_extend(),
    }
}

/// The report on a cancelled order repeats the price and the quantity that the order came
/// with, to the last unit.
pub proof fn law_cancel_repeats_order(
    o: NewOrderView,
    conn_id: u64,
    kept_at: LocalTime,
    e: OrderEntry,
    partition_no: i32,
    q: OrderCancelRequestView,
    exec_id: Seq<char>,
    now: i64,
)
    requires
        is_entry(e, o, conn_id, kept_at),
    ensures
        cancelled_of(partition_no, q, Some(e), exec_id, now).price == o.common.price,
        cancelled_of(partition_no, q, Some(e), exec_id, now).order_qty == o.common.order_qty,
{
}

fn build_cancelled(
    partition_no: i32,
    req: &OrderCancelRequest,
    e: &Option<OrderEntry>,
    exec_id: String,
    now: i64,
) -> (r: ExecRptAck)
    ensures
        r@ == cancelled_of(partition_no, req@, *e, exec_id@, now),
{
    let biz = match e {
        Some(x) => business_of_entry(x.biz.as_str()),
        None => strategy::biz_info(msg_type::NEW_ORDER_CASH),
    };
    ExecRptAck {
        msg_type: biz.ack_msg_type,
        partition_no,
        report_index: 0,
        appl_id: strategy::fill_or(req.appl_id.as_str(), biz.appl_id),
        reporting_pbu_id: req.submitting_pbu_id.clone(),
        submitting_pbu_id: req.submitting_pbu_id.clone(),
        security_id: req.security_id.clone(),
        security_id_source: strategy::fill_or(req.security_id_source.as_str(), "102"),
        owner_type: req.owner_type,
        clearing_firm: req.clearing_firm.clone(),
        transact_time: now,
        user_info: req.user_info.clone(),
        order_id: match e {
            Some(x) => x.order_id.clone(),
            None => req.order_id.clone(),
        },
        cl_ord_id: req.cl_ord_id.clone(),
        orig_cl_ord_id: req.orig_cl_ord_id.clone(),
        exec_id,
        exec_type: exec_type::CANCELLED,
        ord_status: ord_status::CANCELLED,
        ord_rej_reason: 0,
        leaves_qty: 0,
        cum_qty: match e {
            Some(x) => x.cum_qty,
            None => 0,
        },
        side: req.side,
        ord_type: match e {
            Some(x) => x.ord_type,
            None => 0,
        },
        order_qty: match e {
            Some(x) => x.qty,
            None => req.order_qty,
        },
        price: match e {
            Some(x) => x.price,
            None => 0,
        },
        account_id: match e {
            Some(x) => x.account.clone(),
            None => String::new(),
        },
        branch_id: match e {
            Some(x) => x.branch.clone(),
            None => String::new(),
        },
        order_restrictions: String::new(),
        extend: protocol::OrderExtend {
            stop_px: 0,
            min_qty: 0,
            max_price_levels: 0,
            time_in_force: 0,
            cash_margin: 0,
        },
    }
}

/// The refusal of a request to cancel.
pub open spec fn cancel_reject_of(
    partition_no: i32,
    q: OrderCancelRequestView,
    reason: u16,
    now: i64,
) -> CancelRejectView {
    CancelRejectView {
        partition_no,
        report_index: 0,
        appl_id: strategy::filled_or(q.appl_id, "010"@),
        reporting_pbu_id: q.submitting_pbu_id,
        submitting_pbu_id: q.submitting_pbu_id,
        security_id: q.security_id,
        security_id_source: q.security_id_source,
        owner_type: q.owner_type,
        clearing_firm: q.clearing_firm,
        transact_time: now,
        user_info: q.user_info,
        cl_ord_id: q.cl_ord_id,
        orig_cl_ord_id: q.orig_cl_ord_id,
        side: q.side,
        ord_status: ord_status::REJECTED,
        cxl_rej_reason: reason,
        reject_text: "SIM NO ORDER"@,
        order_id: q.order_id,
    }
}

/// The refusal of a request to cancel by a business rejection.
pub open spec fn cancel_front_reject_of(
    q: OrderCancelRequestView,
    reason: u16,
    now: i64,
) -> BusinessRejectView {
    BusinessRejectView {
        appl_id: strategy::filled_or(q.appl_id, "010"@),
        transact_time: now,
        submitting_pbu_id: q.submitting_pbu_id,
        security_id: q.security_id,
        security_id_source: q.security_id_source,
        ref_seq_num: 0,
        ref_msg_type: msg_type::ORDER_CANCEL_REQUEST,
        business_reject_ref_id: q.cl_ord_id,
        business_reject_reason: reason,
        business_reject_text: "撤单被拒"@,
    }
}

/// The message that refuses a request to cancel.
pub open spec fn cancel_reject_frame(
    st: StrategyConfig,
    partition_no: i32,
    q: OrderCancelRequestView,
    now: i64,
) -> Seq<u8> {
    if st.cancel_front_reject {
        business_reject_frame(cancel_front_reject_of(q, st.cancel_reject_reason, now))
    } else {
        protocol::framed(
            msg_type::CANCEL_REJECT,
            cancel_reject_of(partition_no, q, st.cancel_reject_reason, now).body(),
        )
    }
}

/// Refuses a request to cancel.
pub fn send_cancel_reject(
    st: &StrategyConfig,
    stats: &mut PlatformStats,
    partition_no: i32,
    req: &OrderCancelRequest,
    now: i64,
) -> (r: Vec<u8>)
    ensures
        r@ == cancel_reject_frame(*st, partition_no, req@, now),
        final(stats).counters() == (if st.cancel_front_reject {
            one_more_reject(old(stats).counters())
        } else {
            old(stats).counters()
        }),
        final(stats).sequences() == old(stats).sequences(),
{
    if st.cancel_front_reject {
        let rej = BusinessReject {
            appl_id: strategy::fill_or(req.appl_id.as_str(), "010"),
            transact_time: now,
            submitting_pbu_id: req.submitting_pbu_id.clone(),
            security_id: req.security_id.clone(),
            security_id_source: req.security_id_source.clone(),
            ref_seq_num: 0,
            ref_msg_type: msg_type::ORDER_CANCEL_REQUEST,
            business_reject_ref_id: req.cl_ord_id.clone(),
            business_reject_reason: st.cancel_reject_reason,
            business_reject_text: "撤单被拒".to_owned(),
        };
        assert(rej@ == cancel_front_reject_of(req@, st.cancel_reject_reason, now));
        count_reject(stats);
        return rej.encode();
    }
    let rej = CancelReject {
        partition_no,
        report_index: 0,
        appl_id: strategy::fill_or(req.appl_id.as_str(), "010"),
        reporting_pbu_id: req.submitting_pbu_id.clone(),
        submitting_pbu_id: req.submitting_pbu_id.clone(),
        security_id: req.security_id.clone(),
        security_id_source: req.security_id_source.clone(),
        owner_type: req.owner_type,
        clearing_firm: req.clearing_firm.clone(),
        transact_time: now,
        user_info: req.user_info.clone(),
        cl_ord_id: req.cl_ord_id.clone(),
        orig_cl_ord_id: req.orig_cl_ord_id.clone(),
        side: req.side,
        ord_status: ord_status::REJECTED,
        cxl_rej_reason: st.cancel_reject_reason,
        reject_text: "SIM NO ORDER".to_owned(),
        order_id: req.order_id.clone(),
    };
    assert(rej@ == cancel_reject_of(partition_no, req@, st.cancel_reject_reason, now));
    rej.encode()
}

/// The order that a request names, where orders are kept.
pub open spec fn named_order(orders: Option<Seq<OrderEntry>>, key: Seq<char>) -> Option<OrderEntry> {
    match orders {
        Some(book) => orderbook::lookup(book, key),
        None => None,
    }
}

/// Whether the order that a request names is in flight.
pub open spec fn names_inflight(orders: Option<Seq<OrderEntry>>, key: Seq<char>) -> bool {
    named_order(orders, key) matches Some(o) && o.status.inflight()
}

/// The orders after the one that a request names was cancelled, if it was in flight.
pub open spec fn orders_cancelled(
    orders: Option<Seq<OrderEntry>>,
    key: Seq<char>,
) -> Option<Seq<OrderEntry>> {
    if names_inflight(orders, key) {
        match orders {
            Some(book) => Some(
                book.update(
                    orderbook::slot(book, key),
                    orderbook::cancelled(book[orderbook::slot(book, key)]),
                ),
            ),
            None => None,
        }
    } else {
        orders
    }
}

/// What is left when a request to cancel has been answered.
pub struct Answered {
    pub step: StepView,
    pub orders: Option<Seq<OrderEntry>>,
    pub counters: StatsSnapshot,
    /// How many execution numbers were used.
    pub execs: int,
}

/// The counters after one more request to cancel.
pub open spec fn one_more_cancel(c: StatsSnapshot) -> StatsSnapshot {
    StatsSnapshot { cancels: stats::next_count(c.cancels), ..c }
}

/// Whether a request to cancel is granted: always or never, as the settings say, or where
/// the order is in flight.
pub open spec fn cancel_granted(
    mode: CancelMode,
    orders: Option<Seq<OrderEntry>>,
    key: Seq<char>,
) -> bool {
    match mode {
        CancelMode::AlwaysReject => false,
        CancelMode::AlwaysSuccess => true,
        CancelMode::Default => names_inflight(orders, key),
    }
}

/// What a request to cancel leads to: nothing where it cannot be read; a business rejection
/// where it names a business that is not done on the platform; and otherwise, after the
/// delay, the report on the cancelled order or the refusal.
pub open spec fn cancel_answer(
    cfg: PlatformConfig,
    st: StrategyConfig,
    body: Seq<u8>,
    exec_no: int,
    before: StatsSnapshot,
    orders: Option<Seq<OrderEntry>>,
    delay_ms: u64,
    now: i64,
) -> Answered {
    if body.len() < 86 {
        Answered { step: StepView::Quiet, orders, counters: before, execs: 0 }
    } else {
        request_answer(cfg, st, cancel_in(body), exec_no, before, orders, delay_ms, now)
    }
}

/// What a request to cancel that could be read leads to.
pub open spec fn request_answer(
    cfg: PlatformConfig,
    st: StrategyConfig,
    q: OrderCancelRequestView,
    exec_no: int,
    before: StatsSnapshot,
    orders: Option<Seq<OrderEntry>>,
    delay_ms: u64,
    now: i64,
) -> Answered {
    let partition_no = crate::config::partition_of(cfg.partition_list(), q.security_id) as i32;
    if !text::is_blank(q.appl_id) && !on_platform(q.appl_id, cfg.platform_type) {
        Answered {
            step: StepView::Reply(
                seq![business_reject_frame(platform_reject(cancel_filing(q), now))],
            ),
            orders,
            counters: one_more_reject(before),
            execs: 0,
        }
    } else if cancel_granted(st.cancel_mode, orders, q.orig_cl_ord_id) {
        Answered {
            step: StepView::Later {
                frame: cancelled_of(
                    partition_no,
                    q,
                    named_order(orders, q.orig_cl_ord_id),
                    stats::id_text(exec_no + 1),
                    now,
                ).frame(),
                delay_ms,
            },
            orders: orders_cancelled(orders, q.orig_cl_ord_id),
            counters: one_more_cancel(before),
            execs: 1,
        }
    } else {
        Answered {
            step: StepView::Later {
                frame: cancel_reject_frame(st, partition_no, q, now),
                delay_ms,
            },
            orders,
            counters: if st.cancel_front_reject {
                one_more_reject(one_more_cancel(before))
            } else {
                one_more_cancel(before)
            },
            execs: 0,
        }
    }
}

/// Finds the order that a request names.
pub fn find_named(orders: &Option<OrderBook>, key: &str) -> (r: Option<OrderEntry>)
    ensures
        r == named_order(kept(*orders), key@),
{
    match orders {
        Some(book) => book.find(key),
        None => None,
    }
}

/// Cancels the order that a request names, if it is in flight; says whether it was.
pub fn cancel_named(orders: &mut Option<OrderBook>, key: &str) -> (r: bool)
    requires
        orders_wf(*old(orders)),
    ensures
        orders_wf(*final(orders)),
        r == names_inflight(kept(*old(orders)), key@),
        kept(*final(orders)) == orders_cancelled(kept(*old(orders)), key@),
{
    match orders.take() {
        Some(mut book) => {
            let r = book.cancel_inflight(key);
            *orders = Some(book);
            r
        },
        None => {
            *orders = None;
            false
        },
    }
}

/// What a request to cancel leads to, with the given delay.
pub fn answer_cancel(
    cfg: &PlatformConfig,
    st: &StrategyConfig,
    stats: &mut PlatformStats,
    orders: &mut Option<OrderBook>,
    body: &[u8],
    delay_ms: u64,
    now: i64,
) -> (r: Step)
    requires
        orders_wf(*old(orders)),
        stats::ids_left(*old(stats)),
    ensures
        orders_wf(*final(orders)),
        ({
            let a = cancel_answer(
                *cfg,
                *st,
                body@,
                old(stats).exec_seq as int,
                old(stats).counters(),
                kept(*old(orders)),
                delay_ms,
                now,
            );
            &&& r@ == a.step
            &&& kept(*final(orders)) == a.orders
            &&& final(stats).counters() == a.counters
            &&& final(stats).exec_seq == old(stats).exec_seq + a.execs
        }),
        final(stats).order_seq == old(stats).order_seq,
        final(stats).partition_report_index@ == old(stats).partition_report_index@,
{
    match OrderCancelRequest::decode(body) {
        Ok(req) => answer_request(cfg, st, stats, orders, &req, delay_ms, now),
        Err(_) => Step::Quiet,
    }
}

/// What a request to cancel that could be read leads to, with the given delay.
pub fn answer_request(
    cfg: &PlatformConfig,
    st: &StrategyConfig,
    stats: &mut PlatformStats,
    orders: &mut Option<OrderBook>,
    req: &OrderCancelRequest,
    delay_ms: u64,
    now: i64,
) -> (r: Step)
    requires
        orders_wf(*old(orders)),
        stats::ids_left(*old(stats)),
    ensures
        orders_wf(*final(orders)),
        ({
            let a = request_answer(
                *cfg,
                *st,
                req@,
                old(stats).exec_seq as int,
                old(stats).counters(),
                kept(*old(orders)),
                delay_ms,
                now,
            );
            &&& r@ == a.step
            &&& kept(*final(orders)) == a.orders
            &&& final(stats).counters() == a.counters
            &&& final(stats).exec_seq == old(stats).exec_seq + a.execs
        }),
        final(stats).order_seq == old(stats).order_seq,
        final(stats).partition_report_index@ == old(stats).partition_report_index@,
{
    if !text::blank(req.appl_id.as_str()) {
        let filing = Filing {
            msg_type: msg_type::ORDER_CANCEL_REQUEST,
            appl_id: req.appl_id.clone(),
            ref_id: req.cl_ord_id.clone(),
            submitting_pbu_id: req.submitting_pbu_id.clone(),
            security_id: req.security_id.clone(),
            security_id_source: req.security_id_source.clone(),
        };
        assert(filing@ == cancel_filing(req@));
        if let Some(rej) = reject_platform(cfg, stats, &filing, now) {
            return reply_with(rej);
        }
    }
    stats.cancels = stats::bump(stats.cancels);
    let partition_no: i32 = cfg.partition_for(req.security_id.as_str());
    let found = find_named(orders, req.orig_cl_ord_id.as_str());
    let granted = match st.cancel_mode {
        CancelMode::AlwaysReject => false,
        CancelMode::AlwaysSuccess => {
            let _done = cancel_named(orders, req.orig_cl_ord_id.as_str());
            true
        },
        CancelMode::Default => cancel_named(orders, req.orig_cl_ord_id.as_str()),
    };
    if granted {
        let exec_id = stats.next_exec_id();
        let cxl = build_cancelled(partition_no, req, &found, exec_id, now);
        return Step::Later { frame: cxl.encode(), delay_ms };
    }
    Step::Later { frame: send_cancel_reject(st, stats, partition_no, req, now), delay_ms }
}

/// What a request to cancel leads to.
pub fn handle_cancel(
    cfg: &PlatformConfig,
    st: &StrategyConfig,
    stats: &mut PlatformStats,
    orders: &mut Option<OrderBook>,
    body: &[u8],
    now: i64,
) -> (r: Step)
    requires
        orders_wf(*old(orders)),
        stats::ids_left(*old(stats)),
    ensures
        orders_wf(*final(orders)),
        exists|delay_ms: u64|
            #![trigger st.cancel_delay.allows(delay_ms)]
            st.cancel_delay.allows(delay_ms) && {
                let a = cancel_answer(
                    *cfg,
                    *st,
                    body@,
                    old(stats).exec_seq as int,
                    old(stats).counters(),
                    kept(*old(orders)),
                    delay_ms,
                    now,
                );
                &&& r@ == a.step
                &&& kept(*final(orders)) == a.orders
                &&& final(stats).counters() == a.counters
                &&& final(stats).exec_seq == old(stats).exec_seq + a.execs
            },
        final(stats).order_seq == old(stats).order_seq,
        final(stats).partition_report_index@ == old(stats).partition_report_index@,
{
    let delay_ms: u64 = st.cancel_delay.sample();
    assert(st.cancel_delay.allows(delay_ms));
    answer_cancel(cfg, st, stats, orders, body, delay_ms, now)
}

/// A request to cancel that is granted leaves no order in flight under the number that it
/// names first, so that a second request for it is refused by the state of the order.
pub proof fn law_cancelled_once(orders: Option<Seq<OrderEntry>>, key: Seq<char>)
    ensures
        !names_inflight(orders_cancelled(orders, key), key),
{
    if names_inflight(orders, key) {
        match orders {
            Some(book) => {
                orderbook::law_cancel_once(book, key);
            },
            None => {},
        }
    }
}

/// A refused request to cancel leaves the orders as they are.
pub proof fn law_refusal_changes_no_order(
    cfg: PlatformConfig,
    st: StrategyConfig,
    body: Seq<u8>,
    exec_no: int,
    before: StatsSnapshot,
    orders: Option<Seq<OrderEntry>>,
    delay_ms: u64,
    now: i64,
)
    requires
        !cancel_granted(st.cancel_mode, orders, cancel_in(body).orig_cl_ord_id),
    ensures
        cancel_answer(cfg, st, body, exec_no, before, orders, delay_ms, now).orders == orders,
        cancel_answer(cfg, st, body, exec_no, before, orders, delay_ms, now).execs == 0,
{
}

/// The connections after a client has logged on.
pub open spec fn is_logged_on(
    before: Seq<ConnInfo>,
    after: Seq<ConnInfo>,
    conn_id: u64,
    comp_id: Seq<char>,
) -> bool {
    let k = conn_slot(before, conn_id);
    &&& after.len() == before.len()
    &&& forall|i: int| 0 <= i < before.len() && i != k ==> #[trigger] after[i] == before[i]
    &&& k < before.len() ==> {
        &&& after[k].comp_id@ == comp_id
        &&& after[k].logged_on
        &&& after[k].id == conn_id
        &&& after[k].peer == before[k].peer
        &&& after[k].since == before[k].since
    }
}

/// What the quote of an agreed trade leads to: nothing where it cannot be read; a business
/// rejection where its business is not done on the platform; and otherwise it is accepted.
pub open spec fn is_quote_step(
    cfg: PlatformConfig,
    body: Seq<u8>,
    now: i64,
    before: PlatformStats,
    after: PlatformStats,
    step: StepView,
) -> bool {
    if body.len() < 313 {
        step == StepView::Quiet && after == before
    } else {
        exists|q: Quote|
            #[trigger] filings::is_agreement_quote(q, body) && is_quote_answer(
                cfg,
                q,
                now,
                before,
                after,
                step,
            )
    }
}

/// What the quote of an agreed trade that could be read leads to.
pub open spec fn is_quote_answer(
    cfg: PlatformConfig,
    q: Quote,
    now: i64,
    before: PlatformStats,
    after: PlatformStats,
    step: StepView,
) -> bool {
    &&& after.partition_report_index@ == before.partition_report_index@
    &&& if on_platform(q.appl_id@, cfg.platform_type) {
        &&& after.counters() == before.counters()
        &&& after.order_seq == before.order_seq + 1
        &&& after.exec_seq == before.exec_seq + 1
        &&& exists|r: QuoteStatusReport|
            #[trigger] filings::is_quote_accepted(
                r,
                q,
                msg_type::QUOTE_STATUS_AGREEMENT,
                crate::config::partition_of(cfg.partition_list(), q.security_id@) as i32,
                stats::id_text(before.order_seq + 1),
                stats::id_text(before.exec_seq + 1),
                now,
            ) && step == StepView::Reply(
                seq![
                    protocol::framed(
                        msg_type::QUOTE_STATUS_AGREEMENT,
                        filings::quote_status_body(r),
                    ),
                ],
            )
    } else {
        &&& after.counters() == one_more_reject(before.counters())
        &&& after.sequences() == before.sequences()
        &&& step == StepView::Reply(
            seq![
                business_reject_frame(
                    platform_reject(
                        FilingView {
                            msg_type: msg_type::QUOTE_AGREEMENT,
                            appl_id: q.appl_id@,
                            ref_id: q.quote_msg_id@,
                            submitting_pbu_id: q.submitting_pbu_id@,
                            security_id: q.security_id@,
                            security_id_source: q.security_id_source@,
                        },
                        now,
                    ),
                ),
            ],
        )
    }
}

/// What the quote of an agreed trade leads to.
pub fn on_quote(cfg: &PlatformConfig, stats: &mut PlatformStats, body: &[u8], now: i64) -> (r: Step)
    requires
        stats::ids_left(*old(stats)),
    ensures
        is_quote_step(*cfg, body@, now, *old(stats), *final(stats), r@),
{
    let q = match Quote::decode_agreement(body) {
        Ok(q) => q,
        Err(_) => {
            return Step::Quiet;
        },
    };
    let answer = filings::handle_quote(
        msg_type::QUOTE_AGREEMENT,
        msg_type::QUOTE_STATUS_AGREEMENT,
        cfg,
        stats,
        &q,
        now,
    );
    let step = match answer {
        Ok(rpt) => {
            let step = reply_with(rpt.encode());
            assert(filings::is_quote_accepted(
                rpt,
                q,
                msg_type::QUOTE_STATUS_AGREEMENT,
                crate::config::partition_of(cfg.partition_list(), q.security_id@) as i32,
                stats::id_text(old(stats).order_seq + 1),
                stats::id_text(old(stats).exec_seq + 1),
                now,
            ));
            step
        },
        Err(rej) => reply_with(rej),
    };
    assert(filings::is_agreement_quote(q, body@));
    assert(is_quote_answer(*cfg, q, now, *old(stats), *stats, step@));
    step
}

/// What a message leads to, and what the connections share after it.
pub open spec fn is_step(
    ctx: SessionCtx,
    sess: Session,
    conn_id: u64,
    mt: u32,
    body: Seq<u8>,
    now: LocalTime,
    ctx_after: SessionCtx,
    sess_after: Session,
    step: StepView,
) -> bool {
    let at = clock::timestamp_of(now) as i64;
    if mt == msg_type::LOGON {
        &&& (step, sess_after) == logon_step(ctx.cfg, sess, body, now)
        &&& ctx_after == (SessionCtx { connections: ctx_after.connections, ..ctx })
        &&& step matches StepView::LoggedOn { comp_id, .. } ==> is_logged_on(
            ctx.connections@,
            ctx_after.connections@,
            conn_id,
            comp_id,
        )
        &&& !(step is LoggedOn) ==> ctx_after == ctx
    } else if mt == msg_type::HEARTBEAT {
        step == StepView::Quiet && ctx_after == ctx && sess_after == sess
    } else if mt == msg_type::LOGOUT {
        step == StepView::Close(Some(logout_frame(4, "会话退登完成"@))) && ctx_after == ctx
            && sess_after == sess
    } else if mt == msg_type::REPORT_SYNC {
        &&& is_sync_step(
            ctx.cfg,
            ctx.recorders@,
            body,
            at,
            ctx.stats.counters(),
            ctx_after.stats.counters(),
            step,
        )
        &&& ctx_after.stats.sequences() == ctx.stats.sequences()
        &&& ctx_after == (SessionCtx { stats: ctx_after.stats, ..ctx })
        &&& sess_after == sess
    } else if sess.logged_on && protocol::new_order_type(mt) {
        &&& is_new_order_step(
            ctx.cfg,
            ctx.strategy,
            mt,
            body,
            conn_id,
            now,
            ctx.stats,
            ctx_after.stats,
            kept(ctx.orders),
            kept(ctx_after.orders),
            step,
        )
        &&& ctx_after == (SessionCtx {
            stats: ctx_after.stats,
            orders: ctx_after.orders,
            ..ctx
        })
        &&& sess_after == sess
    } else if sess.logged_on && mt == msg_type::ORDER_CANCEL_REQUEST {
        &&& exists|delay_ms: u64|
            #[trigger] ctx.strategy.cancel_delay.allows(delay_ms) && is_cancel_step(
                ctx,
                body,
                delay_ms,
                at,
                ctx_after,
                step,
            )
        &&& sess_after == sess
    } else if sess.logged_on && mt == msg_type::QUOTE_AGREEMENT {
        &&& is_quote_step(ctx.cfg, body, at, ctx.stats, ctx_after.stats, step)
        &&& ctx_after == (SessionCtx { stats: ctx_after.stats, ..ctx })
        &&& sess_after == sess
    } else {
        step == StepView::Quiet && ctx_after == ctx && sess_after == sess
    }
}

/// What a request to cancel leads to, with the given delay.
pub open spec fn is_cancel_step(
    ctx: SessionCtx,
    body: Seq<u8>,
    delay_ms: u64,
    now: i64,
    ctx_after: SessionCtx,
    step: StepView,
) -> bool {
    let a = cancel_answer(
        ctx.cfg,
        ctx.strategy,
        body,
        ctx.stats.exec_seq as int,
        ctx.stats.counters(),
        kept(ctx.orders),
        delay_ms,
        now,
    );
    &&& step == a.step
    &&& kept(ctx_after.orders) == a.orders
    &&& ctx_after.stats.counters() == a.counters
    &&& ctx_after.stats.exec_seq == ctx.stats.exec_seq + a.execs
    &&& ctx_after.stats.order_seq == ctx.stats.order_seq
    &&& ctx_after.stats.partition_report_index@ == ctx.stats.partition_report_index@
    &&& ctx_after == (SessionCtx { stats: ctx_after.stats, orders: ctx_after.orders, ..ctx })
}

/// What a message leads to. A message of a type that is not known, and one that needs a
/// logon and comes before it, leads to nothing.
pub fn on_frame(
    ctx: &mut SessionCtx,
    sess: &mut Session,
    conn_id: u64,
    mt: u32,
    body: &[u8],
    now: &LocalTime,
) -> (r: Step)
    requires
        now.wf(),
        old(ctx).wf(),
    ensures
        capture::all_wf(final(ctx).recorders@),
        orders_wf(final(ctx).orders),
        is_step(
            *old(ctx),
            *old(sess),
            conn_id,
            mt,
            body@,
            *now,
            *final(ctx),
            *final(sess),
            r@,
        ),
{
    if mt == msg_type::LOGON {
        let step = on_logon(&ctx.cfg, sess, body, now);
        if let Step::LoggedOn { comp_id, .. } = &step {
            ctx.logged_on(conn_id, comp_id.as_str());
        }
        step
    } else if mt == msg_type::HEARTBEAT {
        Step::Quiet
    } else if mt == msg_type::LOGOUT {
        on_logout()
    } else if mt == msg_type::REPORT_SYNC {
        on_report_sync(&ctx.cfg, &mut ctx.stats, &ctx.recorders, body, clock::timestamp(now))
    } else if sess.logged_on && NewOrder::is_new_order(mt) {
        handle_new_order(
            mt,
            &ctx.cfg,
            &ctx.strategy,
            &mut ctx.stats,
            &mut ctx.orders,
            body,
            conn_id,
            now,
        )
    } else if sess.logged_on && mt == msg_type::ORDER_CANCEL_REQUEST {
        let step = handle_cancel(
            &ctx.cfg,
            &ctx.strategy,
            &mut ctx.stats,
            &mut ctx.orders,
            body,
            clock::timestamp(now),
        );
        proof {
            let at = clock::timestamp_of(*now) as i64;
            let d = choose|d: u64|
                #![trigger old(ctx).strategy.cancel_delay.allows(d)]
                old(ctx).strategy.cancel_delay.allows(d) && {
                    let a = cancel_answer(
                        old(ctx).cfg,
                        old(ctx).strategy,
                        body@,
                        old(ctx).stats.exec_seq as int,
                        old(ctx).stats.counters(),
                        kept(old(ctx).orders),
                        d,
                        at,
                    );
                    &&& step@ == a.step
                    &&& kept(ctx.orders) == a.orders
                    &&& ctx.stats.counters() == a.counters
                    &&& ctx.stats.exec_seq == old(ctx).stats.exec_seq + a.execs
                };
            assert(old(ctx).strategy.cancel_delay.allows(d));
            assert(is_cancel_step(*old(ctx), body@, d, at, *ctx, step@));
        }
        step
    } else if sess.logged_on && mt == msg_type::QUOTE_AGREEMENT {
        on_quote(&ctx.cfg, &mut ctx.stats, body, clock::timestamp(now))
    } else {
        Step::Quiet
    }
}

/// Before a client has logged on, only a logon, a logout, a heartbeat or a request for
/// reports has any effect.
pub proof fn law_logon_first(
    ctx: SessionCtx,
    sess: Session,
    conn_id: u64,
    mt: u32,
    body: Seq<u8>,
    now: LocalTime,
    ctx_after: SessionCtx,
    sess_after: Session,
    step: StepView,
)
    requires
        is_step(ctx, sess, conn_id, mt, body, now, ctx_after, sess_after, step),
        !sess.logged_on,
        mt != msg_type::LOGON,
        mt != msg_type::LOGOUT,
        mt != msg_type::REPORT_SYNC,
    ensures
        step == StepView::Quiet,
        ctx_after == ctx,
        !sess_after.logged_on,
{
}

/// A message whose business is not done on the platform is not counted as an order and not
/// kept; it is answered by a single business rejection with reason 20108, which names the
/// order.
pub proof fn law_platform_mismatch(
    cfg: PlatformConfig,
    st: StrategyConfig,
    o: NewOrderView,
    conn_id: u64,
    now: LocalTime,
    before: PlatformStats,
    after: PlatformStats,
    orders: Option<Seq<OrderEntry>>,
    orders_after: Option<Seq<OrderEntry>>,
    step: StepView,
)
    requires
        is_order_answer(
            cfg,
            st,
            o,
            conn_id,
            now,
            before,
            after,
            orders,
            orders_after,
            step,
        ),
        !on_platform(o.common.appl_id, cfg.platform_type),
    ensures
        after.counters().orders == before.counters().orders,
        orders_after == orders,
        step matches StepView::Reply(out) && out.len() == 1,
        platform_reject(order_filing(o), 0).business_reject_reason == 20108,
        platform_reject(order_filing(o), 0).business_reject_ref_id == o.common.cl_ord_id,
{
}

/// A name that can be part of a path has none of the characters that paths are made with, no
/// white space at its ends, and is never empty; a name that is so already stays as it is.
pub proof fn law_file_name(s: Seq<char>)
    ensures
        ({
            let t = file_name_of(s);
            &&& t.len() > 0
            &&& !text::is_white(t[0])
            &&& !text::is_white(t[t.len() - 1])
            &&& forall|i: int|
                0 <= i < t.len() ==> #[trigger] t[i] != '/' && t[i] != '\\' && t[i] != ':'
            &&& s.len() > 0 && !text::is_white(s[0]) && !text::is_white(s.last()) && (forall|i: int|
                0 <= i < s.len() ==> !barred(#[trigger] s[i])) ==> t == s
        }),
{
    let u = unbarred(s);
    text::lemma_trimmed_both(u);
    let t = text::trimmed_both(u);
    reveal_strlit("未命名");
    if t.len() > 0 {
        let k = choose|k: int| 0 <= k && k + t.len() <= u.len() && #[trigger] u.subrange(
            k,
            k + t.len(),
        ) == t;
        assert forall|i: int| 0 <= i < t.len() implies #[trigger] t[i] != '/' && t[i] != '\\' && t[i]
            != ':' by {
            assert(t[i] == u.subrange(k, k + t.len())[i]);
            assert(u[k + i] == t[i]);
        }
    }
    if s.len() > 0 && !text::is_white(s[0]) && !text::is_white(s.last()) && (forall|i: int|
        0 <= i < s.len() ==> !barred(#[trigger] s[i])) {
        assert(u =~= s);
        assert(text::trimmed_front(s) == s);
        assert(text::trimmed(s) == s);
    }
}

/// A report that was sent can be looked up by its partition and index, and what was sent
/// before under other numbers stays; a message that is no report is not kept.
pub proof fn law_sent_report_is_kept(
    before: Map<(i32, i64), Seq<u8>>,
    raw: Seq<u8>,
    partition: i32,
    index: i64,
)
    ensures
        raw.len() >= 20 && protocol::is_report(frame_type(raw)) && partition == wire::int_at(
            raw,
            8,
            4,
        ) as i32 && index == wire::int_at(raw, 12, 8) as i64 ==> kept_reports(
            before,
            raw,
        ).contains_key((partition, index)) && kept_reports(before, raw)[(partition, index)] == raw,
        partition != wire::int_at(raw, 8, 4) as i32 || index != wire::int_at(raw, 12, 8) as i64
            ==> (kept_reports(before, raw).contains_key((partition, index))
            <==> before.contains_key((partition, index))),
        (partition != wire::int_at(raw, 8, 4) as i32 || index != wire::int_at(raw, 12, 8) as i64)
            && before.contains_key((partition, index)) ==> kept_reports(before, raw)[(
            partition,
            index,
        )] == before[(partition, index)],
        raw.len() < 20 || !protocol::is_report(frame_type(raw)) ==> kept_reports(before, raw)
            == before,
{
}

/// A dot becomes an underscore, and every other character stays.
pub proof fn law_dots_are_replaced(s: Seq<char>)
    ensures
        undotted(s).len() == s.len(),
        !undotted(s).contains('.'),
        forall|i: int|
            0 <= i < s.len() ==> #[trigger] undotted(s)[i] == (if s[i] == '.' {
                '_'
            } else {
                s[i]
            }),
{
}

} // verus!
