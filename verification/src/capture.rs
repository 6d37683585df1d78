//! Capture of the messages of a connection: what was received and sent, and the reports
//! that can be sent again.
use vstd::prelude::*;

use crate::clock;
use crate::text;

verus! {

/// Which way a message went.
#[derive(Debug, Clone, Copy, PartialEq, Eq, Structural)]
pub enum Dir {
    Recv,
    Send,
}

impl Dir {
    pub open spec fn text(self) -> Seq<char> {
        match self {
            Dir::Recv => "RECV"@,
            Dir::Send => "SEND"@,
        }
    }

    /// The label that files carry.
    pub fn label(self) -> (r: &'static str)
        ensures
            r@ == self.text(),
    {
        match self {
            Dir::Recv => "RECV",
            Dir::Send => "SEND",
        }
    }
}

/// One field of a message in readable form.
#[derive(Debug)]
pub struct ParsedField {
    /// The field's name in the exchange's interface, such as `ClOrdID`.
    pub name: String,
    /// The readable value: natural units, readable times, codes with their meaning.
    pub value: String,
}

impl View for ParsedField {
    type V = (Seq<char>, Seq<char>);

    open spec fn view(&self) -> (Seq<char>, Seq<char>) {
        (self.name@, self.value@)
    }
}

impl Clone for ParsedField {
    fn clone(&self) -> (r: Self)
        ensures
            r == *self,
    {
        ParsedField { name: self.name.clone(), value: self.value.clone() }
    }
}

/// The names and values of fields.
pub open spec fn field_views(fields: Seq<ParsedField>) -> Seq<(Seq<char>, Seq<char>)> {
    fields.map_values(|f: ParsedField| f@)
}

/// A captured message.
#[derive(Debug)]
pub struct PacketRecord {
    /// Unique and increasing over all connections of a platform.
    pub seq: u64,
    pub conn_id: u64,
    pub ts: String,
    pub dir: Dir,
    /// The bytes in hexadecimal.
    pub hex: String,
    /// Empty where the message was not described.
    pub fields: Vec<ParsedField>,
}

/// The values of [`PacketRecord`].
pub struct PacketRecordView {
    pub seq: u64,
    pub conn_id: u64,
    pub ts: Seq<char>,
    pub dir: Dir,
    pub hex: Seq<char>,
    pub fields: Seq<(Seq<char>, Seq<char>)>,
}

impl View for PacketRecord {
    type V = PacketRecordView;

    open spec fn view(&self) -> PacketRecordView {
        PacketRecordView {
            seq: self.seq,
            conn_id: self.conn_id,
            ts: self.ts@,
            dir: self.dir,
            hex: self.hex@,
            fields: field_views(self.fields@),
        }
    }
}

impl Clone for PacketRecord {
    fn clone(&self) -> (r: Self)
        ensures
            r@ == self@,
    {
        let mut fields: Vec<ParsedField> = Vec::new();
        let mut i: usize = 0;
        while i < self.fields.len()
            invariant
                i <= self.fields@.len(),
                fields@ =~= self.fields@.take(i as int),
            decreases self.fields@.len() - i,
        {
            fields.push(self.fields[i].clone());
            i += 1;
        }
        assert(fields@ =~= self.fields@);
        PacketRecord {
            seq: self.seq,
            conn_id: self.conn_id,
            ts: self.ts.clone(),
            dir: self.dir,
            hex: self.hex.clone(),
            fields,
        }
    }
}

/// A batch of captured messages.
#[derive(Debug)]
pub struct PacketPage {
    pub packets: Vec<PacketRecord>,
    /// The number of the newest message.
    pub latest_seq: u64,
    /// Whether the messages are written to files.
    pub persist: bool,
    pub conns: Vec<ConnBrief>,
}

/// What identifies a connection.
#[derive(Debug)]
pub struct ConnBrief {
    pub conn_id: u64,
    pub peer: String,
    pub since: String,
    /// Whether the connection is still there.
    pub alive: bool,
}

/// How many messages are kept in memory where none are written to files.
pub const MEM_CAP: usize = 5000;

/// The numbers of the messages of a platform.
#[derive(Debug, Default)]
pub struct SeqSource {
    /// The last number that was handed out.
    pub last: u64,
}

/// A report that can be sent again.
pub struct SentReport {
    partition: i32,
    index: i64,
    frame: Vec<u8>,
}

/// Captures the messages of one connection.
pub struct ConnRecorder {
    conn_id: u64,
    persist: bool,
    peer: String,
    since: String,
    alive: bool,
    buf: Vec<PacketRecord>,
    reports: Vec<SentReport>,
}

/// The order in which reports are kept.
spec fn before(a: SentReport, partition: i32, index: i64) -> bool {
    a.partition < partition || (a.partition == partition && a.index < index)
}

/// The values of captured messages.
pub open spec fn packet_views(s: Seq<PacketRecord>) -> Seq<PacketRecordView> {
    s.map_values(|r: PacketRecord| r@)
}

/// The last `cap` items.
pub open spec fn last_items<A>(s: Seq<A>, cap: int) -> Seq<A> {
    if s.len() > cap {
        s.subrange(s.len() - cap, s.len() as int)
    } else {
        s
    }
}

/// The messages with a number greater than `after`.
pub open spec fn newer(s: Seq<PacketRecordView>, after: u64) -> Seq<PacketRecordView>
    decreases s.len(),
{
    if s.len() == 0 {
        Seq::empty()
    } else if s.last().seq > after {
        newer(s.drop_last(), after).push(s.last())
    } else {
        newer(s.drop_last(), after)
    }
}

impl ConnRecorder {
    /// The messages in memory, the oldest first.
    pub closed spec fn packets(&self) -> Seq<PacketRecordView> {
        packet_views(self.buf@)
    }

    pub closed spec fn id(&self) -> u64 {
        self.conn_id
    }

    pub closed spec fn persists(&self) -> bool {
        self.persist
    }

    /// The reports that were sent, by partition and report index.
    pub closed spec fn sent(&self) -> Map<(i32, i64), Seq<u8>> {
        Map::new(
            |k: (i32, i64)| exists|i: int|
                0 <= i < self.reports@.len() && (#[trigger] self.reports@[i]).partition == k.0
                    && self.reports@[i].index == k.1,
            |k: (i32, i64)| self.reports@[self.report_at(k.0, k.1)].frame@,
        )
    }

    spec fn report_at(&self, partition: i32, index: i64) -> int {
        choose|i: int|
            0 <= i < self.reports@.len() && (#[trigger] self.reports@[i]).partition == partition
                && self.reports@[i].index == index
    }

    /// Peer, time of connection, and whether the connection is still there.
    pub closed spec fn about(&self) -> (Seq<char>, Seq<char>, bool) {
        (self.peer@, self.since@, self.alive)
    }

    /// Reports are kept in order, each partition and index once; the memory is bounded
    /// where no files are written.
    pub closed spec fn wf(&self) -> bool {
        &&& forall|i: int, j: int|
            0 <= i < j < self.reports@.len() ==> before(
                #[trigger] self.reports@[i],
                (#[trigger] self.reports@[j]).partition,
                self.reports@[j].index,
            )
        &&& !self.persist ==> self.buf@.len() <= MEM_CAP
    }

    pub fn new(conn_id: u64, persist: bool, peer: String, since: String) -> (r: Self)
        ensures
            r.wf(),
            r.id() == conn_id,
            r.persists() == persist,
            r.about() == (peer@, since@, true),
            r.packets() == Seq::<PacketRecordView>::empty(),
            r.sent() == Map::<(i32, i64), Seq<u8>>::empty(),
    {
        let r = ConnRecorder {
            conn_id,
            persist,
            peer,
            since,
            alive: true,
            buf: Vec::new(),
            reports: Vec::new(),
        };
        assert(r.packets() =~= Seq::<PacketRecordView>::empty());
        assert(r.sent() =~= Map::<(i32, i64), Seq<u8>>::empty());
        r
    }

    /// The number of the connection.
    pub fn number(&self) -> (r: u64)
        ensures
            r == self.id(),
    {
        self.conn_id
    }

    /// What identifies the connection.
    pub fn brief(&self) -> (r: ConnBrief)
        ensures
            r.conn_id == self.id(),
            (r.peer@, r.since@, r.alive) == self.about(),
    {
        ConnBrief {
            conn_id: self.conn_id,
            peer: self.peer.clone(),
            since: self.since.clone(),
            alive: self.alive,
        }
    }

    /// Marks the connection as gone; what was captured stays.
    pub fn mark_dead(&mut self)
        requires
            old(self).wf(),
        ensures
            final(self).wf(),
            final(self).about() == (old(self).about().0, old(self).about().1, false),
            final(self).id() == old(self).id(),
            final(self).persists() == old(self).persists(),
            final(self).packets() == old(self).packets(),
            final(self).sent() == old(self).sent(),
    {
        self.alive = false;
        assert(self.sent() =~= old(self).sent());
    }

    /// Captures a message that was received.
    pub fn record_recv(&mut self, source: &mut SeqSource, raw: &[u8], fields: Vec<ParsedField>)
        requires
            old(self).wf(),
            old(source).last < u64::MAX,
        ensures
            exists|now: clock::LocalTime|
                now.wf() && recorded(
                    *old(self),
                    *final(self),
                    *old(source),
                    *final(source),
                    Dir::Recv,
                    raw@,
                    fields@,
                    now,
                ),
    {
        let now = clock::local_now();
        self.record(source, Dir::Recv, raw, fields, &now);
        assert(now.wf() && recorded(
            *old(self),
            *self,
            *old(source),
            *source,
            Dir::Recv,
            raw@,
            fields@,
            now,
        ));
    }

    /// Captures a message that was sent.
    pub fn record_send(&mut self, source: &mut SeqSource, raw: &[u8], fields: Vec<ParsedField>)
        requires
            old(self).wf(),
            old(source).last < u64::MAX,
        ensures
            exists|now: clock::LocalTime|
                now.wf() && recorded(
                    *old(self),
                    *final(self),
                    *old(source),
                    *final(source),
                    Dir::Send,
                    raw@,
                    fields@,
                    now,
                ),
    {
        let now = clock::local_now();
        self.record(source, Dir::Send, raw, fields, &now);
        assert(now.wf() && recorded(
            *old(self),
            *self,
            *old(source),
            *source,
            Dir::Send,
            raw@,
            fields@,
            now,
        ));
    }

    /// Captures a message at the given time.
    pub fn record(
        &mut self,
        source: &mut SeqSource,
        dir: Dir,
        raw: &[u8],
        fields: Vec<ParsedField>,
        now: &clock::LocalTime,
    )
        requires
            old(self).wf(),
            old(source).last < u64::MAX,
            now.wf(),
        ensures
            recorded(*old(self), *final(self), *old(source), *final(source), dir, raw@, fields@, *now),
    {
        source.last = source.last + 1;
        let rec = PacketRecord {
            seq: source.last,
            conn_id: self.conn_id,
            ts: clock::hms_millis(now),
            dir,
            hex: to_hex(raw),
            fields,
        };
        let ghost old_buf = self.buf@;
        self.buf.push(rec);
        let ghost all = self.buf@;
        assert(packet_views(all) =~= packet_views(old_buf).push(rec@));
        if !self.persist && self.buf.len() > MEM_CAP {
            self.buf.remove(0);
            assert(packet_views(self.buf@) =~= last_items(packet_views(all), MEM_CAP as int));
        }
        assert(self.sent() =~= old(self).sent());
    }

    /// The newest message in memory, for the file of the connection.
    pub fn newest_text(&self) -> (r: Option<String>)
        ensures
            match r {
                Some(t) => self.packets().len() > 0 && t@ == packet_text(self.packets().last()),
                None => self.packets().len() == 0,
            },
    {
        if self.buf.len() == 0 {
            return None;
        }
        Some(file_text(&self.buf[self.buf.len() - 1]))
    }

    fn place(&self, partition: i32, index: i64) -> (r: usize)
        requires
            self.wf(),
        ensures
            r <= self.reports@.len(),
            forall|i: int| 0 <= i < r ==> before(#[trigger] self.reports@[i], partition, index),
            forall|i: int| r <= i < self.reports@.len() ==> !before(#[trigger] self.reports@[i], partition, index),
    {
        let mut i: usize = 0;
        while i < self.reports.len() && (self.reports[i].partition < partition || (
        self.reports[i].partition == partition && self.reports[i].index < index))
            invariant
                self.wf(),
                i <= self.reports@.len(),
                forall|k: int| 0 <= k < i ==> before(#[trigger] self.reports@[k], partition, index),
            decreases self.reports@.len() - i,
        {
            i += 1;
        }
        i
    }

    /// Keeps a report that was sent; a report with the same partition and index is replaced.
    pub fn record_report(&mut self, partition: i32, report_index: i64, frame: &[u8])
        requires
            old(self).wf(),
        ensures
            final(self).wf(),
            final(self).sent() == old(self).sent().insert((partition, report_index), frame@),
            final(self).packets() == old(self).packets(),
            final(self).id() == old(self).id(),
            final(self).persists() == old(self).persists(),
            final(self).about() == old(self).about(),
    {
        let ghost was = self.reports@;
        let i: usize = self.place(partition, report_index);
        let rep = SentReport { partition, index: report_index, frame: bytes_of(frame) };
        let ghost key = (partition, report_index);
        if i < self.reports.len() && self.reports[i].partition == partition
            && self.reports[i].index == report_index {
            self.reports.set(i, rep);
            assert forall|k: (i32, i64)| self.sent().contains_key(k) == old(self).sent().insert(key, frame@).contains_key(k) by {
                assert(was[i as int].partition == partition);
                if k == key {
                    assert(self.reports@[i as int].partition == k.0);
                } else {
                    if old(self).sent().contains_key(k) {
                        let j = old(self).report_at(k.0, k.1);
                        assert(self.reports@[j] == was[j]);
                    }
                    if self.sent().contains_key(k) {
                        let j = self.report_at(k.0, k.1);
                        assert(self.reports@[j] == was[j]);
                    }
                }
            }
        } else {
            self.reports.insert(i, rep);
            assert forall|k: (i32, i64)| self.sent().contains_key(k) == old(self).sent().insert(key, frame@).contains_key(k) by {
                if k == key {
                    assert(self.reports@[i as int].partition == k.0);
                } else {
                    if old(self).sent().contains_key(k) {
                        let j = old(self).report_at(k.0, k.1);
                        if j < i {
                            assert(self.reports@[j] == was[j]);
                        } else {
                            assert(self.reports@[j + 1] == was[j]);
                        }
                    }
                    if self.sent().contains_key(k) {
                        let j = self.report_at(k.0, k.1);
                        assert(j != i);
                        if j < i {
                            assert(was[j] == self.reports@[j]);
                        } else {
                            assert(was[j - 1] == self.reports@[j]);
                        }
                    }
                }
            }
        }
        assert(self.wf());
        assert forall|k: (i32, i64)| self.sent().contains_key(k) implies #[trigger] self.sent()[k]
            == old(self).sent().insert(key, frame@)[k] by {
            let j = self.report_at(k.0, k.1);
            if k == key {
                self.lemma_report_at(i as int);
            } else if old(self).sent().contains_key(k) {
                let o = old(self).report_at(k.0, k.1);
                if self.reports@.len() == was.len() {
                    assert(self.reports@[o] == was[o]);
                    self.lemma_report_at(o);
                } else if o < i {
                    assert(self.reports@[o] == was[o]);
                    self.lemma_report_at(o);
                } else {
                    assert(self.reports@[o + 1] == was[o]);
                    self.lemma_report_at(o + 1);
                }
            }
        }
        assert(self.sent() =~= old(self).sent().insert(key, frame@));
    }

    /// No two reports share partition and index.
    proof fn lemma_report_at(&self, i: int)
        requires
            self.wf(),
            0 <= i < self.reports@.len(),
        ensures
            self.report_at(self.reports@[i].partition, self.reports@[i].index) == i,
    {
        let j = self.report_at(self.reports@[i].partition, self.reports@[i].index);
        assert(self.reports@[i].partition == self.reports@[i].partition);
        assert(0 <= j < self.reports@.len());
        if j < i {
            assert(before(self.reports@[j], self.reports@[i].partition, self.reports@[i].index));
        } else if i < j {
            assert(before(self.reports@[i], self.reports@[j].partition, self.reports@[j].index));
        }
    }

    /// The reports of a partition from report index `begin` on, in ascending order.
    pub fn reports_since(&self, partition: i32, begin: i64) -> (r: Vec<(i64, Vec<u8>)>)
        requires
            self.wf(),
        ensures
            is_since(self.sent(), partition, begin, r@),
    {
        let mut out: Vec<(i64, Vec<u8>)> = Vec::new();
        let start: usize = self.place(partition, begin);
        let mut i: usize = start;
        while i < self.reports.len() && self.reports[i].partition == partition
            invariant
                self.wf(),
                start <= i <= self.reports@.len(),
                out@.len() == i - start,
                forall|k: int| 0 <= k < start ==> before(#[trigger] self.reports@[k], partition, begin),
                forall|k: int|
                    start <= k < self.reports@.len() ==> !before(#[trigger] self.reports@[k], partition, begin),
                forall|k: int|
                    start <= k < i ==> (#[trigger] self.reports@[k]).partition == partition
                        && out@[k - start].0 == self.reports@[k].index && out@[k - start].1@
                        == self.reports@[k].frame@,
            decreases self.reports@.len() - i,
        {
            out.push((self.reports[i].index, bytes_of(self.reports[i].frame.as_slice())));
            i += 1;
        }
        proof {
            let m = self.sent();
            assert forall|a: int, b: int| 0 <= a < b < out@.len() implies (#[trigger] out@[a]).0 < (
            #[trigger] out@[b]).0 by {
                assert(before(
                    self.reports@[a + start],
                    self.reports@[b + start].partition,
                    self.reports@[b + start].index,
                ));
            }
            assert forall|a: int| 0 <= a < out@.len() implies out@[a].0 >= begin && m.contains_key(
                (partition, (#[trigger] out@[a]).0),
            ) && out@[a].1@ == m[(partition, out@[a].0)] by {
                let rep = self.reports@[a + start];
                assert(!before(rep, partition, begin));
                self.lemma_report_at(a + start);
            }
            assert forall|idx: i64| idx >= begin && #[trigger] m.contains_key((partition, idx)) implies exists|a: int|
                0 <= a < out@.len() && (#[trigger] out@[a]).0 == idx by {
                let j = self.report_at(partition, idx);
                assert(self.reports@[j].partition == partition && self.reports@[j].index == idx);
                if j < start {
                    assert(before(self.reports@[j], partition, begin));
                }
                if j >= i {
                    if i < j {
                        assert(before(
                            self.reports@[i as int],
                            self.reports@[j].partition,
                            self.reports@[j].index,
                        ));
                    }
                    assert(!before(self.reports@[i as int], partition, begin));
                }
                assert(out@[j - start].0 == idx);
            }
        }
        out
    }

    /// The messages in memory with a number greater than `after_seq`.
    pub fn page(&self, after_seq: u64) -> (r: PacketPage)
        ensures
            packet_views(r.packets@) == newer(self.packets(), after_seq),
            r.latest_seq == (if self.packets().len() == 0 {
                0
            } else {
                self.packets().last().seq
            }),
            r.persist == self.persists(),
            r.conns@.len() == 0,
    {
        let mut packets: Vec<PacketRecord> = Vec::new();
        let ghost views = packet_views(self.buf@);
        let mut i: usize = 0;
        assert(packet_views(packets@) =~= Seq::<PacketRecordView>::empty());
        assert(views.take(0) =~= Seq::<PacketRecordView>::empty());
        while i < self.buf.len()
            invariant
                i <= self.buf@.len(),
                views == packet_views(self.buf@),
                packet_views(packets@) =~= newer(views.take(i as int), after_seq),
            decreases self.buf@.len() - i,
        {
            proof {
                let t = views.take(i + 1);
                assert(t.drop_last() =~= views.take(i as int));
                assert(t.last() == self.buf@[i as int]@);
            }
            if self.buf[i].seq > after_seq {
                let ghost had = packet_views(packets@);
                let copy = self.buf[i].clone();
                packets.push(copy);
                assert(packet_views(packets@) =~= had.push(copy@));
            }
            i += 1;
        }
        assert(views.take(i as int) =~= views);
        let latest_seq: u64 = if self.buf.len() == 0 {
            0
        } else {
            self.buf[self.buf.len() - 1].seq
        };
        PacketPage { packets, latest_seq, persist: self.persist, conns: Vec::new() }
    }
}

/// A message was captured: it has the next number, is kept last, and the oldest is dropped
/// where the memory is bounded and full.
pub open spec fn captured(
    before: ConnRecorder,
    after: ConnRecorder,
    source: SeqSource,
    next: SeqSource,
    dir: Dir,
    raw: Seq<u8>,
    fields: Seq<(Seq<char>, Seq<char>)>,
    now: clock::LocalTime,
) -> bool {
    let all = before.packets().push(
        PacketRecordView {
            seq: (source.last + 1) as u64,
            conn_id: before.id(),
            ts: clock::hms_millis_text(now),
            dir,
            hex: hex_text(raw),
            fields,
        },
    );
    &&& after.wf()
    &&& next.last == source.last + 1
    &&& after.packets() == (if before.persists() {
        all
    } else {
        last_items(all, MEM_CAP as int)
    })
    &&& after.id() == before.id()
    &&& after.persists() == before.persists()
    &&& after.about() == before.about()
}

/// A message was captured, and no report was kept.
pub open spec fn recorded(
    before: ConnRecorder,
    after: ConnRecorder,
    source: SeqSource,
    next: SeqSource,
    dir: Dir,
    raw: Seq<u8>,
    fields: Seq<ParsedField>,
    now: clock::LocalTime,
) -> bool {
    &&& captured(before, after, source, next, dir, raw, field_views(fields), now)
    &&& after.sent() == before.sent()
}

/// Exactly the reports of a partition from `begin` on, in ascending order.
pub open spec fn is_since(
    sent: Map<(i32, i64), Seq<u8>>,
    partition: i32,
    begin: i64,
    r: Seq<(i64, Vec<u8>)>,
) -> bool {
    &&& forall|a: int, b: int| 0 <= a < b < r.len() ==> (#[trigger] r[a]).0 < (#[trigger] r[b]).0
    &&& forall|a: int|
        0 <= a < r.len() ==> (#[trigger] r[a]).0 >= begin && sent.contains_key((partition, r[a].0))
            && r[a].1@ == sent[(partition, r[a].0)]
    &&& forall|idx: i64|
        idx >= begin && #[trigger] sent.contains_key((partition, idx)) ==> exists|a: int|
            0 <= a < r.len() && (#[trigger] r[a]).0 == idx
}

/// A recorder that starts empty and is given reports, one after the other: the state before
/// the first, and after each.
pub open spec fn are_given(
    states: Seq<ConnRecorder>,
    given: Seq<(i32, i64, Seq<u8>)>,
) -> bool {
    &&& states.len() == given.len() + 1
    &&& states[0].sent() == Map::<(i32, i64), Seq<u8>>::empty()
    &&& forall|i: int|
        #![trigger given[i]]
        0 <= i < given.len() ==> states[i + 1].sent() == states[i].sent().insert(
            (given[i].0, given[i].1),
            given[i].2,
        )
}

/// The report is the last that was given with its partition and index.
pub open spec fn is_latest(given: Seq<(i32, i64, Seq<u8>)>, i: int) -> bool {
    &&& 0 <= i < given.len()
    &&& forall|j: int|
        i < j < given.len() ==> !((#[trigger] given[j]).0 == given[i].0 && given[j].1 == given[i].1)
}

/// What a recorder holds after it was given reports: the last with each partition and index.
proof fn lemma_given(states: Seq<ConnRecorder>, given: Seq<(i32, i64, Seq<u8>)>, key: (i32, i64))
    requires
        are_given(states, given),
    ensures
        states.last().sent().contains_key(key) ==> exists|i: int| #[trigger]
            is_latest(given, i) && given[i] == (key.0, key.1, states.last().sent()[key]),
        forall|i: int|
            0 <= i < given.len() && (#[trigger] given[i]).0 == key.0 && given[i].1 == key.1
                ==> states.last().sent().contains_key(key),
    decreases given.len(),
{
    if given.len() > 0 {
        let n = given.len() - 1;
        let fewer = given.drop_last();
        let before = states.drop_last();
        assert forall|i: int| 0 <= i < fewer.len() implies before[i + 1].sent() == before[i].sent().insert(
            ((#[trigger] fewer[i]).0, fewer[i].1),
            fewer[i].2,
        ) by {
            assert(fewer[i] == given[i]);
        }
        lemma_given(before, fewer, key);
        assert(given[n] == given.last());
        assert(states[n + 1].sent() == states[n].sent().insert(
            (given[n].0, given[n].1),
            given[n].2,
        ));
        assert(before.last() == states[n]);
        assert(states.last() == states[n + 1]);
        if given[n].0 == key.0 && given[n].1 == key.1 {
            assert(is_latest(given, n));
        } else {
            if before.last().sent().contains_key(key) {
                let i = choose|i: int| #[trigger]
                    is_latest(fewer, i) && fewer[i] == (
                        key.0,
                        key.1,
                        before.last().sent()[key],
                    );
                assert(given[i] == fewer[i]);
                assert forall|j: int| i < j < given.len() implies !((#[trigger] given[j]).0
                    == given[i].0 && given[j].1 == given[i].1) by {
                    if j < n {
                        assert(fewer[j] == given[j]);
                    }
                }
                assert(is_latest(given, i));
            }
            assert forall|i: int|
                0 <= i < given.len() && (#[trigger] given[i]).0 == key.0 && given[i].1
                    == key.1 implies states.last().sent().contains_key(key) by {
                assert(fewer[i] == given[i]);
            }
        }
    }
}

/// After any reports were given to an empty recorder, those of a partition from an index on
/// come back exactly: in strictly ascending order, so each index once; each with the bytes
/// that were given last with its partition and index; all of them; and none where none was
/// given. Reports of other partitions never come back.
pub proof fn law_latest_comes_back(
    states: Seq<ConnRecorder>,
    given: Seq<(i32, i64, Seq<u8>)>,
    partition: i32,
    begin: i64,
    r: Seq<(i64, Vec<u8>)>,
)
    requires
        are_given(states, given),
        is_since(states.last().sent(), partition, begin, r),
    ensures
        forall|a: int, b: int| 0 <= a < b < r.len() ==> (#[trigger] r[a]).0 < (#[trigger] r[b]).0,
        forall|a: int|
            0 <= a < r.len() ==> (#[trigger] r[a]).0 >= begin && exists|i: int| #[trigger]
                is_latest(given, i) && given[i] == (partition, r[a].0, r[a].1@),
        forall|i: int|
            0 <= i < given.len() && (#[trigger] given[i]).0 == partition && given[i].1 >= begin
                ==> exists|a: int| 0 <= a < r.len() && (#[trigger] r[a]).0 == given[i].1,
        r.len() == 0 <==> forall|i: int|
            0 <= i < given.len() ==> !((#[trigger] given[i]).0 == partition && given[i].1 >= begin),
{
    let sent = states.last().sent();
    assert forall|a: int| 0 <= a < r.len() implies (#[trigger] r[a]).0 >= begin && exists|i: int|
     #[trigger]
        is_latest(given, i) && given[i] == (partition, r[a].0, r[a].1@) by {
        lemma_given(states, given, (partition, r[a].0));
    }
    assert forall|i: int|
        0 <= i < given.len() && (#[trigger] given[i]).0 == partition && given[i].1
            >= begin implies exists|a: int| 0 <= a < r.len() && (#[trigger] r[a]).0 == given[i].1 by {
        lemma_given(states, given, (partition, given[i].1));
        assert(sent.contains_key((partition, given[i].1)));
    }
    if r.len() > 0 {
        assert(r[0].0 >= begin);
        let i = choose|i: int| #[trigger]
            is_latest(given, i) && given[i] == (partition, r[0].0, r[0].1@);
        assert(given[i].0 == partition);
    }
}

/// The reports that several connections have sent; of reports with the same partition and
/// index the last one counts.
pub open spec fn all_sent(s: Seq<ConnRecorder>) -> Map<(i32, i64), Seq<u8>>
    decreases s.len(),
{
    if s.len() == 0 {
        Map::empty()
    } else {
        all_sent(s.drop_last()).union_prefer_right(s.last().sent())
    }
}

/// Every capture is well-formed.
pub open spec fn all_wf(s: Seq<ConnRecorder>) -> bool {
    forall|i: int| 0 <= i < s.len() ==> (#[trigger] s[i]).wf()
}

/// The first capture of a connection; the length where there is none.
pub open spec fn recorder_place(s: Seq<ConnRecorder>, conn_id: u64) -> int
    decreases s.len(),
{
    if s.len() == 0 || s[0].id() == conn_id {
        0
    } else {
        1 + recorder_place(s.drop_first(), conn_id)
    }
}

/// Finds the capture of a connection.
pub fn find_recorder(s: &Vec<ConnRecorder>, conn_id: u64) -> (r: usize)
    ensures
        r == recorder_place(s@, conn_id),
        r <= s@.len(),
{
    let mut i: usize = 0;
    assert(s@.skip(0) =~= s@);
    while i < s.len()
        invariant
            i <= s@.len(),
            recorder_place(s@, conn_id) == i + recorder_place(s@.skip(i as int), conn_id),
        decreases s@.len() - i,
    {
        if s[i].number() == conn_id {
            return i;
        }
        assert(s@.skip(i as int).drop_first() =~= s@.skip(i + 1));
        i += 1;
    }
    i
}

/// A report that was sent comes back when the reports of its partition are wanted from its
/// index on or from before; and it comes back byte for byte where no later connection has
/// sent one with the same partition and index.
pub proof fn law_sent_comes_back(
    recorders: Seq<ConnRecorder>,
    k: int,
    partition: i32,
    index: i64,
    begin: i64,
    r: Seq<(i64, Vec<u8>)>,
)
    requires
        0 <= k < recorders.len(),
        recorders[k].sent().contains_key((partition, index)),
        begin <= index,
        is_since(all_sent(recorders), partition, begin, r),
    ensures
        exists|a: int|
            0 <= a < r.len() && (#[trigger] r[a]).0 == index && ((forall|j: int|
                k < j < recorders.len() ==> !(#[trigger] recorders[j]).sent().contains_key(
                    (partition, index),
                )) ==> r[a].1@ == recorders[k].sent()[(partition, index)]),
{
    lemma_all_sent(recorders, k, (partition, index));
    assert(all_sent(recorders).contains_key((partition, index)));
    let a = choose|a: int| 0 <= a < r.len() && (#[trigger] r[a]).0 == index;
    assert(r[a].1@ == all_sent(recorders)[(partition, index)]);
}

proof fn lemma_all_sent(recorders: Seq<ConnRecorder>, k: int, key: (i32, i64))
    requires
        0 <= k < recorders.len(),
        recorders[k].sent().contains_key(key),
    ensures
        all_sent(recorders).contains_key(key),
        (forall|j: int|
            k < j < recorders.len() ==> !(#[trigger] recorders[j]).sent().contains_key(key))
            ==> all_sent(recorders)[key] == recorders[k].sent()[key],
    decreases recorders.len(),
{
    let t = recorders.drop_last();
    if k < t.len() {
        lemma_all_sent(t, k, key);
        if forall|j: int|
            k < j < recorders.len() ==> !(#[trigger] recorders[j]).sent().contains_key(key) {
            assert(!recorders[recorders.len() - 1].sent().contains_key(key));
            assert forall|j: int| k < j < t.len() implies !(#[trigger] t[j]).sent().contains_key(
                key,
            ) by {
                assert(t[j] == recorders[j]);
            }
        }
    }
}

/// What of the reports counts for a partition from `begin` on.
spec fn agree(
    m: Map<(i32, i64), Seq<u8>>,
    n: Map<(i32, i64), Seq<u8>>,
    partition: i32,
    begin: i64,
) -> bool {
    forall|idx: i64|
        idx >= begin ==> #[trigger] m.contains_key((partition, idx)) == n.contains_key(
            (partition, idx),
        ) && (m.contains_key((partition, idx)) ==> m[(partition, idx)] == n[(partition, idx)])
}

proof fn lemma_agree(
    m: Map<(i32, i64), Seq<u8>>,
    n: Map<(i32, i64), Seq<u8>>,
    partition: i32,
    begin: i64,
    r: Seq<(i64, Vec<u8>)>,
)
    requires
        agree(m, n, partition, begin),
        is_since(m, partition, begin, r),
    ensures
        is_since(n, partition, begin, r),
{
    assert forall|a: int| 0 <= a < r.len() implies (#[trigger] r[a]).0 >= begin && n.contains_key(
        (partition, r[a].0),
    ) && r[a].1@ == n[(partition, r[a].0)] by {
        assert(m.contains_key((partition, r[a].0)));
    }
    assert forall|idx: i64| idx >= begin && #[trigger] n.contains_key((partition, idx)) implies exists|
        a: int,
    |
        0 <= a < r.len() && (#[trigger] r[a]).0 == idx by {
        assert(m.contains_key((partition, idx)));
    }
}

/// Puts a report in its place; one with the same index is replaced.
fn put_report(acc: &mut Vec<(i64, Vec<u8>)>, index: i64, frame: Vec<u8>, Ghost(m): Ghost<
    Map<(i32, i64), Seq<u8>>,
>, Ghost(partition): Ghost<i32>, Ghost(begin): Ghost<i64>)
    requires
        is_since(m, partition, begin, old(acc)@),
        index >= begin,
    ensures
        is_since(m.insert((partition, index), frame@), partition, begin, final(acc)@),
{
    let ghost was = acc@;
    let mut i: usize = 0;
    while i < acc.len() && acc[i].0 < index
        invariant
            i <= acc@.len(),
            acc@ == was,
            forall|k: int| 0 <= k < i ==> (#[trigger] acc@[k]).0 < index,
        decreases acc@.len() - i,
    {
        i += 1;
    }
    let ghost n = m.insert((partition, index), frame@);
    if i < acc.len() && acc[i].0 == index {
        acc.set(i, (index, frame));
        assert forall|idx: i64| idx >= begin && #[trigger] n.contains_key(
            (partition, idx),
        ) implies exists|a: int| 0 <= a < acc@.len() && (#[trigger] acc@[a]).0 == idx by {
            if idx == index {
                assert(acc@[i as int].0 == idx);
            } else {
                assert(m.contains_key((partition, idx)));
                let a = choose|a: int| 0 <= a < was.len() && (#[trigger] was[a]).0 == idx;
                assert(acc@[a].0 == idx);
            }
        }
    } else {
        acc.insert(i, (index, frame));
        assert forall|a: int, b: int| 0 <= a < b < acc@.len() implies (#[trigger] acc@[a]).0 < (
        #[trigger] acc@[b]).0 by {
            if a < i && b > i {
                assert(was[a].0 < was[b - 1].0);
            } else if a == i {
                assert(was[i as int].0 > index);
                if b - 1 > i {
                    assert(was[i as int].0 < was[b - 1].0);
                }
            } else if a > i {
                assert(was[a - 1].0 < was[b - 1].0);
            }
        }
        assert forall|a: int| 0 <= a < acc@.len() implies (#[trigger] acc@[a]).0 >= begin
            && n.contains_key((partition, acc@[a].0)) && acc@[a].1@ == n[(partition, acc@[a].0)] by {
            if a < i {
                assert(acc@[a] == was[a]);
            } else if a > i {
                assert(acc@[a] == was[a - 1]);
                if i < was.len() && a - 1 > i {
                    assert(was[i as int].0 < was[a - 1].0);
                }
            }
        }
        assert forall|idx: i64| idx >= begin && #[trigger] n.contains_key(
            (partition, idx),
        ) implies exists|a: int| 0 <= a < acc@.len() && (#[trigger] acc@[a]).0 == idx by {
            if idx == index {
                assert(acc@[i as int].0 == idx);
            } else {
                assert(m.contains_key((partition, idx)));
                let a = choose|a: int| 0 <= a < was.len() && (#[trigger] was[a]).0 == idx;
                if a < i {
                    assert(acc@[a].0 == idx);
                } else {
                    assert(acc@[a + 1].0 == idx);
                }
            }
        }
    }
}

/// The reports of a partition from report index `begin` on that several connections have
/// sent, in ascending order.
pub fn resend_reports_since(recorders: &Vec<ConnRecorder>, partition: i32, begin: i64) -> (r: Vec<
    (i64, Vec<u8>),
>)
    requires
        all_wf(recorders@),
    ensures
        is_since(all_sent(recorders@), partition, begin, r@),
{
    let mut acc: Vec<(i64, Vec<u8>)> = Vec::new();
    let mut i: usize = 0;
    assert(recorders@.take(0) =~= Seq::<ConnRecorder>::empty());
    while i < recorders.len()
        invariant
            i <= recorders@.len(),
            all_wf(recorders@),
            is_since(all_sent(recorders@.take(i as int)), partition, begin, acc@),
        decreases recorders@.len() - i,
    {
        let list = recorders[i].reports_since(partition, begin);
        let ghost own = recorders@[i as int].sent();
        let ghost before = all_sent(recorders@.take(i as int));
        let ghost mut m = before;
        let mut j: usize = 0;
        while j < list.len()
            invariant
                j <= list@.len(),
                is_since(own, partition, begin, list@),
                is_since(m, partition, begin, acc@),
                forall|idx: i64|
                    #![trigger m.contains_key((partition, idx))]
                    m.contains_key((partition, idx)) == (before.contains_key((partition, idx))
                        || exists|k: int| 0 <= k < j && (#[trigger] list@[k]).0 == idx),
                forall|idx: i64|
                    #![trigger m[(partition, idx)]]
                    m.contains_key((partition, idx)) ==> m[(partition, idx)] == (if exists|k: int|
                        0 <= k < j && (#[trigger] list@[k]).0 == idx {
                        own[(partition, idx)]
                    } else {
                        before[(partition, idx)]
                    }),
            decreases list@.len() - j,
        {
            let index: i64 = list[j].0;
            let frame = bytes_of(list[j].1.as_slice());
            put_report(&mut acc, index, frame, Ghost(m), Ghost(partition), Ghost(begin));
            proof {
                let n = m.insert((partition, index), frame@);
                assert(list@[j as int].0 == index);
                assert forall|idx: i64| #[trigger]
                    n.contains_key((partition, idx)) == (before.contains_key((partition, idx))
                        || exists|k: int| 0 <= k < j + 1 && (#[trigger] list@[k]).0 == idx) by {
                    assert(m.contains_key((partition, idx)) == (before.contains_key(
                        (partition, idx),
                    ) || exists|k: int| 0 <= k < j && (#[trigger] list@[k]).0 == idx));
                    if exists|k: int| 0 <= k < j + 1 && (#[trigger] list@[k]).0 == idx {
                        let k = choose|k: int| 0 <= k < j + 1 && (#[trigger] list@[k]).0 == idx;
                        if k < j {
                            assert(list@[k].0 == idx);
                        }
                    }
                }
                assert forall|idx: i64| n.contains_key((partition, idx)) implies #[trigger] n[(
                    partition,
                    idx,
                )] == (if exists|k: int| 0 <= k < j + 1 && (#[trigger] list@[k]).0 == idx {
                    own[(partition, idx)]
                } else {
                    before[(partition, idx)]
                }) by {
                    if idx == index {
                        assert(list@[j as int].0 == idx);
                    } else {
                        assert(m.contains_key((partition, idx)));
                        assert(m[(partition, idx)] == n[(partition, idx)]);
                        if exists|k: int| 0 <= k < j + 1 && (#[trigger] list@[k]).0 == idx {
                            let k = choose|k: int| 0 <= k < j + 1 && (#[trigger] list@[k]).0 == idx;
                            assert(k < j);
                            assert(list@[k].0 == idx);
                        }
                    }
                }
                m = n;
            }
            j += 1;
        }
        proof {
            let t = recorders@.take(i + 1);
            assert(t.drop_last() =~= recorders@.take(i as int));
            assert(t.last() == recorders@[i as int]);
            let all = before.union_prefer_right(own);
            assert(agree(m, all, partition, begin)) by {
                assert forall|idx: i64| idx >= begin implies #[trigger] m.contains_key(
                    (partition, idx),
                ) == all.contains_key((partition, idx)) && (m.contains_key((partition, idx))
                    ==> m[(partition, idx)] == all[(partition, idx)]) by {
                    if own.contains_key((partition, idx)) {
                        let k = choose|k: int| 0 <= k < list@.len() && (#[trigger] list@[k]).0 == idx;
                        assert(list@[k].0 == idx);
                    } else if exists|k: int| 0 <= k < j && (#[trigger] list@[k]).0 == idx {
                        let k = choose|k: int| 0 <= k < j && (#[trigger] list@[k]).0 == idx;
                        assert(own.contains_key((partition, list@[k].0)));
                    }
                }
            }
            lemma_agree(m, all, partition, begin, acc@);
        }
        i += 1;
    }
    assert(recorders@.take(i as int) =~= recorders@);
    acc
}

/// What is sent again is determined by what was sent: as many reports, with the same
/// numbers and the same bytes, in the same order.
pub proof fn law_resend_unique(
    sent: Map<(i32, i64), Seq<u8>>,
    partition: i32,
    begin: i64,
    r: Seq<(i64, Vec<u8>)>,
    s: Seq<(i64, Vec<u8>)>,
)
    requires
        is_since(sent, partition, begin, r),
        is_since(sent, partition, begin, s),
    ensures
        r.len() == s.len(),
        forall|i: int|
            0 <= i < r.len() ==> (#[trigger] r[i]).0 == s[i].0 && r[i].1@ == s[i].1@,
{
    lemma_same_prefix(sent, partition, begin, r, s, r.len() as int);
    lemma_same_prefix(sent, partition, begin, s, r, s.len() as int);
    if r.len() < s.len() {
        let x = s[r.len() as int];
        assert(sent.contains_key((partition, x.0)));
        let a = choose|a: int| 0 <= a < r.len() && (#[trigger] r[a]).0 == x.0;
        assert(s[a].0 == r[a].0);
        assert(s[a].0 < s[r.len() as int].0);
    } else if s.len() < r.len() {
        let x = r[s.len() as int];
        assert(sent.contains_key((partition, x.0)));
        let a = choose|a: int| 0 <= a < s.len() && (#[trigger] s[a]).0 == x.0;
        assert(r[a].0 == s[a].0);
        assert(r[a].0 < r[s.len() as int].0);
    }
}

proof fn lemma_same_prefix(
    sent: Map<(i32, i64), Seq<u8>>,
    partition: i32,
    begin: i64,
    r: Seq<(i64, Vec<u8>)>,
    s: Seq<(i64, Vec<u8>)>,
    k: int,
)
    requires
        is_since(sent, partition, begin, r),
        is_since(sent, partition, begin, s),
        0 <= k <= r.len(),
    ensures
        forall|i: int|
            0 <= i < k && i < s.len() ==> (#[trigger] r[i]).0 == s[i].0 && r[i].1@ == s[i].1@,
    decreases k,
{
    if k > 0 {
        lemma_same_prefix(sent, partition, begin, r, s, k - 1);
        let i = k - 1;
        if i < s.len() {
            assert(sent.contains_key((partition, r[i].0)));
            assert(sent.contains_key((partition, s[i].0)));
            let a = choose|a: int| 0 <= a < s.len() && (#[trigger] s[a]).0 == r[i].0;
            let b = choose|b: int| 0 <= b < r.len() && (#[trigger] r[b]).0 == s[i].0;
            if a < i {
                assert(r[a].0 == s[a].0);
                assert(r[a].0 < r[i].0);
            }
            if b < i {
                assert(r[b].0 == s[b].0);
                assert(s[b].0 < s[i].0);
            }
            if a > i {
                assert(s[i].0 < s[a].0);
            }
            if b > i {
                assert(r[i].0 < r[b].0);
            }
        }
    }
}

/// A copy of `bytes`.
pub fn bytes_of(bytes: &[u8]) -> (r: Vec<u8>)
    ensures
        r@ == bytes@,
{
    let mut out: Vec<u8> = Vec::new();
    crate::wire::append_bytes(&mut out, bytes);
    assert(out@ =~= bytes@);
    out
}

/// A hexadecimal digit in upper case.
pub open spec fn hex_digit(d: int) -> char {
    if d < 10 {
        (48 + d) as u8 as char
    } else {
        (55 + d) as u8 as char
    }
}

/// Bytes in hexadecimal, two digits each, separated by spaces.
pub open spec fn hex_text(raw: Seq<u8>) -> Seq<char>
    decreases raw.len(),
{
    if raw.len() == 0 {
        Seq::empty()
    } else {
        let b = raw.last() as int;
        let digits = seq![hex_digit(b / 16), hex_digit(b % 16)];
        if raw.len() == 1 {
            digits
        } else {
            hex_text(raw.drop_last()) + seq![' '] + digits
        }
    }
}

fn hex_char(d: u8) -> (c: char)
    requires
        d < 16,
    ensures
        c == hex_digit(d as int),
{
    if d < 10 {
        (48 + d) as char
    } else {
        (55 + d) as char
    }
}

/// Bytes in hexadecimal, two digits each, separated by spaces.
pub fn to_hex(raw: &[u8]) -> (r: String)
    ensures
        r@ == hex_text(raw@),
{
    let mut s = String::new();
    let mut i: usize = 0;
    assert(raw@.take(0) =~= Seq::<u8>::empty());
    while i < raw.len()
        invariant
            i <= raw@.len(),
            s@ =~= hex_text(raw@.take(i as int)),
        decreases raw@.len() - i,
    {
        proof {
            let t = raw@.take(i + 1);
            assert(t.drop_last() =~= raw@.take(i as int));
            assert(t.last() == raw@[i as int]);
        }
        if i > 0 {
            s.push(' ');
        }
        s.push(hex_char(raw[i] / 16));
        s.push(hex_char(raw[i] % 16));
        i += 1;
    }
    assert(raw@.take(i as int) =~= raw@);
    s
}

/// `n` spaces.
pub open spec fn blanks(n: nat) -> Seq<char> {
    Seq::new(n, |i: int| ' ')
}

/// `s` filled up with spaces to `width` characters.
pub open spec fn pad_right(s: Seq<char>, width: nat) -> Seq<char> {
    if s.len() >= width {
        s
    } else {
        s + blanks((width - s.len()) as nat)
    }
}

fn push_blanks(out: &mut String, n: usize)
    ensures
        final(out)@ == old(out)@ + blanks(n as nat),
{
    let mut i: usize = 0;
    while i < n
        invariant
            i <= n,
            out@ =~= old(out)@ + blanks(i as nat),
        decreases n - i,
    {
        out.push(' ');
        i += 1;
    }
}

/// The line of a field, indented below the message.
pub open spec fn field_line(f: (Seq<char>, Seq<char>)) -> Seq<char> {
    blanks(19) + seq![' '] + pad_right(f.0, 24) + seq![':', ' '] + f.1 + seq!['\n']
}

pub open spec fn field_lines(fields: Seq<(Seq<char>, Seq<char>)>) -> Seq<char>
    decreases fields.len(),
{
    if fields.len() == 0 {
        Seq::empty()
    } else {
        field_lines(fields.drop_last()) + field_line(fields.last())
    }
}

/// A message as it is written to a file: the time, the direction and the bytes on one
/// line, and a line for each field.
pub open spec fn packet_text(r: PacketRecordView) -> Seq<char> {
    r.ts + seq![' '] + r.dir.text() + seq![' ', ' '] + r.hex + seq!['\n'] + field_lines(r.fields)
}

/// A message as it is written to a file.
pub fn file_text(r: &PacketRecord) -> (s: String)
    ensures
        s@ == packet_text(r@),
{
    let mut s = r.ts.clone();
    s.push(' ');
    s.push_str(r.dir.label());
    s.push(' ');
    s.push(' ');
    s.push_str(r.hex.as_str());
    s.push('\n');
    let ghost head = s@;
    let ghost views = field_views(r.fields@);
    let mut i: usize = 0;
    assert(views.take(0) =~= Seq::<(Seq<char>, Seq<char>)>::empty());
    while i < r.fields.len()
        invariant
            i <= r.fields@.len(),
            views == field_views(r.fields@),
            s@ =~= head + field_lines(views.take(i as int)),
        decreases r.fields@.len() - i,
    {
        proof {
            let t = views.take(i + 1);
            assert(t.drop_last() =~= views.take(i as int));
            assert(t.last() == r.fields@[i as int]@);
        }
        let name = text::chars_of(r.fields[i].name.as_str());
        push_blanks(&mut s, 19);
        s.push(' ');
        s.push_str(r.fields[i].name.as_str());
        if name.len() < 24 {
            push_blanks(&mut s, 24 - name.len());
        }
        s.push(':');
        s.push(' ');
        s.push_str(r.fields[i].value.as_str());
        s.push('\n');
        i += 1;
    }
    assert(views.take(i as int) =~= views);
    assert(s@ =~= packet_text(r@));
    s
}

/// Numbers of captured messages differ, over all connections that share a source.
pub proof fn law_seq_unique(
    a0: ConnRecorder,
    a1: ConnRecorder,
    b0: ConnRecorder,
    b1: ConnRecorder,
    s0: SeqSource,
    s1: SeqSource,
    s2: SeqSource,
    dirs: (Dir, Dir),
    raws: (Seq<u8>, Seq<u8>),
    fields: (Seq<ParsedField>, Seq<ParsedField>),
    nows: (clock::LocalTime, clock::LocalTime),
)
    requires
        s1.last < u64::MAX,
        recorded(a0, a1, s0, s1, dirs.0, raws.0, fields.0, nows.0),
        recorded(b0, b1, s1, s2, dirs.1, raws.1, fields.1, nows.1),
    ensures
        a1.packets().last().seq < b1.packets().last().seq,
        b1.packets().last().seq == s2.last,
{
}

/// A page from number 0 on holds all messages in memory, and paging on from the newest
/// message holds none.
pub proof fn law_page(s: Seq<PacketRecordView>, after: u64)
    requires
        forall|i: int| 0 <= i < s.len() ==> (#[trigger] s[i]).seq > 0,
    ensures
        newer(s, 0) == s,
        (forall|i: int| 0 <= i < s.len() ==> (#[trigger] s[i]).seq <= after) ==> newer(s, after)
            == Seq::<PacketRecordView>::empty(),
    decreases s.len(),
{
    if s.len() > 0 {
        let t = s.drop_last();
        assert forall|i: int| 0 <= i < t.len() implies (#[trigger] t[i]).seq > 0 by {
            assert(t[i] == s[i]);
        }
        law_page(t, after);
        assert(t.push(s.last()) =~= s);
        assert(s.last() == s[s.len() - 1]);
        if forall|i: int| 0 <= i < s.len() ==> (#[trigger] s[i]).seq <= after {
            assert forall|i: int| 0 <= i < t.len() implies (#[trigger] t[i]).seq <= after by {
                assert(t[i] == s[i]);
            }
        }
    }
}

/// The page behind a number holds exactly the messages with a greater one, in the order in
/// which they were captured.
pub proof fn law_page_is_exact(s: Seq<PacketRecordView>, after: u64, r: PacketRecordView)
    ensures
        newer(s, after).contains(r) <==> s.contains(r) && r.seq > after,
        newer(s, after).len() <= s.len(),
        (forall|i: int, j: int| 0 <= i < j < s.len() ==> (#[trigger] s[i]).seq < (#[trigger] s[j]).seq)
            ==> (forall|i: int, j: int|
            0 <= i < j < newer(s, after).len() ==> (#[trigger] newer(s, after)[i]).seq < (
            #[trigger] newer(s, after)[j]).seq),
    decreases s.len(),
{
    if s.len() > 0 {
        let t = s.drop_last();
        let x = s.last();
        let m = newer(t, after);
        let n = newer(s, after);
        law_page_is_exact(t, after, r);
        assert(s[s.len() - 1] == x);
        if s.contains(r) {
            let i = choose|i: int| 0 <= i < s.len() && s[i] == r;
            if i < t.len() {
                assert(t[i] == r);
            }
        }
        if t.contains(r) {
            let i = choose|i: int| 0 <= i < t.len() && t[i] == r;
            assert(s[i] == r);
        }
        if n.contains(r) {
            let i = choose|i: int| 0 <= i < n.len() && n[i] == r;
            if i < m.len() {
                assert(m[i] == r);
            }
        }
        if m.contains(r) {
            let i = choose|i: int| 0 <= i < m.len() && m[i] == r;
            assert(n[i] == r);
        }
        if x.seq > after {
            assert(n[m.len() as int] == x);
        }
        if forall|i: int, j: int| 0 <= i < j < s.len() ==> (#[trigger] s[i]).seq < (#[trigger] s[j]).seq {
            assert forall|i: int, j: int| 0 <= i < j < t.len() implies (#[trigger] t[i]).seq < (
            #[trigger] t[j]).seq by {
                assert(s[i].seq < s[j].seq);
            }
            assert forall|i: int, j: int| 0 <= i < j < n.len() implies (#[trigger] n[i]).seq < (
            #[trigger] n[j]).seq by {
                assert(m[i] == n[i]);
                if j < m.len() {
                    assert(m[j] == n[j]);
                } else {
                    law_page_is_exact(t, after, m[i]);
                    assert(m.contains(m[i]));
                    let k = choose|k: int| 0 <= k < t.len() && t[k] == m[i];
                    assert(s[k].seq < s[s.len() - 1].seq);
                }
            }
        }
    }
}

/// One more message is captured with the next number, under its connection and direction and
/// with its bytes, behind the others. Those stay, but for the oldest beyond the last 5000 where
/// no file is written.
pub proof fn law_captured(
    before: ConnRecorder,
    after: ConnRecorder,
    source: SeqSource,
    next: SeqSource,
    dir: Dir,
    raw: Seq<u8>,
    fields: Seq<(Seq<char>, Seq<char>)>,
    now: clock::LocalTime,
)
    requires
        captured(before, after, source, next, dir, raw, fields, now),
        source.last < u64::MAX,
    ensures
        ({
            let s = before.packets();
            let t = after.packets();
            let gone: int = if before.persists() || s.len() < 5000 {
                0
            } else {
                s.len() + 1 - 5000
            };
            &&& t.len() == s.len() + 1 - gone
            &&& t.last().seq == source.last + 1
            &&& next.last == source.last + 1
            &&& t.last().conn_id == before.id()
            &&& t.last().dir == dir
            &&& t.last().hex == hex_text(raw)
            &&& t.last().fields == fields
            &&& forall|i: int| 0 <= i < t.len() - 1 ==> #[trigger] t[i] == s[i + gone]
        }),
{
}

/// Bytes are written with two hexadecimal digits each, the higher first, and a space between
/// them.
pub proof fn law_hex_digits(raw: Seq<u8>, i: int)
    requires
        0 <= i < raw.len(),
    ensures
        hex_text(raw).len() == 3 * raw.len() - 1,
        hex_value(hex_text(raw)[3 * i]) * 16 + hex_value(hex_text(raw)[3 * i + 1]) == raw[i],
        i > 0 ==> hex_text(raw)[3 * i - 1] == ' ',
    decreases raw.len(),
{
    let t = raw.drop_last();
    if raw.len() > 1 {
        if i < t.len() {
            law_hex_digits(t, i);
        } else {
            law_hex_digits(t, 0);
        }
    }
}

/// The number that a hexadecimal digit in upper case stands for.
pub open spec fn hex_value(c: char) -> int {
    if c as u32 >= 'A' as u32 {
        c as u32 - 'A' as u32 + 10
    } else {
        c as u32 - '0' as u32
    }
}

/// A message that is written to a file starts with its time, its direction and its bytes; each
/// of its fields follows on a line of its own, with the value behind the name.
pub proof fn law_packet_is_written(r: PacketRecordView, f: (Seq<char>, Seq<char>))
    ensures
        ({
            let s = packet_text(r);
            let n = r.ts.len() as int;
            let d = r.dir.text().len() as int;
            let h = r.hex.len() as int;
            &&& s.len() > n + d + h + 3
            &&& s.take(n) == r.ts
            &&& s.subrange(n + 1, n + 1 + d) == r.dir.text()
            &&& s.subrange(n + d + 3, n + d + 3 + h) == r.hex
            &&& s[n + d + 3 + h] == '\n'
            &&& packet_text(PacketRecordView { fields: r.fields.push(f), ..r }) == s + field_line(f)
        }),
        ({
            let s = field_line(f);
            let w = if f.0.len() < 24 {
                24
            } else {
                f.0.len() as int
            };
            &&& s.len() == 20 + w + 3 + f.1.len()
            &&& s.subrange(20, 20 + f.0.len() as int) == f.0
            &&& s[20 + w] == ':'
            &&& s.subrange(22 + w, 22 + w + f.1.len()) == f.1
            &&& s.last() == '\n'
        }),
{
    let s = packet_text(r);
    let n = r.ts.len() as int;
    let d = r.dir.text().len() as int;
    let h = r.hex.len() as int;
    assert(s.take(n) =~= r.ts);
    assert(s.subrange(n + 1, n + 1 + d) =~= r.dir.text());
    assert(s.subrange(n + d + 3, n + d + 3 + h) =~= r.hex);
    let more = r.fields.push(f);
    assert(more.drop_last() =~= r.fields);
    assert(packet_text(PacketRecordView { fields: more, ..r }) =~= s + field_line(f));
    let l = field_line(f);
    let w = if f.0.len() < 24 {
        24
    } else {
        f.0.len() as int
    };
    assert(blanks(19).len() == 19);
    assert(l.subrange(20, 20 + f.0.len() as int) =~= f.0);
    assert(l.subrange(22 + w, 22 + w + f.1.len()) =~= f.1);
}

} // verus!
