//! The gateways: their configuration, what of them runs, and what is told of it.
//!
//! The engine decides and keeps what is decided. Listening on ports, moving messages and
//! writing the configuration are left to the program around it.
use vstd::prelude::*;
use vstd::seq_lib::*;

use crate::capture;
use crate::capture::{
    ConnBrief, ConnRecorder, PacketPage, PacketRecord, PacketRecordView, SeqSource,
};
use crate::clock;
use crate::clock::LocalTime;
use crate::config;
use crate::config::{GatewayCategory, GatewayConfig, PlatformConfig, StrategyConfig};
use crate::event::ConnInfo;
use crate::manual;
use crate::manual::{ManualReport, ManualReportKind};
use crate::note;
use crate::note::Note;
use crate::orderbook;
use crate::orderbook::{OrderBook, OrderEntry, OrderUpdate};
use crate::rng;
use crate::shjj;
use crate::stats;
use crate::stats::{PlatformStats, StatsSnapshot};
use crate::sz;
use crate::sz::session::{kept, orders_wf, SessionCtx};
use crate::text;

verus! {

/// A platform that runs.
pub struct RunningPlatform {
    /// Which interface it speaks.
    pub category: GatewayCategory,
    /// What its connections share.
    pub ctx: SessionCtx,
}

/// A gateway that runs.
pub struct RunningGateway {
    pub id: String,
    pub platforms: Vec<RunningPlatform>,
}

/// All gateways.
pub struct Engine {
    /// The configuration of all gateways, those that do not run as well.
    pub gateways: Vec<GatewayConfig>,
    pub running: Vec<RunningGateway>,
}

/// The first place of a text in a list; the length where it is not there.
pub open spec fn place_of(ids: Seq<Seq<char>>, key: Seq<char>) -> int
    decreases ids.len(),
{
    if ids.len() == 0 || ids[0] == key {
        0
    } else {
        1 + place_of(ids.drop_first(), key)
    }
}

proof fn lemma_place(ids: Seq<Seq<char>>, key: Seq<char>, k: int)
    requires
        0 <= k <= ids.len(),
        k < ids.len() ==> ids[k] == key,
        forall|i: int| 0 <= i < k ==> #[trigger] ids[i] != key,
    ensures
        place_of(ids, key) == k,
    decreases ids.len(),
{
    if k > 0 {
        assert(ids[0] != key);
        let t = ids.drop_first();
        assert forall|i: int| 0 <= i < k - 1 implies #[trigger] t[i] != key by {
            assert(t[i] == ids[i + 1]);
        }
        lemma_place(t, key, k - 1);
    }
}

/// The first place of a text holds it, and no place before does.
pub proof fn lemma_place_of(ids: Seq<Seq<char>>, key: Seq<char>)
    ensures
        0 <= place_of(ids, key) <= ids.len(),
        place_of(ids, key) < ids.len() ==> ids[place_of(ids, key)] == key,
        forall|i: int| 0 <= i < place_of(ids, key) ==> #[trigger] ids[i] != key,
        ids.contains(key) <==> place_of(ids, key) < ids.len(),
    decreases ids.len(),
{
    if ids.len() > 0 && ids[0] != key {
        let t = ids.drop_first();
        lemma_place_of(t, key);
        assert forall|i: int| 0 <= i < place_of(ids, key) implies #[trigger] ids[i] != key by {
            if i > 0 {
                assert(t[i - 1] == ids[i]);
            }
        }
        if ids.contains(key) {
            let i = choose|i: int| 0 <= i < ids.len() && ids[i] == key;
            assert(t[i - 1] == key);
        }
        if t.contains(key) {
            let i = choose|i: int| 0 <= i < t.len() && t[i] == key;
            assert(ids[i + 1] == key);
        }
    } else if ids.len() > 0 {
        assert(ids[0] == key);
    }
}

/// The ids of gateways.
pub open spec fn gateway_ids(s: Seq<GatewayConfig>) -> Seq<Seq<char>> {
    s.map_values(|g: GatewayConfig| g.id@)
}

/// The ids of platforms.
pub open spec fn platform_ids(s: Seq<PlatformConfig>) -> Seq<Seq<char>> {
    s.map_values(|p: PlatformConfig| p.id@)
}

/// The ids of gateways that run.
pub open spec fn running_ids(s: Seq<RunningGateway>) -> Seq<Seq<char>> {
    s.map_values(|g: RunningGateway| g.id@)
}

/// The ids of platforms that run.
pub open spec fn live_ids(s: Seq<RunningPlatform>) -> Seq<Seq<char>> {
    s.map_values(|p: RunningPlatform| p.ctx.cfg.id@)
}

fn find_gateway(s: &Vec<GatewayConfig>, id: &str) -> (r: usize)
    ensures
        r == place_of(gateway_ids(s@), id@),
        r <= s@.len(),
        r < s@.len() ==> s@[r as int].id@ == id@,
{
    let mut i: usize = 0;
    while i < s.len()
        invariant
            i <= s@.len(),
            forall|k: int| 0 <= k < i ==> #[trigger] gateway_ids(s@)[k] != id@,
        decreases s@.len() - i,
    {
        if text::same_text(s[i].id.as_str(), id) {
            proof {
                lemma_place(gateway_ids(s@), id@, i as int);
            }
            return i;
        }
        i += 1;
    }
    proof {
        lemma_place(gateway_ids(s@), id@, i as int);
    }
    i
}

fn find_platform(s: &Vec<PlatformConfig>, id: &str) -> (r: usize)
    ensures
        r == place_of(platform_ids(s@), id@),
        r <= s@.len(),
        r < s@.len() ==> s@[r as int].id@ == id@,
{
    let mut i: usize = 0;
    while i < s.len()
        invariant
            i <= s@.len(),
            forall|k: int| 0 <= k < i ==> #[trigger] platform_ids(s@)[k] != id@,
        decreases s@.len() - i,
    {
        if text::same_text(s[i].id.as_str(), id) {
            proof {
                lemma_place(platform_ids(s@), id@, i as int);
            }
            return i;
        }
        i += 1;
    }
    proof {
        lemma_place(platform_ids(s@), id@, i as int);
    }
    i
}

fn find_running(s: &Vec<RunningGateway>, id: &str) -> (r: usize)
    ensures
        r == place_of(running_ids(s@), id@),
        r <= s@.len(),
        r < s@.len() ==> s@[r as int].id@ == id@,
{
    let mut i: usize = 0;
    while i < s.len()
        invariant
            i <= s@.len(),
            forall|k: int| 0 <= k < i ==> #[trigger] running_ids(s@)[k] != id@,
        decreases s@.len() - i,
    {
        if text::same_text(s[i].id.as_str(), id) {
            proof {
                lemma_place(running_ids(s@), id@, i as int);
            }
            return i;
        }
        i += 1;
    }
    proof {
        lemma_place(running_ids(s@), id@, i as int);
    }
    i
}

fn find_live(s: &Vec<RunningPlatform>, id: &str) -> (r: usize)
    ensures
        r == place_of(live_ids(s@), id@),
        r <= s@.len(),
        r < s@.len() ==> s@[r as int].ctx.cfg.id@ == id@,
{
    let mut i: usize = 0;
    while i < s.len()
        invariant
            i <= s@.len(),
            forall|k: int| 0 <= k < i ==> #[trigger] live_ids(s@)[k] != id@,
        decreases s@.len() - i,
    {
        if text::same_text(s[i].ctx.cfg.id.as_str(), id) {
            proof {
                lemma_place(live_ids(s@), id@, i as int);
            }
            return i;
        }
        i += 1;
    }
    proof {
        lemma_place(live_ids(s@), id@, i as int);
    }
    i
}

/// A hexadecimal digit in lower case.
pub open spec fn id_digit(d: int) -> char {
    if d < 10 {
        (48 + d) as u8 as char
    } else {
        (87 + d) as u8 as char
    }
}

fn id_char(d: u64) -> (c: char)
    requires
        d < 16,
    ensures
        c == id_digit(d as int),
{
    if d < 10 {
        (48 + d) as u8 as char
    } else {
        (87 + d) as u8 as char
    }
}

/// An id: year, month, day and time, two digits each, and a number of four hexadecimal
/// digits.
pub open spec fn id_of(now: LocalTime, r: u64) -> Seq<char> {
    clock::two((now.year as int) % 100) + clock::two(now.month as int) + clock::two(now.day as int)
        + clock::compact_time_text(now) + seq![
        id_digit(r as int / 4096),
        id_digit((r as int / 256) % 16),
        id_digit((r as int / 16) % 16),
        id_digit(r as int % 16),
    ]
}

/// An id that was made at some time, of some number.
pub open spec fn is_new_id(id: Seq<char>) -> bool {
    exists|now: LocalTime, r: u64|
        now.wf() && 0x1000 <= r <= 0xffff && id == #[trigger] id_of(now, r)
}

/// The id of the given time and number.
pub fn make_id(now: &LocalTime, r: u64) -> (id: String)
    requires
        now.wf(),
        0x1000 <= r <= 0xffff,
    ensures
        id@ == id_of(*now, r),
{
    let y: i32 = now.year % 100;
    let y: i32 = if y < 0 {
        y + 100
    } else {
        y
    };
    assert(y == (now.year as int) % 100);
    let mut out = text::padded(y as u64, 2);
    text::push_padded(&mut out, now.month as u64, 2);
    text::push_padded(&mut out, now.day as u64, 2);
    out.push_str(clock::compact_time(now).as_str());
    out.push(id_char(r / 4096));
    out.push(id_char((r / 256) % 16));
    out.push(id_char((r / 16) % 16));
    out.push(id_char(r % 16));
    assert(out@ =~= id_of(*now, r));
    out
}

/// A new id.
pub fn gen_id() -> (id: String)
    ensures
        is_new_id(id@),
{
    let now = clock::local_now();
    let r: u64 = rng::gen_range(0x1000, 0xffff);
    let id = make_id(&now, r);
    assert(is_new_id(id_of(now, r)));
    id
}

/// An id that was given, or a new one where none was.
pub open spec fn is_id(given: Seq<char>, id: Seq<char>) -> bool {
    if given.len() == 0 {
        is_new_id(id)
    } else {
        id == given
    }
}

/// A platform as it is saved: it has an id, and its messages are written to files exactly
/// where they are shown.
pub open spec fn is_saved_platform(given: PlatformConfig, saved: PlatformConfig) -> bool {
    &&& is_id(given.id@, saved.id@)
    &&& saved == (PlatformConfig {
        id: saved.id,
        persist_packets: given.show_packets,
        ..given
    })
}

/// The platforms of a gateway as they are saved.
pub open spec fn are_saved_platforms(given: Seq<PlatformConfig>, saved: Seq<PlatformConfig>) -> bool {
    &&& saved.len() == given.len()
    &&& forall|i: int|
        0 <= i < given.len() ==> is_saved_platform(given[i], #[trigger] saved[i])
}

fn save_platforms(platforms: &mut Vec<PlatformConfig>)
    ensures
        are_saved_platforms(old(platforms)@, final(platforms)@),
{
    let ghost given = platforms@;
    let n: usize = platforms.len();
    let mut i: usize = 0;
    while i < n
        invariant
            n == given.len(),
            platforms@.len() == n,
            i <= n,
            forall|k: int|
                0 <= k < i ==> is_saved_platform(given[k], #[trigger] platforms@[k]),
            forall|k: int| i <= k < n ==> #[trigger] platforms@[k] == given[k],
        decreases n - i,
    {
        let show = platforms[i].show_packets;
        let fresh = platforms[i].id.as_str().is_empty();
        if fresh {
            let id = gen_id();
            platforms[i].id = id;
        }
        platforms[i].persist_packets = show;
        i += 1;
    }
}

/// No two platforms listen on the same port.
pub open spec fn ports_distinct(s: Seq<PlatformConfig>) -> bool {
    forall|i: int, j: int|
        0 <= i < j < s.len() ==> (#[trigger] s[i]).port != (#[trigger] s[j]).port
}

fn check_ports(s: &Vec<PlatformConfig>) -> (r: bool)
    ensures
        r == ports_distinct(s@),
{
    let mut i: usize = 0;
    while i < s.len()
        invariant
            i <= s@.len(),
            forall|a: int, b: int|
                0 <= a < b < i ==> (#[trigger] s@[a]).port != (#[trigger] s@[b]).port,
        decreases s@.len() - i,
    {
        let mut k: usize = 0;
        while k < i
            invariant
                k <= i < s@.len(),
                forall|a: int| 0 <= a < k ==> (#[trigger] s@[a]).port != s@[i as int].port,
            decreases i - k,
        {
            if s[k].port == s[i].port {
                assert(s@[k as int].port == s@[i as int].port);
                return false;
            }
            k += 1;
        }
        i += 1;
    }
    true
}

/// Why a gateway is not saved.
pub open spec fn save_refusal(e: Engine, gw: GatewayConfig) -> Option<Seq<char>> {
    if running_ids(e.running@).contains(gw.id@) {
        Some("网关正在运行，请先停止后再修改"@)
    } else if text::is_blank(gw.name@) {
        Some("网关名称不能为空"@)
    } else if !ports_distinct(gw.platforms@) {
        Some("同一网关下平台监听端口不能重复"@)
    } else {
        None
    }
}

/// A gateway as it is saved: it and its platforms have ids, and whether it was running
/// stays as it was.
pub open spec fn is_saved(before: Seq<GatewayConfig>, given: GatewayConfig, saved: GatewayConfig) -> bool {
    let k = place_of(gateway_ids(before), saved.id@);
    &&& is_id(given.id@, saved.id@)
    &&& are_saved_platforms(given.platforms@, saved.platforms@)
    &&& saved.name@ == given.name@
    &&& saved.category == given.category
    &&& saved.was_running == (if k < before.len() {
        before[k].was_running
    } else {
        given.was_running
    })
}

/// The gateways after one was saved: in the place of the one with its id, or last.
pub open spec fn with_saved(before: Seq<GatewayConfig>, saved: GatewayConfig) -> Seq<GatewayConfig> {
    let k = place_of(gateway_ids(before), saved.id@);
    if k < before.len() {
        before.update(k, saved)
    } else {
        before.push(saved)
    }
}

/// What comes of the wish to save a gateway.
pub open spec fn is_save(
    before: Engine,
    gw: GatewayConfig,
    after: Engine,
    r: Result<GatewayConfig, String>,
) -> bool {
    &&& after.running == before.running
    &&& match r {
        Ok(copy) => {
            let k = place_of(gateway_ids(before.gateways@), copy.id@);
            let saved = after.gateways@[k];
            &&& save_refusal(before, gw) is None
            &&& is_saved(before.gateways@, gw, saved)
            &&& after.gateways@ == with_saved(before.gateways@, saved)
            &&& config::same_gateway(copy, saved)
        },
        Err(why) => save_refusal(before, gw) == Some(why@) && after.gateways == before.gateways,
    }
}

/// What comes of the wish to delete a gateway.
pub open spec fn is_delete(before: Engine, id: Seq<char>, after: Engine, r: Result<(), String>) -> bool {
    &&& after.running == before.running
    &&& match r {
        Ok(_) => !running_ids(before.running@).contains(id) && after.gateways@ == without(
            before.gateways@,
            id,
        ),
        Err(why) => running_ids(before.running@).contains(id) && why@
            == "网关正在运行，请先停止后再删除"@ && after.gateways == before.gateways,
    }
}

/// What comes of the wish to start a gateway.
pub open spec fn is_start(before: Engine, id: Seq<char>, after: Engine, r: Result<(), String>) -> bool {
    match r {
        Ok(_) => {
            let gw = before.gateways@[place_of(gateway_ids(before.gateways@), id)];
            &&& start_refusal(before, id) is None
            &&& after.running@.len() == before.running@.len() + 1
            &&& after.running@.drop_last() == before.running@
            &&& is_started(gw, after.running@.last())
            &&& after.gateways@ == with_state(before.gateways@, id, true)
        },
        Err(why) => start_refusal(before, id) == Some(why@) && after == before,
    }
}

/// What comes of the wish to stop a gateway.
pub open spec fn is_stop(before: Engine, id: Seq<char>, after: Engine, r: Result<(), String>) -> bool {
    match r {
        Ok(_) => {
            let k = place_of(running_ids(before.running@), id);
            &&& k < before.running@.len()
            &&& after.running@ == before.running@.remove(k)
            &&& after.gateways@ == with_state(before.gateways@, id, false)
        },
        Err(why) => !running_ids(before.running@).contains(id) && why@ == "网关未在运行"@ && after
            == before,
    }
}

/// What comes of the wish to replace the strategy of a platform.
pub open spec fn is_update(
    before: Engine,
    gateway_id: Seq<char>,
    platform_id: Seq<char>,
    strategy: StrategyConfig,
    after: Engine,
    r: Result<String, String>,
) -> bool {
    let g = place_of(running_ids(before.running@), gateway_id);
    let p = place_of(live_ids(before.running@[g].platforms@), platform_id);
    let takes = takes_strategy(before.running@, gateway_id, platform_id);
    &&& takes && g < before.running@.len() ==> is_retuned(
        before.running@,
        after.running@,
        g,
        p,
        strategy,
    )
    &&& !takes || g >= before.running@.len() ==> after.running == before.running
    &&& match r {
        Ok(said) => {
            let c = place_of(gateway_ids(before.gateways@), gateway_id);
            let q = place_of(platform_ids(before.gateways@[c].platforms@), platform_id);
            &&& takes
            &&& config_refusal(before.gateways@, gateway_id, platform_id) is None
            &&& is_reconfigured(
                before.gateways@,
                after.gateways@,
                gateway_id,
                platform_id,
                strategy,
            )
            &&& said@ == retuned_text(before.gateways@[c].platforms@[q].name@)
        },
        Err(why) => {
            &&& after.gateways == before.gateways
            &&& takes ==> config_refusal(before.gateways@, gateway_id, platform_id) == Some(why@)
            &&& !takes ==> why@ == "平台不存在"@
        },
    }
}

/// What comes of the wish to set the counters of a gateway to 0.
pub open spec fn is_reset_of(before: Engine, id: Seq<char>, after: Engine, r: Result<(), String>) -> bool {
    &&& after.gateways == before.gateways
    &&& match r {
        Ok(_) => {
            let k = place_of(running_ids(before.running@), id);
            &&& k < before.running@.len()
            &&& after.running@ == before.running@.update(k, after.running@[k])
            &&& is_reset(before.running@[k], after.running@[k])
        },
        Err(why) => !running_ids(before.running@).contains(id) && why@ == "网关未在运行"@ && after
            == before,
    }
}

/// What comes of the wish to see the messages of a connection.
pub open spec fn is_conn_packets(
    e: Engine,
    gateway_id: Seq<char>,
    platform_id: Seq<char>,
    conn_id: u64,
    after_seq: u64,
    r: Result<PacketPage, String>,
) -> bool {
    match located(e.running@, gateway_id, platform_id) {
        Err(why) => r matches Err(x) && x@ == why,
        Ok((g, p)) => {
            let recs = e.running@[g].platforms@[p].ctx.recorders@;
            let k = capture::recorder_place(recs, conn_id);
            if k >= recs.len() {
                r matches Err(x) && x@ == "连接不存在或未开启报文捕获"@
            } else {
                r matches Ok(page) && is_conn_page(recs[k], after_seq, page)
            }
        },
    }
}

/// What comes of the wish to see the messages of a platform.
pub open spec fn is_platform_packets(
    e: Engine,
    gateway_id: Seq<char>,
    platform_id: Seq<char>,
    after_seq: u64,
    r: Result<PacketPage, String>,
) -> bool {
    match located(e.running@, gateway_id, platform_id) {
        Err(why) => r matches Err(x) && x@ == why,
        Ok((g, p)) => r matches Ok(page) && is_platform_page(
            e.running@[g].platforms@[p].ctx.recorders@,
            after_seq,
            page,
        ),
    }
}

/// What comes of the wish to see the orders of a platform.
pub open spec fn is_orders(
    e: Engine,
    gateway_id: Seq<char>,
    platform_id: Seq<char>,
    r: Result<Vec<OrderEntry>, String>,
) -> bool {
    match located(e.running@, gateway_id, platform_id) {
        Err(why) => r matches Err(x) && x@ == why,
        Ok((g, p)) => match kept(e.running@[g].platforms@[p].ctx.orders) {
            None => r matches Err(x) && x@ == "该平台未开启缓存订单"@,
            Some(book) => r matches Ok(list) && list@ == book.reverse(),
        },
    }
}

/// What comes of the wish to send a report by hand.
pub open spec fn is_report(
    before: Engine,
    gateway_id: Seq<char>,
    platform_id: Seq<char>,
    cl_ord_id: Seq<char>,
    kind: ManualReportKind,
    qty: Option<i64>,
    price: Option<i64>,
    reason: Option<i32>,
    front_reject: bool,
    conns: Seq<u64>,
    now: LocalTime,
    after: Engine,
    r: Result<Outgoing, String>,
) -> bool {
    &&& after.gateways == before.gateways
    &&& match located(before.running@, gateway_id, platform_id) {
        Err(why) => (r matches Err(e) && e@ == why) && after == before,
        Ok((g, p)) => {
            let live = before.running@[g].platforms@[p];
            &&& only_at(before.running@, after.running@, g, p)
            &&& is_outgoing(
                live,
                cl_ord_id,
                kind,
                qty,
                price,
                reason,
                front_reject,
                conns,
                now,
                r,
            )
            &&& is_numbered(
                live,
                after.running@[g].platforms@[p],
                cl_ord_id,
                kind,
                qty,
                front_reject,
            )
        },
    }
}

/// The words of a refusal, as an error.
fn refuse(why: &str) -> (r: String)
    ensures
        r@ == why@,
{
    why.to_owned()
}

impl Engine {
    /// An engine with the gateways that were configured, none of which runs.
    pub fn new(gateways: Vec<GatewayConfig>) -> (r: Self)
        ensures
            r.gateways == gateways,
            r.running@.len() == 0,
            r.wf(),
    {
        Engine { gateways, running: Vec::new() }
    }

    /// Whether a gateway runs.
    pub fn is_running(&self, id: &str) -> (r: bool)
        ensures
            r == running_ids(self.running@).contains(id@),
    {
        proof {
            lemma_place_of(running_ids(self.running@), id@);
        }
        find_running(&self.running, id) < self.running.len()
    }

    /// Saves a gateway. One without an id is new and gets one, and so do its platforms.
    pub fn save_gateway(&mut self, gw: GatewayConfig) -> (r: Result<GatewayConfig, String>)
        ensures
            is_save(*old(self), gw, *final(self), r),
            old(self).wf() ==> final(self).wf(),
    {
        if self.is_running(gw.id.as_str()) {
            return Err(refuse("网关正在运行，请先停止后再修改"));
        }
        if text::blank(gw.name.as_str()) {
            return Err(refuse("网关名称不能为空"));
        }
        if !check_ports(&gw.platforms) {
            return Err(refuse("同一网关下平台监听端口不能重复"));
        }
        let mut saved = gw;
        if saved.id.as_str().is_empty() {
            saved.id = gen_id();
        }
        save_platforms(&mut saved.platforms);
        let k: usize = find_gateway(&self.gateways, saved.id.as_str());
        if k < self.gateways.len() {
            saved.was_running = self.gateways[k].was_running;
        }
        let copy = saved.clone();
        if k < self.gateways.len() {
            self.gateways.set(k, saved);
        } else {
            self.gateways.push(saved);
        }
        assert(self.gateways@[k as int] == saved);
        Ok(copy)
    }

    /// Removes a gateway, with the note whether it was running.
    pub fn delete_gateway(&mut self, id: &str) -> (r: Result<(), String>)
        ensures
            is_delete(*old(self), id@, *final(self), r),
            old(self).wf() ==> final(self).wf(),
    {
        if self.is_running(id) {
            return Err(refuse("网关正在运行，请先停止后再删除"));
        }
        remove_gateway(&mut self.gateways, id);
        Ok(())
    }
}

/// The gateways with another id than the given one.
pub open spec fn without(s: Seq<GatewayConfig>, id: Seq<char>) -> Seq<GatewayConfig>
    decreases s.len(),
{
    if s.len() == 0 {
        s
    } else if s[0].id@ == id {
        without(s.drop_first(), id)
    } else {
        seq![s[0]] + without(s.drop_first(), id)
    }
}

fn remove_gateway(s: &mut Vec<GatewayConfig>, id: &str)
    ensures
        final(s)@ == without(old(s)@, id@),
{
    let ghost all = s@;
    let mut i: usize = 0;
    assert(all.skip(0) =~= all);
    while i < s.len()
        invariant
            i <= s@.len(),
            s@.take(i as int) + without(s@.skip(i as int), id@) =~= without(all, id@),
        decreases s@.len() - i,
    {
        let ghost was = s@;
        if text::same_text(s[i].id.as_str(), id) {
            s.remove(i);
            proof {
                assert(was.skip(i as int).drop_first() =~= s@.skip(i as int));
                assert(s@.take(i as int) =~= was.take(i as int));
            }
        } else {
            proof {
                assert(was.skip(i as int).drop_first() =~= was.skip(i + 1));
                assert(was.take(i + 1) =~= was.take(i as int) + seq![was[i as int]]);
            }
            i += 1;
        }
    }
    assert(s@.take(i as int) =~= s@);
    assert(s@.skip(i as int) =~= Seq::<GatewayConfig>::empty());
}

/// What the connections of a platform share when it starts: nothing has happened yet, and
/// orders are kept where the platform is to keep them.
pub open spec fn is_fresh(gw: GatewayConfig, p: PlatformConfig, live: RunningPlatform) -> bool {
    let ctx = live.ctx;
    &&& live.category == gw.category
    &&& ctx.gateway_id@ == gw.id@
    &&& ctx.gateway_name@ == gw.name@
    &&& config::same_platform(ctx.cfg, p)
    &&& config::same_strategy(ctx.strategy, p.strategy)
    &&& ctx.stats.counters() == no_counts()
    &&& ctx.stats.sequences() == (Map::<i32, i64>::empty(), 0u64, 0u64)
    &&& ctx.connections@.len() == 0
    &&& ctx.recorders@.len() == 0
    &&& kept(ctx.orders) == (if p.cache_orders {
        Some(Seq::<OrderEntry>::empty())
    } else {
        None
    })
    &&& ctx.capture_seq.last == 0
    &&& ctx.wf()
}

/// Counters at 0.
pub open spec fn no_counts() -> StatsSnapshot {
    StatsSnapshot {
        orders: 0,
        acks: 0,
        trades: 0,
        order_rejects: 0,
        business_rejects: 0,
        cancels: 0,
        total_connections: 0,
    }
}

fn start_platform(gw: &GatewayConfig, p: &PlatformConfig) -> (r: RunningPlatform)
    ensures
        is_fresh(*gw, *p, r),
{
    let orders = if p.cache_orders {
        Some(OrderBook::new())
    } else {
        None
    };
    RunningPlatform {
        category: gw.category,
        ctx: SessionCtx {
            gateway_id: gw.id.clone(),
            gateway_name: gw.name.clone(),
            cfg: p.clone(),
            strategy: p.strategy.clone(),
            stats: PlatformStats::default(),
            connections: Vec::new(),
            recorders: Vec::new(),
            orders,
            capture_seq: SeqSource { last: 0 },
        },
    }
}

/// A gateway that has just been started: all its platforms run.
pub open spec fn is_started(gw: GatewayConfig, live: RunningGateway) -> bool {
    &&& live.id@ == gw.id@
    &&& live.platforms@.len() == gw.platforms@.len()
    &&& forall|i: int|
        0 <= i < gw.platforms@.len() ==> is_fresh(
            gw,
            gw.platforms@[i],
            #[trigger] live.platforms@[i],
        )
}

/// Why a gateway is not started, where `running` run.
pub open spec fn refusal_among(
    gateways: Seq<GatewayConfig>,
    running: Seq<Seq<char>>,
    id: Seq<char>,
) -> Option<Seq<char>> {
    let k = place_of(gateway_ids(gateways), id);
    if running.contains(id) {
        Some("网关已在运行"@)
    } else if k >= gateways.len() {
        Some("网关不存在"@)
    } else if gateways[k].platforms@.len() == 0 {
        Some("网关下没有配置平台，请先添加平台"@)
    } else {
        None
    }
}

/// Why a gateway is not started.
pub open spec fn start_refusal(e: Engine, id: Seq<char>) -> Option<Seq<char>> {
    refusal_among(e.gateways@, running_ids(e.running@), id)
}

/// The gateways after one was started or stopped.
pub open spec fn with_state(s: Seq<GatewayConfig>, id: Seq<char>, running: bool) -> Seq<GatewayConfig> {
    let k = place_of(gateway_ids(s), id);
    if k < s.len() {
        s.update(k, GatewayConfig { was_running: running, ..s[k] })
    } else {
        s
    }
}

/// Where a platform listens.
pub open spec fn address_of(p: PlatformConfig) -> Seq<char> {
    p.listen_host@ + ":"@ + text::dec(p.port as nat)
}

/// Where a platform listens.
pub fn listen_address(p: &PlatformConfig) -> (r: String)
    ensures
        r@ == address_of(*p),
{
    let mut out = p.listen_host.clone();
    out.push_str(":");
    text::push_dec(&mut out, p.port as u64);
    out
}

/// What the log says of a platform that listens.
pub fn listening(gateway_name: &str, p: &PlatformConfig) -> (r: Note)
    ensures
        r@ == note::info(
            "["@ + gateway_name@ + "/"@ + p.name@ + "] 开始监听 "@ + address_of(*p),
        ),
{
    let mut out = "[".to_owned();
    out.push_str(gateway_name);
    out.push_str("/");
    out.push_str(p.name.as_str());
    out.push_str("] 开始监听 ");
    out.push_str(listen_address(p).as_str());
    note::info_note(out)
}

/// What the log says of a connection that could not be taken.
pub fn accept_failed(why: &str) -> (r: Note)
    ensures
        r@ == note::error("accept 失败: "@ + why@),
{
    note::error_note(text::cat("accept 失败: ", why))
}

/// What the log says of a connection to a platform whose interface is not spoken; nothing
/// where it is.
pub fn unserved(category: GatewayCategory) -> (r: Option<Note>)
    ensures
        match r {
            Some(n) => category == GatewayCategory::Shbond && n@ == note::warn(
                "该网关分类没有会话处理器，拒绝接入"@,
            ),
            None => category != GatewayCategory::Shbond,
        },
{
    if category == GatewayCategory::Shbond {
        Some(note::warn_note("该网关分类没有会话处理器，拒绝接入".to_owned()))
    } else {
        None
    }
}

/// What the log says of a gateway that was started.
pub fn started(gateway_name: &str) -> (r: Note)
    ensures
        r@ == note::info("网关 ["@ + gateway_name@ + "] 已启动"@),
{
    let mut out = "网关 [".to_owned();
    out.push_str(gateway_name);
    out.push_str("] 已启动");
    note::info_note(out)
}

/// What the log says of a gateway that was stopped.
pub fn stopped() -> (r: Note)
    ensures
        r@ == note::info("网关已停止"@),
{
    note::info_note("网关已停止".to_owned())
}

/// What the log says of a report that was sent by hand.
pub fn sent_by_hand(platform_name: &str, desc: &str) -> (r: Note)
    ensures
        r@ == note::info("["@ + platform_name@ + "] "@ + desc@),
{
    let mut out = "[".to_owned();
    out.push_str(platform_name);
    out.push_str("] ");
    out.push_str(desc);
    note::info_note(out)
}

/// The words of the failure to listen.
pub fn listen_failure(p: &PlatformConfig, why: &str) -> (r: String)
    ensures
        r@ == "平台 ["@ + p.name@ + "] 监听 "@ + address_of(*p) + " 失败: "@ + why@,
{
    let mut out = "平台 [".to_owned();
    out.push_str(p.name.as_str());
    out.push_str("] 监听 ");
    out.push_str(listen_address(p).as_str());
    out.push_str(" 失败: ");
    out.push_str(why);
    out
}

/// The words of the refusal of a second connection.
pub open spec fn busy_text(prev: Seq<char>, peer: Seq<char>) -> Seq<char> {
    "已有柜台连接（"@ + prev + "），拒绝新连接 "@ + peer + " 接入"@
}

/// Whether a connection is refused: a platform serves one connection at a time.
pub fn refuse_connection(ctx: &SessionCtx, peer: &str) -> (r: Option<String>)
    ensures
        r is Some <==> ctx.connections@.len() > 0,
        r matches Some(why) ==> why@ == busy_text(ctx.connections@[0].peer@, peer@),
{
    if ctx.connections.len() == 0 {
        return None;
    }
    let mut out = "已有柜台连接（".to_owned();
    out.push_str(ctx.connections[0].peer.as_str());
    out.push_str("），拒绝新连接 ");
    out.push_str(peer);
    out.push_str(" 接入");
    Some(out)
}

impl Engine {
    /// The gateway that is to be started, with the platforms that are to listen, or why it
    /// is not started.
    pub fn check_start(&self, id: &str) -> (r: Result<GatewayConfig, String>)
        ensures
            match r {
                Ok(gw) => start_refusal(*self, id@) is None && config::same_gateway(
                    gw,
                    self.gateways@[place_of(gateway_ids(self.gateways@), id@)],
                ),
                Err(why) => start_refusal(*self, id@) == Some(why@),
            },
    {
        if let Some(why) = self.refusal(id) {
            return Err(why);
        }
        let k: usize = find_gateway(&self.gateways, id);
        Ok(self.gateways[k].clone())
    }

    /// Why a gateway is not started; nothing where it can be.
    pub fn refusal(&self, id: &str) -> (r: Option<String>)
        ensures
            match r {
                Some(why) => start_refusal(*self, id@) == Some(why@),
                None => start_refusal(*self, id@) is None,
            },
    {
        if self.is_running(id) {
            return Some(refuse("网关已在运行"));
        }
        let k: usize = find_gateway(&self.gateways, id);
        if k >= self.gateways.len() {
            return Some(refuse("网关不存在"));
        }
        if self.gateways[k].platforms.len() == 0 {
            return Some(refuse("网关下没有配置平台，请先添加平台"));
        }
        None
    }

    fn set_gateway_state(&mut self, id: &str, running: bool)
        ensures
            final(self).running == old(self).running,
            final(self).gateways@ == with_state(old(self).gateways@, id@, running),
    {
        let k: usize = find_gateway(&self.gateways, id);
        if k < self.gateways.len() {
            self.gateways[k].was_running = running;
        }
    }

    /// Starts a gateway, once its platforms listen, or says why it is not started.
    pub fn start_gateway(&mut self, id: &str) -> (r: Result<(), String>)
        ensures
            is_start(*old(self), id@, *final(self), r),
            old(self).wf() ==> final(self).wf(),
    {
        if let Some(why) = self.refusal(id) {
            return Err(why);
        }
        let k: usize = find_gateway(&self.gateways, id);
        let live = start_all(&self.gateways[k]);
        let ghost before = self.running@;
        self.running.push(live);
        proof {
            assert(self.running@.drop_last() =~= before);
            assert(gateway_wf(live)) by {
                assert forall|j: int| 0 <= j < live.platforms@.len() implies platform_wf(
                    #[trigger] live.platforms@[j],
                ) by {
                    assert(is_fresh(
                        self.gateways@[k as int],
                        self.gateways@[k as int].platforms@[j],
                        live.platforms@[j],
                    ));
                }
            }
        }
        self.set_gateway_state(id, true);
        Ok(())
    }

    /// Stops a gateway.
    pub fn stop_gateway(&mut self, id: &str) -> (r: Result<(), String>)
        ensures
            is_stop(*old(self), id@, *final(self), r),
            old(self).wf() ==> final(self).wf(),
    {
        let k: usize = find_running(&self.running, id);
        if k >= self.running.len() {
            proof {
                lemma_place_of(running_ids(self.running@), id@);
            }
            return Err(refuse("网关未在运行"));
        }
        self.running.remove(k);
        self.set_gateway_state(id, false);
        Ok(())
    }

    /// The gateways that were running when the program ended.
    pub fn previously_running(&self) -> (r: Vec<String>)
        ensures
            r@.map_values(|s: String| s@) == marked(self.gateways@),
    {
        let mut out: Vec<String> = Vec::new();
        let mut i: usize = 0;
        assert(self.gateways@.take(0) =~= Seq::<GatewayConfig>::empty());
        assert(out@.map_values(|s: String| s@) =~= Seq::<Seq<char>>::empty());
        while i < self.gateways.len()
            invariant
                i <= self.gateways@.len(),
                out@.map_values(|s: String| s@) =~= marked(self.gateways@.take(i as int)),
            decreases self.gateways@.len() - i,
        {
            proof {
                let t = self.gateways@.take(i + 1);
                assert(t.drop_last() =~= self.gateways@.take(i as int));
                assert(t.last() == self.gateways@[i as int]);
            }
            if self.gateways[i].was_running {
                let ghost was = out@;
                let id = self.gateways[i].id.clone();
                out.push(id);
                assert(out@.map_values(|s: String| s@) =~= was.map_values(|s: String| s@).push(
                    id@,
                ));
            }
            i += 1;
        }
        assert(self.gateways@.take(i as int) =~= self.gateways@);
        out
    }
}

/// The ids of the gateways that were running.
pub open spec fn marked(s: Seq<GatewayConfig>) -> Seq<Seq<char>>
    decreases s.len(),
{
    if s.len() == 0 {
        Seq::empty()
    } else if s.last().was_running {
        marked(s.drop_last()).push(s.last().id@)
    } else {
        marked(s.drop_last())
    }
}

fn start_all(gw: &GatewayConfig) -> (r: RunningGateway)
    ensures
        is_started(*gw, r),
{
    let mut platforms: Vec<RunningPlatform> = Vec::new();
    let mut i: usize = 0;
    while i < gw.platforms.len()
        invariant
            i <= gw.platforms@.len(),
            platforms@.len() == i,
            forall|k: int|
                0 <= k < i ==> is_fresh(*gw, gw.platforms@[k], #[trigger] platforms@[k]),
        decreases gw.platforms@.len() - i,
    {
        platforms.push(start_platform(gw, &gw.platforms[i]));
        i += 1;
    }
    RunningGateway { id: gw.id.clone(), platforms }
}

/// What of a platform must hold at all times.
pub open spec fn platform_wf(p: RunningPlatform) -> bool {
    capture::all_wf(p.ctx.recorders@) && orders_wf(p.ctx.orders)
}

/// What of a gateway that runs must hold at all times.
pub open spec fn gateway_wf(g: RunningGateway) -> bool {
    forall|j: int| 0 <= j < g.platforms@.len() ==> platform_wf(#[trigger] g.platforms@[j])
}

/// Where the platform with the given id runs, or why it is not found.
pub open spec fn located(running: Seq<RunningGateway>, gateway_id: Seq<char>, platform_id: Seq<char>) -> Result<
    (int, int),
    Seq<char>,
> {
    let g = place_of(running_ids(running), gateway_id);
    let p = place_of(live_ids(running[g].platforms@), platform_id);
    if g >= running.len() {
        Err("网关未在运行"@)
    } else if p >= running[g].platforms@.len() {
        Err("平台不存在"@)
    } else {
        Ok((g, p))
    }
}

/// Nothing but one platform has changed, and of it neither interface nor gateway.
pub open spec fn only_at(
    before: Seq<RunningGateway>,
    after: Seq<RunningGateway>,
    g: int,
    p: int,
) -> bool {
    &&& after.len() == before.len()
    &&& forall|i: int| 0 <= i < before.len() && i != g ==> #[trigger] after[i] == before[i]
    &&& after[g].id == before[g].id
    &&& after[g].platforms@.len() == before[g].platforms@.len()
    &&& forall|j: int|
        0 <= j < before[g].platforms@.len() && j != p ==> #[trigger] after[g].platforms@[j]
            == before[g].platforms@[j]
    &&& after[g].platforms@[p].category == before[g].platforms@[p].category
}

/// The strategy of one platform was replaced.
pub open spec fn is_retuned(
    before: Seq<RunningGateway>,
    after: Seq<RunningGateway>,
    g: int,
    p: int,
    st: StrategyConfig,
) -> bool {
    let was = before[g].platforms@[p].ctx;
    let now = after[g].platforms@[p].ctx;
    &&& only_at(before, after, g, p)
    &&& now == (SessionCtx { strategy: now.strategy, ..was })
    &&& config::same_strategy(now.strategy, st)
}

/// Whether the running gateway takes a new strategy: it has the platform, or does not run.
pub open spec fn takes_strategy(
    running: Seq<RunningGateway>,
    gateway_id: Seq<char>,
    platform_id: Seq<char>,
) -> bool {
    let g = place_of(running_ids(running), gateway_id);
    g < running.len() ==> place_of(live_ids(running[g].platforms@), platform_id)
        < running[g].platforms@.len()
}

/// Why a new strategy is not kept in the configuration.
pub open spec fn config_refusal(
    gateways: Seq<GatewayConfig>,
    gateway_id: Seq<char>,
    platform_id: Seq<char>,
) -> Option<Seq<char>> {
    let g = place_of(gateway_ids(gateways), gateway_id);
    if g >= gateways.len() {
        Some("网关不存在"@)
    } else if place_of(platform_ids(gateways[g].platforms@), platform_id)
        >= gateways[g].platforms@.len() {
        Some("平台不存在"@)
    } else {
        None
    }
}

/// The configuration with a new strategy of one platform.
pub open spec fn is_reconfigured(
    before: Seq<GatewayConfig>,
    after: Seq<GatewayConfig>,
    gateway_id: Seq<char>,
    platform_id: Seq<char>,
    st: StrategyConfig,
) -> bool {
    let g = place_of(gateway_ids(before), gateway_id);
    let p = place_of(platform_ids(before[g].platforms@), platform_id);
    &&& after.len() == before.len()
    &&& forall|i: int| 0 <= i < before.len() && i != g ==> #[trigger] after[i] == before[i]
    &&& after[g] == (GatewayConfig { platforms: after[g].platforms, ..before[g] })
    &&& after[g].platforms@ == before[g].platforms@.update(
        p,
        PlatformConfig { strategy: st, ..before[g].platforms@[p] },
    )
}

/// What the log says of a new strategy.
pub open spec fn retuned_text(platform: Seq<char>) -> Seq<char> {
    "平台 ["@ + platform + "] 的模拟回报策略已热更新（运行中实时生效）"@
}

impl Engine {
    /// What must hold at all times of all that runs.
    pub open spec fn wf(&self) -> bool {
        forall|i: int| 0 <= i < self.running@.len() ==> gateway_wf(#[trigger] self.running@[i])
    }

    /// Where a platform runs.
    pub fn locate(&self, gateway_id: &str, platform_id: &str) -> (r: Result<(usize, usize), String>)
        ensures
            match r {
                Ok((g, p)) => {
                    &&& located(self.running@, gateway_id@, platform_id@) == Ok::<
                        (int, int),
                        Seq<char>,
                    >((g as int, p as int))
                    &&& g < self.running@.len()
                    &&& p < self.running@[g as int].platforms@.len()
                },
                Err(why) => located(self.running@, gateway_id@, platform_id@) == Err::<
                    (int, int),
                    Seq<char>,
                >(why@),
            },
    {
        let g: usize = find_running(&self.running, gateway_id);
        if g >= self.running.len() {
            return Err(refuse("网关未在运行"));
        }
        let p: usize = find_live(&self.running[g].platforms, platform_id);
        if p >= self.running[g].platforms.len() {
            return Err(refuse("平台不存在"));
        }
        Ok((g, p))
    }

    /// Replaces the strategy of a platform: where it runs, for the orders to come, and in
    /// the configuration. Says what the log says.
    pub fn update_strategy(&mut self, gateway_id: &str, platform_id: &str, strategy: StrategyConfig) -> (r:
        Result<String, String>)
        ensures
            is_update(*old(self), gateway_id@, platform_id@, strategy, *final(self), r),
            old(self).wf() ==> final(self).wf(),
    {
        let g: usize = find_running(&self.running, gateway_id);
        if g < self.running.len() {
            let p: usize = find_live(&self.running[g].platforms, platform_id);
            if p >= self.running[g].platforms.len() {
                return Err(refuse("平台不存在"));
            }
            self.running[g].platforms[p].ctx.strategy = strategy.clone();
            proof {
                if old(self).wf() {
                    assert(gateway_wf(old(self).running@[g as int]));
                    assert(platform_wf(old(self).running@[g as int].platforms@[p as int]));
                    lemma_frame_wf(old(self).running@, self.running@, g as int, p as int);
                }
            }
        }
        let c: usize = find_gateway(&self.gateways, gateway_id);
        if c >= self.gateways.len() {
            return Err(refuse("网关不存在"));
        }
        let q: usize = find_platform(&self.gateways[c].platforms, platform_id);
        if q >= self.gateways[c].platforms.len() {
            return Err(refuse("平台不存在"));
        }
        self.gateways[c].platforms[q].strategy = strategy;
        let mut said = "平台 [".to_owned();
        said.push_str(self.gateways[c].platforms[q].name.as_str());
        said.push_str("] 的模拟回报策略已热更新（运行中实时生效）");
        Ok(said)
    }

    /// The name of a gateway.
    pub fn gateway_name(&self, id: &str) -> (r: Option<String>)
        ensures
            match r {
                Some(name) => gateway_ids(self.gateways@).contains(id@) && name@
                    == self.gateways@[place_of(gateway_ids(self.gateways@), id@)].name@,
                None => !gateway_ids(self.gateways@).contains(id@),
            },
    {
        let k: usize = find_gateway(&self.gateways, id);
        proof {
            lemma_place_of(gateway_ids(self.gateways@), id@);
        }
        if k < self.gateways.len() {
            Some(self.gateways[k].name.clone())
        } else {
            None
        }
    }

    /// The names of a gateway and of one of its platforms.
    pub fn platform_name(&self, gateway_id: &str, platform_id: &str) -> (r: Option<(String, String)>)
        ensures
            ({
                let g = place_of(gateway_ids(self.gateways@), gateway_id@);
                let p = place_of(platform_ids(self.gateways@[g].platforms@), platform_id@);
                match r {
                    Some((gw, plat)) => {
                        &&& config_refusal(self.gateways@, gateway_id@, platform_id@) is None
                        &&& gw@ == self.gateways@[g].name@
                        &&& plat@ == self.gateways@[g].platforms@[p].name@
                    },
                    None => config_refusal(self.gateways@, gateway_id@, platform_id@) is Some,
                }
            }),
    {
        let g: usize = find_gateway(&self.gateways, gateway_id);
        if g >= self.gateways.len() {
            return None;
        }
        let p: usize = find_platform(&self.gateways[g].platforms, platform_id);
        if p >= self.gateways[g].platforms.len() {
            return None;
        }
        Some((self.gateways[g].name.clone(), self.gateways[g].platforms[p].name.clone()))
    }
}

proof fn lemma_frame_wf(before: Seq<RunningGateway>, after: Seq<RunningGateway>, g: int, p: int)
    requires
        0 <= g < before.len(),
        0 <= p < before[g].platforms@.len(),
        only_at(before, after, g, p),
        forall|i: int| 0 <= i < before.len() ==> gateway_wf(#[trigger] before[i]),
        platform_wf(after[g].platforms@[p]),
    ensures
        forall|i: int| 0 <= i < after.len() ==> gateway_wf(#[trigger] after[i]),
{
    assert forall|i: int| 0 <= i < after.len() implies gateway_wf(#[trigger] after[i]) by {
        assert(gateway_wf(before[i]));
        if i == g {
            assert forall|j: int| 0 <= j < after[g].platforms@.len() implies platform_wf(
                #[trigger] after[g].platforms@[j],
            ) by {
                assert(platform_wf(before[g].platforms@[j]));
                if j != p {
                    assert(after[g].platforms@[j] == before[g].platforms@[j]);
                }
            }
        } else {
            assert(after[i] == before[i]);
        }
    }
}

/// The counters of all platforms of a gateway were set to 0; numbers that were handed out
/// do not come again.
pub open spec fn is_reset(before: RunningGateway, after: RunningGateway) -> bool {
    &&& after.id == before.id
    &&& after.platforms@.len() == before.platforms@.len()
    &&& forall|j: int|
        0 <= j < before.platforms@.len() ==> is_reset_platform(
            before.platforms@[j],
            #[trigger] after.platforms@[j],
        )
}

/// The counters of a platform were set to 0.
pub open spec fn is_reset_platform(before: RunningPlatform, after: RunningPlatform) -> bool {
    &&& after.category == before.category
    &&& after.ctx == (SessionCtx { stats: after.ctx.stats, ..before.ctx })
    &&& after.ctx.stats.counters() == no_counts()
    &&& after.ctx.stats.sequences() == before.ctx.stats.sequences()
}

fn reset_all(platforms: &mut Vec<RunningPlatform>)
    ensures
        final(platforms)@.len() == old(platforms)@.len(),
        forall|j: int|
            0 <= j < old(platforms)@.len() ==> is_reset_platform(
                old(platforms)@[j],
                #[trigger] final(platforms)@[j],
            ),
{
    let ghost before = platforms@;
    let n: usize = platforms.len();
    let mut i: usize = 0;
    while i < n
        invariant
            n == before.len(),
            platforms@.len() == n,
            i <= n,
            forall|k: int|
                0 <= k < i ==> is_reset_platform(before[k], #[trigger] platforms@[k]),
            forall|k: int| i <= k < n ==> #[trigger] platforms@[k] == before[k],
        decreases n - i,
    {
        platforms[i].ctx.stats.reset();
        i += 1;
    }
}

/// The values of what identifies a connection.
pub struct ConnBriefView {
    pub conn_id: u64,
    pub peer: Seq<char>,
    pub since: Seq<char>,
    pub alive: bool,
}

/// What identifies a connection.
pub open spec fn brief_of(b: ConnBrief) -> ConnBriefView {
    ConnBriefView { conn_id: b.conn_id, peer: b.peer@, since: b.since@, alive: b.alive }
}

/// What identifies the connection of a capture.
pub open spec fn brief_in(r: ConnRecorder) -> ConnBriefView {
    ConnBriefView { conn_id: r.id(), peer: r.about().0, since: r.about().1, alive: r.about().2 }
}

/// What identifies connections.
pub open spec fn briefs(s: Seq<ConnBrief>) -> Seq<ConnBriefView> {
    s.map_values(|b: ConnBrief| brief_of(b))
}

/// The number of the newest message of a capture; 0 where there is none.
pub open spec fn newest_of(r: ConnRecorder) -> u64 {
    if r.packets().len() == 0 {
        0
    } else {
        r.packets().last().seq
    }
}

/// The messages of a connection with a number greater than `after_seq`.
pub open spec fn is_conn_page(rec: ConnRecorder, after_seq: u64, page: PacketPage) -> bool {
    &&& capture::packet_views(page.packets@) == capture::newer(rec.packets(), after_seq)
    &&& page.latest_seq == newest_of(rec)
    &&& page.persist == rec.persists()
    &&& briefs(page.conns@) == seq![brief_in(rec)]
}

/// The messages of several connections with a number greater than `after_seq`.
pub open spec fn all_newer(s: Seq<ConnRecorder>, after_seq: u64) -> Seq<PacketRecordView>
    decreases s.len(),
{
    if s.len() == 0 {
        Seq::empty()
    } else {
        all_newer(s.drop_last(), after_seq) + capture::newer(s.last().packets(), after_seq)
    }
}

/// The number of the newest message of several captures.
pub open spec fn newest(s: Seq<ConnRecorder>) -> u64
    decreases s.len(),
{
    if s.len() == 0 {
        0
    } else if newest_of(s.last()) > newest(s.drop_last()) {
        newest_of(s.last())
    } else {
        newest(s.drop_last())
    }
}

/// Messages in the order of their numbers.
pub open spec fn in_order(s: Seq<PacketRecordView>) -> bool {
    forall|i: int, j: int| 0 <= i < j < s.len() ==> (#[trigger] s[i]).seq <= (#[trigger] s[j]).seq
}

/// Connections in the order of their numbers.
pub open spec fn briefs_in_order(s: Seq<ConnBriefView>) -> bool {
    forall|i: int, j: int|
        0 <= i < j < s.len() ==> (#[trigger] s[i]).conn_id <= (#[trigger] s[j]).conn_id
}

/// The messages of a platform with a number greater than `after_seq`: those of all its
/// connections, each once, in the order of their numbers; and its connections, in the order
/// of theirs.
pub open spec fn is_platform_page(recs: Seq<ConnRecorder>, after_seq: u64, page: PacketPage) -> bool {
    &&& in_order(capture::packet_views(page.packets@))
    &&& capture::packet_views(page.packets@).to_multiset() == all_newer(
        recs,
        after_seq,
    ).to_multiset()
    &&& page.latest_seq == newest(recs)
    &&& page.persist == exists|i: int| 0 <= i < recs.len() && (#[trigger] recs[i]).persists()
    &&& briefs_in_order(briefs(page.conns@))
    &&& briefs(page.conns@).to_multiset() == recs.map_values(
        |r: ConnRecorder| brief_in(r),
    ).to_multiset()
}

proof fn lemma_insert_multiset<A>(s: Seq<A>, i: int, a: A)
    requires
        0 <= i <= s.len(),
    ensures
        s.insert(i, a).to_multiset() == s.to_multiset().insert(a),
{
    let t = s.insert(i, a);
    assert(t.remove(i) =~= s);
    to_multiset_remove(t, i);
    t.to_multiset_ensures();
    assert(t[i] == a);
    assert(t.contains(a));
    assert(t.to_multiset().count(a) > 0);
    assert(t.to_multiset() =~= s.to_multiset().insert(a));
}

fn insert_packet(out: &mut Vec<PacketRecord>, rec: PacketRecord)
    requires
        in_order(capture::packet_views(old(out)@)),
    ensures
        in_order(capture::packet_views(final(out)@)),
        capture::packet_views(final(out)@).to_multiset() == capture::packet_views(
            old(out)@,
        ).to_multiset().insert(rec@),
{
    let ghost views = capture::packet_views(out@);
    let mut i: usize = out.len();
    while i > 0 && out[i - 1].seq > rec.seq
        invariant
            i <= out@.len(),
            views == capture::packet_views(out@),
            forall|k: int| i <= k < out@.len() ==> (#[trigger] views[k]).seq > rec.seq,
        decreases i,
    {
        i -= 1;
        assert(views[i as int].seq > rec.seq);
    }
    proof {
        lemma_insert_multiset(views, i as int, rec@);
        if i > 0 {
            assert(views[i - 1].seq <= rec.seq);
        }
    }
    out.insert(i, rec);
    proof {
        let t = views.insert(i as int, rec@);
        assert(capture::packet_views(out@) =~= t);
        assert forall|a: int, b: int| 0 <= a < b < t.len() implies (#[trigger] t[a]).seq <= (
        #[trigger] t[b]).seq by {
            let x = if a < i { a } else { a - 1 };
            let y = if b < i { b } else { b - 1 };
            if a != i && b != i {
                assert(t[a] == views[x] && t[b] == views[y]);
            } else if a == i {
                assert(t[b] == views[b - 1]);
            } else {
                assert(t[a] == views[a]);
                assert(views[a].seq <= views[i - 1].seq);
            }
        }
    }
}

fn insert_packets(out: &mut Vec<PacketRecord>, more: Vec<PacketRecord>)
    requires
        in_order(capture::packet_views(old(out)@)),
    ensures
        in_order(capture::packet_views(final(out)@)),
        capture::packet_views(final(out)@).to_multiset() == (capture::packet_views(old(out)@)
            + capture::packet_views(more@)).to_multiset(),
{
    let ghost had = capture::packet_views(out@);
    let ghost add = capture::packet_views(more@);
    let mut i: usize = 0;
    assert(had + add.take(0) =~= had);
    while i < more.len()
        invariant
            i <= more@.len(),
            add == capture::packet_views(more@),
            in_order(capture::packet_views(out@)),
            capture::packet_views(out@).to_multiset() == (had + add.take(i as int)).to_multiset(),
        decreases more@.len() - i,
    {
        insert_packet(out, more[i].clone());
        proof {
            let t = had + add.take(i as int);
            assert(had + add.take(i + 1) =~= t.push(add[i as int]));
            to_multiset_build(t, add[i as int]);
        }
        i += 1;
    }
    assert(add.take(i as int) =~= add);
}

fn insert_brief(out: &mut Vec<ConnBrief>, b: ConnBrief)
    requires
        briefs_in_order(briefs(old(out)@)),
    ensures
        briefs_in_order(briefs(final(out)@)),
        briefs(final(out)@).to_multiset() == briefs(old(out)@).to_multiset().insert(brief_of(b)),
{
    let ghost views = briefs(out@);
    let mut i: usize = out.len();
    while i > 0 && out[i - 1].conn_id > b.conn_id
        invariant
            i <= out@.len(),
            views == briefs(out@),
            forall|k: int| i <= k < out@.len() ==> (#[trigger] views[k]).conn_id > b.conn_id,
        decreases i,
    {
        i -= 1;
        assert(views[i as int].conn_id > b.conn_id);
    }
    proof {
        lemma_insert_multiset(views, i as int, brief_of(b));
        if i > 0 {
            assert(views[i - 1].conn_id <= b.conn_id);
        }
    }
    out.insert(i, b);
    proof {
        let t = views.insert(i as int, brief_of(b));
        assert(briefs(out@) =~= t);
        assert forall|x: int, y: int| 0 <= x < y < t.len() implies (#[trigger] t[x]).conn_id <= (
        #[trigger] t[y]).conn_id by {
            let u = if x < i { x } else { x - 1 };
            let v = if y < i { y } else { y - 1 };
            if x != i && y != i {
                assert(t[x] == views[u] && t[y] == views[v]);
            } else if x == i {
                assert(t[y] == views[y - 1]);
            } else {
                assert(t[x] == views[x]);
                assert(views[x].conn_id <= views[i - 1].conn_id);
            }
        }
    }
}

/// The messages of a platform.
pub fn merge_pages(recs: &Vec<ConnRecorder>, after_seq: u64) -> (page: PacketPage)
    ensures
        is_platform_page(recs@, after_seq, page),
{
    let mut packets: Vec<PacketRecord> = Vec::new();
    let mut conns: Vec<ConnBrief> = Vec::new();
    let mut latest_seq: u64 = 0;
    let mut persist = false;
    let ghost ids = recs@.map_values(|r: ConnRecorder| brief_in(r));
    let mut i: usize = 0;
    proof {
        assert(recs@.take(0) =~= Seq::<ConnRecorder>::empty());
        assert(capture::packet_views(packets@) =~= Seq::<PacketRecordView>::empty());
        assert(briefs(conns@) =~= ids.take(0));
    }
    while i < recs.len()
        invariant
            i <= recs@.len(),
            ids == recs@.map_values(|r: ConnRecorder| brief_in(r)),
            in_order(capture::packet_views(packets@)),
            capture::packet_views(packets@).to_multiset() == all_newer(
                recs@.take(i as int),
                after_seq,
            ).to_multiset(),
            latest_seq == newest(recs@.take(i as int)),
            persist == exists|k: int| 0 <= k < i && (#[trigger] recs@[k]).persists(),
            briefs_in_order(briefs(conns@)),
            briefs(conns@).to_multiset() == ids.take(i as int).to_multiset(),
        decreases recs@.len() - i,
    {
        let page = recs[i].page(after_seq);
        let ghost had = capture::packet_views(packets@);
        let ghost before = all_newer(recs@.take(i as int), after_seq);
        let ghost add = capture::packet_views(page.packets@);
        proof {
            let t = recs@.take(i + 1);
            assert(t.drop_last() =~= recs@.take(i as int));
            assert(t.last() == recs@[i as int]);
        }
        insert_packets(&mut packets, page.packets);
        proof {
            lemma_multiset_commutative(had, add);
            lemma_multiset_commutative(before, add);
        }
        if page.latest_seq > latest_seq {
            latest_seq = page.latest_seq;
        }
        if page.persist {
            persist = true;
            assert(recs@[i as int].persists());
        }
        let b = recs[i].brief();
        assert(brief_of(b) == ids[i as int]);
        insert_brief(&mut conns, b);
        proof {
            assert(ids.take(i + 1) =~= ids.take(i as int).push(ids[i as int]));
            to_multiset_build(ids.take(i as int), ids[i as int]);
        }
        i += 1;
    }
    assert(recs@.take(i as int) =~= recs@);
    assert(ids.take(i as int) =~= ids);
    PacketPage { packets, latest_seq, persist, conns }
}

impl Engine {
    /// Sets the counters of a gateway that runs to 0.
    pub fn reset_stats(&mut self, id: &str) -> (r: Result<(), String>)
        ensures
            is_reset_of(*old(self), id@, *final(self), r),
            old(self).wf() ==> final(self).wf(),
    {
        let k: usize = find_running(&self.running, id);
        if k >= self.running.len() {
            proof {
                lemma_place_of(running_ids(self.running@), id@);
            }
            return Err(refuse("网关未在运行"));
        }
        reset_all(&mut self.running[k].platforms);
        proof {
            assert(self.running@ =~= old(self).running@.update(k as int, self.running@[k as int]));
            if old(self).wf() {
                assert forall|i: int| 0 <= i < self.running@.len() implies gateway_wf(
                    #[trigger] self.running@[i],
                ) by {
                    assert(gateway_wf(old(self).running@[i]));
                    if i == k {
                        let now = self.running@[i].platforms@;
                        let was = old(self).running@[i].platforms@;
                        assert forall|j: int| 0 <= j < now.len() implies platform_wf(
                            #[trigger] now[j],
                        ) by {
                            assert(platform_wf(was[j]));
                            assert(is_reset_platform(was[j], now[j]));
                        }
                    }
                }
            }
        }
        Ok(())
    }

    /// The messages of a connection with a number greater than `after_seq`.
    pub fn conn_packets(&self, gateway_id: &str, platform_id: &str, conn_id: u64, after_seq: u64) -> (r:
        Result<PacketPage, String>)
        ensures
            is_conn_packets(*self, gateway_id@, platform_id@, conn_id, after_seq, r),
    {
        let (g, p) = match self.locate(gateway_id, platform_id) {
            Ok(at) => at,
            Err(why) => {
                return Err(why);
            },
        };
        let recs = &self.running[g].platforms[p].ctx.recorders;
        let k: usize = capture::find_recorder(recs, conn_id);
        if k >= recs.len() {
            return Err(refuse("连接不存在或未开启报文捕获"));
        }
        let mut page = recs[k].page(after_seq);
        page.conns.push(recs[k].brief());
        assert(briefs(page.conns@) =~= seq![brief_in(recs@[k as int])]);
        Ok(page)
    }

    /// The messages of a platform with a number greater than `after_seq`.
    pub fn platform_packets(&self, gateway_id: &str, platform_id: &str, after_seq: u64) -> (r: Result<
        PacketPage,
        String,
    >)
        ensures
            is_platform_packets(*self, gateway_id@, platform_id@, after_seq, r),
    {
        match self.locate(gateway_id, platform_id) {
            Ok((g, p)) => Ok(merge_pages(&self.running[g].platforms[p].ctx.recorders, after_seq)),
            Err(why) => Err(why),
        }
    }

    /// The orders of a platform, the newest first.
    pub fn orders(&self, gateway_id: &str, platform_id: &str) -> (r: Result<Vec<OrderEntry>, String>)
        ensures
            is_orders(*self, gateway_id@, platform_id@, r),
    {
        match self.locate(gateway_id, platform_id) {
            Ok((g, p)) => match &self.running[g].platforms[p].ctx.orders {
                Some(book) => Ok(book.all()),
                None => Err(refuse("该平台未开启缓存订单")),
            },
            Err(why) => Err(why),
        }
    }
}

/// Whether reports can be built by hand: the interface of the platform is known here, and it
/// has numbers left.
pub open spec fn reportable(e: Engine, gateway_id: Seq<char>, platform_id: Seq<char>) -> bool {
    match located(e.running@, gateway_id, platform_id) {
        Err(_) => true,
        Ok((g, p)) => {
            let live = e.running@[g].platforms@[p];
            &&& live.category != GatewayCategory::Shbond
            &&& stats::ids_left(live.ctx.stats)
        },
    }
}

/// Why no report is built: the order is not there or has ended, or nothing is to be filled.
pub open spec fn order_refusal(
    orders: Option<Seq<OrderEntry>>,
    cl_ord_id: Seq<char>,
    kind: ManualReportKind,
    qty: Option<i64>,
) -> Option<Seq<char>> {
    match orders {
        None => Some("该平台未开启缓存订单"@),
        Some(book) => match orderbook::lookup(book, cl_ord_id) {
            None => Some("订单不存在"@),
            Some(o) => if !o.status.inflight() {
                Some("订单 ["@ + cl_ord_id + "] 已是终态，不能再手动回复"@)
            } else if kind == ManualReportKind::Trade && (qty matches Some(q) && q <= 0) {
                Some("成交数量必须大于 0"@)
            } else {
                None
            },
        },
    }
}

/// The report on an order in the interface of the platform.
pub open spec fn report_of(
    live: RunningPlatform,
    o: OrderEntry,
    kind: ManualReportKind,
    qty: Option<i64>,
    price: Option<i64>,
    reason: Option<i32>,
    front_reject: bool,
    now: LocalTime,
) -> Result<manual::ManualReportView, Seq<char>> {
    if live.category == GatewayCategory::Sz {
        sz::manual::manual_report(
            live.ctx.cfg,
            live.ctx.stats.order_seq as int,
            live.ctx.stats.exec_seq as int,
            o,
            kind,
            qty,
            price,
            reason,
            front_reject,
            clock::timestamp_of(now) as i64,
        )
    } else {
        shjj::manual::manual_report(
            live.ctx.cfg,
            live.ctx.stats.order_seq as int,
            live.ctx.stats.exec_seq as int,
            o,
            kind,
            qty,
            price,
            reason,
            front_reject,
            clock::date_of(now) as u32,
            clock::ntime_of(now) as u64,
        )
    }
}

/// How many order and execution numbers the report takes.
pub open spec fn numbers_taken(
    live: RunningPlatform,
    o: OrderEntry,
    kind: ManualReportKind,
    front_reject: bool,
) -> (int, int) {
    if live.category == GatewayCategory::Sz {
        let takes = sz::manual::takes_exec_id(o, kind, front_reject);
        (
            if takes && o.order_id@.len() == 0 {
                1
            } else {
                0
            },
            if takes {
                1
            } else {
                0
            },
        )
    } else {
        (
            shjj::manual::order_ids_taken(o, kind, front_reject),
            shjj::manual::exec_ids_taken(o, kind),
        )
    }
}

/// The greatest of the numbers.
pub open spec fn is_greatest(ids: Seq<u64>, id: u64) -> bool {
    ids.contains(id) && forall|i: int| 0 <= i < ids.len() ==> #[trigger] ids[i] <= id
}

/// The connection that came last: reports that are sent by hand go out on it.
pub fn last_connection(ids: &Vec<u64>) -> (r: Option<u64>)
    ensures
        match r {
            Some(id) => is_greatest(ids@, id),
            None => ids@.len() == 0,
        },
{
    if ids.len() == 0 {
        return None;
    }
    let mut best: u64 = ids[0];
    let mut i: usize = 1;
    while i < ids.len()
        invariant
            1 <= i <= ids@.len(),
            ids@.contains(best),
            forall|k: int| 0 <= k < i ==> #[trigger] ids@[k] <= best,
        decreases ids@.len() - i,
    {
        if ids[i] > best {
            best = ids[i];
        }
        i += 1;
    }
    Some(best)
}

/// A report that is to be sent on a connection.
pub struct Outgoing {
    pub conn_id: u64,
    pub report: ManualReport,
}

/// What comes of the wish to send a report by hand, with the connections that can send.
pub open spec fn is_outgoing(
    live: RunningPlatform,
    cl_ord_id: Seq<char>,
    kind: ManualReportKind,
    qty: Option<i64>,
    price: Option<i64>,
    reason: Option<i32>,
    front_reject: bool,
    conns: Seq<u64>,
    now: LocalTime,
    r: Result<Outgoing, String>,
) -> bool {
    let orders = kept(live.ctx.orders);
    match order_refusal(orders, cl_ord_id, kind, qty) {
        Some(why) => r matches Err(e) && e@ == why,
        None => {
            let o = orderbook::lookup(orders->0, cl_ord_id)->0;
            match report_of(live, o, kind, qty, price, reason, front_reject, now) {
                Err(why) => r matches Err(e) && e@ == why,
                Ok(m) => if conns.len() == 0 {
                    r matches Err(e) && e@ == "当前无活动连接，无法发送回报"@
                } else {
                    r matches Ok(out) && out.report@ == m && is_greatest(conns, out.conn_id)
                },
            }
        },
    }
}

/// The numbers of a platform after the wish to send a report by hand.
pub open spec fn is_numbered(
    live: RunningPlatform,
    after: RunningPlatform,
    cl_ord_id: Seq<char>,
    kind: ManualReportKind,
    qty: Option<i64>,
    front_reject: bool,
) -> bool {
    let orders = kept(live.ctx.orders);
    let taken = if order_refusal(orders, cl_ord_id, kind, qty) is Some {
        (0int, 0int)
    } else {
        numbers_taken(live, orderbook::lookup(orders->0, cl_ord_id)->0, kind, front_reject)
    };
    &&& after.ctx == (SessionCtx { stats: after.ctx.stats, ..live.ctx })
    &&& after.ctx.stats.counters() == live.ctx.stats.counters()
    &&& after.ctx.stats.order_seq == live.ctx.stats.order_seq + taken.0
    &&& after.ctx.stats.exec_seq == live.ctx.stats.exec_seq + taken.1
    &&& after.ctx.stats.partition_report_index@ == live.ctx.stats.partition_report_index@
}

/// Builds the report on an order in the interface of the platform.
fn build_report(
    live: &mut RunningPlatform,
    entry: &OrderEntry,
    kind: ManualReportKind,
    qty: Option<i64>,
    price: Option<i64>,
    reason: Option<i32>,
    front_reject: bool,
    now: &LocalTime,
) -> (r: Result<ManualReport, String>)
    requires
        now.wf(),
        old(live).category != GatewayCategory::Shbond,
        stats::ids_left(old(live).ctx.stats),
    ensures
        manual::outcome(r) == report_of(
            *old(live),
            *entry,
            kind,
            qty,
            price,
            reason,
            front_reject,
            *now,
        ),
        final(live).category == old(live).category,
        final(live).ctx == (SessionCtx { stats: final(live).ctx.stats, ..old(live).ctx }),
        final(live).ctx.stats.counters() == old(live).ctx.stats.counters(),
        final(live).ctx.stats.partition_report_index@ == old(
            live,
        ).ctx.stats.partition_report_index@,
        ({
            let taken = numbers_taken(*old(live), *entry, kind, front_reject);
            &&& final(live).ctx.stats.order_seq == old(live).ctx.stats.order_seq + taken.0
            &&& final(live).ctx.stats.exec_seq == old(live).ctx.stats.exec_seq + taken.1
        }),
{
    match live.category {
        GatewayCategory::Sz => sz::manual::build_manual_report(
            &live.ctx.cfg,
            &mut live.ctx.stats,
            entry,
            kind,
            qty,
            price,
            reason,
            front_reject,
            clock::timestamp(now),
        ),
        _ => shjj::manual::build_manual_report(
            &live.ctx.cfg,
            &mut live.ctx.stats,
            entry,
            kind,
            qty,
            price,
            reason,
            front_reject,
            clock::date(now),
            clock::ntime(now),
        ),
    }
}

fn prepare_report(
    live: &mut RunningPlatform,
    cl_ord_id: &str,
    kind: ManualReportKind,
    qty: Option<i64>,
    price: Option<i64>,
    reason: Option<i32>,
    front_reject: bool,
    conns: &Vec<u64>,
    now: &LocalTime,
) -> (r: Result<Outgoing, String>)
    requires
        now.wf(),
        old(live).category != GatewayCategory::Shbond,
        stats::ids_left(old(live).ctx.stats),
    ensures
        final(live).category == old(live).category,
        is_outgoing(
            *old(live),
            cl_ord_id@,
            kind,
            qty,
            price,
            reason,
            front_reject,
            conns@,
            *now,
            r,
        ),
        is_numbered(*old(live), *final(live), cl_ord_id@, kind, qty, front_reject),
{
    let found = match &live.ctx.orders {
        Some(book) => book.find(cl_ord_id),
        None => {
            return Err(refuse("该平台未开启缓存订单"));
        },
    };
    let entry = match found {
        Some(o) => o,
        None => {
            return Err(refuse("订单不存在"));
        },
    };
    if !entry.status.is_inflight() {
        let mut why = "订单 [".to_owned();
        why.push_str(cl_ord_id);
        why.push_str("] 已是终态，不能再手动回复");
        return Err(why);
    }
    if kind == ManualReportKind::Trade {
        if let Some(q) = qty {
            if q <= 0 {
                return Err(refuse("成交数量必须大于 0"));
            }
        }
    }
    let report = match build_report(live, &entry, kind, qty, price, reason, front_reject, now) {
        Ok(m) => m,
        Err(why) => {
            return Err(why);
        },
    };
    match last_connection(conns) {
        Some(conn_id) => Ok(Outgoing { conn_id, report }),
        None => Err(refuse("当前无活动连接，无法发送回报")),
    }
}

/// The counters after a report was sent by hand: the report on a cancelled order is not
/// counted.
pub open spec fn manual_counted(c: StatsSnapshot, kind: ManualReportKind) -> StatsSnapshot {
    match kind {
        ManualReportKind::Ack => StatsSnapshot { acks: stats::next_count(c.acks), ..c },
        ManualReportKind::Trade => StatsSnapshot { trades: stats::next_count(c.trades), ..c },
        ManualReportKind::Reject => StatsSnapshot {
            order_rejects: stats::next_count(c.order_rejects),
            ..c
        },
        ManualReportKind::Cancel => c,
    }
}

/// A platform after a report was sent by hand.
pub open spec fn is_settled(
    before: RunningPlatform,
    after: RunningPlatform,
    cl_ord_id: Seq<char>,
    kind: ManualReportKind,
    update: OrderUpdate,
) -> bool {
    &&& after.ctx == (SessionCtx { stats: after.ctx.stats, orders: after.ctx.orders, ..before.ctx })
    &&& after.ctx.stats.counters() == manual_counted(before.ctx.stats.counters(), kind)
    &&& after.ctx.stats.sequences() == before.ctx.stats.sequences()
    &&& kept(after.ctx.orders) == (match kept(before.ctx.orders) {
        Some(book) => Some(orderbook::applied(book, cl_ord_id, update)),
        None => None,
    })
}

fn settle_report(live: &mut RunningPlatform, cl_ord_id: &str, kind: ManualReportKind, update: &OrderUpdate)
    requires
        platform_wf(*old(live)),
    ensures
        platform_wf(*final(live)),
        final(live).category == old(live).category,
        is_settled(*old(live), *final(live), cl_ord_id@, kind, *update),
{
    match kind {
        ManualReportKind::Ack => {
            live.ctx.stats.acks = stats::bump(live.ctx.stats.acks);
        },
        ManualReportKind::Trade => {
            live.ctx.stats.trades = stats::bump(live.ctx.stats.trades);
        },
        ManualReportKind::Reject => {
            live.ctx.stats.order_rejects = stats::bump(live.ctx.stats.order_rejects);
        },
        ManualReportKind::Cancel => {},
    }
    match live.ctx.orders.take() {
        Some(mut book) => {
            book.apply(cl_ord_id, update);
            live.ctx.orders = Some(book);
        },
        None => {
            live.ctx.orders = None;
        },
    }
}

impl Engine {
    /// Whether reports can be built by hand.
    pub fn can_report(&self, gateway_id: &str, platform_id: &str) -> (r: bool)
        ensures
            r == reportable(*self, gateway_id@, platform_id@),
    {
        let (g, p) = match self.locate(gateway_id, platform_id) {
            Ok(at) => at,
            Err(_) => {
                return true;
            },
        };
        let live = &self.running[g].platforms[p];
        live.category != GatewayCategory::Shbond && live.ctx.stats.has_ids_left()
    }

    /// Prepares a report that is sent by hand on an order that is in flight, for the
    /// connection that came last among those that can send. `qty` is in shares, `price` in
    /// the units of the interface.
    pub fn send_report(
        &mut self,
        gateway_id: &str,
        platform_id: &str,
        cl_ord_id: &str,
        kind: ManualReportKind,
        qty: Option<i64>,
        price: Option<i64>,
        reason: Option<i32>,
        front_reject: bool,
        conns: &Vec<u64>,
        now: &LocalTime,
    ) -> (r: Result<Outgoing, String>)
        requires
            now.wf(),
            reportable(*old(self), gateway_id@, platform_id@),
        ensures
            is_report(
                *old(self),
                gateway_id@,
                platform_id@,
                cl_ord_id@,
                kind,
                qty,
                price,
                reason,
                front_reject,
                conns@,
                *now,
                *final(self),
                r,
            ),
            old(self).wf() ==> final(self).wf(),
    {
        let (g, p) = match self.locate(gateway_id, platform_id) {
            Ok(at) => at,
            Err(why) => {
                return Err(why);
            },
        };
        let r = prepare_report(
            &mut self.running[g].platforms[p],
            cl_ord_id,
            kind,
            qty,
            price,
            reason,
            front_reject,
            conns,
            now,
        );
        proof {
            if old(self).wf() {
                assert(gateway_wf(old(self).running@[g as int]));
                assert(platform_wf(old(self).running@[g as int].platforms@[p as int]));
                lemma_frame_wf(old(self).running@, self.running@, g as int, p as int);
            }
        }
        r
    }

    /// The units that prices and quantities have on a platform: how many make a yuan, and how
    /// many make a share.
    pub fn units(&self, gateway_id: &str, platform_id: &str) -> (r: Option<(i64, i64)>)
        ensures
            match located(self.running@, gateway_id@, platform_id@) {
                Err(_) => r is None,
                Ok((g, p)) => r == Some(
                    if self.running@[g].platforms@[p].category == GatewayCategory::Sz {
                        (10_000i64, 100i64)
                    } else {
                        (100_000i64, 1000i64)
                    },
                ),
            },
    {
        match self.locate(gateway_id, platform_id) {
            Ok((g, p)) => if self.running[g].platforms[p].category == GatewayCategory::Sz {
                Some((10_000, 100))
            } else {
                Some((100_000, 1000))
            },
            Err(_) => None,
        }
    }

    /// Notes that a report was sent by hand: it is counted, and the order is brought up to
    /// date.
    pub fn report_sent(
        &mut self,
        gateway_id: &str,
        platform_id: &str,
        cl_ord_id: &str,
        kind: ManualReportKind,
        update: &OrderUpdate,
    )
        requires
            old(self).wf(),
        ensures
            final(self).wf(),
            final(self).gateways == old(self).gateways,
            match located(old(self).running@, gateway_id@, platform_id@) {
                Err(_) => *final(self) == *old(self),
                Ok((g, p)) => only_at(old(self).running@, final(self).running@, g, p)
                    && is_settled(
                    old(self).running@[g].platforms@[p],
                    final(self).running@[g].platforms@[p],
                    cl_ord_id@,
                    kind,
                    *update,
                ),
            },
    {
        let (g, p) = match self.locate(gateway_id, platform_id) {
            Ok(at) => at,
            Err(_) => {
                return ;
            },
        };
        proof {
            assert(gateway_wf(old(self).running@[g as int]));
            assert(platform_wf(old(self).running@[g as int].platforms@[p as int]));
        }
        settle_report(&mut self.running[g].platforms[p], cl_ord_id, kind, update);
        proof {
            lemma_frame_wf(old(self).running@, self.running@, g as int, p as int);
        }
    }
}

/// What is told of a platform.
#[derive(Debug)]
pub struct PlatformSnapshot {
    pub platform_id: String,
    /// Whether the platform runs.
    pub listening: bool,
    pub stats: StatsSnapshot,
    pub connections: Vec<ConnInfo>,
}

/// What is told of a gateway.
#[derive(Debug)]
pub struct GatewaySnapshot {
    pub config: GatewayConfig,
    pub running: bool,
    pub platforms: Vec<PlatformSnapshot>,
}

/// What is told of all gateways.
#[derive(Debug)]
pub struct Snapshot {
    pub gateways: Vec<GatewaySnapshot>,
}

/// What is told of a platform: its counters and connections where it runs.
pub open spec fn is_platform_snapshot(
    running: Seq<RunningGateway>,
    gateway_id: Seq<char>,
    p: PlatformConfig,
    s: PlatformSnapshot,
) -> bool {
    &&& s.platform_id@ == p.id@
    &&& match located(running, gateway_id, p.id@) {
        Ok((g, q)) => {
            let ctx = running[g].platforms@[q].ctx;
            s.listening && s.stats == ctx.stats.counters() && s.connections@ == ctx.connections@
        },
        Err(_) => !s.listening && s.stats == no_counts() && s.connections@.len() == 0,
    }
}

/// What is told of a gateway: its configuration, whether it runs, and its platforms.
pub open spec fn is_gateway_snapshot(
    running: Seq<RunningGateway>,
    gw: GatewayConfig,
    s: GatewaySnapshot,
) -> bool {
    &&& config::same_gateway(s.config, gw)
    &&& s.running == running_ids(running).contains(gw.id@)
    &&& s.platforms@.len() == gw.platforms@.len()
    &&& forall|i: int|
        0 <= i < gw.platforms@.len() ==> is_platform_snapshot(
            running,
            gw.id@,
            gw.platforms@[i],
            #[trigger] s.platforms@[i],
        )
}

/// What is told of all gateways, in the order of the configuration.
pub open spec fn is_snapshot(e: Engine, s: Snapshot) -> bool {
    &&& s.gateways@.len() == e.gateways@.len()
    &&& forall|i: int|
        0 <= i < e.gateways@.len() ==> is_gateway_snapshot(
            e.running@,
            e.gateways@[i],
            #[trigger] s.gateways@[i],
        )
}

fn copy_connections(s: &Vec<ConnInfo>) -> (r: Vec<ConnInfo>)
    ensures
        r@ == s@,
{
    let mut out: Vec<ConnInfo> = Vec::new();
    let mut i: usize = 0;
    while i < s.len()
        invariant
            i <= s@.len(),
            out@ =~= s@.take(i as int),
        decreases s@.len() - i,
    {
        out.push(s[i].clone());
        i += 1;
    }
    assert(s@.take(i as int) =~= s@);
    out
}

impl Engine {
    fn platform_snapshot(&self, gateway_id: &str, p: &PlatformConfig) -> (r: PlatformSnapshot)
        ensures
            is_platform_snapshot(self.running@, gateway_id@, *p, r),
    {
        match self.locate(gateway_id, p.id.as_str()) {
            Ok((g, q)) => PlatformSnapshot {
                platform_id: p.id.clone(),
                listening: true,
                stats: self.running[g].platforms[q].ctx.stats.snapshot(),
                connections: copy_connections(&self.running[g].platforms[q].ctx.connections),
            },
            Err(_) => PlatformSnapshot {
                platform_id: p.id.clone(),
                listening: false,
                stats: StatsSnapshot {
                    orders: 0,
                    acks: 0,
                    trades: 0,
                    order_rejects: 0,
                    business_rejects: 0,
                    cancels: 0,
                    total_connections: 0,
                },
                connections: Vec::new(),
            },
        }
    }

    fn gateway_snapshot(&self, gw: &GatewayConfig) -> (r: GatewaySnapshot)
        ensures
            is_gateway_snapshot(self.running@, *gw, r),
    {
        let mut platforms: Vec<PlatformSnapshot> = Vec::new();
        let mut i: usize = 0;
        while i < gw.platforms.len()
            invariant
                i <= gw.platforms@.len(),
                platforms@.len() == i,
                forall|k: int|
                    0 <= k < i ==> is_platform_snapshot(
                        self.running@,
                        gw.id@,
                        gw.platforms@[k],
                        #[trigger] platforms@[k],
                    ),
            decreases gw.platforms@.len() - i,
        {
            platforms.push(self.platform_snapshot(gw.id.as_str(), &gw.platforms[i]));
            i += 1;
        }
        GatewaySnapshot {
            config: gw.clone(),
            running: self.is_running(gw.id.as_str()),
            platforms,
        }
    }

    /// What is told of all gateways.
    pub fn snapshot(&self) -> (r: Snapshot)
        ensures
            is_snapshot(*self, r),
    {
        let mut gateways: Vec<GatewaySnapshot> = Vec::new();
        let mut i: usize = 0;
        while i < self.gateways.len()
            invariant
                i <= self.gateways@.len(),
                gateways@.len() == i,
                forall|k: int|
                    0 <= k < i ==> is_gateway_snapshot(
                        self.running@,
                        self.gateways@[k],
                        #[trigger] gateways@[k],
                    ),
            decreases self.gateways@.len() - i,
        {
            gateways.push(self.gateway_snapshot(&self.gateways[i]));
            i += 1;
        }
        Snapshot { gateways }
    }
}

pub proof fn lemma_marked(s: Seq<GatewayConfig>, id: Seq<char>)
    ensures
        marked(s).contains(id) <==> exists|i: int|
            0 <= i < s.len() && (#[trigger] s[i]).was_running && s[i].id@ == id,
    decreases s.len(),
{
    if s.len() > 0 {
        let t = s.drop_last();
        lemma_marked(t, id);
        let head = marked(t);
        if s.last().was_running {
            assert(marked(s) == head.push(s.last().id@));
            if marked(s).contains(id) {
                let i = choose|i: int| 0 <= i < marked(s).len() && marked(s)[i] == id;
                if i < head.len() {
                    assert(head[i] == id);
                    let j = choose|j: int|
                        0 <= j < t.len() && (#[trigger] t[j]).was_running && t[j].id@ == id;
                    assert(s[j] == t[j]);
                } else {
                    assert(s[s.len() - 1].id@ == id);
                }
            }
            if s.last().id@ == id {
                assert(marked(s)[head.len() as int] == id);
            }
        }
        if exists|i: int| 0 <= i < s.len() && (#[trigger] s[i]).was_running && s[i].id@ == id {
            let i = choose|i: int|
                0 <= i < s.len() && (#[trigger] s[i]).was_running && s[i].id@ == id;
            if i < t.len() {
                assert(t[i] == s[i]);
                let j = choose|j: int| 0 <= j < head.len() && head[j] == id;
                assert(marked(s)[j] == id);
            }
        }
        if head.contains(id) {
            let j = choose|j: int|
                0 <= j < t.len() && (#[trigger] t[j]).was_running && t[j].id@ == id;
            assert(s[j] == t[j]);
        }
    }
}

/// No two gateways have the same id.
pub open spec fn ids_distinct(s: Seq<GatewayConfig>) -> bool {
    forall|i: int, j: int|
        0 <= i < j < s.len() ==> (#[trigger] s[i]).id@ != (#[trigger] s[j]).id@
}

/// A gateway that is started is started again when the program comes back, and one that is
/// stopped is not.
pub proof fn law_last_state_counts(s: Seq<GatewayConfig>, id: Seq<char>)
    requires
        ids_distinct(s),
        gateway_ids(s).contains(id),
    ensures
        marked(with_state(s, id, true)).contains(id),
        !marked(with_state(s, id, false)).contains(id),
{
    lemma_place_of(gateway_ids(s), id);
    let k = place_of(gateway_ids(s), id);
    let on = with_state(s, id, true);
    let off = with_state(s, id, false);
    lemma_marked(on, id);
    lemma_marked(off, id);
    assert(gateway_ids(s)[k] == id);
    assert(on[k].was_running && on[k].id@ == id);
    assert forall|i: int| 0 <= i < off.len() && (#[trigger] off[i]).was_running implies off[i].id@
        != id by {
        if i != k {
            assert(off[i] == s[i]);
            assert(s[k].id@ == id);
            if i < k {
                assert(s[i].id@ != s[k].id@);
            } else {
                assert(s[k].id@ != s[i].id@);
            }
        }
    }
}

/// Starting and stopping one gateway does not change what is remembered of another.
pub proof fn law_other_states_stay(s: Seq<GatewayConfig>, id: Seq<char>, running: bool, other: Seq<char>)
    requires
        other != id,
    ensures
        marked(with_state(s, id, running)).contains(other) <==> marked(s).contains(other),
{
    lemma_place_of(gateway_ids(s), id);
    let k = place_of(gateway_ids(s), id);
    let t = with_state(s, id, running);
    lemma_marked(s, other);
    lemma_marked(t, other);
    if k < s.len() {
        assert(gateway_ids(s)[k] == id);
        if marked(s).contains(other) {
            let i = choose|i: int|
                0 <= i < s.len() && (#[trigger] s[i]).was_running && s[i].id@ == other;
            assert(t[i] == s[i]);
        }
        if marked(t).contains(other) {
            let i = choose|i: int|
                0 <= i < t.len() && (#[trigger] t[i]).was_running && t[i].id@ == other;
            assert(t[i] == s[i]);
        }
    }
}

/// A gateway that was deleted is gone, with the note whether it was running.
pub proof fn law_deleted_is_gone(s: Seq<GatewayConfig>, id: Seq<char>)
    ensures
        !gateway_ids(without(s, id)).contains(id),
        !marked(without(s, id)).contains(id),
{
    lemma_without(s, id);
    let t = without(s, id);
    lemma_marked(t, id);
    assert forall|i: int| 0 <= i < t.len() implies #[trigger] gateway_ids(t)[i] != id by {
        assert(t[i].id@ != id);
    }
}

proof fn lemma_without(s: Seq<GatewayConfig>, id: Seq<char>)
    ensures
        forall|i: int| 0 <= i < without(s, id).len() ==> (#[trigger] without(s, id)[i]).id@ != id,
        forall|i: int| 0 <= i < without(s, id).len() ==> s.contains(#[trigger] without(s, id)[i]),
    decreases s.len(),
{
    if s.len() > 0 {
        let t = s.drop_first();
        let w = without(t, id);
        lemma_without(t, id);
        assert forall|i: int| 0 <= i < without(s, id).len() implies (#[trigger] without(s, id)[i]).id@
            != id && s.contains(without(s, id)[i]) by {
            if s[0].id@ == id {
                let j = choose|j: int| 0 <= j < t.len() && t[j] == w[i];
                assert(s[j + 1] == w[i]);
            } else if i > 0 {
                assert(without(s, id)[i] == w[i - 1]);
                let j = choose|j: int| 0 <= j < t.len() && t[j] == w[i - 1];
                assert(s[j + 1] == w[i - 1]);
            } else {
                assert(without(s, id)[0] == s[0]);
            }
        }
    }
}

/// Saving a gateway never makes two gateways with the same id.
pub proof fn law_ids_stay_distinct(s: Seq<GatewayConfig>, saved: GatewayConfig)
    requires
        ids_distinct(s),
    ensures
        ids_distinct(with_saved(s, saved)),
{
    lemma_place_of(gateway_ids(s), saved.id@);
    let k = place_of(gateway_ids(s), saved.id@);
    let t = with_saved(s, saved);
    assert forall|i: int, j: int| 0 <= i < j < t.len() implies (#[trigger] t[i]).id@ != (
    #[trigger] t[j]).id@ by {
        if k < s.len() {
            assert(gateway_ids(s)[k] == saved.id@);
            assert(t[i].id@ == s[i].id@);
            assert(t[j].id@ == s[j].id@);
        } else {
            if j < s.len() {
                assert(t[j] == s[j]);
            } else {
                assert(gateway_ids(s)[i] != saved.id@);
            }
            assert(t[i] == s[i]);
        }
    }
}

/// What was saved is found under its id.
pub proof fn law_saved_is_found(s: Seq<GatewayConfig>, saved: GatewayConfig)
    ensures
        ({
            let t = with_saved(s, saved);
            let k = place_of(gateway_ids(t), saved.id@);
            k < t.len() && t[k] == saved
        }),
{
    lemma_place_of(gateway_ids(s), saved.id@);
    let k = place_of(gateway_ids(s), saved.id@);
    let t = with_saved(s, saved);
    assert forall|i: int| 0 <= i < k implies #[trigger] gateway_ids(t)[i] != saved.id@ by {
        assert(gateway_ids(s)[i] != saved.id@);
        assert(t[i] == s[i]);
    }
    assert(gateway_ids(t)[k] == saved.id@);
    lemma_place(gateway_ids(t), saved.id@, k);
}

/// Ids that are made have 16 characters: the year without its century, month, day and time, two
/// digits each, and the four hexadecimal digits of the number.
#[verifier::spinoff_prover]
#[verifier::rlimit(40)]
pub proof fn law_id_tells_time(now: LocalTime, a: u64)
    requires
        now.wf(),
        0x1000 <= a <= 0xffff,
    ensures
        id_of(now, a).len() == 16,
        text::number(id_of(now, a).subrange(2, 4)) == now.month,
        text::number(id_of(now, a).subrange(4, 6)) == now.day,
        text::number(id_of(now, a).subrange(6, 8)) == now.hour,
        text::number(id_of(now, a).subrange(8, 10)) == now.minute,
{
    clock::law_written_times(now);
    clock::lemma_two(now.month as int);
    clock::lemma_two(now.day as int);
    clock::lemma_two((now.year as int) % 100);
    let s = id_of(now, a);
    let w = clock::hms_millis_text(now);
    assert(s.subrange(2, 4) =~= clock::two(now.month as int));
    assert(s.subrange(4, 6) =~= clock::two(now.day as int));
    assert(s.subrange(6, 8) =~= w.subrange(0, 2));
    assert(s.subrange(8, 10) =~= w.subrange(3, 5));
}

proof fn lemma_id_digit(x: int, y: int)
    requires
        0 <= x < 16,
        0 <= y < 16,
        id_digit(x) == id_digit(y),
    ensures
        x == y,
{
}

/// Ids that are made at one time for two numbers differ.
#[verifier::spinoff_prover]
#[verifier::rlimit(40)]
pub proof fn law_ids_tell_numbers_apart(now: LocalTime, a: u64, b: u64)
    requires
        now.wf(),
        0x1000 <= a <= 0xffff,
        0x1000 <= b <= 0xffff,
        a != b,
    ensures
        id_of(now, a) != id_of(now, b),
{
    law_id_tells_time(now, a);
    law_id_tells_time(now, b);
    let s = id_of(now, a);
    let t = id_of(now, b);
    assert(s[12] == id_digit(a as int / 4096) && t[12] == id_digit(b as int / 4096));
    assert(s[13] == id_digit((a as int / 256) % 16) && t[13] == id_digit((b as int / 256) % 16));
    assert(s[14] == id_digit((a as int / 16) % 16) && t[14] == id_digit((b as int / 16) % 16));
    assert(s[15] == id_digit(a as int % 16) && t[15] == id_digit(b as int % 16));
    if s == t {
        lemma_id_digit(a as int / 4096, b as int / 4096);
        lemma_id_digit((a as int / 256) % 16, (b as int / 256) % 16);
        lemma_id_digit((a as int / 16) % 16, (b as int / 16) % 16);
        lemma_id_digit(a as int % 16, b as int % 16);
    }
}

/// An address can be taken apart again: in front of the colon stands the host, and behind it
/// the number of the port.
pub proof fn law_address_is_read(p: PlatformConfig)
    ensures
        ({
            let s = address_of(p);
            let n = p.listen_host@.len() as int;
            &&& s.take(n) == p.listen_host@
            &&& s[n] == ':'
            &&& text::number(s.skip(n + 1)) == p.port
        }),
{
    let s = address_of(p);
    let n = p.listen_host@.len() as int;
    reveal_strlit(":");
    assert(s.take(n) =~= p.listen_host@);
    assert(s.skip(n + 1) =~= text::dec(p.port as nat));
    text::lemma_dec_value(p.port as nat);
}

} // verus!
