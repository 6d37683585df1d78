//! What whoever operates the gateways can rely on: what saving, deleting, starting and stopping
//! them does, and what becomes of strategies, counters and reports that are sent by hand.
use vstd::prelude::*;

use crate::clock::LocalTime;
use crate::config;
use crate::config::{GatewayConfig, PlatformConfig, StrategyConfig};
use crate::engine;
use crate::engine::{
    Engine, GatewaySnapshot, Outgoing, PlatformSnapshot, RunningGateway, RunningPlatform, Snapshot,
};
use crate::manual::ManualReportKind;
use crate::orderbook;
use crate::orderbook::{OrderEntry, OrderUpdate};
use crate::stats::StatsSnapshot;
use crate::sz::session::kept;
use crate::text;

verus! {

/// A gateway with the id runs.
pub open spec fn runs(e: Engine, id: Seq<char>) -> bool {
    exists|i: int| 0 <= i < e.running@.len() && (#[trigger] e.running@[i]).id@ == id
}

/// A gateway with the id is configured.
pub open spec fn exists_in(s: Seq<GatewayConfig>, id: Seq<char>) -> bool {
    exists|i: int| 0 <= i < s.len() && (#[trigger] s[i]).id@ == id
}

proof fn lemma_runs(e: Engine, id: Seq<char>)
    ensures
        runs(e, id) <==> engine::running_ids(e.running@).contains(id),
{
    let ids = engine::running_ids(e.running@);
    if runs(e, id) {
        let i = choose|i: int| 0 <= i < e.running@.len() && (#[trigger] e.running@[i]).id@ == id;
        assert(ids[i] == id);
    }
    if ids.contains(id) {
        let i = choose|i: int| 0 <= i < ids.len() && ids[i] == id;
        assert(e.running@[i].id@ == id);
    }
}

proof fn lemma_exists(s: Seq<GatewayConfig>, id: Seq<char>)
    ensures
        exists_in(s, id) <==> engine::place_of(engine::gateway_ids(s), id) < s.len(),
        0 <= engine::place_of(engine::gateway_ids(s), id) <= s.len(),
        exists_in(s, id) ==> s[engine::place_of(engine::gateway_ids(s), id)].id@ == id,
{
    let ids = engine::gateway_ids(s);
    engine::lemma_place_of(ids, id);
    if exists_in(s, id) {
        let i = choose|i: int| 0 <= i < s.len() && (#[trigger] s[i]).id@ == id;
        assert(ids[i] == id);
    }
    if engine::place_of(ids, id) < s.len() {
        assert(ids[engine::place_of(ids, id)] == id);
    }
}

/// What of a platform is saved as it is given.
pub open spec fn kept_as_given(a: PlatformConfig, b: PlatformConfig) -> bool {
    &&& b.id@.len() > 0 ==> a.id@ == b.id@
    &&& a.name@ == b.name@
    &&& a.platform_type == b.platform_type
    &&& a.listen_host@ == b.listen_host@
    &&& a.port == b.port
    &&& a.comp_id@ == b.comp_id@
    &&& a.check_password == b.check_password
    &&& a.password@ == b.password@
    &&& a.partition_no == b.partition_no
    &&& a.partition_nos@ == b.partition_nos@
    &&& a.show_packets == b.show_packets
    &&& a.cache_orders == b.cache_orders
    &&& config::same_strategy(a.strategy, b.strategy)
}

/// Saving a gateway. It is refused where it runs, where its name is empty or white space, and
/// where two of its platforms have the same port; nothing changes then. Else it is found under
/// its id afterwards, with its name and platforms as they were given; every message of a
/// platform is written to a file exactly where messages are shown; whether it was running is
/// remembered as before; and all other gateways stay as they are.
pub proof fn law_save(
    before: Engine,
    gw: GatewayConfig,
    after: Engine,
    r: Result<GatewayConfig, String>,
)
    requires
        engine::is_save(before, gw, after, r),
    ensures
        after.running == before.running,
        r is Ok <==> {
            &&& !runs(before, gw.id@)
            &&& !text::is_blank(gw.name@)
            &&& forall|i: int, j: int|
                0 <= i < j < gw.platforms@.len() ==> (#[trigger] gw.platforms@[i]).port != (
                #[trigger] gw.platforms@[j]).port
        },
        r is Err ==> after.gateways == before.gateways,
        r matches Ok(copy) ==> {
            let k = engine::place_of(engine::gateway_ids(before.gateways@), copy.id@);
            let saved = after.gateways@[k];
            &&& gw.id@.len() > 0 ==> copy.id@ == gw.id@
            &&& saved.id@ == copy.id@
            &&& saved.name@ == gw.name@
            &&& saved.category == gw.category
            &&& saved.platforms@.len() == gw.platforms@.len()
            &&& forall|i: int|
                0 <= i < gw.platforms@.len() ==> kept_as_given(
                    #[trigger] saved.platforms@[i],
                    gw.platforms@[i],
                ) && saved.platforms@[i].persist_packets == gw.platforms@[i].show_packets
            &&& if exists_in(before.gateways@, copy.id@) {
                &&& after.gateways@.len() == before.gateways@.len()
                &&& saved.was_running == before.gateways@[k].was_running
            } else {
                &&& after.gateways@.len() == before.gateways@.len() + 1
                &&& k == before.gateways@.len()
                &&& saved.was_running == gw.was_running
            }
            &&& forall|i: int|
                0 <= i < before.gateways@.len() && i != k ==> #[trigger] after.gateways@[i]
                    == before.gateways@[i]
        },
{
    lemma_runs(before, gw.id@);
    match r {
        Ok(copy) => {
            lemma_exists(before.gateways@, copy.id@);
            let k = engine::place_of(engine::gateway_ids(before.gateways@), copy.id@);
            let saved = after.gateways@[k];
            assert forall|i: int| 0 <= i < gw.platforms@.len() implies kept_as_given(
                #[trigger] saved.platforms@[i],
                gw.platforms@[i],
            ) && saved.platforms@[i].persist_packets == gw.platforms@[i].show_packets by {
                assert(engine::is_saved_platform(gw.platforms@[i], saved.platforms@[i]));
            }
        },
        Err(_) => {},
    }
}

/// Deleting a gateway. It is refused exactly where it runs, and nothing changes then. Else no
/// gateway has the id any more, and exactly the others are left.
pub proof fn law_delete(before: Engine, id: Seq<char>, after: Engine, r: Result<(), String>)
    requires
        engine::is_delete(before, id, after, r),
    ensures
        after.running == before.running,
        r is Err <==> runs(before, id),
        r is Err ==> after.gateways == before.gateways,
        r is Ok ==> {
            &&& !exists_in(after.gateways@, id)
            &&& forall|g: GatewayConfig| #[trigger]
                after.gateways@.contains(g) <==> before.gateways@.contains(g) && g.id@ != id
        },
{
    lemma_runs(before, id);
    if r is Ok {
        lemma_left(before.gateways@, id);
        let s = after.gateways@;
        if exists_in(s, id) {
            let i = choose|i: int| 0 <= i < s.len() && (#[trigger] s[i]).id@ == id;
            assert(s.contains(s[i]));
        }
    }
}

proof fn lemma_left(s: Seq<GatewayConfig>, id: Seq<char>)
    ensures
        forall|g: GatewayConfig| #[trigger]
            engine::without(s, id).contains(g) <==> s.contains(g) && g.id@ != id,
    decreases s.len(),
{
    if s.len() > 0 {
        let t = s.drop_first();
        lemma_left(t, id);
        let w = engine::without(s, id);
        let v = engine::without(t, id);
        assert forall|g: GatewayConfig| #[trigger]
            w.contains(g) <==> s.contains(g) && g.id@ != id by {
            if s.contains(g) && g.id@ != id {
                let i = choose|i: int| 0 <= i < s.len() && s[i] == g;
                if i == 0 {
                    assert(w[0] == g);
                } else {
                    assert(t[i - 1] == g);
                    assert(t.contains(g));
                    assert(v.contains(g));
                    let k = choose|k: int| 0 <= k < v.len() && v[k] == g;
                    if s[0].id@ != id {
                        assert(w[k + 1] == g);
                    }
                }
            }
            if w.contains(g) {
                let k = choose|k: int| 0 <= k < w.len() && w[k] == g;
                if s[0].id@ != id && k == 0 {
                    assert(s[0] == g);
                } else {
                    if s[0].id@ != id {
                        assert(v[k - 1] == g);
                    }
                    assert(v.contains(g));
                    let i = choose|i: int| 0 <= i < t.len() && t[i] == g;
                    assert(s[i + 1] == g);
                }
            }
        }
    }
}

/// A platform that has just been started has done nothing yet.
pub open spec fn is_idle(live: RunningPlatform) -> bool {
    let c = live.ctx.stats.counters();
    &&& c.orders == 0 && c.acks == 0 && c.trades == 0
    &&& c.order_rejects == 0 && c.business_rejects == 0
    &&& c.cancels == 0 && c.total_connections == 0
    &&& live.ctx.stats.order_seq == 0
    &&& live.ctx.stats.exec_seq == 0
    &&& live.ctx.connections@.len() == 0
    &&& live.ctx.recorders@.len() == 0
    &&& kept(live.ctx.orders) matches Some(book) ==> book.len() == 0
}

/// Starting a gateway. It is refused where it runs already, where there is none with the id,
/// and where it has no platform; nothing changes then. Else it runs afterwards, behind those
/// that ran before, which run on as they were; each of its platforms runs as it is configured,
/// with nothing done yet, and keeps orders exactly where it is to keep them; and that it runs
/// is remembered of it and of no other.
pub proof fn law_start(before: Engine, id: Seq<char>, after: Engine, r: Result<(), String>)
    requires
        engine::is_start(before, id, after, r),
    ensures
        ({
            let k = engine::place_of(engine::gateway_ids(before.gateways@), id);
            let gw = before.gateways@[k];
            let live = after.running@.last();
            &&& r is Ok <==> {
                &&& !runs(before, id)
                &&& exists_in(before.gateways@, id)
                &&& gw.platforms@.len() > 0
            }
            &&& r is Err ==> after == before
            &&& r is Ok ==> {
                &&& gw.id@ == id
                &&& runs(after, id)
                &&& after.running@.drop_last() == before.running@
                &&& after.running@.len() == before.running@.len() + 1
                &&& live.id@ == id
                &&& live.platforms@.len() == gw.platforms@.len()
                &&& forall|i: int|
                    0 <= i < gw.platforms@.len() ==> {
                        let p = #[trigger] live.platforms@[i];
                        &&& is_idle(p)
                        &&& p.category == gw.category
                        &&& kept_as_given(p.ctx.cfg, gw.platforms@[i])
                        &&& config::same_strategy(p.ctx.strategy, gw.platforms@[i].strategy)
                        &&& p.ctx.orders is Some <==> gw.platforms@[i].cache_orders
                    }
                &&& is_marked(before.gateways@, after.gateways@, k, true)
            }
        }),
{
    lemma_runs(before, id);
    lemma_exists(before.gateways@, id);
    if r is Ok {
        let k = engine::place_of(engine::gateway_ids(before.gateways@), id);
        let gw = before.gateways@[k];
        let n = after.running@.len() - 1;
        assert(after.running@[n] == after.running@.last());
        assert(runs(after, id)) by {
            assert(after.running@[n].id@ == gw.id@);
        }
        assert forall|i: int| 0 <= i < gw.platforms@.len() implies is_idle(
            #[trigger] after.running@.last().platforms@[i],
        ) by {
            assert(engine::is_fresh(
                gw,
                gw.platforms@[i],
                after.running@.last().platforms@[i],
            ));
        }
    }
}

/// Of one gateway it is remembered whether it runs, and the rest stays as it is.
pub open spec fn is_marked(
    before: Seq<GatewayConfig>,
    after: Seq<GatewayConfig>,
    k: int,
    running: bool,
) -> bool {
    &&& after.len() == before.len()
    &&& after[k].was_running == running
    &&& after[k].id@ == before[k].id@
    &&& after[k].name@ == before[k].name@
    &&& after[k].category == before[k].category
    &&& after[k].platforms == before[k].platforms
    &&& forall|i: int| 0 <= i < before.len() && i != k ==> #[trigger] after[i] == before[i]
}

/// Stopping a gateway. It is refused exactly where it does not run, and nothing changes then.
/// Else one gateway less runs, the others run on as they were, and that it does not run is
/// remembered of it and of no other.
pub proof fn law_stop(before: Engine, id: Seq<char>, after: Engine, r: Result<(), String>)
    requires
        engine::is_stop(before, id, after, r),
    ensures
        r is Ok <==> runs(before, id),
        r is Err ==> after == before,
        r is Ok ==> {
            &&& after.running@.len() == before.running@.len() - 1
            &&& forall|g: RunningGateway|
                g.id@ != id ==> (#[trigger] after.running@.contains(g)
                    <==> before.running@.contains(g))
            &&& (forall|i: int, j: int|
                0 <= i < j < before.running@.len() ==> (#[trigger] before.running@[i]).id@ != (
                #[trigger] before.running@[j]).id@) ==> !runs(after, id)
            &&& exists_in(before.gateways@, id) ==> is_marked(
                before.gateways@,
                after.gateways@,
                engine::place_of(engine::gateway_ids(before.gateways@), id),
                false,
            )
        },
{
    lemma_runs(before, id);
    lemma_exists(before.gateways@, id);
    if r is Ok {
        let s = before.running@;
        let t = after.running@;
        let k = engine::place_of(engine::running_ids(s), id);
        engine::lemma_place_of(engine::running_ids(s), id);
        assert(engine::running_ids(s)[k] == id);
        assert(s[k].id@ == id);
        assert(engine::running_ids(s).contains(id));
        assert forall|g: RunningGateway| g.id@ != id implies (#[trigger] t.contains(g)
            <==> s.contains(g)) by {
            if s.contains(g) {
                let i = choose|i: int| 0 <= i < s.len() && s[i] == g;
                if i < k {
                    assert(t[i] == g);
                } else {
                    assert(t[i - 1] == g);
                }
            }
            if t.contains(g) {
                let i = choose|i: int| 0 <= i < t.len() && t[i] == g;
                if i < k {
                    assert(s[i] == g);
                } else {
                    assert(s[i + 1] == g);
                }
            }
        }
        if (forall|i: int, j: int|
            0 <= i < j < s.len() ==> (#[trigger] s[i]).id@ != (#[trigger] s[j]).id@) && runs(
            after,
            id,
        ) {
            let i = choose|i: int| 0 <= i < t.len() && (#[trigger] t[i]).id@ == id;
            if i < k {
                assert(s[i].id@ != s[k].id@);
            } else {
                assert(s[k].id@ != s[i + 1].id@);
            }
        }
    }
}

/// Replacing the strategy of a platform. Where its gateway runs, the platform answers by the
/// new strategy from then on, and nothing else of what runs changes: counters, numbers, orders
/// and connections stay. Where it succeeds the strategy is also kept in the configuration, and
/// nothing else there changes; where it fails the configuration stays.
pub proof fn law_update(
    before: Engine,
    gateway_id: Seq<char>,
    platform_id: Seq<char>,
    strategy: StrategyConfig,
    after: Engine,
    r: Result<String, String>,
)
    requires
        engine::is_update(before, gateway_id, platform_id, strategy, after, r),
    ensures
        ({
            let g = engine::place_of(engine::running_ids(before.running@), gateway_id);
            let p = engine::place_of(engine::live_ids(before.running@[g].platforms@), platform_id);
            &&& !runs(before, gateway_id) ==> after.running == before.running
            &&& runs(before, gateway_id) && p >= before.running@[g].platforms@.len() ==> r is Err
                && after.running == before.running
            &&& runs(before, gateway_id) && p < before.running@[g].platforms@.len() ==> {
                let was = before.running@[g].platforms@[p];
                let now = after.running@[g].platforms@[p];
                &&& was.ctx.cfg.id@ == platform_id
                &&& config::same_strategy(now.ctx.strategy, strategy)
                &&& now.ctx.stats == was.ctx.stats
                &&& now.ctx.orders == was.ctx.orders
                &&& now.ctx.connections == was.ctx.connections
                &&& now.ctx.recorders == was.ctx.recorders
                &&& now.ctx.cfg == was.ctx.cfg
                &&& forall|i: int|
                    0 <= i < before.running@.len() && i != g ==> #[trigger] after.running@[i]
                        == before.running@[i]
            }
            &&& r is Err ==> after.gateways == before.gateways
            &&& r is Ok ==> {
                let c = engine::place_of(engine::gateway_ids(before.gateways@), gateway_id);
                let q = engine::place_of(
                    engine::platform_ids(before.gateways@[c].platforms@),
                    platform_id,
                );
                &&& c < before.gateways@.len()
                &&& before.gateways@[c].id@ == gateway_id
                &&& q < before.gateways@[c].platforms@.len()
                &&& before.gateways@[c].platforms@[q].id@ == platform_id
                &&& after.gateways@[c].platforms@[q].strategy == strategy
                &&& after.gateways@[c].platforms@[q].port == before.gateways@[c].platforms@[q].port
                &&& forall|j: int|
                    0 <= j < before.gateways@[c].platforms@.len() && j != q
                        ==> #[trigger] after.gateways@[c].platforms@[j]
                        == before.gateways@[c].platforms@[j]
                &&& forall|i: int|
                    0 <= i < before.gateways@.len() && i != c ==> #[trigger] after.gateways@[i]
                        == before.gateways@[i]
            }
        }),
{
    lemma_runs(before, gateway_id);
    engine::lemma_place_of(engine::running_ids(before.running@), gateway_id);
    let g = engine::place_of(engine::running_ids(before.running@), gateway_id);
    if g < before.running@.len() {
        let ids = engine::live_ids(before.running@[g].platforms@);
        engine::lemma_place_of(ids, platform_id);
        let p = engine::place_of(ids, platform_id);
        if p < before.running@[g].platforms@.len() {
            assert(ids[p] == platform_id);
        }
    }
    if r is Ok {
        lemma_exists(before.gateways@, gateway_id);
        let c = engine::place_of(engine::gateway_ids(before.gateways@), gateway_id);
        let ids = engine::platform_ids(before.gateways@[c].platforms@);
        engine::lemma_place_of(ids, platform_id);
        let q = engine::place_of(ids, platform_id);
        assert(ids[q] == platform_id);
    }
}

/// Setting the counters of a gateway to 0 is refused exactly where it does not run. Else all
/// counters of all its platforms are 0, no number comes a second time, and neither orders nor
/// connections nor captures change.
pub proof fn law_reset(before: Engine, id: Seq<char>, after: Engine, r: Result<(), String>)
    requires
        engine::is_reset_of(before, id, after, r),
    ensures
        ({
            let k = engine::place_of(engine::running_ids(before.running@), id);
            &&& r is Ok <==> runs(before, id)
            &&& r is Err ==> after == before
            &&& after.gateways == before.gateways
            &&& r is Ok ==> {
                &&& after.running@.len() == before.running@.len()
                &&& forall|i: int|
                    0 <= i < before.running@.len() && i != k ==> #[trigger] after.running@[i]
                        == before.running@[i]
                &&& forall|j: int|
                    0 <= j < before.running@[k].platforms@.len() ==> {
                        let p = #[trigger] after.running@[k].platforms@[j];
                        let was = before.running@[k].platforms@[j];
                        let c = p.ctx.stats.counters();
                        &&& c.orders == 0 && c.acks == 0 && c.trades == 0
                        &&& c.order_rejects == 0 && c.business_rejects == 0
                        &&& c.cancels == 0 && c.total_connections == 0
                        &&& p.ctx.stats.order_seq == was.ctx.stats.order_seq
                        &&& p.ctx.stats.exec_seq == was.ctx.stats.exec_seq
                        &&& p.ctx.stats.partition_report_index@
                            == was.ctx.stats.partition_report_index@
                        &&& p.ctx.orders == was.ctx.orders
                        &&& p.ctx.connections == was.ctx.connections
                        &&& p.ctx.recorders == was.ctx.recorders
                    }
            }
        }),
{
    lemma_runs(before, id);
    engine::lemma_place_of(engine::running_ids(before.running@), id);
}

/// A report that is sent by hand is built exactly for an order that is kept and new or partly
/// filled, if not for a fill of less than one share; and where it can be built it goes out on
/// the connection that came last, unless there is none.
pub proof fn law_hand_report(
    live: RunningPlatform,
    cl_ord_id: Seq<char>,
    kind: ManualReportKind,
    qty: Option<i64>,
    price: Option<i64>,
    reason: Option<i32>,
    front_reject: bool,
    conns: Seq<u64>,
    now: LocalTime,
    r: Result<Outgoing, String>,
)
    requires
        engine::is_outgoing(
            live,
            cl_ord_id,
            kind,
            qty,
            price,
            reason,
            front_reject,
            conns,
            now,
            r,
        ),
    ensures
        r is Ok ==> {
            &&& kept(live.ctx.orders) matches Some(book)
            &&& orderbook::lookup(book, cl_ord_id) matches Some(o)
            &&& o.cl_ord_id@ == cl_ord_id
            &&& o.status is New || o.status is Partial
            &&& kind is Trade && qty is Some ==> qty->0 >= 1
        },
        r matches Ok(out) ==> {
            &&& conns.contains(out.conn_id)
            &&& forall|i: int| 0 <= i < conns.len() ==> #[trigger] conns[i] <= out.conn_id
        },
        conns.len() == 0 ==> r is Err,
        !(kind is Trade) && conns.len() > 0 && can_be_told(kept(live.ctx.orders), cl_ord_id)
            ==> r is Ok,
{
    match kept(live.ctx.orders) {
        Some(book) => {
            orderbook::law_found_by_number(book, cl_ord_id);
        },
        None => {},
    }
}

/// The order is kept and has not ended.
pub open spec fn can_be_told(orders: Option<Seq<OrderEntry>>, cl_ord_id: Seq<char>) -> bool {
    &&& orders matches Some(book)
    &&& orderbook::lookup(book, cl_ord_id) matches Some(o)
    &&& o.status is New || o.status is Partial
}

/// A report that was sent by hand is counted once under what it tells, a cancellation not at
/// all, and is what the order is found with afterwards.
pub proof fn law_hand_report_is_settled(
    before: RunningPlatform,
    after: RunningPlatform,
    cl_ord_id: Seq<char>,
    kind: ManualReportKind,
    update: OrderUpdate,
)
    requires
        engine::is_settled(before, after, cl_ord_id, kind, update),
        can_be_told(kept(before.ctx.orders), cl_ord_id),
    ensures
        counts_one(before.ctx.stats.counters(), after.ctx.stats.counters(), kind),
        after.ctx.stats.order_seq == before.ctx.stats.order_seq,
        after.ctx.stats.exec_seq == before.ctx.stats.exec_seq,
        after.ctx.connections == before.ctx.connections,
        after.ctx.strategy == before.ctx.strategy,
        ({
            let book = kept(before.ctx.orders)->0;
            let was = orderbook::lookup(book, cl_ord_id)->0;
            &&& kept(after.ctx.orders) matches Some(t)
            &&& orderbook::lookup(t, cl_ord_id) matches Some(o)
            &&& o.status == update.status
            &&& o.cum_qty == update.cum_qty
            &&& o.leaves_qty == update.leaves_qty
            &&& orderbook::same_order(o, was)
        }),
{
    orderbook::law_report_is_applied(kept(before.ctx.orders)->0, cl_ord_id, update);
}

/// One report more is counted, under what it tells. Counters at their limit are left out.
pub open spec fn counts_one(a: StatsSnapshot, b: StatsSnapshot, kind: ManualReportKind) -> bool {
    &&& a.acks < u64::MAX ==> b.acks - a.acks == (if kind is Ack {
        1int
    } else {
        0
    })
    &&& a.trades < u64::MAX ==> b.trades - a.trades == (if kind is Trade {
        1int
    } else {
        0
    })
    &&& a.order_rejects < u64::MAX ==> b.order_rejects - a.order_rejects == (if kind is Reject {
        1int
    } else {
        0
    })
    &&& b.orders == a.orders
    &&& b.business_rejects == a.business_rejects
    &&& b.cancels == a.cancels
    &&& b.total_connections == a.total_connections
}

/// What is told of the gateways: all of them, in order; each is told to run exactly where it
/// runs, and a platform that runs is told with its own counters and connections.
pub proof fn law_snapshot(e: Engine, s: Snapshot)
    requires
        engine::is_snapshot(e, s),
    ensures
        s.gateways@.len() == e.gateways@.len(),
        forall|i: int|
            0 <= i < e.gateways@.len() ==> is_gateway_told(
                e,
                e.gateways@[i],
                #[trigger] s.gateways@[i],
            ),
{
    assert forall|i: int| 0 <= i < e.gateways@.len() implies is_gateway_told(
        e,
        e.gateways@[i],
        #[trigger] s.gateways@[i],
    ) by {
        lemma_gateway_told(e, e.gateways@[i], s.gateways@[i]);
    }
}

/// A gateway is told.
pub open spec fn is_gateway_told(e: Engine, gw: GatewayConfig, s: GatewaySnapshot) -> bool {
    &&& s.config.id@ == gw.id@
    &&& s.config.name@ == gw.name@
    &&& s.running <==> runs(e, gw.id@)
    &&& s.platforms@.len() == gw.platforms@.len()
    &&& forall|j: int|
        0 <= j < s.platforms@.len() ==> is_platform_told(
            e,
            gw.id@,
            gw.platforms@[j].id@,
            s.running,
            #[trigger] s.platforms@[j],
        )
}

/// A platform is told.
pub open spec fn is_platform_told(
    e: Engine,
    gateway_id: Seq<char>,
    platform_id: Seq<char>,
    running: bool,
    p: PlatformSnapshot,
) -> bool {
    &&& p.platform_id@ == platform_id
    &&& !running ==> !p.listening
    &&& !p.listening ==> p.stats.orders == 0 && p.stats.trades == 0 && p.connections@.len() == 0
    &&& p.listening ==> tells_platform(e, gateway_id, platform_id, p.stats)
}

proof fn lemma_gateway_told(e: Engine, gw: GatewayConfig, s: GatewaySnapshot)
    requires
        engine::is_gateway_snapshot(e.running@, gw, s),
    ensures
        is_gateway_told(e, gw, s),
{
    lemma_runs(e, gw.id@);
    engine::lemma_place_of(engine::running_ids(e.running@), gw.id@);
    let k = engine::place_of(engine::running_ids(e.running@), gw.id@);
    assert forall|j: int| 0 <= j < s.platforms@.len() implies is_platform_told(
        e,
        gw.id@,
        gw.platforms@[j].id@,
        s.running,
        #[trigger] s.platforms@[j],
    ) by {
        assert(engine::is_platform_snapshot(
            e.running@,
            gw.id@,
            gw.platforms@[j],
            s.platforms@[j],
        ));
        if k < e.running@.len() {
            let ids = engine::live_ids(e.running@[k].platforms@);
            engine::lemma_place_of(ids, gw.platforms@[j].id@);
            let q = engine::place_of(ids, gw.platforms@[j].id@);
            assert(engine::running_ids(e.running@)[k] == gw.id@);
            if q < ids.len() {
                assert(ids[q] == gw.platforms@[j].id@);
                assert(e.running@[k].platforms@[q].ctx.cfg.id@ == gw.platforms@[j].id@);
            }
        }
    }
}

/// The counters are those of a platform that runs under the ids.
pub open spec fn tells_platform(
    e: Engine,
    gateway_id: Seq<char>,
    platform_id: Seq<char>,
    c: StatsSnapshot,
) -> bool {
    exists|g: int, p: int|
        0 <= g < e.running@.len() && 0 <= p < e.running@[g].platforms@.len()
            && e.running@[g].id@ == gateway_id && (
        #[trigger] e.running@[g].platforms@[p]).ctx.cfg.id@ == platform_id
            && e.running@[g].platforms@[p].ctx.stats.counters() == c
}

} // verus!
