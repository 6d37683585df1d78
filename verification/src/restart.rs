//! Starting again the gateways that were running when the program ended.
use vstd::prelude::*;

use crate::config::GatewayConfig;
use crate::engine;
use crate::engine::{
    gateway_ids, is_started, marked, place_of, refusal_among, running_ids, with_state, Engine,
};

verus! {

/// What kept gateways from listening, as texts.
pub open spec fn hindrances(s: Seq<Option<String>>) -> Seq<Option<Seq<char>>> {
    s.map_values(
        |h: Option<String>|
            match h {
                Some(why) => Some(why@),
                None => None,
            },
    )
}

/// Gateways that were not started and why, as texts.
pub open spec fn failure_views(s: Seq<(String, String)>) -> Seq<(Seq<char>, Seq<char>)> {
    s.map_values(|f: (String, String)| (f.0@, f.1@))
}

/// Why a gateway is not started where `running` run: it is refused, or something keeps its
/// platforms from listening.
pub open spec fn failure(
    gateways: Seq<GatewayConfig>,
    running: Seq<Seq<char>>,
    id: Seq<char>,
    hindrance: Option<Seq<char>>,
) -> Option<Seq<char>> {
    match refusal_among(gateways, running, id) {
        Some(why) => Some(why),
        None => hindrance,
    }
}

/// The gateways that run after each of `ids` was tried in turn.
pub open spec fn running_after(
    gateways: Seq<GatewayConfig>,
    running: Seq<Seq<char>>,
    ids: Seq<Seq<char>>,
    hs: Seq<Option<Seq<char>>>,
) -> Seq<Seq<char>>
    decreases ids.len(),
{
    if ids.len() == 0 {
        running
    } else {
        let before = running_after(gateways, running, ids.drop_last(), hs.drop_last());
        if failure(gateways, before, ids.last(), hs.last()) is None {
            before.push(ids.last())
        } else {
            before
        }
    }
}

/// The gateways of `ids` that were not started when each was tried in turn, and why.
pub open spec fn failures_of(
    gateways: Seq<GatewayConfig>,
    running: Seq<Seq<char>>,
    ids: Seq<Seq<char>>,
    hs: Seq<Option<Seq<char>>>,
) -> Seq<(Seq<char>, Seq<char>)>
    decreases ids.len(),
{
    if ids.len() == 0 {
        Seq::empty()
    } else {
        let before = running_after(gateways, running, ids.drop_last(), hs.drop_last());
        let failed = failures_of(gateways, running, ids.drop_last(), hs.drop_last());
        match failure(gateways, before, ids.last(), hs.last()) {
            Some(why) => failed.push((ids.last(), why)),
            None => failed,
        }
    }
}

/// The gateways after several were started.
pub open spec fn with_started(s: Seq<GatewayConfig>, ids: Seq<Seq<char>>) -> Seq<GatewayConfig>
    decreases ids.len(),
{
    if ids.len() == 0 {
        s
    } else {
        with_state(with_started(s, ids.drop_last()), ids.last(), true)
    }
}

/// The same gateways, but for whether they were running.
pub open spec fn alike(s: Seq<GatewayConfig>, t: Seq<GatewayConfig>) -> bool {
    &&& s.len() == t.len()
    &&& forall|i: int|
        0 <= i < s.len() ==> #[trigger] t[i] == (GatewayConfig {
            was_running: t[i].was_running,
            ..s[i]
        })
}

proof fn lemma_alike(s: Seq<GatewayConfig>, t: Seq<GatewayConfig>)
    requires
        alike(s, t),
    ensures
        gateway_ids(t) == gateway_ids(s),
        forall|running: Seq<Seq<char>>, id: Seq<char>| #[trigger]
            refusal_among(t, running, id) == refusal_among(s, running, id),
{
    assert forall|i: int| 0 <= i < s.len() implies #[trigger] gateway_ids(t)[i] == gateway_ids(
        s,
    )[i] by {
        assert(t[i].id == s[i].id);
    }
    assert(gateway_ids(t) =~= gateway_ids(s));
    assert forall|running: Seq<Seq<char>>, id: Seq<char>| #[trigger]
        refusal_among(t, running, id) == refusal_among(s, running, id) by {
        let k = place_of(gateway_ids(s), id);
        engine::lemma_place_of(gateway_ids(s), id);
        if k < s.len() {
            assert(t[k].platforms == s[k].platforms);
        }
    }
}

proof fn lemma_state_alike(s: Seq<GatewayConfig>, t: Seq<GatewayConfig>, id: Seq<char>)
    requires
        alike(s, t),
    ensures
        alike(s, with_state(t, id, true)),
{
    engine::lemma_place_of(gateway_ids(t), id);
    let k = place_of(gateway_ids(t), id);
    let u = with_state(t, id, true);
    assert forall|i: int| 0 <= i < s.len() implies #[trigger] u[i] == (GatewayConfig {
        was_running: u[i].was_running,
        ..s[i]
    }) by {
        assert(t[i] == (GatewayConfig { was_running: t[i].was_running, ..s[i] }));
    }
}

/// A gateway that is started as configured is so whatever was noted of it.
proof fn lemma_started_alike(a: GatewayConfig, b: GatewayConfig, live: engine::RunningGateway)
    requires
        b == (GatewayConfig { was_running: b.was_running, ..a }),
        is_started(b, live),
    ensures
        is_started(a, live),
{
    assert forall|i: int| 0 <= i < a.platforms@.len() implies engine::is_fresh(
        a,
        a.platforms@[i],
        #[trigger] live.platforms@[i],
    ) by {
        assert(engine::is_fresh(b, b.platforms@[i], live.platforms@[i]));
    }
}

impl Engine {
    /// Starts the gateways that were running when the program ended, one after the other.
    /// `hs` says of each of them what kept it from listening. Returns those that were
    /// not started, in their order, and why.
    pub fn auto_start_previous(&mut self, hs: &Vec<Option<String>>) -> (r: Vec<(String, String)>)
        requires
            hs@.len() == marked(old(self).gateways@).len(),
        ensures
            failure_views(r@) == failures_of(
                old(self).gateways@,
                running_ids(old(self).running@),
                marked(old(self).gateways@),
                hindrances(hs@),
            ),
            running_ids(final(self).running@) == running_after(
                old(self).gateways@,
                running_ids(old(self).running@),
                marked(old(self).gateways@),
                hindrances(hs@),
            ),
            final(self).running@.len() >= old(self).running@.len(),
            final(self).running@.take(old(self).running@.len() as int) == old(self).running@,
            forall|i: int|
                old(self).running@.len() <= i < final(self).running@.len() ==> is_started(
                    old(self).gateways@[place_of(
                        gateway_ids(old(self).gateways@),
                        running_ids(final(self).running@)[i],
                    )],
                    #[trigger] final(self).running@[i],
                ),
            final(self).gateways@ == with_started(
                old(self).gateways@,
                running_ids(final(self).running@).skip(old(self).running@.len() as int),
            ),
            old(self).wf() ==> final(self).wf(),
    {
        let ids = self.previously_running();
        let ghost first = old(self).gateways@;
        let ghost ran = running_ids(old(self).running@);
        let ghost n0 = old(self).running@.len() as int;
        let ghost names = marked(first);
        let ghost hv = hindrances(hs@);
        let mut failed: Vec<(String, String)> = Vec::new();
        let mut i: usize = 0;
        proof {
            assert(ids@.map_values(|s: String| s@).len() == ids@.len());
            assert(ran.skip(n0) =~= Seq::<Seq<char>>::empty());
            assert(names.take(0) =~= Seq::<Seq<char>>::empty());
            assert(failure_views(failed@) =~= Seq::<(Seq<char>, Seq<char>)>::empty());
            assert(self.running@.take(n0) =~= old(self).running@);
        }
        while i < ids.len()
            invariant
                i <= ids@.len(),
                ids@.len() == hs@.len(),
                ids@.map_values(|s: String| s@) == names,
                first == old(self).gateways@,
                ran == running_ids(old(self).running@),
                n0 == old(self).running@.len(),
                names == marked(first),
                hv == hindrances(hs@),
                alike(first, self.gateways@),
                failure_views(failed@) == failures_of(
                    first,
                    ran,
                    names.take(i as int),
                    hv.take(i as int),
                ),
                running_ids(self.running@) == running_after(
                    first,
                    ran,
                    names.take(i as int),
                    hv.take(i as int),
                ),
                self.running@.len() >= n0,
                self.running@.take(n0) == old(self).running@,
                forall|k: int|
                    n0 <= k < self.running@.len() ==> is_started(
                        first[place_of(gateway_ids(first), running_ids(self.running@)[k])],
                        #[trigger] self.running@[k],
                    ),
                self.gateways@ == with_started(first, running_ids(self.running@).skip(n0)),
                old(self).wf() ==> self.wf(),
            decreases ids@.len() - i,
        {
            let id = ids[i].as_str();
            let ghost now = *self;
            proof {
                let t = names.take(i + 1);
                let u = hv.take(i + 1);
                assert(ids@.map_values(|s: String| s@)[i as int] == ids@[i as int]@);
                assert(t.drop_last() =~= names.take(i as int));
                assert(u.drop_last() =~= hv.take(i as int));
                assert(t.last() == id@);
                assert(u.last() == hv[i as int]);
                lemma_alike(first, self.gateways@);
            }
            let why: Option<String> = match self.refusal(id) {
                Some(why) => Some(why),
                None => match &hs[i] {
                    Some(why) => Some(why.clone()),
                    None => None,
                },
            };
            match why {
                Some(text) => {
                    let ghost was = failed@;
                    let pair = (ids[i].clone(), text);
                    failed.push(pair);
                    assert(failure_views(failed@) =~= failure_views(was).push((pair.0@, pair.1@)));
                },
                None => {
                    let _ = self.start_gateway(id);
                    proof {
                        lemma_grown(first, now, *self, id@, n0);
                    }
                },
            }
            i += 1;
        }
        proof {
            assert(names.take(i as int) =~= names);
            assert(hv.take(i as int) =~= hv);
        }
        failed
    }
}

/// One more gateway was started.
proof fn lemma_grown(first: Seq<GatewayConfig>, before: Engine, after: Engine, id: Seq<char>, n0: int)
    requires
        alike(first, before.gateways@),
        engine::start_refusal(before, id) is None,
        engine::is_start(before, id, after, Ok(())),
        0 <= n0 <= before.running@.len(),
        before.gateways@ == with_started(first, running_ids(before.running@).skip(n0)),
        forall|k: int|
            n0 <= k < before.running@.len() ==> is_started(
                first[place_of(gateway_ids(first), running_ids(before.running@)[k])],
                #[trigger] before.running@[k],
            ),
    ensures
        alike(first, after.gateways@),
        running_ids(after.running@) == running_ids(before.running@).push(id),
        after.running@.take(n0) == before.running@.take(n0),
        after.gateways@ == with_started(first, running_ids(after.running@).skip(n0)),
        forall|k: int|
            n0 <= k < after.running@.len() ==> is_started(
                first[place_of(gateway_ids(first), running_ids(after.running@)[k])],
                #[trigger] after.running@[k],
            ),
{
    lemma_state_alike(first, before.gateways@, id);
    lemma_alike(first, before.gateways@);
    let at = place_of(gateway_ids(first), id);
    engine::lemma_place_of(gateway_ids(first), id);
    let gw = before.gateways@[at];
    let live = after.running@.last();
    let n = before.running@.len() as int;
    assert(gateway_ids(before.gateways@)[at] == id);
    assert(after.running@ =~= before.running@.push(live));
    assert(running_ids(after.running@) =~= running_ids(before.running@).push(id));
    assert(after.running@.take(n0) =~= before.running@.take(n0));
    let grown = running_ids(after.running@).skip(n0);
    assert(grown.drop_last() =~= running_ids(before.running@).skip(n0));
    assert(grown.last() == id);
    lemma_started_alike(first[at], gw, live);
    assert forall|k: int| n0 <= k < after.running@.len() implies is_started(
        first[place_of(gateway_ids(first), running_ids(after.running@)[k])],
        #[trigger] after.running@[k],
    ) by {
        if k < n {
            assert(after.running@[k] == before.running@[k]);
            assert(running_ids(after.running@)[k] == running_ids(before.running@)[k]);
        } else {
            assert(after.running@[k] == live);
            assert(running_ids(after.running@)[k] == id);
        }
    }
}

/// The ids of gateways that were not started.
pub open spec fn failed_ids(failed: Seq<(Seq<char>, Seq<char>)>) -> Seq<Seq<char>> {
    failed.map_values(|f: (Seq<char>, Seq<char>)| f.0)
}

/// Whether an id runs, and whether it failed, after several different ones were tried.
proof fn lemma_tried(
    gateways: Seq<GatewayConfig>,
    ids: Seq<Seq<char>>,
    hs: Seq<Option<Seq<char>>>,
    id: Seq<char>,
)
    requires
        ids.len() == hs.len(),
        forall|i: int, j: int| 0 <= i < j < ids.len() ==> #[trigger] ids[i] != #[trigger] ids[j],
    ensures
        ({
            let ran = running_after(gateways, Seq::empty(), ids, hs);
            let failed = failed_ids(failures_of(gateways, Seq::empty(), ids, hs));
            &&& ran.contains(id) ==> ids.contains(id)
            &&& failed.contains(id) ==> ids.contains(id)
            &&& ids.contains(id) ==> ran.contains(id) != failed.contains(id)
        }),
    decreases ids.len(),
{
    let none = Seq::<Seq<char>>::empty();
    let ran = running_after(gateways, none, ids, hs);
    let failed = failed_ids(failures_of(gateways, none, ids, hs));
    if ids.len() > 0 {
        let front = ids.drop_last();
        let last = ids.last();
        let ran0 = running_after(gateways, none, front, hs.drop_last());
        let list0 = failures_of(gateways, none, front, hs.drop_last());
        let failed0 = failed_ids(list0);
        assert forall|i: int, j: int| 0 <= i < j < front.len() implies #[trigger] front[i]
            != #[trigger] front[j] by {
            assert(ids[i] != ids[j]);
        }
        lemma_tried(gateways, front, hs.drop_last(), id);
        assert(ids =~= front.push(last));
        lemma_in_pushed(front, last, id);
        lemma_in_pushed(ran0, last, id);
        lemma_in_pushed(failed0, last, id);
        if id == last && front.contains(id) {
            let i = choose|i: int| 0 <= i < front.len() && front[i] == id;
            assert(ids[i] != ids[ids.len() - 1]);
        }
        match failure(gateways, ran0, last, hs.last()) {
            Some(why) => {
                assert(failed =~= failed0.push(last));
            },
            None => {},
        }
    }
}

proof fn lemma_in_pushed(s: Seq<Seq<char>>, x: Seq<char>, key: Seq<char>)
    ensures
        s.push(x).contains(key) <==> s.contains(key) || x == key,
{
    let t = s.push(x);
    if t.contains(key) {
        let i = choose|i: int| 0 <= i < t.len() && t[i] == key;
        if i < s.len() {
            assert(s[i] == key);
        }
    }
    if s.contains(key) {
        let i = choose|i: int| 0 <= i < s.len() && s[i] == key;
        assert(t[i] == key);
    }
    if x == key {
        assert(t[s.len() as int] == key);
    }
}

proof fn lemma_marked_distinct(s: Seq<GatewayConfig>)
    requires
        engine::ids_distinct(s),
    ensures
        forall|i: int, j: int|
            0 <= i < j < marked(s).len() ==> #[trigger] marked(s)[i] != #[trigger] marked(s)[j],
    decreases s.len(),
{
    if s.len() > 0 {
        let t = s.drop_last();
        assert forall|i: int, j: int| 0 <= i < j < t.len() implies (#[trigger] t[i]).id@ != (
        #[trigger] t[j]).id@ by {
            assert(s[i].id@ != s[j].id@);
        }
        lemma_marked_distinct(t);
        if s.last().was_running {
            let key = s.last().id@;
            engine::lemma_marked(t, key);
            assert(!marked(t).contains(key)) by {
                if marked(t).contains(key) {
                    let i = choose|i: int|
                        0 <= i < t.len() && (#[trigger] t[i]).was_running && t[i].id@ == key;
                    assert(s[i].id@ != s[s.len() - 1].id@);
                }
            }
            assert forall|i: int, j: int| 0 <= i < j < marked(s).len() implies #[trigger] marked(s)[i]
                != #[trigger] marked(s)[j] by {
                assert(marked(t)[i] == marked(s)[i]);
                if j < marked(t).len() {
                    assert(marked(t)[j] == marked(s)[j]);
                } else {
                    assert(marked(t).contains(marked(t)[i]));
                }
            }
        } else {
            assert(marked(s) == marked(t));
        }
    }
}

/// When the program comes back and nothing runs yet, exactly those gateways run afterwards
/// that were running and are not among those that failed; only gateways that were running
/// fail, and where none was, nothing is started and nothing fails.
pub proof fn law_restart(gateways: Seq<GatewayConfig>, hs: Seq<Option<Seq<char>>>, k: int)
    requires
        engine::ids_distinct(gateways),
        hs.len() == marked(gateways).len(),
        0 <= k < gateways.len(),
    ensures
        ({
            let ran = running_after(gateways, Seq::empty(), marked(gateways), hs);
            let failed = failures_of(gateways, Seq::empty(), marked(gateways), hs);
            let id = gateways[k].id@;
            &&& ran.contains(id) <==> gateways[k].was_running && !failed_ids(failed).contains(id)
            &&& failed_ids(failed).contains(id) ==> gateways[k].was_running
            &&& marked(gateways).len() == 0 ==> ran.len() == 0 && failed.len() == 0
        }),
{
    let id = gateways[k].id@;
    lemma_marked_distinct(gateways);
    lemma_tried(gateways, marked(gateways), hs, id);
    engine::lemma_marked(gateways, id);
    if marked(gateways).contains(id) {
        let i = choose|i: int|
            0 <= i < gateways.len() && (#[trigger] gateways[i]).was_running && gateways[i].id@
                == id;
        if i < k {
            assert(gateways[i].id@ != gateways[k].id@);
        } else if k < i {
            assert(gateways[k].id@ != gateways[i].id@);
        }
    }
    if gateways[k].was_running {
        assert(marked(gateways).contains(id));
    }
}

/// Each gateway that is tried either runs afterwards or is named with the reason, once: none
/// is lost and none is told twice. What ran before keeps running, at its place.
pub proof fn law_each_runs_or_is_named(
    gateways: Seq<GatewayConfig>,
    running: Seq<Seq<char>>,
    ids: Seq<Seq<char>>,
    hs: Seq<Option<Seq<char>>>,
)
    requires
        hs.len() == ids.len(),
    ensures
        running_after(gateways, running, ids, hs).len() + failures_of(
            gateways,
            running,
            ids,
            hs,
        ).len() == running.len() + ids.len(),
        running_after(gateways, running, ids, hs).len() >= running.len(),
        forall|i: int|
            0 <= i < running.len() ==> #[trigger] running_after(gateways, running, ids, hs)[i]
                == running[i],
        forall|i: int|
            running.len() <= i < running_after(gateways, running, ids, hs).len() ==> ids.contains(
                #[trigger] running_after(gateways, running, ids, hs)[i],
            ),
        forall|i: int|
            0 <= i < failures_of(gateways, running, ids, hs).len() ==> ids.contains(
                (#[trigger] failures_of(gateways, running, ids, hs)[i]).0,
            ),
    decreases ids.len(),
{
    if ids.len() > 0 {
        let fewer = ids.drop_last();
        law_each_runs_or_is_named(gateways, running, fewer, hs.drop_last());
        assert(ids.contains(ids[ids.len() - 1]));
        assert forall|x: Seq<char>| #[trigger] fewer.contains(x) implies ids.contains(x) by {
            let k = choose|k: int| 0 <= k < fewer.len() && fewer[k] == x;
            assert(ids[k] == x);
        }
    }
}

/// A gateway runs once it was tried exactly where it is not refused and nothing keeps its
/// platforms from listening. One that is refused is named with the words of the refusal, and
/// one that is kept from listening with what kept it.
pub proof fn law_one_more_is_tried(
    gateways: Seq<GatewayConfig>,
    running: Seq<Seq<char>>,
    ids: Seq<Seq<char>>,
    hs: Seq<Option<Seq<char>>>,
    id: Seq<char>,
    hindrance: Option<Seq<char>>,
)
    requires
        hs.len() == ids.len(),
    ensures
        ({
            let before = running_after(gateways, running, ids, hs);
            let failed = failures_of(gateways, running, ids, hs);
            let after = running_after(gateways, running, ids.push(id), hs.push(hindrance));
            let told = failures_of(gateways, running, ids.push(id), hs.push(hindrance));
            match (refusal_among(gateways, before, id), hindrance) {
                (None, None) => after == before.push(id) && told == failed,
                (Some(why), _) => after == before && told == failed.push((id, why)),
                (None, Some(why)) => after == before && told == failed.push((id, why)),
            }
        }),
{
    assert(ids.push(id).drop_last() =~= ids);
    assert(hs.push(hindrance).drop_last() =~= hs);
}

} // verus!
