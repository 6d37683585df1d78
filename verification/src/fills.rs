//! How an order is cut into executions: how many, how many shares each, at which prices.
use vstd::prelude::*;

use crate::config::{CustomFill, StrategyConfig, StrategyMode};
use crate::rng;

verus! {

/// The shares of a lot.
pub const LOT: i64 = 100;

/// `v / d`, rounded towards zero.
pub open spec fn toward_zero(v: int, d: int) -> int {
    if v >= 0 {
        v / d
    } else {
        -((-v) / d)
    }
}

/// `v / d`, rounded towards zero.
pub fn div_toward_zero(v: i64, d: i64) -> (r: i64)
    requires
        d > 0,
    ensures
        r == toward_zero(v as int, d as int),
{
    if v >= 0 {
        v / d
    } else {
        proof {
            vstd::arithmetic::div_mod::lemma_div_nonincreasing(-v as int, d as int);
            vstd::arithmetic::div_mod::lemma_div_pos_is_pos(-v as int, d as int);
        }
        let q: i128 = (-(v as i128)) / (d as i128);
        (-q) as i64
    }
}

/// `v / d` for a positive `v`, rounded to the nearest number, halves up.
pub open spec fn rounded(v: int, d: int) -> int {
    v / d + (if 2 * (v % d) >= d {
        1int
    } else {
        0
    })
}

/// How many whole lots there are.
pub open spec fn lots(total: int) -> int {
    if total < 0 {
        0
    } else {
        total / 100
    }
}

fn lot_count(total: i64) -> (r: i64)
    ensures
        r == lots(total as int),
        0 <= r <= 92_233_720_368_547_758,
{
    if total < 0 {
        0
    } else {
        total / LOT
    }
}

/// The least number of executions of a split; the limits may be given in either order.
pub open spec fn split_low(st: StrategyConfig) -> int {
    let lo = if st.split_count_min <= st.split_count_max {
        st.split_count_min
    } else {
        st.split_count_max
    };
    if lo < 1 {
        1
    } else {
        lo as int
    }
}

/// The greatest number of executions of a split.
pub open spec fn split_high(st: StrategyConfig) -> int {
    let hi = if st.split_count_min <= st.split_count_max {
        st.split_count_max
    } else {
        st.split_count_min
    };
    if hi < 1 {
        1
    } else {
        hi as int
    }
}

/// How many executions to split into.
pub fn sample_split_count(st: &StrategyConfig) -> (r: u32)
    ensures
        split_low(*st) <= r <= split_high(*st),
{
    let (a, b): (u32, u32) = if st.split_count_min <= st.split_count_max {
        (st.split_count_min, st.split_count_max)
    } else {
        (st.split_count_max, st.split_count_min)
    };
    let lo: u32 = if a < 1 {
        1
    } else {
        a
    };
    let hi: u32 = if b < 1 {
        1
    } else {
        b
    };
    if lo == hi {
        lo
    } else {
        rng::gen_range(lo as u64, hi as u64) as u32
    }
}

/// A quantity that leaves something open: whole lots where there are two or more, half of
/// the shares otherwise.
pub open spec fn is_part(total: int, part: int) -> bool {
    if lots(total) >= 2 {
        part % 100 == 0 && 100 <= part <= 100 * (lots(total) - 1)
    } else if total > 1 {
        part == total / 2
    } else {
        part == 1
    }
}

/// A part of the shares of an order.
pub fn partial_shares(total_shares: i64) -> (r: i64)
    ensures
        is_part(total_shares as int, r as int),
{
    let units: i64 = lot_count(total_shares);
    if units >= 2 {
        let k: u64 = rng::gen_range(1, (units - 1) as u64);
        partial_from(total_shares, k as i64)
    } else if total_shares > 1 {
        total_shares / 2
    } else {
        1
    }
}

/// The part that `k` lots make.
pub fn partial_from(total_shares: i64, k: i64) -> (r: i64)
    requires
        lots(total_shares as int) >= 2,
        1 <= k <= lots(total_shares as int) - 1,
    ensures
        r == k * 100,
        is_part(total_shares as int, r as int),
{
    LOT * k
}

/// A partial fill leaves something open, where there is more than one share.
pub proof fn law_part_leaves_some(total: int, part: int)
    requires
        is_part(total, part),
        total >= 2,
    ensures
        1 <= part < total,
{
}

/// The sum of shares.
pub open spec fn sum(s: Seq<i64>) -> int
    decreases s.len(),
{
    if s.len() == 0 {
        0
    } else {
        sum(s.drop_last()) + s.last()
    }
}

/// How many pieces `total` shares are cut into where `n` are asked for: no more than there
/// are lots, and at least one.
pub open spec fn piece_count(total: int, n: int) -> int {
    if lots(total) <= 1 || n <= 1 {
        1
    } else if n > lots(total) {
        lots(total)
    } else {
        n
    }
}

/// The pieces that come of taking so many lots each, and the rest.
pub open spec fn split_by(total: int, takes: Seq<i64>) -> Seq<int> {
    Seq::new(
        (takes.len() + 1) as nat,
        |i: int|
            if i < takes.len() {
                takes[i] * 100
            } else {
                total - sum(takes) * 100
            },
    )
}

/// Shares cut into pieces: they add up to the total, all but the last are whole lots, and
/// none of several is less than a lot.
pub open spec fn is_split(total: int, n: int, r: Seq<i64>) -> bool {
    &&& r.len() == piece_count(total, n)
    &&& sum(r) == total
    &&& forall|i: int| 0 <= i < r.len() - 1 ==> #[trigger] r[i] % 100 == 0 && r[i] >= 100
    &&& r.len() > 1 ==> r.last() >= 100
}

/// Lots that can be taken: at least one each, and at least one is left.
pub open spec fn takes_ok(total: int, takes: Seq<i64>) -> bool {
    &&& forall|i: int| 0 <= i < takes.len() ==> 1 <= #[trigger] takes[i]
    &&& takes.len() > 0 ==> sum(takes) <= lots(total) - 1
}

proof fn lemma_sum_bound(s: Seq<i64>, k: int)
    requires
        forall|i: int| 0 <= i < s.len() ==> 1 <= #[trigger] s[i],
        0 <= k <= s.len(),
    ensures
        k <= sum(s.take(k)) <= sum(s),
    decreases s.len(),
{
    if k == s.len() {
        assert(s.take(k) =~= s);
        if s.len() > 0 {
            let t = s.drop_last();
            assert forall|i: int| 0 <= i < t.len() implies 1 <= #[trigger] t[i] by {
                assert(t[i] == s[i]);
            }
            lemma_sum_bound(t, t.len() as int);
            assert(t.take(t.len() as int) =~= t);
            assert(1 <= s[s.len() - 1]);
        }
    } else {
        let t = s.drop_last();
        assert forall|i: int| 0 <= i < t.len() implies 1 <= #[trigger] t[i] by {
            assert(t[i] == s[i]);
        }
        lemma_sum_bound(t, k);
        assert(t.take(k) =~= s.take(k));
        assert(1 <= s[s.len() - 1]);
    }
}

proof fn lemma_sum_scaled(s: Seq<i64>, r: Seq<i64>)
    requires
        s.len() == r.len(),
        forall|i: int| 0 <= i < s.len() ==> #[trigger] r[i] == s[i] * 100,
    ensures
        sum(r) == sum(s) * 100,
    decreases s.len(),
{
    if s.len() > 0 {
        assert forall|i: int| 0 <= i < s.len() - 1 implies #[trigger] r.drop_last()[i]
            == s.drop_last()[i] * 100 by {
            assert(r[i] == s[i] * 100);
        }
        lemma_sum_scaled(s.drop_last(), r.drop_last());
        assert(r[s.len() - 1] == s[s.len() - 1] * 100);
    }
}

/// Cuts shares into pieces: so many lots each, and the rest.
pub fn split_from(total_shares: i64, takes: &Vec<i64>) -> (r: Vec<i64>)
    requires
        takes_ok(total_shares as int, takes@),
    ensures
        r@.map_values(|v: i64| v as int) == split_by(total_shares as int, takes@),
        sum(r@) == total_shares,
        forall|i: int| 0 <= i < takes@.len() ==> #[trigger] r@[i] == takes@[i] * 100,
{
    let mut result: Vec<i64> = Vec::new();
    let mut left: i64 = total_shares;
    let mut i: usize = 0;
    proof {
        lemma_sum_bound(takes@, takes@.len() as int);
        assert(takes@.take(takes@.len() as int) =~= takes@);
    }
    while i < takes.len()
        invariant
            i <= takes@.len(),
            takes_ok(total_shares as int, takes@),
            result@.len() == i,
            forall|k: int| 0 <= k < i ==> #[trigger] result@[k] == takes@[k] * 100,
            left == total_shares - sum(takes@.take(i as int)) * 100,
            takes@.len() > 0 ==> left >= 0,
        decreases takes@.len() - i,
    {
        proof {
            let t = takes@.take(i + 1);
            assert(t.drop_last() =~= takes@.take(i as int));
            assert(t.last() == takes@[i as int]);
            lemma_sum_bound(takes@, i + 1);
            lemma_sum_bound(takes@, i as int);
        }
        result.push(takes[i] * LOT);
        left = left - takes[i] * LOT;
        i += 1;
    }
    assert(takes@.take(i as int) =~= takes@);
    let ghost pieces = result@;
    result.push(left);
    proof {
        lemma_sum_scaled(takes@, pieces);
        assert(result@.drop_last() =~= pieces);
    }
    assert(result@.map_values(|v: i64| v as int) =~= split_by(total_shares as int, takes@));
    result
}

/// Cuts shares at random into `n` pieces, where there are enough lots.
pub fn split_shares(total_shares: i64, n: u32) -> (r: Vec<i64>)
    ensures
        is_split(total_shares as int, n as int, r@),
{
    let units: i64 = lot_count(total_shares);
    let mut takes: Vec<i64> = Vec::new();
    if n <= 1 || units <= 1 {
        let r = split_from(total_shares, &takes);
        assert(r@.len() == 1) by {
            assert(r@.map_values(|v: i64| v as int).len() == 1);
        }
        return r;
    }
    let m: i64 = if n as i64 > units {
        units
    } else {
        n as i64
    };
    let mut remaining: i64 = units;
    let mut i: i64 = 0;
    assert(takes@.take(0) =~= takes@);
    while i < m - 1
        invariant
            2 <= m <= units,
            units == lots(total_shares as int),
            0 <= i <= m - 1,
            takes@.len() == i,
            remaining == units - sum(takes@),
            remaining >= m - i,
            forall|k: int| 0 <= k < i ==> 1 <= #[trigger] takes@[k],
        decreases m - i,
    {
        let reserve: i64 = m - 1 - i;
        let take: i64 = rng::gen_range(1, (remaining - reserve) as u64) as i64;
        let ghost before = takes@;
        takes.push(take);
        assert(takes@.drop_last() =~= before);
        remaining = remaining - take;
        i += 1;
    }
    let r = split_from(total_shares, &takes);
    proof {
        assert(r@.len() == m) by {
            assert(r@.map_values(|v: i64| v as int).len() == takes@.len() + 1);
        }
        assert forall|k: int| 0 <= k < r@.len() - 1 implies #[trigger] r@[k] % 100 == 0 && r@[k] >= 100 by {
            assert(r@[k] == takes@[k] * 100);
        }
        assert(r@.last() >= 100) by {
            assert(r@.map_values(|v: i64| v as int)[m - 1] == total_shares - sum(takes@) * 100);
        }
    }
    r
}

/// The price of the execution that has `steps` more behind it: a buy climbs to its limit
/// and never pays less than a tick, a sale descends to its limit.
pub open spec fn ladder(price: int, sell: bool, tick: int, steps: int) -> int {
    if sell {
        price + tick * steps
    } else if price - tick * steps > tick {
        price - tick * steps
    } else {
        tick
    }
}

/// A ladder of so many steps stays in the range of numbers.
pub open spec fn ladder_range(price: int, sell: bool, tick: int, steps: int) -> bool {
    &&& tick >= 1
    &&& tick * steps <= i64::MAX
    &&& sell ==> price + tick * steps <= i64::MAX
    &&& !sell ==> price - tick * steps >= i64::MIN
}

/// Fewer steps need less room.
proof fn lemma_fewer_steps(price: int, sell: bool, tick: int, steps: int, fewer: int)
    requires
        ladder_range(price, sell, tick, steps),
        0 <= fewer <= steps,
    ensures
        ladder_range(price, sell, tick, fewer),
{
    assert(tick * fewer <= tick * steps) by (nonlinear_arith)
        requires
            tick >= 1,
            0 <= fewer <= steps,
    ;
}

/// The price of the execution that has `steps` more behind it.
pub fn ladder_price(price: i64, sell: bool, tick: i64, steps: u32) -> (r: i64)
    requires
        ladder_range(price as int, sell, tick as int, steps as int),
    ensures
        r == ladder(price as int, sell, tick as int, steps as int),
{
    assert(0 <= tick * steps <= 0x8000_0000_0000_0000 * 0x1_0000_0000) by (nonlinear_arith)
        requires
            1 <= tick <= 0x7fff_ffff_ffff_ffff,
            0 <= steps <= 0xffff_ffff,
    ;
    let off: i128 = (tick as i128) * (steps as i128);
    if sell {
        (price as i128 + off) as i64
    } else {
        let p: i64 = (price as i128 - off) as i64;
        if p > tick {
            p
        } else {
            tick
        }
    }
}

/// The last execution of a split is at the limit, earlier ones are better or equal for the
/// other side's book, and none is past the limit: a buy at or above one tick never pays
/// more, a sale never gets less.
pub proof fn law_ladder(price: int, sell: bool, tick: int, steps: int, later: int)
    requires
        tick >= 1,
        0 <= later <= steps,
        sell || price >= tick,
    ensures
        ladder(price, sell, tick, 0) == price,
        sell ==> ladder(price, sell, tick, steps) >= ladder(price, sell, tick, later) >= price,
        !sell ==> ladder(price, sell, tick, steps) <= ladder(price, sell, tick, later) <= price,
{
    assert(tick * 0 == 0);
    assert(0 <= tick * later <= tick * steps) by (nonlinear_arith)
        requires
            tick >= 1,
            0 <= later <= steps,
    ;
}

/// Configured executions, in shares and configured prices: quantities that are not positive
/// are left out, and no more is filled than is open.
pub open spec fn custom(list: Seq<CustomFill>, open: int) -> Seq<(int, int)>
    decreases list.len(),
{
    if list.len() == 0 || open <= 0 {
        Seq::empty()
    } else if list[0].qty <= 0 {
        custom(list.drop_first(), open)
    } else {
        let asked = rounded(list[0].qty as int, 1000);
        let shares = if asked < 1 {
            1
        } else if asked > open {
            open
        } else {
            asked
        };
        seq![(shares, list[0].price as int)] + custom(list.drop_first(), open - shares)
    }
}

/// Shares and prices.
pub open spec fn pairs(s: Seq<(i64, i64)>) -> Seq<(int, int)> {
    s.map_values(|p: (i64, i64)| (p.0 as int, p.1 as int))
}

/// Configured executions, in shares and configured prices.
pub fn custom_shares(list: &Vec<CustomFill>, total_shares: i64) -> (r: Vec<(i64, i64)>)
    ensures
        pairs(r@) == custom(list@, total_shares as int),
{
    let mut out: Vec<(i64, i64)> = Vec::new();
    let mut open: i64 = total_shares;
    let mut i: usize = 0;
    assert(list@.skip(0) =~= list@);
    assert(pairs(out@) + custom(list@.skip(0), open as int) =~= custom(list@, total_shares as int));
    while i < list.len() && open > 0
        invariant
            i <= list@.len(),
            pairs(out@) + custom(list@.skip(i as int), open as int) =~= custom(
                list@,
                total_shares as int,
            ),
        decreases list@.len() - i,
    {
        let f = list[i];
        assert(list@.skip(i as int).drop_first() =~= list@.skip(i + 1));
        assert(list@.skip(i as int)[0] == f);
        if f.qty > 0 {
            let asked: i64 = f.qty / 1000 + (if 2 * (f.qty % 1000) >= 1000 {
                1
            } else {
                0
            });
            let shares: i64 = if asked < 1 {
                1
            } else if asked > open {
                open
            } else {
                asked
            };
            let ghost before = pairs(out@);
            out.push((shares, f.price));
            assert(pairs(out@) =~= before.push((shares as int, f.price as int)));
            open = open - shares;
        }
        i += 1;
    }
    assert(custom(list@.skip(i as int), open as int) =~= Seq::<(int, int)>::empty());
    out
}

/// The sum of the shares of configured executions.
pub open spec fn pair_sum(s: Seq<(int, int)>) -> int
    decreases s.len(),
{
    if s.len() == 0 {
        0
    } else {
        pair_sum(s.drop_last()) + s.last().0
    }
}

proof fn lemma_pair_sum_front(x: (int, int), s: Seq<(int, int)>)
    ensures
        pair_sum(seq![x] + s) == x.0 + pair_sum(s),
    decreases s.len(),
{
    let t = seq![x] + s;
    if s.len() == 0 {
        assert(t.drop_last() =~= Seq::<(int, int)>::empty());
        assert(pair_sum(Seq::<(int, int)>::empty()) == 0);
    } else {
        assert(t.drop_last() =~= seq![x] + s.drop_last());
        lemma_pair_sum_front(x, s.drop_last());
    }
}

/// Configured executions never fill more than the order: each fills at least a share, and
/// all together no more than is open.
pub proof fn law_custom_within(list: Seq<CustomFill>, open: int)
    requires
        open >= 0,
    ensures
        0 <= pair_sum(custom(list, open)) <= open,
        forall|i: int|
            0 <= i < custom(list, open).len() ==> 1 <= (#[trigger] custom(list, open)[i]).0 <= open,
        custom(list, open).len() <= list.len(),
        custom(list, open).len() <= open,
    decreases list.len(),
{
    if list.len() > 0 && open > 0 {
        if list[0].qty <= 0 {
            law_custom_within(list.drop_first(), open);
        } else {
            let c = custom(list, open);
            let shares = c[0].0;
            let rest = custom(list.drop_first(), open - shares);
            assert(c =~= seq![(shares, list[0].price as int)] + rest);
            lemma_pair_sum_front((shares, list[0].price as int), rest);
            law_custom_within(list.drop_first(), open - shares);
            assert forall|i: int| 0 <= i < c.len() implies 1 <= (#[trigger] c[i]).0 <= open by {
                if i > 0 {
                    assert(c[i] == rest[i - 1]);
                }
            }
        }
    }
}

/// Sums of the first of several positive numbers are no greater than the sum of all.
proof fn lemma_pair_prefix(s: Seq<(int, int)>, k: int)
    requires
        forall|i: int| 0 <= i < s.len() ==> 1 <= (#[trigger] s[i]).0,
        0 <= k <= s.len(),
    ensures
        0 <= pair_sum(s.take(k)) <= pair_sum(s),
    decreases s.len(),
{
    if k == s.len() {
        assert(s.take(k) =~= s);
        if s.len() > 0 {
            let t = s.drop_last();
            assert forall|i: int| 0 <= i < t.len() implies 1 <= (#[trigger] t[i]).0 by {
                assert(t[i] == s[i]);
            }
            lemma_pair_prefix(t, t.len() as int);
            assert(1 <= s[s.len() - 1].0);
        }
    } else {
        let t = s.drop_last();
        assert forall|i: int| 0 <= i < t.len() implies 1 <= (#[trigger] t[i]).0 by {
            assert(t[i] == s[i]);
        }
        lemma_pair_prefix(t, k);
        assert(t.take(k) =~= s.take(k));
        assert(1 <= s[s.len() - 1].0);
    }
}

/// The quantities of executions that are `unit` times the shares add up to `unit` times
/// what the shares add up to.
proof fn lemma_scaled_pairs(c: Seq<(int, int)>, fs: Seq<(i64, i64)>, unit: int, k: int)
    requires
        fs.len() == c.len(),
        forall|i: int| 0 <= i < fs.len() ==> (#[trigger] fs[i]).0 == c[i].0 * unit,
        0 <= k <= fs.len(),
    ensures
        qty_sum(fs.take(k)) == pair_sum(c.take(k)) * unit,
    decreases k,
{
    if k == 0 {
        assert(fs.take(0) =~= Seq::<(i64, i64)>::empty());
        assert(c.take(0) =~= Seq::<(int, int)>::empty());
        assert(pair_sum(c.take(0)) * unit == 0) by (nonlinear_arith)
            requires
                pair_sum(c.take(0)) == 0,
        ;
    } else {
        lemma_scaled_pairs(c, fs, unit, k - 1);
        assert(fs.take(k).drop_last() =~= fs.take(k - 1));
        assert(c.take(k).drop_last() =~= c.take(k - 1));
        assert(fs[k - 1].0 == c[k - 1].0 * unit);
        assert((pair_sum(c.take(k - 1)) + c[k - 1].0) * unit == pair_sum(c.take(k - 1)) * unit
            + c[k - 1].0 * unit) by (nonlinear_arith);
    }
}

/// Configured executions stay within the order at every step.
pub proof fn lemma_custom_prefix(
    list: Seq<CustomFill>,
    total: int,
    fs: Seq<(i64, i64)>,
    unit: int,
    k: int,
)
    requires
        unit >= 1,
        fs.len() == custom(list, total).len(),
        forall|i: int| 0 <= i < fs.len() ==> (#[trigger] fs[i]).0 == custom(list, total)[i].0 * unit,
        0 <= k <= fs.len(),
    ensures
        0 <= qty_sum(fs.take(k)),
        total >= 0 ==> qty_sum(fs.take(k)) <= total * unit,
        total < 0 ==> qty_sum(fs.take(k)) == 0,
{
    let c = custom(list, total);
    if total < 0 {
        assert(c =~= Seq::<(int, int)>::empty());
        assert(fs.take(k) =~= Seq::<(i64, i64)>::empty());
    } else {
        law_custom_within(list, total);
        lemma_pair_prefix(c, k);
        lemma_scaled_pairs(c, fs, unit, k);
        let p = pair_sum(c.take(k));
        assert(0 <= p * unit <= total * unit) by (nonlinear_arith)
            requires
                0 <= p <= total,
                unit >= 1,
        ;
    }
}

/// The first pieces of a split are no more than the whole.
proof fn lemma_split_prefix(total: int, n: int, q: Seq<i64>, k: int)
    requires
        is_split(total, n, q),
        0 <= k <= q.len(),
    ensures
        total >= 0 ==> 0 <= sum(q.take(k)) <= total,
        total < 0 ==> total <= sum(q.take(k)) <= 0,
{
    if q.len() == 1 {
        assert(q.take(1) =~= q);
        assert(q.take(0) =~= Seq::<i64>::empty());
    } else {
        assert forall|i: int| 0 <= i < q.len() implies 1 <= #[trigger] q[i] by {
            if i < q.len() - 1 {
                assert(q[i] >= 100);
            } else {
                assert(q.last() == q[i]);
            }
        }
        lemma_sum_bound(q, k);
    }
}

proof fn lemma_scaled_sum(q: Seq<i64>, fs: Seq<(i64, i64)>, unit: int, k: int)
    requires
        fs.len() == q.len(),
        forall|i: int| 0 <= i < fs.len() ==> (#[trigger] fs[i]).0 == q[i] * unit,
        0 <= k <= fs.len(),
    ensures
        qty_sum(fs.take(k)) == sum(q.take(k)) * unit,
    decreases k,
{
    if k == 0 {
        assert(fs.take(0) =~= Seq::<(i64, i64)>::empty());
        assert(q.take(0) =~= Seq::<i64>::empty());
        assert(sum(q.take(0)) * unit == 0) by (nonlinear_arith)
            requires
                sum(q.take(0)) == 0,
        ;
    } else {
        lemma_scaled_sum(q, fs, unit, k - 1);
        assert(fs.take(k).drop_last() =~= fs.take(k - 1));
        assert(q.take(k).drop_last() =~= q.take(k - 1));
        assert(fs[k - 1].0 == q[k - 1] * unit);
        assert((sum(q.take(k - 1)) + q[k - 1]) * unit == sum(q.take(k - 1)) * unit + q[k - 1]
            * unit) by (nonlinear_arith);
    }
}

/// Executions of a split stay within the order at every step, and fill what was split.
pub proof fn lemma_split_fills(total: int, n: int, q: Seq<i64>, fs: Seq<(i64, i64)>, unit: int, k: int)
    requires
        unit >= 1,
        is_split(total, n, q),
        fs.len() == q.len(),
        forall|i: int| 0 <= i < fs.len() ==> (#[trigger] fs[i]).0 == q[i] * unit,
        0 <= k <= fs.len(),
    ensures
        total >= 0 ==> 0 <= qty_sum(fs.take(k)) <= total * unit,
        total < 0 ==> total * unit <= qty_sum(fs.take(k)) <= 0,
        qty_sum(fs) == total * unit,
{
    lemma_split_prefix(total, n, q, k);
    lemma_scaled_sum(q, fs, unit, k);
    lemma_scaled_sum(q, fs, unit, fs.len() as int);
    assert(fs.take(fs.len() as int) =~= fs);
    assert(q.take(q.len() as int) =~= q);
    let p = sum(q.take(k));
    assert(total >= 0 ==> 0 <= p * unit <= total * unit) by (nonlinear_arith)
        requires
            total >= 0 ==> 0 <= p <= total,
            unit >= 1,
    ;
    assert(total < 0 ==> total * unit <= p * unit <= 0) by (nonlinear_arith)
        requires
            total < 0 ==> total <= p <= 0,
            unit >= 1,
    ;
}

/// A piece of a split is between nothing and the whole.
pub proof fn lemma_split_piece(total: int, n: int, q: Seq<i64>, i: int)
    requires
        is_split(total, n, q),
        0 <= i < q.len(),
    ensures
        total >= 0 ==> 0 <= q[i] <= total,
        total < 0 ==> q[i] == total,
{
    lemma_split_prefix(total, n, q, i);
    lemma_split_prefix(total, n, q, i + 1);
    assert(q.take(i + 1).drop_last() =~= q.take(i));
    if q.len() == 1 {
        assert(q.drop_last() =~= Seq::<i64>::empty());
        assert(sum(q) == sum(q.drop_last()) + q.last());
    } else if i < q.len() - 1 {
        assert(q[i] >= 100);
    } else {
        assert(q.last() == q[i]);
    }
}

/// The sum of the quantities of executions.
pub open spec fn qty_sum(s: Seq<(i64, i64)>) -> int
    decreases s.len(),
{
    if s.len() == 0 {
        0
    } else {
        qty_sum(s.drop_last()) + s.last().0
    }
}

/// The mode that applies to a business: without partial fills, partial and configured fills
/// become full ones.
pub open spec fn effective(mode: StrategyMode, allow_partial: bool) -> StrategyMode {
    if allow_partial {
        mode
    } else {
        match mode {
            StrategyMode::PartialSingle => StrategyMode::FullSingle,
            StrategyMode::PartialSplit => StrategyMode::FullSplit,
            StrategyMode::Custom => StrategyMode::FullSingle,
            m => m,
        }
    }
}

/// The mode that applies to a business.
pub fn effective_mode(mode: StrategyMode, allow_partial: bool) -> (r: StrategyMode)
    ensures
        r == effective(mode, allow_partial),
{
    if allow_partial {
        mode
    } else {
        match mode {
            StrategyMode::PartialSingle => StrategyMode::FullSingle,
            StrategyMode::PartialSplit => StrategyMode::FullSplit,
            StrategyMode::Custom => StrategyMode::FullSingle,
            m => m,
        }
    }
}

/// The scaled units of an exchange.
#[derive(Debug, Clone, Copy)]
pub struct Units {
    /// What a share is in the unit of quantities.
    pub share: i64,
    /// How many hundred-thousandths of a yuan the unit of prices is.
    pub price: i64,
}

impl Units {
    pub open spec fn wf(self) -> bool {
        1 <= self.share <= 1000 && 1 <= self.price <= 10
    }
}

/// What of an order decides its executions.
#[derive(Debug, Clone, Copy)]
pub struct Terms {
    pub qty: i64,
    pub price: i64,
    /// `1` buys, `2` sells.
    pub side: u8,
}

impl Terms {
    /// The whole shares.
    pub open spec fn shares(self, u: Units) -> int {
        toward_zero(self.qty as int, u.share as int)
    }
}

/// Whole shares are no more than what they were taken from.
proof fn lemma_whole_shares(v: int, d: int)
    requires
        1 <= d,
    ensures
        v >= 0 ==> 0 <= toward_zero(v, d) * d <= v && v - toward_zero(v, d) * d < d,
        v < 0 ==> v <= toward_zero(v, d) * d <= 0,
{
    if v >= 0 {
        vstd::arithmetic::div_mod::lemma_fundamental_div_mod(v, d);
        vstd::arithmetic::div_mod::lemma_mod_bound(v, d);
        vstd::arithmetic::div_mod::lemma_div_pos_is_pos(v, d);
        let k = v / d;
        assert(k * d == d * k && 0 <= k * d) by (nonlinear_arith)
            requires
                k >= 0,
                d >= 1,
        ;
    } else {
        vstd::arithmetic::div_mod::lemma_fundamental_div_mod(-v, d);
        vstd::arithmetic::div_mod::lemma_mod_bound(-v, d);
        vstd::arithmetic::div_mod::lemma_div_pos_is_pos(-v, d);
        let k = (-v) / d;
        assert((-k) * d == -(d * k) && 0 <= d * k) by (nonlinear_arith)
            requires
                k >= 0,
                d >= 1,
        ;
    }
}

/// The price step of a split in the unit of prices, at least one.
pub open spec fn tick_of(price_tick: i64, u: Units) -> int {
    if price_tick <= 0 || rounded(price_tick as int, u.price as int) < 1 {
        1
    } else {
        rounded(price_tick as int, u.price as int)
    }
}

fn round_price(p: i64, u: Units) -> (r: i64)
    requires
        u.wf(),
        p >= 0,
    ensures
        r == rounded(p as int, u.price as int),
        r <= p,
{
    proof {
        let d = u.price as int;
        vstd::arithmetic::div_mod::lemma_fundamental_div_mod(p as int, d);
        vstd::arithmetic::div_mod::lemma_mod_bound(p as int, d);
        vstd::arithmetic::div_mod::lemma_div_pos_is_pos(p as int, d);
        let k = p as int / d;
        assert(k <= d * k) by (nonlinear_arith)
            requires
                k >= 0,
                d >= 1,
        ;
    }
    p / u.price + (if 2 * (p % u.price) >= u.price {
        1
    } else {
        0
    })
}

fn tick_raw(price_tick: i64, u: Units) -> (r: i64)
    requires
        u.wf(),
    ensures
        r == tick_of(price_tick, u),
        r >= 1,
{
    if price_tick <= 0 {
        return 1;
    }
    let t: i64 = round_price(price_tick, u);
    if t < 1 {
        1
    } else {
        t
    }
}

/// A configured price in the unit of prices; at least a ten-thousandth of a yuan.
pub open spec fn custom_price(price: int, u: Units) -> int {
    rounded(
        if price < 10 {
            10
        } else {
            price
        },
        u.price as int,
    )
}

fn custom_price_raw(price: i64, u: Units) -> (r: i64)
    requires
        u.wf(),
    ensures
        r == custom_price(price as int, u),
{
    round_price(
        if price < 10 {
            10
        } else {
            price
        },
        u,
    )
}

/// What is filled after the first `k` executions.
pub open spec fn cum_after(fs: Seq<(i64, i64)>, k: int) -> int {
    qty_sum(fs.take(k))
}

/// What is open after the first `k` executions.
pub open spec fn leaves_after(order_qty: i64, fs: Seq<(i64, i64)>, k: int) -> int {
    let l = order_qty - cum_after(fs, k);
    if l < 0 {
        0
    } else {
        l
    }
}

/// What is filled and what is open stay in the range of numbers.
pub open spec fn sum_fits(order_qty: i64, cum: int) -> bool {
    i64::MIN <= cum <= i64::MAX && i64::MIN <= order_qty - cum <= i64::MAX
}

/// Executions of an order that stay in the range of numbers at every step.
pub open spec fn sums_fit(order_qty: i64, fs: Seq<(i64, i64)>) -> bool {
    forall|k: int| 0 <= k <= fs.len() ==> sum_fits(order_qty, #[trigger] cum_after(fs, k))
}

/// What is open after so many shares are filled stays in the range of numbers.
pub open spec fn part_fits(t: Terms, u: Units, part: int) -> bool {
    t.qty - part * u.share >= i64::MIN
}

/// The prices of `total` shares that are cut into `n` pieces stay in the range of numbers.
pub open spec fn split_fits(st: StrategyConfig, t: Terms, u: Units, total: int, n: int) -> bool {
    ladder_range(
        t.price as int,
        t.side == 0x32,
        tick_of(st.price_tick, u),
        piece_count(total, n) - 1,
    )
}

/// What may be drawn for an order: `part` for the shares of a partial fill, `n` for the number
/// of pieces of a split.
pub open spec fn may_draw(st: StrategyConfig, t: Terms, u: Units, part: int, n: int) -> bool {
    is_part(t.shares(u), part) && split_low(st) <= n <= split_high(st)
}

/// The executions that come of a draw stay in the range of numbers, with all that is reported
/// of them.
pub open spec fn draw_fits(
    st: StrategyConfig,
    allow_partial: bool,
    t: Terms,
    u: Units,
    part: int,
    n: int,
) -> bool {
    match effective(st.mode, allow_partial) {
        StrategyMode::FullSplit => split_fits(st, t, u, t.shares(u), n),
        StrategyMode::PartialSingle => part_fits(t, u, part),
        StrategyMode::PartialSplit => part_fits(t, u, part) && split_fits(st, t, u, part, n),
        _ => true,
    }
}

/// Some draw leads out of the range of numbers.
pub open spec fn may_leave(st: StrategyConfig, allow_partial: bool, t: Terms, u: Units) -> bool {
    exists|part: int, n: int| #[trigger]
        may_draw(st, t, u, part, n) && !draw_fits(st, allow_partial, t, u, part, n)
}

/// The most shares of a partial fill.
pub open spec fn most_part(total: int) -> int {
    if lots(total) >= 2 {
        100 * (lots(total) - 1)
    } else if total > 1 {
        total / 2
    } else {
        1
    }
}

/// Whatever is drawn, the executions stay in the range of numbers: those do that fill the most
/// in the most pieces.
pub open spec fn fits(st: StrategyConfig, allow_partial: bool, t: Terms, u: Units) -> bool {
    draw_fits(st, allow_partial, t, u, most_part(t.shares(u)), split_high(st))
}

/// An order leaves the range of numbers by some draw, unless it stays in it whatever is drawn.
pub proof fn law_fits(st: StrategyConfig, allow_partial: bool, t: Terms, u: Units)
    requires
        u.wf(),
    ensures
        may_leave(st, allow_partial, t, u) <==> !fits(st, allow_partial, t, u),
{
    let most = most_part(t.shares(u));
    let high = split_high(st);
    assert(may_draw(st, t, u, most, high));
    assert forall|part: int, n: int| #[trigger] may_draw(st, t, u, part, n) && fits(
        st,
        allow_partial,
        t,
        u,
    ) implies draw_fits(st, allow_partial, t, u, part, n) by {
        assert(part * u.share <= most * u.share) by (nonlinear_arith)
            requires
                part <= most,
                1 <= u.share,
        ;
        let full = t.shares(u);
        let tick = tick_of(st.price_tick, u);
        if effective(st.mode, allow_partial) == StrategyMode::FullSplit {
            lemma_fewer_steps(
                t.price as int,
                t.side == 0x32,
                tick,
                piece_count(full, high) - 1,
                piece_count(full, n) - 1,
            );
        } else if effective(st.mode, allow_partial) == StrategyMode::PartialSplit {
            lemma_fewer_steps(
                t.price as int,
                t.side == 0x32,
                tick,
                piece_count(most, high) - 1,
                piece_count(part, n) - 1,
            );
        }
    }
}

fn check_split(st: &StrategyConfig, t: Terms, u: Units, total: i64, n: u32) -> (r: bool)
    requires
        u.wf(),
    ensures
        r == split_fits(*st, t, u, total as int, n as int),
{
    let units: i64 = lot_count(total);
    let pieces: i64 = if units <= 1 || n <= 1 {
        1
    } else if n as i64 > units {
        units
    } else {
        n as i64
    };
    let tick: i64 = tick_raw(st.price_tick, u);
    let steps: i64 = pieces - 1;
    assert(0 <= tick * steps <= 0x8000_0000_0000_0000 * 0x1_0000_0000) by (nonlinear_arith)
        requires
            1 <= tick <= 0x7fff_ffff_ffff_ffff,
            0 <= steps <= 0xffff_ffff,
    ;
    let off: i128 = (tick as i128) * (steps as i128);
    if off > i64::MAX as i128 {
        false
    } else if t.side == 0x32 {
        t.price as i128 + off <= i64::MAX as i128
    } else {
        t.price as i128 - off >= i64::MIN as i128
    }
}

fn check_part(t: Terms, u: Units, part: i64) -> (r: bool)
    requires
        u.wf(),
    ensures
        r == part_fits(t, u, part as int),
{
    assert(-0x8000_0000_0000_0000 * 1000 <= part * u.share <= 0x8000_0000_0000_0000 * 1000)
        by (nonlinear_arith)
        requires
            -0x8000_0000_0000_0000 <= part <= 0x7fff_ffff_ffff_ffff,
            1 <= u.share <= 1000,
    ;
    t.qty as i128 - (part as i128) * (u.share as i128) >= i64::MIN as i128
}

/// Whether the executions that come of a draw stay in the range of numbers.
pub fn check_draw(
    st: &StrategyConfig,
    allow_partial: bool,
    t: Terms,
    u: Units,
    part: i64,
    n: u32,
) -> (r: bool)
    requires
        u.wf(),
    ensures
        r == draw_fits(*st, allow_partial, t, u, part as int, n as int),
{
    match effective_mode(st.mode, allow_partial) {
        StrategyMode::FullSplit => check_split(st, t, u, div_toward_zero(t.qty, u.share), n),
        StrategyMode::PartialSingle => check_part(t, u, part),
        StrategyMode::PartialSplit => check_part(t, u, part) && check_split(st, t, u, part, n),
        _ => true,
    }
}

/// Whether the executions stay in the range of numbers, whatever is drawn.
pub fn check_fits(st: &StrategyConfig, allow_partial: bool, t: Terms, u: Units) -> (r: bool)
    requires
        u.wf(),
    ensures
        r == fits(*st, allow_partial, t, u),
{
    let total: i64 = div_toward_zero(t.qty, u.share);
    let units: i64 = lot_count(total);
    let most: i64 = if units >= 2 {
        LOT * (units - 1)
    } else if total > 1 {
        total / 2
    } else {
        1
    };
    let hi: u32 = if st.split_count_min <= st.split_count_max {
        st.split_count_max
    } else {
        st.split_count_min
    };
    check_draw(
        st,
        allow_partial,
        t,
        u,
        most,
        if hi < 1 {
            1
        } else {
            hi
        },
    )
}

/// Shares with prices that climb or descend to the limit.
pub open spec fn laddered(q: Seq<i64>, t: Terms, tick: int, u: Units) -> Seq<(i64, i64)> {
    Seq::new(
        q.len(),
        |i: int|
            (
                (q[i] * u.share) as i64,
                ladder(t.price as int, t.side == 0x32, tick, q.len() - 1 - i) as i64,
            ),
    )
}

/// Pairs the shares of a split with prices that climb or descend to the limit.
pub fn ladder_fills(st: &StrategyConfig, t: Terms, u: Units, qtys: &[i64]) -> (r: Vec<(i64, i64)>)
    requires
        u.wf(),
        qtys@.len() <= 0xffff_ffff,
        qtys@.len() > 0 ==> ladder_range(
            t.price as int,
            t.side == 0x32,
            tick_of(st.price_tick, u),
            qtys@.len() - 1,
        ),
        forall|i: int|
            0 <= i < qtys@.len() ==> i64::MIN <= #[trigger] qtys@[i] * u.share <= i64::MAX,
    ensures
        r@ == laddered(qtys@, t, tick_of(st.price_tick, u), u),
{
    let tick: i64 = tick_raw(st.price_tick, u);
    let n: usize = qtys.len();
    let mut out: Vec<(i64, i64)> = Vec::new();
    let mut i: usize = 0;
    while i < n
        invariant
            i <= n,
            n == qtys@.len(),
            n <= 0xffff_ffff,
            tick == tick_of(st.price_tick, u),
            n > 0 ==> ladder_range(t.price as int, t.side == 0x32, tick as int, n - 1),
            forall|k: int|
                0 <= k < qtys@.len() ==> i64::MIN <= #[trigger] qtys@[k] * u.share <= i64::MAX,
            out@.len() == i,
            forall|k: int|
                0 <= k < i ==> #[trigger] out@[k] == laddered(qtys@, t, tick as int, u)[k],
        decreases n - i,
    {
        proof {
            lemma_fewer_steps(t.price as int, t.side == 0x32, tick as int, n - 1, n - 1 - i);
        }
        let px: i64 = ladder_price(t.price, t.side == 0x32, tick, (n - 1 - i) as u32);
        assert(i64::MIN <= qtys@[i as int] * u.share <= i64::MAX);
        out.push((qtys[i] * u.share, px));
        i += 1;
    }
    assert(out@ =~= laddered(qtys@, t, tick_of(st.price_tick, u), u));
    out
}

/// The executions that a strategy may make up for an order.
pub open spec fn is_fills(
    st: StrategyConfig,
    allow_partial: bool,
    t: Terms,
    u: Units,
    fs: Seq<(i64, i64)>,
) -> bool {
    match effective(st.mode, allow_partial) {
        StrategyMode::FullSingle => fs == seq![(t.qty, t.price)],
        StrategyMode::FullSplit => exists|n: int, q: Seq<i64>|
            is_laddered_split(st, t, u, t.shares(u), n, q, fs),
        StrategyMode::PartialSingle => exists|part: int|
            #![trigger is_part(t.shares(u), part)]
            is_part(t.shares(u), part) && part_fits(t, u, part) && fs == seq![
                ((part * u.share) as i64, t.price),
            ],
        StrategyMode::PartialSplit => exists|part: int, n: int, q: Seq<i64>|
            #![trigger is_laddered_split(st, t, u, part, n, q, fs)]
            is_part(t.shares(u), part) && part_fits(t, u, part) && is_laddered_split(
                st,
                t,
                u,
                part,
                n,
                q,
                fs,
            ),
        StrategyMode::Custom => is_custom(st, t, u, fs),
        _ => fs.len() == 0,
    }
}

/// The configured executions of an order.
pub open spec fn is_custom(st: StrategyConfig, t: Terms, u: Units, fs: Seq<(i64, i64)>) -> bool {
    let c = custom(st.custom_fills@, t.shares(u));
    &&& fs.len() == c.len()
    &&& forall|i: int|
        0 <= i < fs.len() ==> (#[trigger] fs[i]).0 == c[i].0 * u.share && fs[i].1 == custom_price(
            c[i].1,
            u,
        )
}

/// A split into a number of pieces that the settings allow, with prices.
pub open spec fn is_laddered_split(
    st: StrategyConfig,
    t: Terms,
    u: Units,
    total: int,
    n: int,
    q: Seq<i64>,
    fs: Seq<(i64, i64)>,
) -> bool {
    &&& split_low(st) <= n <= split_high(st)
    &&& split_fits(st, t, u, total, n)
    &&& is_split(total, n, q)
    &&& fs == laddered(q, t, tick_of(st.price_tick, u), u)
}

proof fn lemma_piece_in_range(total: int, n: int, q: Seq<i64>, u: Units, i: int)
    requires
        u.wf(),
        is_split(total, n, q),
        i64::MIN <= total * u.share <= i64::MAX,
        0 <= i < q.len(),
    ensures
        i64::MIN <= q[i] * u.share <= i64::MAX,
{
    lemma_split_piece(total, n, q, i);
    let v = q[i] as int;
    let d = u.share as int;
    assert(total >= 0 ==> 0 <= v * d <= total * d) by (nonlinear_arith)
        requires
            total >= 0 ==> 0 <= v <= total,
            1 <= d,
    ;
}

proof fn lemma_split_in_range(
    st: StrategyConfig,
    t: Terms,
    u: Units,
    total: int,
    n: int,
    q: Seq<i64>,
    fs: Seq<(i64, i64)>,
)
    requires
        u.wf(),
        is_laddered_split(st, t, u, total, n, q, fs),
        within(t.qty as int, total * u.share),
    ensures
        sums_fit(t.qty, fs),
        qty_sum(fs) == total * u.share,
{
    assert forall|i: int| 0 <= i < fs.len() implies (#[trigger] fs[i]).0 == q[i] * u.share by {
        lemma_piece_in_range(total, n, q, u, i);
    }
    assert forall|k: int| 0 <= k <= fs.len() implies sum_fits(
        t.qty,
        #[trigger] cum_after(fs, k),
    ) by {
        lemma_split_fills(total, n, q, fs, u.share as int, k);
        if total < 0 {
            assert(total * u.share < 0) by (nonlinear_arith)
                requires
                    total < 0,
                    u.share >= 1,
            ;
        } else {
            assert(total * u.share >= 0) by (nonlinear_arith)
                requires
                    total >= 0,
                    u.share >= 1,
            ;
        }
    }
    lemma_split_fills(total, n, q, fs, u.share as int, 0);
}

/// What can be filled of an order without leaving the range of numbers.
spec fn within(order_qty: int, amount: int) -> bool {
    &&& i64::MIN <= order_qty <= i64::MAX
    &&& (order_qty <= amount <= 0 || 0 <= amount <= i64::MAX && order_qty - amount >= i64::MIN)
}

proof fn lemma_single_in_range(order_qty: i64, fill: (i64, i64))
    requires
        within(order_qty as int, fill.0 as int),
    ensures
        sums_fit(order_qty, seq![fill]),
        cum_after(seq![fill], 1) == fill.0,
{
    let fs = seq![fill];
    assert(qty_sum(Seq::<(i64, i64)>::empty()) == 0);
    assert(fs.take(1).drop_last() =~= Seq::<(i64, i64)>::empty());
    assert forall|k: int| 0 <= k <= fs.len() implies sum_fits(
        order_qty,
        #[trigger] cum_after(fs, k),
    ) by {
        if k == 0 {
            assert(fs.take(0) =~= Seq::<(i64, i64)>::empty());
        }
    }
}

proof fn lemma_part_in_range(t: Terms, part: int, u: Units)
    requires
        u.wf(),
        part_fits(t, u, part),
        is_part(t.shares(u), part),
    ensures
        within(t.qty as int, part * u.share),
        0 <= part * u.share <= i64::MAX,
        t.shares(u) >= 2 ==> part * u.share <= t.shares(u) * u.share,
{
    let d = u.share as int;
    let total = t.shares(u);
    lemma_whole_shares(t.qty as int, d);
    assert(0 <= part);
    if total >= 2 {
        law_part_leaves_some(total, part);
        assert(t.qty >= 0) by {
            if t.qty < 0 {
                vstd::arithmetic::div_mod::lemma_div_pos_is_pos(-t.qty as int, d);
            }
        }
        assert(0 <= part * d <= total * d) by (nonlinear_arith)
            requires
                0 <= part <= total,
                1 <= d,
        ;
    } else {
        assert(part == 1);
    }
}

fn split_fills(st: &StrategyConfig, t: Terms, u: Units, total: i64, n: u32) -> (r: Vec<(i64, i64)>)
    requires
        u.wf(),
        split_low(*st) <= n <= split_high(*st),
        split_fits(*st, t, u, total as int, n as int),
        within(t.qty as int, total * u.share),
    ensures
        exists|q: Seq<i64>| is_laddered_split(*st, t, u, total as int, n as int, q, r@),
        sums_fit(t.qty, r@),
        r@.len() <= 0x7fff_ffff_ffff_ffff,
{
    let qtys = split_shares(total, n);
    proof {
        assert forall|i: int| 0 <= i < qtys@.len() implies i64::MIN <= #[trigger] qtys@[i] * u.share
            <= i64::MAX by {
            lemma_piece_in_range(total as int, n as int, qtys@, u, i);
        }
    }
    let r = ladder_fills(st, t, u, qtys.as_slice());
    proof {
        assert(is_laddered_split(*st, t, u, total as int, n as int, qtys@, r@));
        lemma_split_in_range(*st, t, u, total as int, n as int, qtys@, r@);
    }
    r
}

proof fn lemma_custom_item(list: Seq<CustomFill>, total: int, u: Units, i: int)
    requires
        u.wf(),
        i64::MIN <= total * u.share <= i64::MAX,
        0 <= i < custom(list, total).len(),
    ensures
        0 <= custom(list, total)[i].0 * u.share <= i64::MAX,
{
    if total >= 0 {
        law_custom_within(list, total);
        let v = custom(list, total)[i].0;
        let d = u.share as int;
        assert(0 <= v * d <= total * d) by (nonlinear_arith)
            requires
                1 <= v <= total,
                1 <= d,
        ;
    }
}

fn custom_fills(st: &StrategyConfig, t: Terms, u: Units, total: i64) -> (r: Vec<(i64, i64)>)
    requires
        u.wf(),
        total == t.shares(u),
    ensures
        is_custom(*st, t, u, r@),
        sums_fit(t.qty, r@),
        r@.len() <= 0x7fff_ffff_ffff_ffff,
{
    let shares = custom_shares(&st.custom_fills, total);
    let ghost c = custom(st.custom_fills@, total as int);
    proof {
        lemma_whole_shares(t.qty as int, u.share as int);
        if total >= 0 {
            law_custom_within(st.custom_fills@, total as int);
        }
        assert(pairs(shares@).len() == shares@.len());
        assert forall|i: int| 0 <= i < shares@.len() implies #[trigger] shares@[i].0 == c[i].0
            && shares@[i].1 == c[i].1 by {
            assert(pairs(shares@)[i] == c[i]);
        }
    }
    let mut out: Vec<(i64, i64)> = Vec::new();
    let mut i: usize = 0;
    while i < shares.len()
        invariant
            i <= shares@.len(),
            u.wf(),
            shares@.len() == c.len(),
            c == custom(st.custom_fills@, total as int),
            i64::MIN <= total * u.share <= i64::MAX,
            forall|k: int|
                0 <= k < shares@.len() ==> #[trigger] shares@[k].0 == c[k].0 && shares@[k].1
                    == c[k].1,
            out@.len() == i,
            forall|k: int|
                0 <= k < i ==> (#[trigger] out@[k]).0 == c[k].0 * u.share && out@[k].1
                    == custom_price(c[k].1, u),
        decreases shares@.len() - i,
    {
        let (s, p) = shares[i];
        proof {
            assert(shares@[i as int].0 == c[i as int].0);
            lemma_custom_item(st.custom_fills@, total as int, u, i as int);
        }
        out.push((s * u.share, custom_price_raw(p, u)));
        i += 1;
    }
    proof {
        assert forall|k: int| 0 <= k <= out@.len() implies sum_fits(
            t.qty,
            #[trigger] cum_after(out@, k),
        ) by {
            lemma_custom_prefix(st.custom_fills@, total as int, out@, u.share as int, k);
            if total >= 0 {
                assert(total * u.share >= 0) by (nonlinear_arith)
                    requires
                        total >= 0,
                        u.share >= 1,
                ;
            }
        }
    }
    out
}

/// No executions leave the range of numbers.
pub proof fn lemma_no_fills(order_qty: i64, fs: Seq<(i64, i64)>)
    requires
        fs.len() == 0,
    ensures
        sums_fit(order_qty, fs),
{
    assert forall|k: int| 0 <= k <= fs.len() implies sum_fits(
        order_qty,
        #[trigger] cum_after(fs, k),
    ) by {
        assert(fs.take(k) =~= Seq::<(i64, i64)>::empty());
    }
}

/// The executions of an order that come of a draw; nothing where they leave the range of
/// numbers.
pub fn fills_from(
    st: &StrategyConfig,
    allow_partial: bool,
    t: Terms,
    u: Units,
    part: i64,
    n: u32,
) -> (r: Option<Vec<(i64, i64)>>)
    requires
        u.wf(),
        may_draw(*st, t, u, part as int, n as int),
    ensures
        match r {
            Some(fs) => {
                &&& draw_fits(*st, allow_partial, t, u, part as int, n as int)
                &&& is_fills(*st, allow_partial, t, u, fs@)
                &&& sums_fit(t.qty, fs@)
                &&& fs@.len() <= 0x7fff_ffff_ffff_ffff
            },
            None => !draw_fits(*st, allow_partial, t, u, part as int, n as int),
        },
{
    if !check_draw(st, allow_partial, t, u, part, n) {
        return None;
    }
    let total: i64 = div_toward_zero(t.qty, u.share);
    proof {
        lemma_whole_shares(t.qty as int, u.share as int);
    }
    let mut out: Vec<(i64, i64)> = Vec::new();
    match effective_mode(st.mode, allow_partial) {
        StrategyMode::FullSingle => {
            out.push((t.qty, t.price));
            proof {
                lemma_single_in_range(t.qty, (t.qty, t.price));
                assert(out@ =~= seq![(t.qty, t.price)]);
            }
        },
        StrategyMode::FullSplit => {
            out = split_fills(st, t, u, total, n);
            proof {
                let q = choose|q: Seq<i64>|
                    is_laddered_split(*st, t, u, total as int, n as int, q, out@);
                assert(is_laddered_split(*st, t, u, t.shares(u), n as int, q, out@));
            }
        },
        StrategyMode::PartialSingle => {
            proof {
                lemma_part_in_range(t, part as int, u);
            }
            let fill = (part * u.share, t.price);
            out.push(fill);
            proof {
                assert(out@ =~= seq![((part as int * u.share) as i64, t.price)]);
                lemma_single_in_range(t.qty, fill);
                assert(is_part(t.shares(u), part as int));
            }
        },
        StrategyMode::PartialSplit => {
            proof {
                lemma_part_in_range(t, part as int, u);
            }
            out = split_fills(st, t, u, part, n);
            proof {
                let q = choose|q: Seq<i64>|
                    is_laddered_split(*st, t, u, part as int, n as int, q, out@);
                assert(is_laddered_split(*st, t, u, part as int, n as int, q, out@));
            }
        },
        StrategyMode::Custom => {
            out = custom_fills(st, t, u, total);
        },
        StrategyMode::AckOnly | StrategyMode::Reject | StrategyMode::NoAutoReply => {
            proof {
                lemma_no_fills(t.qty, out@);
            }
        },
    }
    Some(out)
}

/// Makes up the executions of an order; nothing where what was drawn leads out of the range of
/// numbers.
pub fn make_fills(st: &StrategyConfig, allow_partial: bool, t: Terms, u: Units) -> (r: Option<
    Vec<(i64, i64)>,
>)
    requires
        u.wf(),
    ensures
        match r {
            Some(fs) => {
                &&& is_fills(*st, allow_partial, t, u, fs@)
                &&& sums_fit(t.qty, fs@)
                &&& fs@.len() <= 0x7fff_ffff_ffff_ffff
            },
            None => may_leave(*st, allow_partial, t, u),
        },
{
    let part: i64 = partial_shares(div_toward_zero(t.qty, u.share));
    let n: u32 = sample_split_count(st);
    assert(may_draw(*st, t, u, part as int, n as int));
    fills_from(st, allow_partial, t, u, part, n)
}

/// Delays that the settings allow: one for the first report, one for each execution.
pub open spec fn delays_ok(st: StrategyConfig, delays: Seq<u64>, n: nat) -> bool {
    &&& delays.len() == n + 1
    &&& st.ack_delay.allows(delays[0])
    &&& forall|i: int| 1 <= i < delays.len() ==> st.trade_delay.allows(#[trigger] delays[i])
}

/// Draws the delays of the reports.
pub fn sample_delays(st: &StrategyConfig, n: usize) -> (r: Vec<u64>)
    ensures
        delays_ok(*st, r@, n as nat),
{
    let mut out: Vec<u64> = Vec::new();
    out.push(st.ack_delay.sample());
    let mut i: usize = 0;
    while i < n
        invariant
            i <= n,
            out@.len() == i + 1,
            st.ack_delay.allows(out@[0]),
            forall|k: int| 1 <= k < out@.len() ==> st.trade_delay.allows(#[trigger] out@[k]),
        decreases n - i,
    {
        out.push(st.trade_delay.sample());
        i += 1;
    }
    out
}

/// A full split fills all whole shares of the order.
pub proof fn law_full_split_fills_all(
    st: StrategyConfig,
    allow_partial: bool,
    t: Terms,
    u: Units,
    fs: Seq<(i64, i64)>,
)
    requires
        u.wf(),
        is_fills(st, allow_partial, t, u, fs),
        effective(st.mode, allow_partial) == StrategyMode::FullSplit,
    ensures
        qty_sum(fs) == t.shares(u) * u.share,
{
    lemma_whole_shares(t.qty as int, u.share as int);
    let (n, q) = choose|n: int, q: Seq<i64>| is_laddered_split(st, t, u, t.shares(u), n, q, fs);
    lemma_split_in_range(st, t, u, t.shares(u), n, q, fs);
}

/// No strategy fills more than was ordered, where at least two whole shares were ordered.
pub proof fn law_never_overfilled(
    st: StrategyConfig,
    allow_partial: bool,
    t: Terms,
    u: Units,
    fs: Seq<(i64, i64)>,
)
    requires
        u.wf(),
        t.shares(u) >= 2,
        is_fills(st, allow_partial, t, u, fs),
    ensures
        qty_sum(fs) <= t.qty,
{
    let total = t.shares(u);
    lemma_whole_shares(t.qty as int, u.share as int);
    assert(t.qty >= 0) by {
        if t.qty < 0 {
            vstd::arithmetic::div_mod::lemma_div_pos_is_pos(-t.qty as int, u.share as int);
        }
    }
    match effective(st.mode, allow_partial) {
        StrategyMode::FullSingle => {
            lemma_single_in_range(t.qty, (t.qty, t.price));
            assert(fs.take(1) =~= fs);
        },
        StrategyMode::FullSplit => {
            let (n, q) = choose|n: int, q: Seq<i64>|
                is_laddered_split(st, t, u, total, n, q, fs);
            lemma_split_in_range(st, t, u, total, n, q, fs);
        },
        StrategyMode::PartialSingle => {
            let part = choose|part: int|
                #![trigger is_part(t.shares(u), part)]
                is_part(t.shares(u), part) && part_fits(t, u, part) && fs == seq![
                    ((part * u.share) as i64, t.price),
                ];
            lemma_part_in_range(t, part, u);
            lemma_single_in_range(t.qty, ((part * u.share) as i64, t.price));
            assert(fs.take(1) =~= fs);
        },
        StrategyMode::PartialSplit => {
            let (part, n, q) = choose|part: int, n: int, q: Seq<i64>|
                #![trigger is_laddered_split(st, t, u, part, n, q, fs)]
                is_part(t.shares(u), part) && part_fits(t, u, part) && is_laddered_split(
                    st,
                    t,
                    u,
                    part,
                    n,
                    q,
                    fs,
                );
            lemma_part_in_range(t, part, u);
            lemma_split_in_range(st, t, u, part, n, q, fs);
        },
        StrategyMode::Custom => {
            lemma_custom_prefix(st.custom_fills@, total, fs, u.share as int, fs.len() as int);
            assert(fs.take(fs.len() as int) =~= fs);
        },
        _ => {
            assert(fs =~= Seq::<(i64, i64)>::empty());
        },
    }
}

/// A partial fill leaves something open, where at least two whole shares were ordered.
pub proof fn law_partial_leaves_some(
    st: StrategyConfig,
    allow_partial: bool,
    t: Terms,
    u: Units,
    fs: Seq<(i64, i64)>,
)
    requires
        u.wf(),
        t.shares(u) >= 2,
        is_fills(st, allow_partial, t, u, fs),
        effective(st.mode, allow_partial) == StrategyMode::PartialSingle || effective(
            st.mode,
            allow_partial,
        ) == StrategyMode::PartialSplit,
    ensures
        0 < qty_sum(fs) < t.qty,
{
    let total = t.shares(u);
    let d = u.share as int;
    lemma_whole_shares(t.qty as int, d);
    assert(t.qty >= 0) by {
        if t.qty < 0 {
            vstd::arithmetic::div_mod::lemma_div_pos_is_pos(-t.qty as int, d);
        }
    }
    let part = if effective(st.mode, allow_partial) == StrategyMode::PartialSingle {
        let part = choose|part: int|
            #![trigger is_part(t.shares(u), part)]
            is_part(t.shares(u), part) && part_fits(t, u, part) && fs == seq![
                ((part * u.share) as i64, t.price),
            ];
        lemma_part_in_range(t, part, u);
        lemma_single_in_range(t.qty, ((part * u.share) as i64, t.price));
        assert(fs.take(1) =~= fs);
        part
    } else {
        let (part, n, q) = choose|part: int, n: int, q: Seq<i64>|
            #![trigger is_laddered_split(st, t, u, part, n, q, fs)]
            is_part(t.shares(u), part) && part_fits(t, u, part) && is_laddered_split(
                    st,
                    t,
                    u,
                    part,
                    n,
                    q,
                    fs,
                );
        lemma_part_in_range(t, part, u);
        lemma_split_in_range(st, t, u, part, n, q, fs);
        part
    };
    law_part_leaves_some(total, part);
    assert(0 < part * d < total * d) by (nonlinear_arith)
        requires
            1 <= part < total,
            1 <= d,
    ;
}

/// Executions that a strategy may make up stay in the range of numbers.
pub proof fn lemma_fills_fit(
    st: StrategyConfig,
    allow_partial: bool,
    t: Terms,
    u: Units,
    fs: Seq<(i64, i64)>,
)
    requires
        u.wf(),
        is_fills(st, allow_partial, t, u, fs),
    ensures
        sums_fit(t.qty, fs),
{
    let total = t.shares(u);
    lemma_whole_shares(t.qty as int, u.share as int);
    match effective(st.mode, allow_partial) {
        StrategyMode::FullSingle => {
            lemma_single_in_range(t.qty, (t.qty, t.price));
        },
        StrategyMode::FullSplit => {
            let (n, q) = choose|n: int, q: Seq<i64>|
                is_laddered_split(st, t, u, total, n, q, fs);
            lemma_split_in_range(st, t, u, total, n, q, fs);
        },
        StrategyMode::PartialSingle => {
            let part = choose|part: int|
                #![trigger is_part(t.shares(u), part)]
                is_part(t.shares(u), part) && part_fits(t, u, part) && fs == seq![
                    ((part * u.share) as i64, t.price),
                ];
            lemma_part_in_range(t, part, u);
            lemma_single_in_range(t.qty, ((part * u.share) as i64, t.price));
        },
        StrategyMode::PartialSplit => {
            let (part, n, q) = choose|part: int, n: int, q: Seq<i64>|
                #![trigger is_laddered_split(st, t, u, part, n, q, fs)]
                is_part(t.shares(u), part) && part_fits(t, u, part) && is_laddered_split(
                    st,
                    t,
                    u,
                    part,
                    n,
                    q,
                    fs,
                );
            lemma_part_in_range(t, part, u);
            lemma_split_in_range(st, t, u, part, n, q, fs);
        },
        StrategyMode::Custom => {
            assert forall|k: int| 0 <= k <= fs.len() implies sum_fits(
                t.qty,
                #[trigger] cum_after(fs, k),
            ) by {
                lemma_custom_prefix(st.custom_fills@, total, fs, u.share as int, k);
                if total >= 0 {
                    assert(total * u.share >= 0) by (nonlinear_arith)
                        requires
                            total >= 0,
                            u.share >= 1,
                    ;
                }
            }
        },
        _ => {
            lemma_no_fills(t.qty, fs);
        },
    }
}

/// What is filled after one more execution is what was filled before and its quantity.
pub proof fn lemma_cum_step(fs: Seq<(i64, i64)>, i: int)
    requires
        0 <= i < fs.len(),
    ensures
        cum_after(fs, 0) == 0,
        cum_after(fs, i + 1) == cum_after(fs, i) + fs[i].0,
{
    assert(fs.take(0) =~= Seq::<(i64, i64)>::empty());
    assert(fs.take(i + 1).drop_last() =~= fs.take(i));
}

/// The nearest number of units to a configured price: the unit fits it, and no other number
/// of units comes closer.
proof fn lemma_rounded_near(v: int, d: int)
    requires
        v >= 0,
        d >= 1,
    ensures
        rounded(v, d) >= 0,
        -d < 2 * (rounded(v, d) * d - v) <= d,
        v % d == 0 ==> rounded(v, d) * d == v,
{
    vstd::arithmetic::div_mod::lemma_fundamental_div_mod(v, d);
    vstd::arithmetic::div_mod::lemma_mod_bound(v, d);
    vstd::arithmetic::div_mod::lemma_div_pos_is_pos(v, d);
    let k = v / d;
    assert(k * d == d * k && (k + 1) * d == d * k + d) by (nonlinear_arith);
}

proof fn lemma_tick_bound(price_tick: i64, u: Units)
    requires
        u.wf(),
    ensures
        1 <= tick_of(price_tick, u) <= i64::MAX,
{
    if price_tick > 0 {
        let d = u.price as int;
        let v = price_tick as int;
        vstd::arithmetic::div_mod::lemma_fundamental_div_mod(v, d);
        vstd::arithmetic::div_mod::lemma_mod_bound(v, d);
        vstd::arithmetic::div_mod::lemma_div_pos_is_pos(v, d);
        let k = v / d;
        assert(k <= d * k) by (nonlinear_arith)
            requires
                k >= 0,
                d >= 1,
        ;
    }
}

/// The whole order goes in one execution at the price of the order where the strategy fills
/// it at once, or fills it in part or as configured in a business that knows no partial fills;
/// and there is no execution where orders are only acknowledged, rejected or not answered.
pub proof fn law_filled_at_once(
    st: StrategyConfig,
    allow_partial: bool,
    t: Terms,
    u: Units,
    fs: Seq<(i64, i64)>,
)
    requires
        is_fills(st, allow_partial, t, u, fs),
    ensures
        st.mode is FullSingle || !allow_partial && (st.mode is PartialSingle || st.mode is Custom)
            ==> fs.len() == 1 && fs[0].0 == t.qty && fs[0].1 == t.price,
        st.mode is AckOnly || st.mode is Reject || st.mode is NoAutoReply ==> fs.len() == 0,
        st.mode is PartialSingle && allow_partial ==> fs.len() == 1 && fs[0].1 == t.price,
{
}

/// A split: as many executions as the settings ask for, but no more than there are lots; all
/// but the last are whole lots, and none of several is less than a lot. The last one is at the
/// limit of a sale, and at that of a buy that is no less than a tick; and each step before it
/// is a tick further from the limit, down to one tick for a buy.
pub proof fn law_split_pieces(
    st: StrategyConfig,
    allow_partial: bool,
    t: Terms,
    u: Units,
    fs: Seq<(i64, i64)>,
    tick: int,
)
    requires
        u.wf(),
        is_fills(st, allow_partial, t, u, fs),
        st.mode is FullSplit || st.mode is PartialSplit,
        tick == tick_of(st.price_tick, u),
    ensures
        fs.len() >= 1,
        fs.len() <= 1 || fs.len() <= st.split_count_max || fs.len() <= st.split_count_min,
        st.mode is FullSplit && t.qty >= u.share * 100 * st.split_count_min && t.qty >= u.share
            * 100 * st.split_count_max ==> fs.len() >= st.split_count_min || fs.len()
            >= st.split_count_max,
        forall|i: int|
            0 <= i < fs.len() - 1 ==> (#[trigger] fs[i]).0 as int % (u.share * 100) == 0 && fs[i].0
                >= u.share * 100,
        fs.len() > 1 ==> fs[fs.len() - 1].0 >= u.share * 100,
        t.side == 0x32 || t.price >= tick ==> fs[fs.len() - 1].1 == t.price,
        t.side == 0x32 ==> forall|i: int|
            0 <= i < fs.len() - 1 ==> (#[trigger] fs[i]).1 == fs[i + 1].1 + tick,
        t.side != 0x32 ==> forall|i: int|
            0 <= i < fs.len() ==> (#[trigger] fs[i]).1 >= tick && (fs[i].1 > tick && i + 1
                < fs.len() ==> fs[i + 1].1 == fs[i].1 + tick) && (fs[i].1 == tick && i + 1
                < fs.len() ==> fs[i + 1].1 <= tick + tick),
{
    let d = u.share as int;
    lemma_whole_shares(t.qty as int, d);
    let total = if effective(st.mode, allow_partial) == StrategyMode::FullSplit {
        t.shares(u)
    } else {
        let (part, n, q) = choose|part: int, n: int, q: Seq<i64>|
            #![trigger is_laddered_split(st, t, u, part, n, q, fs)]
            is_part(t.shares(u), part) && part_fits(t, u, part) && is_laddered_split(
                st,
                t,
                u,
                part,
                n,
                q,
                fs,
            );
        lemma_part_in_range(t, part, u);
        part
    };
    let (n, q) = choose|n: int, q: Seq<i64>| is_laddered_split(st, t, u, total, n, q, fs);
    lemma_split_in_range(st, t, u, total, n, q, fs);
    assert(fs.len() == piece_count(total, n));
    assert forall|i: int| 0 <= i < fs.len() implies (#[trigger] fs[i]).0 == q[i] * d by {
        lemma_piece_in_range(total, n, q, u, i);
    }
    assert forall|i: int| 0 <= i < fs.len() - 1 implies (#[trigger] fs[i]).0 as int % (d * 100) == 0
        && fs[i].0 >= d * 100 by {
        let k = q[i] as int / 100;
        assert(q[i] % 100 == 0);
        assert(q[i] == 100 * k && k >= 1);
        assert(q[i] * d == (d * 100) * k && (d * 100) * k >= d * 100) by (nonlinear_arith)
            requires
                q[i] == 100 * k,
                k >= 1,
                d >= 1,
        ;
        vstd::arithmetic::div_mod::lemma_mod_multiples_basic(k, d * 100);
        assert(k * (d * 100) == (d * 100) * k) by (nonlinear_arith);
    }
    if fs.len() > 1 {
        let last = q.last() as int;
        assert(q[fs.len() - 1] == q.last());
        assert(last * d >= d * 100) by (nonlinear_arith)
            requires
                last >= 100,
                d >= 1,
        ;
    }
    if st.mode is FullSplit && t.qty >= d * 100 * st.split_count_min && t.qty >= d * 100
        * st.split_count_max {
        let low = split_low(st);
        if low > 1 {
            assert(t.qty >= d * (100 * low)) by (nonlinear_arith)
                requires
                    t.qty >= d * 100 * low,
            ;
            assert(d * (100 * low) >= 0) by (nonlinear_arith)
                requires
                    low >= 0,
                    d >= 1,
            ;
            assert(total >= 100 * low) by {
                if total < 100 * low {
                    assert(total * d + d <= d * (100 * low)) by (nonlinear_arith)
                        requires
                            total + 1 <= 100 * low,
                            d >= 1,
                    ;
                }
            }
            assert(lots(total) >= low);
        }
    }
    lemma_tick_bound(st.price_tick, u);
    assert forall|i: int| 0 <= i < fs.len() implies (#[trigger] fs[i]).1 == ladder(
        t.price as int,
        t.side == 0x32,
        tick,
        fs.len() - 1 - i,
    ) by {
        lemma_fewer_steps(
            t.price as int,
            t.side == 0x32,
            tick,
            fs.len() - 1,
            fs.len() - 1 - i,
        );
        let steps = fs.len() - 1 - i;
        assert(tick * steps >= 0) by (nonlinear_arith)
            requires
                tick >= 1,
                steps >= 0,
        ;
    }
    assert(tick * 0 == 0);
    assert forall|i: int| 0 <= i < fs.len() - 1 implies tick * (fs.len() - 1 - i) == tick * (
    fs.len() - 1 - #[trigger] (i + 1)) + tick by {
        let m = fs.len() - 1 - (i + 1);
        assert(tick * (m + 1) == tick * m + tick) by (nonlinear_arith);
    }
    if t.side == 0x32 {
        assert forall|i: int| 0 <= i < fs.len() - 1 implies (#[trigger] fs[i]).1 == fs[i + 1].1
            + tick by {
            assert(tick * (fs.len() - 1 - i) == tick * (fs.len() - 1 - (i + 1)) + tick);
            assert(fs[i + 1].1 == t.price + tick * (fs.len() - 1 - (i + 1)));
        }
    } else {
        assert forall|i: int| 0 <= i < fs.len() implies (#[trigger] fs[i]).1 >= tick && (fs[i].1
            > tick && i + 1 < fs.len() ==> fs[i + 1].1 == fs[i].1 + tick) && (fs[i].1 == tick
            && i + 1 < fs.len() ==> fs[i + 1].1 <= tick + tick) by {
            if i + 1 < fs.len() {
                assert(tick * (fs.len() - 1 - i) == tick * (fs.len() - 1 - (i + 1)) + tick);
                assert(fs[i + 1].1 == ladder(
                    t.price as int,
                    false,
                    tick,
                    fs.len() - 1 - (i + 1),
                ));
            }
        }
    }
}

/// The price step is the configured one in the unit of prices: exactly where the unit divides
/// it, else the nearest; and never less than one unit.
pub proof fn law_tick(price_tick: i64, u: Units)
    requires
        u.wf(),
    ensures
        tick_of(price_tick, u) >= 1,
        price_tick > 0 && price_tick % u.price == 0 ==> tick_of(price_tick, u) * u.price
            == price_tick,
        price_tick >= u.price ==> -u.price < 2 * (tick_of(price_tick, u) * u.price - price_tick)
            <= u.price,
        price_tick <= 0 ==> tick_of(price_tick, u) == 1,
{
    if price_tick > 0 {
        lemma_rounded_near(price_tick as int, u.price as int);
        let r = rounded(price_tick as int, u.price as int);
        let d = u.price as int;
        if r < 1 {
            assert(r * d == 0) by (nonlinear_arith)
                requires
                    r == 0,
            ;
        }
    }
}

/// Configured executions that ask for whole shares and fit into the order go out exactly as
/// configured, row by row: the quantity and the price of each.
pub proof fn law_custom_as_configured(
    st: StrategyConfig,
    t: Terms,
    u: Units,
    fs: Seq<(i64, i64)>,
    asked: Seq<int>,
)
    requires
        u.wf(),
        is_fills(st, true, t, u, fs),
        st.mode is Custom,
        asked.len() == st.custom_fills@.len(),
        forall|i: int|
            0 <= i < asked.len() ==> #[trigger] asked[i] >= 1 && st.custom_fills@[i].qty == 1000
                * asked[i],
        whole_sum(asked) <= t.shares(u),
    ensures
        fs.len() == asked.len(),
        forall|i: int|
            0 <= i < fs.len() ==> (#[trigger] fs[i]).0 == asked[i] * u.share && (
            st.custom_fills@[i].price >= 10 && st.custom_fills@[i].price % u.price == 0 ==> fs[i].1
                * u.price == st.custom_fills@[i].price),
        forall|i: int|
            0 <= i < fs.len() ==> -u.price < 2 * ((#[trigger] fs[i]).1 * u.price - (if
            st.custom_fills@[i].price < 10 {
                10
            } else {
                st.custom_fills@[i].price as int
            })) <= u.price,
{
    lemma_custom_rows(st.custom_fills@, asked, t.shares(u));
    assert forall|i: int| 0 <= i < fs.len() implies -u.price < 2 * ((#[trigger] fs[i]).1 * u.price
        - (if st.custom_fills@[i].price < 10 {
        10
    } else {
        st.custom_fills@[i].price as int
    })) <= u.price && (st.custom_fills@[i].price >= 10 && st.custom_fills@[i].price % u.price == 0
        ==> fs[i].1 * u.price == st.custom_fills@[i].price) by {
        let p = st.custom_fills@[i].price as int;
        lemma_rounded_near(
            if p < 10 {
                10
            } else {
                p
            },
            u.price as int,
        );
    }
}

/// The sum of whole numbers.
pub open spec fn whole_sum(s: Seq<int>) -> int
    decreases s.len(),
{
    if s.len() == 0 {
        0
    } else {
        s[0] + whole_sum(s.drop_first())
    }
}

proof fn lemma_whole_sum(s: Seq<int>)
    requires
        forall|i: int| 0 <= i < s.len() ==> #[trigger] s[i] >= 1,
    ensures
        whole_sum(s) >= s.len(),
    decreases s.len(),
{
    if s.len() > 0 {
        let t = s.drop_first();
        assert forall|i: int| 0 <= i < t.len() implies #[trigger] t[i] >= 1 by {
            assert(t[i] == s[i + 1]);
        }
        lemma_whole_sum(t);
        assert(s[0] >= 1);
    }
}

proof fn lemma_custom_rows(list: Seq<CustomFill>, asked: Seq<int>, open: int)
    requires
        asked.len() == list.len(),
        forall|i: int|
            0 <= i < asked.len() ==> #[trigger] asked[i] >= 1 && list[i].qty == 1000 * asked[i],
        whole_sum(asked) <= open,
    ensures
        custom(list, open).len() == list.len(),
        forall|i: int|
            0 <= i < list.len() ==> #[trigger] custom(list, open)[i] == (
                asked[i],
                list[i].price as int,
            ),
    decreases list.len(),
{
    if list.len() > 0 {
        lemma_whole_sum(asked);
        let a = asked.drop_first();
        let l = list.drop_first();
        assert(asked[0] >= 1);
        assert forall|i: int| 0 <= i < a.len() implies #[trigger] a[i] >= 1 && l[i].qty == 1000
            * a[i] by {
            assert(a[i] == asked[i + 1]);
        }
        lemma_whole_sum(a);
        lemma_custom_rows(l, a, open - asked[0]);
        assert(rounded(list[0].qty as int, 1000) == asked[0]);
        let c = custom(list, open);
        assert(c =~= seq![(asked[0], list[0].price as int)] + custom(l, open - asked[0]));
        assert forall|i: int| 0 <= i < list.len() implies #[trigger] c[i] == (
            asked[i],
            list[i].price as int,
        ) by {
            if i > 0 {
                assert(c[i] == custom(l, open - asked[0])[i - 1]);
                assert(a[i - 1] == asked[i]);
            }
        }
    }
}

/// A configured execution that asks for nothing is passed over, wherever it stands; and the
/// one that asks for more than is open gets what is open, and none behind it gets anything.
pub proof fn law_custom_rows_passed_over(list: Seq<CustomFill>, row: CustomFill, open: int)
    requires
        open >= 1,
    ensures
        row.qty <= 0 ==> custom(seq![row] + list, open) == custom(list, open),
        row.qty >= 1000 * open ==> custom(seq![row] + list, open) == seq![
            (open, row.price as int),
        ],
        0 < row.qty < 500 ==> custom(seq![row] + list, open) == seq![(1int, row.price as int)]
            + custom(list, open - 1),
{
    let l = seq![row] + list;
    assert(l.drop_first() =~= list);
    assert(l[0] == row);
    if row.qty >= 1000 * open {
        assert(rounded(row.qty as int, 1000) >= open);
        assert(custom(list, 0) =~= Seq::<(int, int)>::empty());
        assert(custom(l, open) =~= seq![(open, row.price as int)]);
    }
}

/// A partial fill of two lots or more is of whole lots and leaves a lot at least; of less, it
/// is half of the shares; and of a single share it is that share.
pub proof fn law_part_sizes(total: int, part: int)
    requires
        is_part(total, part),
    ensures
        total >= 200 ==> part % 100 == 0 && 100 <= part <= total - 100,
        2 <= total < 200 ==> part == total / 2,
        total <= 1 ==> part == 1,
{
}

/// A partial fill, in one execution or several, is of a part of the whole shares: of whole lots
/// where there are two or more, and else of half of the shares, and of one where there is no
/// more.
pub proof fn law_partial_amount(
    st: StrategyConfig,
    t: Terms,
    u: Units,
    fs: Seq<(i64, i64)>,
    shares: int,
)
    requires
        u.wf(),
        is_fills(st, true, t, u, fs),
        st.mode is PartialSingle || st.mode is PartialSplit,
        t.qty >= 0,
        shares * u.share <= t.qty < (shares + 1) * u.share,
    ensures
        exists|part: int| #[trigger]
            part_of(shares, part) && qty_sum(fs) == part * u.share,
{
    let d = u.share as int;
    lemma_whole_shares(t.qty as int, d);
    let k = t.shares(u);
    assert(k == shares) by (nonlinear_arith)
        requires
            shares * d <= t.qty < (shares + 1) * d,
            k * d <= t.qty,
            t.qty - k * d < d,
            d >= 1,
    ;
    let part = if st.mode is PartialSingle {
        let part = choose|part: int|
            #![trigger is_part(t.shares(u), part)]
            is_part(t.shares(u), part) && part_fits(t, u, part) && fs == seq![
                ((part * u.share) as i64, t.price),
            ];
        lemma_part_in_range(t, part, u);
        lemma_single_in_range(t.qty, ((part * u.share) as i64, t.price));
        assert(fs.take(1) =~= fs);
        part
    } else {
        let (part, n, q) = choose|part: int, n: int, q: Seq<i64>|
            #![trigger is_laddered_split(st, t, u, part, n, q, fs)]
            is_part(t.shares(u), part) && part_fits(t, u, part) && is_laddered_split(
                st,
                t,
                u,
                part,
                n,
                q,
                fs,
            );
        lemma_part_in_range(t, part, u);
        lemma_split_in_range(st, t, u, part, n, q, fs);
        part
    };
    assert(part_of(shares, part));
}

/// A part of so many shares.
pub open spec fn part_of(shares: int, part: int) -> bool {
    if shares >= 200 {
        part % 100 == 0 && 100 <= part <= shares - 100
    } else if shares >= 2 {
        part == shares / 2
    } else {
        part == 1
    }
}

} // verus!
