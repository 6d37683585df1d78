//! What a client of a Shenzhen platform is told, read out of the messages that it gets: the
//! answers to orders and to requests to cancel, and the reports that are sent by hand.
use vstd::prelude::*;

use super::fields;
use super::fields::{body_of, execution_len, is_message, response_len};
use super::manual;
use super::protocol::{NewOrderView, OrderCancelRequestView};
use super::session;
use super::strategy;
use crate::clock;
use crate::clock::LocalTime;
use crate::config;
use crate::config::{PlatformConfig, StrategyConfig};
use crate::fills;
use crate::manual::ManualReportKind;
use crate::orderbook;
use crate::orderbook::{OrderEntry, OrderStatus, OrderUpdate};
use crate::report::PlannedReportView;
use crate::stats;
use crate::stats::{PlatformStats, StatsSnapshot};
use crate::step::StepView;
use crate::text;
use crate::wire::{int_at, nat_at, text_held};

verus! {

/// A text, or another one where it is empty.
pub open spec fn or_else(s: Seq<char>, other: Seq<char>) -> Seq<char> {
    if s.len() > 0 {
        s
    } else {
        other
    }
}

/// What a report on an order repeats of it, in the bytes that responses and executions have in
/// common. `code` is the business that stands in where the order names none.
pub open spec fn repeats_order(
    b: Seq<u8>,
    partition_no: i32,
    o: NewOrderView,
    code: Seq<char>,
    order_id: Seq<char>,
    at: LocalTime,
) -> bool {
    &&& int_at(b, 0, 4) == partition_no
    &&& int_at(b, 4, 8) == 0
    &&& text_held(b, 12, 3, or_else(o.common.appl_id, code))
    &&& text_held(b, 15, 6, o.common.submitting_pbu_id)
    &&& text_held(b, 21, 6, o.common.submitting_pbu_id)
    &&& text_held(b, 27, 8, o.common.security_id)
    &&& text_held(b, 35, 4, or_else(o.common.security_id_source, "102"@))
    &&& nat_at(b, 39, 2) == o.common.owner_type
    &&& text_held(b, 41, 2, o.common.clearing_firm)
    &&& int_at(b, 43, 8) == clock::timestamp_of(at)
    &&& text_held(b, 51, 8, o.common.user_info)
    &&& text_held(b, 59, 16, order_id)
    &&& text_held(b, 75, 10, o.common.cl_ord_id)
}

/// A response to an order: its execution type, the state of the order, the reason, and what
/// is open; nothing is filled.
pub open spec fn is_response(
    f: Seq<u8>,
    mt: u32,
    partition_no: i32,
    o: NewOrderView,
    code: Seq<char>,
    order_id: Seq<char>,
    exec_id: Seq<char>,
    kind: u8,
    reason: u16,
    open: i64,
    at: LocalTime,
) -> bool {
    let b = body_of(f);
    &&& is_message(f, mt, response_len(mt))
    &&& repeats_order(b, partition_no, o, code, order_id, at)
    &&& text_held(b, 85, 10, Seq::empty())
    &&& text_held(b, 95, 16, exec_id)
    &&& nat_at(b, 111, 1) == kind
    &&& nat_at(b, 112, 1) == kind
    &&& nat_at(b, 113, 2) == reason
    &&& int_at(b, 115, 8) == open
    &&& int_at(b, 123, 8) == 0
    &&& nat_at(b, 131, 1) == o.common.side
    &&& nat_at(b, 132, 1) == o.common.ord_type
    &&& int_at(b, 133, 8) == o.common.order_qty
    &&& int_at(b, 141, 8) == o.common.price
    &&& text_held(b, 149, 12, o.common.account_id)
    &&& text_held(b, 161, 4, o.common.branch_id)
    &&& text_held(b, 165, 4, o.common.order_restrictions)
    &&& mt == 200_102 || mt == 200_202 ==> {
        &&& int_at(b, 169, 8) == o.extend.stop_px
        &&& int_at(b, 177, 8) == o.extend.min_qty
        &&& nat_at(b, 185, 2) == o.extend.max_price_levels
        &&& nat_at(b, 187, 1) == o.extend.time_in_force
    }
    &&& mt == 200_102 ==> nat_at(b, 188, 1) == o.extend.cash_margin
}

/// An execution of an order: its price and quantity, what is filled and what is open.
pub open spec fn is_execution(
    f: Seq<u8>,
    mt: u32,
    partition_no: i32,
    o: NewOrderView,
    code: Seq<char>,
    order_id: Seq<char>,
    exec_id: Seq<char>,
    price: i64,
    qty: i64,
    filled: int,
    open: int,
    at: LocalTime,
) -> bool {
    let b = body_of(f);
    &&& is_message(f, mt, execution_len(mt))
    &&& repeats_order(b, partition_no, o, code, order_id, at)
    &&& text_held(b, 85, 16, exec_id)
    &&& nat_at(b, 101, 1) == 0x46
    &&& nat_at(b, 102, 1) == if open == 0 {
        0x32int
    } else {
        0x31
    }
    &&& int_at(b, 103, 8) == price
    &&& int_at(b, 111, 8) == qty
    &&& int_at(b, 119, 8) == open
    &&& int_at(b, 127, 8) == filled
    &&& nat_at(b, 135, 1) == o.common.side
    &&& text_held(b, 136, 12, o.common.account_id)
    &&& text_held(b, 148, 4, o.common.branch_id)
    &&& mt == 200_115 ==> nat_at(b, 152, 1) == o.extend.cash_margin
}

/// A rejection for reasons of business.
pub open spec fn is_business_rejection(
    f: Seq<u8>,
    appl_id: Seq<char>,
    at: i64,
    pbu: Seq<char>,
    security_id: Seq<char>,
    source: Seq<char>,
    mt: u32,
    ref_id: Seq<char>,
    reason: u16,
    why: Seq<char>,
) -> bool {
    let b = body_of(f);
    &&& is_message(f, 4, 103)
    &&& text_held(b, 0, 3, appl_id)
    &&& int_at(b, 3, 8) == at
    &&& text_held(b, 11, 6, pbu)
    &&& text_held(b, 17, 8, security_id)
    &&& text_held(b, 25, 4, source)
    &&& int_at(b, 29, 8) == 0
    &&& nat_at(b, 37, 4) == mt
    &&& text_held(b, 41, 10, ref_id)
    &&& nat_at(b, 51, 2) == reason
    &&& text_held(b, 53, 50, why)
}

/// The types of reports by the type of the order: a response has the type of the order with a
/// 2 in front and one more behind; an execution that of the response and 13 more, in the
/// bidding for bonds 1 more.
pub proof fn law_report_types(code: Seq<char>)
    requires
        strategy::order_type(code) is Some,
    ensures
        ({
            let mt = strategy::order_type(code)->0;
            let biz = strategy::business(mt);
            &&& 100_000 < mt < 110_000
            &&& biz.ack_msg_type == mt + 100_001
            &&& biz.trade_msg_type matches Some(t) ==> t == biz.ack_msg_type + if mt == 104_128 {
                1int
            } else {
                13
            }
        }),
{
    reveal(strategy::order_type);
    reveal(strategy::business);
}

/// The answer to an order, as the client reads it, by the strategy. No answer at all; or a
/// single rejection with the configured reason; or an acknowledgement, with all of the order
/// open, and behind it the executions: each with its own price and quantity, with all that is
/// filled up to it, and with what is then open, which is never less than nothing. What goes
/// with each report into the order agrees with its bytes.
#[verifier::spinoff_prover]
#[verifier::rlimit(40)]
pub proof fn law_order_is_answered(
    st: StrategyConfig,
    partition_no: i32,
    o: NewOrderView,
    before: PlatformStats,
    after: PlatformStats,
    plans: Seq<PlannedReportView>,
    fs: Seq<(i64, i64)>,
    delays: Seq<u64>,
    at: LocalTime,
)
    requires
        strategy::may_plan(st, partition_no, o, before, after, plans, fs, delays, at),
    ensures
        ({
            let biz = strategy::business(o.msg_type);
            let code = biz.appl_id@;
            let order_id = stats::id_text(before.order_seq + 1);
            &&& after.order_seq == before.order_seq + 1
            &&& forall|i: int|
                0 <= i < plans.len() ==> (#[trigger] plans[i]).cl_ord_id == o.common.cl_ord_id
                    && plans[i].order_update is Some
            &&& plans.len() > 0 ==> waits(st.ack_delay, plans[0].delay_ms)
            &&& forall|i: int|
                1 <= i < plans.len() ==> waits(st.trade_delay, (#[trigger] plans[i]).delay_ms)
            &&& if st.mode is NoAutoReply {
                plans.len() == 0 && after.exec_seq == before.exec_seq
            } else if st.mode is Reject && st.reject_via is ExecutionReport {
                &&& plans.len() == 1
                &&& plans[0].kind is Reject
                &&& after.exec_seq == before.exec_seq + 1
                &&& is_response(
                    plans[0].frame,
                    biz.ack_msg_type,
                    partition_no,
                    o,
                    code,
                    order_id,
                    stats::id_text(before.exec_seq + 1),
                    0x38,
                    st.reject_reason,
                    0,
                    at,
                )
                &&& updates(plans[0], order_id, 0, 0, OrderStatus::Rejected)
            } else if st.mode is Reject {
                &&& plans.len() == 1
                &&& plans[0].kind is BusinessReject
                &&& after.exec_seq == before.exec_seq
                &&& is_business_rejection(
                    plans[0].frame,
                    or_else(o.common.appl_id, code),
                    clock::timestamp_of(at) as i64,
                    o.common.submitting_pbu_id,
                    o.common.security_id,
                    o.common.security_id_source,
                    o.msg_type,
                    o.common.cl_ord_id,
                    st.reject_reason,
                    st.reject_text@,
                )
                &&& updates(plans[0], Seq::empty(), 0, 0, OrderStatus::Rejected)
            } else {
                &&& plans.len() == 1 + fs.len()
                &&& biz.trade_msg_type is None ==> fs.len() == 0
                &&& after.exec_seq == before.exec_seq + plans.len()
                &&& plans[0].kind is Ack
                &&& is_response(
                    plans[0].frame,
                    biz.ack_msg_type,
                    partition_no,
                    o,
                    code,
                    order_id,
                    stats::id_text(before.exec_seq + 1),
                    0x30,
                    0,
                    o.common.order_qty,
                    at,
                )
                &&& updates(plans[0], order_id, 0, o.common.order_qty as int, OrderStatus::New)
                &&& forall|i: int|
                    0 <= i < fs.len() ==> is_told(
                        #[trigger] plans[1 + i],
                        biz,
                        partition_no,
                        o,
                        order_id,
                        stats::id_text(before.exec_seq + 2 + i),
                        fs,
                        i,
                        at,
                    )
            }
        }),
{
    reveal(strategy::may_plan);
    reveal(strategy::trade_plan);
    clock::law_stamps(at, at);
    let biz = strategy::business(o.msg_type);
    let order_id = stats::id_text(before.order_seq + 1);
    let exec_id = stats::id_text(before.exec_seq + 1);
    let now = clock::timestamp_of(at) as i64;
    fields::law_response_fields(strategy::ack_of(partition_no, o, biz, order_id, exec_id, now));
    fields::law_response_fields(
        strategy::reject_of(partition_no, o, biz, order_id, exec_id, st.reject_reason, now),
    );
    fields::law_business_rejection_fields(
        strategy::business_reject_of(o, biz, st.reject_reason, st.reject_text@, now),
    );
    if strategy::trades(o) {
        fills::lemma_fills_fit(
            st,
            biz.allow_partial,
            strategy::terms(o),
            strategy::units(),
            fs,
        );
    }
    if !(st.mode is NoAutoReply) && !(st.mode is Reject) {
        assert forall|i: int| 0 <= i < fs.len() implies is_told(
            #[trigger] plans[1 + i],
            biz,
            partition_no,
            o,
            order_id,
            stats::id_text(before.exec_seq + 2 + i),
            fs,
            i,
            at,
        ) by {
            lemma_execution_is_told(
                plans[1 + i],
                biz,
                partition_no,
                o,
                order_id,
                stats::id_text(before.exec_seq + 2 + i),
                fs,
                i,
                delays[i + 1],
                at,
            );
        }
    }
}

/// A delay between the two limits, whichever is the lower.
pub open spec fn waits(d: config::DelayConfig, ms: u64) -> bool {
    d.min_ms <= ms <= d.max_ms || d.max_ms <= ms <= d.min_ms
}

/// What a report brings into the order.
pub open spec fn updates(
    p: PlannedReportView,
    order_id: Seq<char>,
    filled: int,
    open: int,
    status: OrderStatus,
) -> bool {
    &&& p.order_update matches Some(u)
    &&& u.order_id == order_id
    &&& u.cum_qty == filled
    &&& u.leaves_qty == open
    &&& u.status == status
}

/// The report on the `i`-th execution: its price and quantity are those that were made up;
/// what is filled is the sum up to it, and what is open the rest of the order.
pub open spec fn is_told(
    p: PlannedReportView,
    biz: strategy::BizInfo,
    partition_no: i32,
    o: NewOrderView,
    order_id: Seq<char>,
    exec_id: Seq<char>,
    fs: Seq<(i64, i64)>,
    i: int,
    at: LocalTime,
) -> bool {
    let filled = sum_of(fs.take(i + 1));
    let rest = o.common.order_qty - filled;
    let open = if rest > 0 {
        rest
    } else {
        0
    };
    &&& p.kind is Trade
    &&& biz.trade_msg_type matches Some(mt)
    &&& is_execution(
        p.frame,
        mt,
        partition_no,
        o,
        biz.appl_id@,
        order_id,
        exec_id,
        fs[i].1,
        fs[i].0,
        filled,
        open,
        at,
    )
    &&& updates(
        p,
        order_id,
        filled,
        open,
        if open == 0 {
            OrderStatus::Filled
        } else {
            OrderStatus::Partial
        },
    )
}

/// The sum of the quantities.
pub open spec fn sum_of(fs: Seq<(i64, i64)>) -> int
    decreases fs.len(),
{
    if fs.len() == 0 {
        0
    } else {
        fs[0].0 + sum_of(fs.drop_first())
    }
}

/// Sums can be taken from either end.
pub proof fn lemma_sum_of(fs: Seq<(i64, i64)>)
    ensures
        sum_of(fs) == fills::qty_sum(fs),
    decreases fs.len(),
{
    if fs.len() == 1 {
        assert(fs.drop_first() =~= Seq::<(i64, i64)>::empty());
        assert(fs.drop_last() =~= Seq::<(i64, i64)>::empty());
        assert(fills::qty_sum(fs.drop_last()) == 0);
        assert(sum_of(fs.drop_first()) == 0);
    } else if fs.len() > 1 {
        let mid = fs.drop_first().drop_last();
        lemma_sum_of(fs.drop_first());
        lemma_sum_of(fs.drop_last());
        lemma_sum_of(mid);
        assert(fs.drop_last().drop_first() =~= mid);
        assert(fs.drop_last()[0] == fs[0]);
        assert(fs.drop_first().last() == fs.last());
    }
}

#[verifier::spinoff_prover]
#[verifier::rlimit(40)]
proof fn lemma_execution_is_told(
    p: PlannedReportView,
    biz: strategy::BizInfo,
    partition_no: i32,
    o: NewOrderView,
    order_id: Seq<char>,
    exec_id: Seq<char>,
    fs: Seq<(i64, i64)>,
    i: int,
    delay_ms: u64,
    at: LocalTime,
)
    requires
        0 <= i < fs.len(),
        fills::sums_fit(o.common.order_qty, fs),
        biz.trade_msg_type is Some,
        clock::timestamp_of(at) as i64 == clock::timestamp_of(at),
        p == strategy::trade_plan(
            partition_no,
            o,
            biz,
            order_id,
            exec_id,
            biz.trade_msg_type->0,
            fs,
            i,
            delay_ms,
            clock::timestamp_of(at) as i64,
        ),
    ensures
        is_told(p, biz, partition_no, o, order_id, exec_id, fs, i, at),
{
    reveal(strategy::trade_plan);
    lemma_sum_of(fs.take(i + 1));
    assert(fills::sum_fits(o.common.order_qty, fills::cum_after(fs, i + 1)));
    fields::law_execution_fields(
        strategy::trade_of(
            partition_no,
            o,
            biz,
            order_id,
            exec_id,
            biz.trade_msg_type->0,
            fs[i],
            fills::cum_after(fs, i + 1),
            fills::leaves_after(o.common.order_qty, fs, i + 1),
            clock::timestamp_of(at) as i64,
        ),
    );
}

/// An order that is kept as it came: nothing is filled, and all of it is open.
pub open spec fn is_kept_order(e: OrderEntry, o: NewOrderView, conn_id: u64, now: LocalTime) -> bool {
    &&& e.cl_ord_id@ == o.common.cl_ord_id
    &&& e.order_id@.len() == 0
    &&& e.security_id@ == o.common.security_id
    &&& o.common.side == 0x32 <==> e.side@.contains('卖')
    &&& o.common.side == 0x31 ==> e.side@ == "买"@
    &&& e.price == o.common.price
    &&& e.qty == o.common.order_qty
    &&& e.cum_qty == 0
    &&& e.leaves_qty == o.common.order_qty
    &&& e.status is New
    &&& e.ord_type == o.common.ord_type
    &&& e.account@ == o.common.account_id
    &&& e.branch@ == o.common.branch_id
    &&& e.ts@ == clock::hms_text(now)
    &&& e.conn_id == conn_id
    &&& e.pbu@ == o.common.submitting_pbu_id
    &&& e.biz_id == 0
    &&& e.biz_pbu@.len() == 0
    &&& e.owner_type == o.common.owner_type
    &&& e.credit_tag@.len() == 0
    &&& e.clearing_firm@ == o.common.clearing_firm
    &&& e.user_info@ == o.common.user_info
    &&& e.biz@ == o.common.appl_id
}

/// The counters are those of before but for the given one, which counts one more.
pub open spec fn counts_only(
    a: StatsSnapshot,
    b: StatsSnapshot,
    orders: int,
    rejects: int,
    cancels: int,
) -> bool {
    &&& a.orders < u64::MAX ==> b.orders == a.orders + orders
    &&& a.business_rejects < u64::MAX ==> b.business_rejects == a.business_rejects + rejects
    &&& a.cancels < u64::MAX ==> b.cancels == a.cancels + cancels
    &&& b.acks == a.acks
    &&& b.trades == a.trades
    &&& b.order_rejects == a.order_rejects
    &&& b.total_connections == a.total_connections
}

/// What an order does that is answered: where its business is not done on the platform it is
/// refused with the code 20108 and leaves no other trace than the count of refusals; else it
/// is counted once, kept behind the other orders as it came, and answered by reports that
/// carry the partition of its security.
#[verifier::spinoff_prover]
#[verifier::rlimit(40)]
pub proof fn law_order_is_taken(
    cfg: PlatformConfig,
    st: StrategyConfig,
    o: NewOrderView,
    conn_id: u64,
    now: LocalTime,
    before: PlatformStats,
    after: PlatformStats,
    orders: Option<Seq<OrderEntry>>,
    orders_after: Option<Seq<OrderEntry>>,
    step: StepView,
)
    requires
        now.wf(),
        session::is_order_answer(
            cfg,
            st,
            o,
            conn_id,
            now,
            before,
            after,
            orders,
            orders_after,
            step,
        ),
        step != StepView::OutOfRange,
        orders matches Some(book) ==> book.len() <= 2000,
    ensures
        if strategy::platform_of(text::trimmed(o.common.appl_id)) != Some(cfg.platform_type) {
            &&& step matches StepView::Reply(replies)
            &&& replies.len() == 1
            &&& is_business_rejection(
                replies[0],
                text::trimmed(o.common.appl_id),
                clock::timestamp_of(now) as i64,
                o.common.submitting_pbu_id,
                o.common.security_id,
                o.common.security_id_source,
                o.msg_type,
                o.common.cl_ord_id,
                20_108,
                "平台非法-委托申报的平台错误,例如向现货集中竞价平台申报发行认购业务的委托"@,
            )
            &&& counts_only(before.counters(), after.counters(), 0, 1, 0)
            &&& after.order_seq == before.order_seq && after.exec_seq == before.exec_seq
            &&& orders_after == orders
        } else {
            &&& counts_only(before.counters(), after.counters(), 1, 0, 0)
            &&& orders is None ==> orders_after is None
            &&& orders matches Some(book) ==> (orders_after matches Some(t) && t.len() >= 1
                && is_kept_order(t[t.len() - 1], o, conn_id, now) && t.len() == if book.len()
                < 2000 {
                book.len() + 1
            } else {
                book.len()
            })
            &&& step matches StepView::Reports(plans)
            &&& exists|
                counted: PlatformStats,
                fs: Seq<(i64, i64)>,
                delays: Seq<u64>,
                at: LocalTime,
            | #[trigger]
                strategy::may_plan(
                    st,
                    config::partition_of(cfg.partition_list(), o.common.security_id) as i32,
                    o,
                    counted,
                    after,
                    plans,
                    fs,
                    delays,
                    at,
                ) && counted.order_seq == before.order_seq && counted.exec_seq == before.exec_seq
        },
{
    fields::law_business_rejection_fields(
        session::platform_reject(session::order_filing(o), clock::timestamp_of(now) as i64),
    );
    if session::on_platform(o.common.appl_id, cfg.platform_type) {
        let (counted, fs, delays, at) = choose|
            counted: PlatformStats,
            fs: Seq<(i64, i64)>,
            delays: Seq<u64>,
            at: LocalTime,
        |
            session::is_planned(
                cfg,
                st,
                o,
                before,
                counted,
                after,
                step->Reports_0,
                fs,
                delays,
                at,
            );
        assert(strategy::may_plan(
            st,
            config::partition_of(cfg.partition_list(), o.common.security_id) as i32,
            o,
            counted,
            after,
            step->Reports_0,
            fs,
            delays,
            at,
        ));
        assert(after.counters() == counted.counters()) by {
            reveal(strategy::may_plan);
        }
        match orders {
            Some(book) => {
                let e = choose|e: OrderEntry| #[trigger]
                    session::is_entry(e, o, conn_id, now) && orders_after == Some(
                        orderbook::added(book, e),
                    );
                orderbook::law_added(book, e);
                lemma_side_words(o.common.side);
            },
            None => {},
        }
    }
}

/// Only sales are kept under the word for sales.
proof fn lemma_side_words(side: u8)
    ensures
        session::side_text(side).contains('卖') <==> side == 0x32,
{
    reveal_strlit("买");
    reveal_strlit("卖");
    reveal_strlit("?");
    assert("卖"@[0] == '卖');
    if session::side_text(side).contains('卖') {
        let i = session::side_text(side).index_of('卖');
        assert(session::side_text(side)[i] == '卖');
    }
}

/// The order that a request names can be cancelled: it is kept, and new or partly filled.
pub open spec fn can_be_cancelled(orders: Option<Seq<OrderEntry>>, key: Seq<char>) -> bool {
    &&& orders matches Some(book)
    &&& orderbook::lookup(book, key) matches Some(e)
    &&& e.status is New || e.status is Partial
}

/// The report on a cancelled order. It answers the request by its number, and names the order
/// that was cancelled; nothing is open any more. What was filled of the order, its price and
/// its quantity are those of the order that was kept, `e`; without one nothing was filled.
pub open spec fn is_cancellation(
    f: Seq<u8>,
    partition_no: i32,
    q: OrderCancelRequestView,
    e: Option<OrderEntry>,
    exec_id: Seq<char>,
    now: i64,
) -> bool {
    let b = body_of(f);
    let biz = match e {
        Some(x) => match strategy::business_of(x.biz@) {
            Some(biz) => biz,
            None => strategy::business(100_101),
        },
        None => strategy::business(100_101),
    };
    &&& is_message(f, biz.ack_msg_type, response_len(biz.ack_msg_type))
    &&& int_at(b, 0, 4) == partition_no
    &&& int_at(b, 4, 8) == 0
    &&& text_held(b, 12, 3, or_else(q.appl_id, biz.appl_id@))
    &&& text_held(b, 15, 6, q.submitting_pbu_id)
    &&& text_held(b, 21, 6, q.submitting_pbu_id)
    &&& text_held(b, 27, 8, q.security_id)
    &&& text_held(b, 35, 4, or_else(q.security_id_source, "102"@))
    &&& nat_at(b, 39, 2) == q.owner_type
    &&& text_held(b, 41, 2, q.clearing_firm)
    &&& int_at(b, 43, 8) == now
    &&& text_held(b, 51, 8, q.user_info)
    &&& text_held(b, 75, 10, q.cl_ord_id)
    &&& text_held(b, 85, 10, q.orig_cl_ord_id)
    &&& text_held(b, 95, 16, exec_id)
    &&& nat_at(b, 111, 1) == 0x34
    &&& nat_at(b, 112, 1) == 0x34
    &&& nat_at(b, 113, 2) == 0
    &&& int_at(b, 115, 8) == 0
    &&& nat_at(b, 131, 1) == q.side
    &&& text_held(b, 165, 4, Seq::empty())
    &&& match e {
        Some(x) => {
            &&& text_held(b, 59, 16, x.order_id@)
            &&& int_at(b, 123, 8) == x.cum_qty
            &&& nat_at(b, 132, 1) == x.ord_type
            &&& int_at(b, 133, 8) == x.qty
            &&& int_at(b, 141, 8) == x.price
            &&& text_held(b, 149, 12, x.account@)
            &&& text_held(b, 161, 4, x.branch@)
        },
        None => {
            &&& text_held(b, 59, 16, q.order_id)
            &&& int_at(b, 123, 8) == 0
            &&& nat_at(b, 132, 1) == 0
            &&& int_at(b, 133, 8) == q.order_qty
            &&& int_at(b, 141, 8) == 0
            &&& text_held(b, 149, 12, Seq::empty())
            &&& text_held(b, 161, 4, Seq::empty())
        },
    }
}

/// The refusal of a request to cancel.
pub open spec fn is_cancel_refusal(
    f: Seq<u8>,
    partition_no: i32,
    q: OrderCancelRequestView,
    reason: u16,
    now: i64,
) -> bool {
    let b = body_of(f);
    &&& is_message(f, 290_008, 115)
    &&& int_at(b, 0, 4) == partition_no
    &&& int_at(b, 4, 8) == 0
    &&& text_held(b, 12, 3, or_else(q.appl_id, "010"@))
    &&& text_held(b, 15, 6, q.submitting_pbu_id)
    &&& text_held(b, 21, 6, q.submitting_pbu_id)
    &&& text_held(b, 27, 8, q.security_id)
    &&& text_held(b, 35, 4, q.security_id_source)
    &&& nat_at(b, 39, 2) == q.owner_type
    &&& text_held(b, 41, 2, q.clearing_firm)
    &&& int_at(b, 43, 8) == now
    &&& text_held(b, 51, 8, q.user_info)
    &&& text_held(b, 59, 10, q.cl_ord_id)
    &&& text_held(b, 69, 10, q.orig_cl_ord_id)
    &&& nat_at(b, 79, 1) == q.side
    &&& nat_at(b, 80, 1) == 0x38
    &&& nat_at(b, 81, 2) == reason
    &&& text_held(b, 83, 16, "SIM NO ORDER"@)
    &&& text_held(b, 99, 16, q.order_id)
}

/// The answer to a request to cancel, as the client reads it. In the default mode it is
/// granted exactly where the order that it names is kept and new or partly filled; in the
/// other modes always or never. Where it is granted the order is found cancelled afterwards,
/// with nothing open and what was filled as it was, and no other order changes; where it is
/// refused no order changes.
#[verifier::spinoff_prover]
#[verifier::rlimit(40)]
pub proof fn law_cancel_is_answered(
    cfg: PlatformConfig,
    st: StrategyConfig,
    q: OrderCancelRequestView,
    exec_no: int,
    before: StatsSnapshot,
    orders: Option<Seq<OrderEntry>>,
    delay_ms: u64,
    now: i64,
)
    requires
        text::is_blank(q.appl_id) || strategy::platform_of(text::trimmed(q.appl_id)) == Some(
            cfg.platform_type,
        ),
    ensures
        ({
            let a = session::request_answer(
                cfg,
                st,
                q,
                exec_no,
                before,
                orders,
                delay_ms,
                now,
            );
            let part = config::partition_of(cfg.partition_list(), q.security_id) as i32;
            let named = match orders {
                Some(book) => orderbook::lookup(book, q.orig_cl_ord_id),
                None => None,
            };
            let granted = st.cancel_mode is AlwaysSuccess || st.cancel_mode is Default
                && can_be_cancelled(orders, q.orig_cl_ord_id);
            &&& a.step matches StepView::Later { frame, delay_ms: d }
            &&& d == delay_ms
            &&& if granted {
                &&& is_cancellation(frame, part, q, named, stats::id_text(exec_no + 1), now)
                &&& a.execs == 1
                &&& counts_only(before, a.counters, 0, 0, 1)
            } else if st.cancel_front_reject {
                &&& is_business_rejection(
                    frame,
                    or_else(q.appl_id, "010"@),
                    now,
                    q.submitting_pbu_id,
                    q.security_id,
                    q.security_id_source,
                    190_007,
                    q.cl_ord_id,
                    st.cancel_reject_reason,
                    "撤单被拒"@,
                )
                &&& a.execs == 0
                &&& counts_only(before, a.counters, 0, 1, 1)
            } else {
                &&& is_cancel_refusal(frame, part, q, st.cancel_reject_reason, now)
                &&& a.execs == 0
                &&& counts_only(before, a.counters, 0, 0, 1)
            }
            &&& if granted && can_be_cancelled(orders, q.orig_cl_ord_id) {
                &&& a.orders matches Some(t)
                &&& orderbook::lookup(t, q.orig_cl_ord_id) matches Some(e)
                &&& e.status is Cancelled
                &&& e.leaves_qty == 0
                &&& e.cum_qty == named->0.cum_qty
                &&& orderbook::same_order(e, named->0)
                &&& t.len() == orders->0.len()
                &&& forall|i: int|
                    0 <= i < t.len() && orders->0[i].cl_ord_id@ != q.orig_cl_ord_id
                        ==> #[trigger] t[i] == orders->0[i]
            } else {
                a.orders == orders
            }
        }),
{
    let part = config::partition_of(cfg.partition_list(), q.security_id) as i32;
    let named = session::named_order(orders, q.orig_cl_ord_id);
    let v = session::cancelled_of(part, q, named, stats::id_text(exec_no + 1), now);
    fields::law_response_fields(v);
    fields::law_cancel_rejection_fields(
        session::cancel_reject_of(part, q, st.cancel_reject_reason, now),
    );
    fields::law_business_rejection_fields(
        session::cancel_front_reject_of(q, st.cancel_reject_reason, now),
    );
    match orders {
        Some(book) => {
            if orderbook::lookup(book, q.orig_cl_ord_id) is Some {
                orderbook::law_cancelled_order(book, q.orig_cl_ord_id);
            }
        },
        None => {},
    }
}

/// A request to cancel whose business is not done on the platform is refused for that and
/// changes nothing.
pub proof fn law_cancel_of_another_platform(
    cfg: PlatformConfig,
    st: StrategyConfig,
    q: OrderCancelRequestView,
    exec_no: int,
    before: StatsSnapshot,
    orders: Option<Seq<OrderEntry>>,
    delay_ms: u64,
    now: i64,
)
    requires
        !text::is_blank(q.appl_id),
        strategy::platform_of(text::trimmed(q.appl_id)) != Some(cfg.platform_type),
    ensures
        ({
            let a = session::request_answer(
                cfg,
                st,
                q,
                exec_no,
                before,
                orders,
                delay_ms,
                now,
            );
            &&& a.step matches StepView::Reply(replies)
            &&& replies.len() == 1
            &&& is_business_rejection(
                replies[0],
                text::trimmed(q.appl_id),
                now,
                q.submitting_pbu_id,
                q.security_id,
                q.security_id_source,
                190_007,
                q.cl_ord_id,
                20_108,
                "平台非法-委托申报的平台错误,例如向现货集中竞价平台申报发行认购业务的委托"@,
            )
            &&& a.execs == 0
            &&& a.orders == orders
            &&& counts_only(before, a.counters, 0, 1, 0)
        }),
{
    fields::law_business_rejection_fields(
        session::platform_reject(session::cancel_filing(q), now),
    );
}

/// The report on an order that is cancelled after the report `upd` on it went out tells what
/// that report said was filled: nothing right after the order came in, and after executions
/// the sum of their quantities.
#[verifier::spinoff_prover]
#[verifier::rlimit(40)]
pub proof fn law_cancel_tells_what_was_filled(
    book: Seq<OrderEntry>,
    upd: OrderUpdate,
    partition_no: i32,
    q: OrderCancelRequestView,
    exec_id: Seq<char>,
    now: i64,
)
    requires
        can_be_cancelled(Some(book), q.orig_cl_ord_id),
    ensures
        ({
            let named = orderbook::lookup(book, q.orig_cl_ord_id);
            let told = orderbook::lookup(
                orderbook::applied(book, q.orig_cl_ord_id, upd),
                q.orig_cl_ord_id,
            );
            let f = session::cancelled_of(partition_no, q, named, exec_id, now).frame();
            let g = session::cancelled_of(partition_no, q, told, exec_id, now).frame();
            &&& int_at(body_of(f), 123, 8) == named->0.cum_qty
            &&& int_at(body_of(g), 123, 8) == upd.cum_qty
            &&& int_at(body_of(f), 115, 8) == 0
            &&& int_at(body_of(g), 115, 8) == 0
            &&& text_held(body_of(g), 85, 10, q.orig_cl_ord_id)
            &&& named->0.cl_ord_id@ == q.orig_cl_ord_id
        }),
{
    let named = orderbook::lookup(book, q.orig_cl_ord_id);
    let told = orderbook::lookup(
        orderbook::applied(book, q.orig_cl_ord_id, upd),
        q.orig_cl_ord_id,
    );
    orderbook::law_report_is_applied(book, q.orig_cl_ord_id, upd);
    orderbook::law_found_by_number(book, q.orig_cl_ord_id);
    fields::law_response_fields(
        session::cancelled_of(partition_no, q, named, exec_id, now),
    );
    fields::law_response_fields(
        session::cancelled_of(partition_no, q, told, exec_id, now),
    );
}

/// What a report that is sent by hand repeats of the order that is kept.
pub open spec fn repeats_kept(
    b: Seq<u8>,
    partition_no: i32,
    e: OrderEntry,
    code: Seq<char>,
    order_id: Seq<char>,
    now: i64,
) -> bool {
    &&& int_at(b, 0, 4) == partition_no
    &&& int_at(b, 4, 8) == 0
    &&& text_held(b, 12, 3, code)
    &&& text_held(b, 15, 6, e.pbu@)
    &&& text_held(b, 21, 6, e.pbu@)
    &&& text_held(b, 27, 8, e.security_id@)
    &&& text_held(b, 35, 4, "102"@)
    &&& nat_at(b, 39, 2) == e.owner_type
    &&& text_held(b, 41, 2, e.clearing_firm@)
    &&& int_at(b, 43, 8) == now
    &&& text_held(b, 51, 8, e.user_info@)
    &&& text_held(b, 59, 16, order_id)
    &&& text_held(b, 75, 10, e.cl_ord_id@)
}

/// A response that is sent by hand.
pub open spec fn is_response_by_hand(
    f: Seq<u8>,
    mt: u32,
    partition_no: i32,
    e: OrderEntry,
    code: Seq<char>,
    order_id: Seq<char>,
    exec_id: Seq<char>,
    named: Seq<char>,
    kind: u8,
    reason: u16,
    open: i64,
    now: i64,
) -> bool {
    let b = body_of(f);
    &&& is_message(f, mt, response_len(mt))
    &&& repeats_kept(b, partition_no, e, code, order_id, now)
    &&& text_held(b, 85, 10, named)
    &&& text_held(b, 95, 16, exec_id)
    &&& nat_at(b, 111, 1) == kind
    &&& nat_at(b, 112, 1) == kind
    &&& nat_at(b, 113, 2) == reason
    &&& int_at(b, 115, 8) == open
    &&& int_at(b, 123, 8) == e.cum_qty
    &&& nat_at(b, 131, 1) == side_of(e)
    &&& nat_at(b, 132, 1) == e.ord_type
    &&& int_at(b, 133, 8) == e.qty
    &&& int_at(b, 141, 8) == e.price
    &&& text_held(b, 149, 12, e.account@)
    &&& text_held(b, 161, 4, e.branch@)
    &&& text_held(b, 165, 4, Seq::empty())
}

/// The side of an order that is kept, as it is sent.
pub open spec fn side_of(e: OrderEntry) -> int {
    if e.side@.contains('卖') {
        0x32
    } else {
        0x31
    }
}

/// The shares that a fill by hand takes of those that are open: those that are asked for, but
/// at least one and at most all; and all where no number is given.
pub open spec fn is_taken(open: int, asked: Option<i64>, shares: int) -> bool {
    &&& 1 <= shares <= open
    &&& asked is None ==> shares == open
    &&& asked matches Some(a) ==> {
        &&& 1 <= a <= open ==> shares == a
        &&& a > open ==> shares == open
        &&& a < 1 ==> shares == 1
    }
}

/// The reports that are sent by hand, as the client reads them. A fill is at the price that is
/// asked for, and else at that of the order; it fills so many of the open shares as are asked
/// for, and what is filled and open in it agrees with what goes into the order. The other
/// reports tell what was filled of the order; an acknowledgement leaves the order as it is, a
/// rejection and a cancellation leave nothing open.
#[verifier::spinoff_prover]
#[verifier::rlimit(40)]
pub proof fn law_report_by_hand(
    cfg: PlatformConfig,
    order_no: int,
    exec_no: int,
    e: OrderEntry,
    kind: ManualReportKind,
    qty: Option<i64>,
    price: Option<i64>,
    reason: Option<i32>,
    front_reject: bool,
    now: i64,
)
    requires
        e.cum_qty + e.leaves_qty <= i64::MAX,
    ensures
        ({
            let r = manual::manual_report(
                cfg,
                order_no,
                exec_no,
                e,
                kind,
                qty,
                price,
                reason,
                front_reject,
                now,
            );
            let biz = match strategy::business_of(e.biz@) {
                Some(biz) => biz,
                None => strategy::business(100_101),
            };
            let code = biz.appl_id@;
            let part = config::partition_of(cfg.partition_list(), e.security_id@) as i32;
            let order_id = or_else(e.order_id@, stats::id_text(order_no + 1));
            let exec_id = stats::id_text(exec_no + 1);
            match kind {
                ManualReportKind::Trade => if biz.trade_msg_type is None || e.leaves_qty < 100 {
                    r is Err
                } else {
                    &&& r matches Ok(m)
                    &&& is_fill_by_hand(
                        m,
                        biz.trade_msg_type->0,
                        part,
                        e,
                        code,
                        order_id,
                        exec_id,
                        qty,
                        price,
                        now,
                    )
                },
                ManualReportKind::Ack => {
                    &&& r matches Ok(m)
                    &&& is_response_by_hand(
                        m.frame,
                        biz.ack_msg_type,
                        part,
                        e,
                        code,
                        order_id,
                        exec_id,
                        Seq::empty(),
                        0x30,
                        0,
                        e.leaves_qty,
                        now,
                    )
                    &&& m.update.order_id == order_id
                    &&& m.update.cum_qty == e.cum_qty
                    &&& m.update.leaves_qty == e.leaves_qty
                    &&& m.update.status == e.status
                },
                ManualReportKind::Reject => {
                    &&& r matches Ok(m)
                    &&& if front_reject {
                        &&& is_business_rejection(
                            m.frame,
                            e.biz@,
                            now,
                            e.pbu@,
                            e.security_id@,
                            "102"@,
                            match strategy::order_type(e.biz@) {
                                Some(mt) => mt,
                                None => 100_101,
                            },
                            e.cl_ord_id@,
                            manual::reason_code(reason),
                            Seq::empty(),
                        )
                        &&& m.update.order_id == Seq::<char>::empty()
                    } else {
                        &&& is_response_by_hand(
                            m.frame,
                            biz.ack_msg_type,
                            part,
                            e,
                            code,
                            order_id,
                            exec_id,
                            Seq::empty(),
                            0x38,
                            manual::reason_code(reason),
                            0,
                            now,
                        )
                        &&& m.update.order_id == order_id
                    }
                    &&& m.update.cum_qty == e.cum_qty
                    &&& m.update.leaves_qty == 0
                    &&& m.update.status is Rejected
                    &&& reason is None ==> manual::reason_code(reason) == 1
                    &&& reason is Some && 0 <= reason->0 < 65_536 ==> manual::reason_code(reason)
                        == reason->0
                },
                ManualReportKind::Cancel => {
                    &&& r matches Ok(m)
                    &&& is_response_by_hand(
                        m.frame,
                        biz.ack_msg_type,
                        part,
                        e,
                        code,
                        order_id,
                        exec_id,
                        e.cl_ord_id@,
                        0x34,
                        0,
                        0,
                        now,
                    )
                    &&& m.update.order_id == order_id
                    &&& m.update.cum_qty == e.cum_qty
                    &&& m.update.leaves_qty == 0
                    &&& m.update.status is Cancelled
                },
            }
        }),
{
    let biz = session::entry_business(e.biz@);
    let part = config::partition_of(cfg.partition_list(), e.security_id@) as i32;
    let order_id = crate::manual::manual_order_id(e, order_no);
    let exec_id = stats::id_text(exec_no + 1);
    let ack = manual::manual_ack_of(part, e, biz, order_id, exec_id, now);
    assert(session::side_code(e.side@) == side_of(e)) by {
        lemma_side_code(e.side@);
    }
    match kind {
        ManualReportKind::Ack => {
            fields::law_response_fields(ack);
        },
        ManualReportKind::Trade => {
            if biz.trade_msg_type is Some && e.leaves_qty >= 100 {
                lemma_fill_by_hand(
                    part,
                    e,
                    biz,
                    order_id,
                    exec_id,
                    qty,
                    price,
                    now,
                );
            }
        },
        ManualReportKind::Reject => {
            fields::law_business_rejection_fields(
                manual::manual_front_reject_of(e, manual::reason_code(reason), now),
            );
            fields::law_response_fields(
                super::protocol::ExecRptAckView {
                    exec_type: 0x38,
                    ord_status: 0x38,
                    ord_rej_reason: manual::reason_code(reason),
                    leaves_qty: 0,
                    ..ack
                },
            );
        },
        ManualReportKind::Cancel => {
            fields::law_response_fields(
                super::protocol::ExecRptAckView {
                    exec_type: 0x34,
                    ord_status: 0x34,
                    orig_cl_ord_id: e.cl_ord_id@,
                    leaves_qty: 0,
                    ..ack
                },
            );
        },
    }
}

proof fn lemma_side_code(s: Seq<char>)
    ensures
        session::side_code(s) == (if s.contains('卖') {
            0x32int
        } else {
            0x31
        }),
{
}

/// A fill that is sent by hand.
pub open spec fn is_fill_by_hand(
    m: crate::manual::ManualReportView,
    mt: u32,
    partition_no: i32,
    e: OrderEntry,
    code: Seq<char>,
    order_id: Seq<char>,
    exec_id: Seq<char>,
    qty: Option<i64>,
    price: Option<i64>,
    now: i64,
) -> bool {
    let b = body_of(m.frame);
    let filled = int_at(b, 111, 8);
    let asked = match price {
        Some(p) => p,
        None => e.price,
    };
    &&& is_message(m.frame, mt, execution_len(mt))
    &&& repeats_kept(b, partition_no, e, code, order_id, now)
    &&& text_held(b, 85, 16, exec_id)
    &&& nat_at(b, 101, 1) == 0x46
    &&& asked >= 1 ==> int_at(b, 103, 8) == asked
    &&& asked < 1 ==> int_at(b, 103, 8) == 1
    &&& filled % 100 == 0
    &&& is_taken(e.leaves_qty as int / 100, qty, filled / 100)
    &&& int_at(b, 119, 8) == e.leaves_qty - filled
    &&& int_at(b, 127, 8) == e.cum_qty + filled
    &&& nat_at(b, 102, 1) == if e.leaves_qty == filled {
        0x32int
    } else {
        0x31
    }
    &&& nat_at(b, 135, 1) == side_of(e)
    &&& text_held(b, 136, 12, e.account@)
    &&& text_held(b, 148, 4, e.branch@)
    &&& m.update.order_id == order_id
    &&& m.update.cum_qty == int_at(b, 127, 8)
    &&& m.update.leaves_qty == int_at(b, 119, 8)
    &&& m.update.status == if e.leaves_qty == filled {
        OrderStatus::Filled
    } else {
        OrderStatus::Partial
    }
}

#[verifier::spinoff_prover]
#[verifier::rlimit(40)]
proof fn lemma_fill_by_hand(
    partition_no: i32,
    e: OrderEntry,
    biz: strategy::BizInfo,
    order_id: Seq<char>,
    exec_id: Seq<char>,
    qty: Option<i64>,
    price: Option<i64>,
    now: i64,
)
    requires
        e.cum_qty + e.leaves_qty <= i64::MAX,
        e.leaves_qty >= 100,
        biz.trade_msg_type is Some,
    ensures
        is_fill_by_hand(
            manual::manual_trade(
                partition_no,
                e,
                biz,
                biz.trade_msg_type->0,
                order_id,
                exec_id,
                crate::manual::fill_shares(e, qty, 100),
                manual::fill_price(e, price),
                now,
            ),
            biz.trade_msg_type->0,
            partition_no,
            e,
            biz.appl_id@,
            order_id,
            exec_id,
            qty,
            price,
            now,
        ),
{
    let shares = crate::manual::fill_shares(e, qty, 100);
    let v = manual::manual_trade_of(
        partition_no,
        e,
        biz,
        biz.trade_msg_type->0,
        order_id,
        exec_id,
        shares,
        manual::fill_price(e, price),
        now,
    );
    fields::law_execution_fields(v);
    lemma_side_code(e.side@);
}

/// The executions that are made up for an order, by the strategy. One at the price of the order
/// for all of it where it is filled at once; one at that price, for less, where it is filled in
/// part. A split has whole lots but for its last piece; its prices move by the configured step
/// towards the price of the order, from above for a sale and from below for a buy, and a full
/// one fills all whole shares. Nothing is filled beyond the order where it is of two shares or
/// more. Orders that are only acknowledged, rejected or not answered have none.
pub proof fn law_executions_of_order(
    st: StrategyConfig,
    partition_no: i32,
    o: NewOrderView,
    before: PlatformStats,
    after: PlatformStats,
    plans: Seq<PlannedReportView>,
    fs: Seq<(i64, i64)>,
    delays: Seq<u64>,
    at: LocalTime,
)
    requires
        strategy::may_plan(st, partition_no, o, before, after, plans, fs, delays, at),
        strategy::trades(o),
    ensures
        ({
            let partial = strategy::business(o.msg_type).allow_partial;
            let n = fs.len();
            let tick = fills::tick_of(st.price_tick, strategy::units());
            &&& st.mode is FullSingle || !partial && (st.mode is PartialSingle || st.mode is Custom)
                ==> n == 1 && fs[0].0 == o.common.order_qty && fs[0].1 == o.common.price
            &&& st.mode is PartialSingle && partial ==> n == 1 && fs[0].1 == o.common.price
            &&& st.mode is AckOnly || st.mode is Reject || st.mode is NoAutoReply ==> n == 0
            &&& tick >= 1
            &&& st.price_tick > 0 && st.price_tick % 10 == 0 ==> tick * 10 == st.price_tick
            &&& st.mode is FullSplit || st.mode is PartialSplit ==> {
                &&& n >= 1
                &&& forall|i: int|
                    0 <= i < n - 1 ==> (#[trigger] fs[i]).0 as int % 10000 == 0 && fs[i].0
                        >= 10000
                &&& o.common.side == 0x32 || o.common.price >= tick ==> fs[n - 1].1 == o.common.price
                &&& o.common.side == 0x32 ==> forall|i: int|
                    0 <= i < n - 1 ==> (#[trigger] fs[i]).1 == fs[i + 1].1 + tick
                &&& o.common.side != 0x32 ==> forall|i: int|
                    0 <= i < n - 1 ==> (#[trigger] fs[i]).1 >= tick && (fs[i].1 > tick ==> fs[i
                        + 1].1 == fs[i].1 + tick)
            }
            &&& (st.mode is FullSplit || !partial && st.mode is PartialSplit) && o.common.order_qty >= 0
                ==> sum_of(fs) <= o.common.order_qty < sum_of(fs) + 100
            &&& o.common.order_qty >= 200 ==> sum_of(fs) <= o.common.order_qty
            &&& partial && o.common.order_qty >= 200 && (st.mode is PartialSingle || st.mode
                is PartialSplit) ==> 0 < sum_of(fs) < o.common.order_qty
        }),
{
    reveal(strategy::may_plan);
    let partial = strategy::business(o.msg_type).allow_partial;
    let t = strategy::terms(o);
    let u = strategy::units();
    let tick = fills::tick_of(st.price_tick, u);
    lemma_sum_of(fs);
    fills::law_filled_at_once(st, partial, t, u, fs);
    fills::law_tick(st.price_tick, u);
    if st.mode is FullSplit || st.mode is PartialSplit {
        fills::law_split_pieces(st, partial, t, u, fs, tick);
    }
    if st.mode is FullSplit || !partial && st.mode is PartialSplit {
        fills::law_full_split_fills_all(st, partial, t, u, fs);
    }
    if o.common.order_qty >= 200 {
        fills::law_never_overfilled(st, partial, t, u, fs);
        if partial && (st.mode is PartialSingle || st.mode is PartialSplit) {
            fills::law_partial_leaves_some(st, partial, t, u, fs);
        }
    }
}

} // verus!
