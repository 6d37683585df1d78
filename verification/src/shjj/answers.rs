//! What a client of a Shanghai auction platform is told, read out of the messages that it
//! gets: the answers to orders, to requests to cancel, to registrations and to requests of the
//! password service, and the reports that are sent by hand.
use vstd::prelude::*;

use super::fields;
use super::fields::{body_of, extension_len, is_message, takes_destination};
use super::manual;
use super::protocol::{
    CancelOrderView, ExecRptView, NewOrderView, PasswordServiceOrderView, RegistrationOrderView,
};
use super::session;
use super::session::SessionView;
use super::strategy;
use crate::clock;
use crate::clock::LocalTime;
use crate::config;
use crate::config::{PlatformConfig, StrategyConfig};
use crate::fills;
use crate::manual::{ManualReportKind, ManualReportView};
use crate::orderbook;
use crate::orderbook::{OrderEntry, OrderStatus, OrderUpdate};
use crate::report::PlannedReportView;
use crate::stats;
use crate::stats::{PlatformStats, StatsSnapshot};
use crate::step::StepView;
use crate::sz::answers::{can_be_cancelled, is_taken, or_else, side_of, sum_of, updates, waits};
use crate::sz::session::{kept, named_order, side_code, SessionCtx};
use crate::text;
use crate::wire::{int_at, nat_at, text_held};

verus! {

/// The partition of the reports of a business: the designations have one of their own, the
/// other businesses but the cash auction share one, and the cash auction reports in that of
/// the order, taken as a number without a sign.
pub open spec fn partition_told(biz_id: u32, partition_no: i32) -> int {
    if biz_id == 300_200 || biz_id == 300_201 {
        992
    } else if strategy::known(biz_id) && biz_id != 100_010 {
        991
    } else if partition_no >= 0 {
        partition_no as int
    } else {
        partition_no + 0x1_0000_0000
    }
}

/// The businesses that there are, which of them report executions, which fill orders in part,
/// and in which orders can be cancelled. A number that no business has is treated as the cash
/// auction.
pub proof fn law_businesses(biz_id: u32, partition_no: i32)
    ensures
        strategy::known(biz_id) <==> {
            ||| biz_id == 100_010
            ||| biz_id == 300_010
            ||| biz_id == 300_020
            ||| biz_id == 300_021
            ||| biz_id == 300_030
            ||| biz_id == 300_031
            ||| biz_id == 300_040
            ||| biz_id == 300_041
            ||| biz_id == 300_050
            ||| biz_id == 300_060
            ||| biz_id == 300_070
            ||| biz_id == 300_080
            ||| 300_090 <= biz_id <= 300_095
            ||| biz_id == 300_100
            ||| biz_id == 300_200
            ||| biz_id == 300_201
        },
        strategy::business(biz_id).biz_id == biz_id,
        strategy::business(biz_id).allow_trade <==> {
            ||| !strategy::known(biz_id)
            ||| biz_id == 100_010
            ||| biz_id == 300_020
            ||| biz_id == 300_021
        },
        strategy::business(biz_id).allow_partial <==> {
            ||| !strategy::known(biz_id)
            ||| biz_id == 100_010
        },
        strategy::business(biz_id).allow_cancel <==> {
            &&& biz_id != 300_010
            &&& biz_id != 300_020
            &&& biz_id != 300_021
            &&& biz_id != 300_100
            &&& biz_id != 300_200
            &&& biz_id != 300_201
        },
        strategy::set_of(strategy::business(biz_id), partition_no) == partition_told(
            biz_id,
            partition_no,
        ),
{
    assert(partition_no as u32 == if partition_no >= 0 {
        partition_no as int
    } else {
        partition_no + 0x1_0000_0000
    }) by (bit_vector);
}

/// What a response to an order repeats of it.
pub open spec fn is_response(
    f: Seq<u8>,
    partition_no: i32,
    o: NewOrderView,
    pbu: Seq<char>,
    order_id: Seq<char>,
    kind: u8,
    reason: int,
    open: i64,
    time_in_force: u8,
    date: int,
    time: int,
) -> bool {
    let b = body_of(f);
    &&& is_message(f, 32, 213 + extension_len(o.biz_id))
    &&& text_held(b, 0, 8, pbu)
    &&& nat_at(b, 8, 4) == partition_told(o.biz_id, partition_no)
    &&& nat_at(b, 12, 8) == 0
    &&& nat_at(b, 20, 4) == o.biz_id
    &&& nat_at(b, 24, 1) == kind
    &&& text_held(b, 25, 8, o.biz_pbu)
    &&& text_held(b, 33, 10, o.cl_ord_id)
    &&& text_held(b, 43, 12, o.security_id)
    &&& text_held(b, 55, 13, o.account)
    &&& nat_at(b, 68, 1) == o.owner_type
    &&& nat_at(b, 69, 1) == o.side
    &&& int_at(b, 70, 8) == o.price
    &&& int_at(b, 78, 8) == o.order_qty
    &&& int_at(b, 86, 8) == open
    &&& int_at(b, 94, 8) == 0
    &&& nat_at(b, 102, 1) == o.ord_type
    &&& nat_at(b, 103, 1) == time_in_force
    &&& nat_at(b, 104, 1) == kind
    &&& text_held(b, 105, 2, o.credit_tag)
    &&& text_held(b, 107, 10, Seq::empty())
    &&& text_held(b, 117, 8, o.clearing_firm)
    &&& text_held(b, 125, 8, o.branch_id)
    &&& nat_at(b, 133, 4) == reason
    &&& text_held(b, 137, 16, order_id)
    &&& text_held(b, 153, 16, Seq::empty())
    &&& nat_at(b, 169, 4) == date
    &&& nat_at(b, 173, 8) == time
    &&& text_held(b, 181, 32, o.user_info)
    &&& o.biz_id == 300_060 ==> text_held(b, 213, 3, o.extend.custodian)
    &&& o.biz_id == 300_070 ==> nat_at(b, 213, 1) == o.extend.dividend_select
    &&& takes_destination(o.biz_id) ==> text_held(b, 213, 12, o.extend.dest_security)
}

/// The rejection of an order by a message of its own.
pub open spec fn is_order_rejection(
    f: Seq<u8>,
    biz_id: u32,
    biz_pbu: Seq<char>,
    cl_ord_id: Seq<char>,
    security_id: Seq<char>,
    reason: int,
    date: int,
    time: int,
    user_info: Seq<char>,
) -> bool {
    let b = body_of(f);
    &&& is_message(f, 204, 82)
    &&& nat_at(b, 0, 4) == biz_id
    &&& text_held(b, 4, 8, biz_pbu)
    &&& text_held(b, 12, 10, cl_ord_id)
    &&& text_held(b, 22, 12, security_id)
    &&& nat_at(b, 34, 4) == reason
    &&& nat_at(b, 38, 4) == date
    &&& nat_at(b, 42, 8) == time
    &&& text_held(b, 50, 32, user_info)
}

/// The amount of an execution in hundred-thousandths of a yuan: the price times the quantity
/// in thousandths of a share, less than a unit of which is dropped. Amounts that have no room
/// are left out.
pub open spec fn is_amount(price: i64, qty: i64, amount: int) -> bool {
    let p = price * qty;
    &&& 0 <= p < 1000 * 0x8000_0000_0000_0000 ==> amount * 1000 <= p < amount * 1000 + 1000
    &&& -1000 * 0x8000_0000_0000_0000 < p < 0 ==> amount * 1000 - 1000 < p <= amount * 1000
}

proof fn lemma_amount(price: i64, qty: i64)
    ensures
        is_amount(price, qty, strategy::amount_of(price, qty) as int),
{
}

/// An execution of an order: its price, quantity and amount, and what is open.
pub open spec fn is_execution(
    f: Seq<u8>,
    partition_no: i32,
    o: NewOrderView,
    pbu: Seq<char>,
    order_id: Seq<char>,
    exec_id: Seq<char>,
    price: i64,
    qty: i64,
    open: int,
    date: int,
    time: int,
) -> bool {
    let b = body_of(f);
    &&& is_message(f, 103, 213)
    &&& text_held(b, 0, 8, pbu)
    &&& nat_at(b, 8, 4) == partition_told(o.biz_id, partition_no)
    &&& nat_at(b, 12, 8) == 0
    &&& nat_at(b, 20, 4) == o.biz_id
    &&& nat_at(b, 24, 1) == 0x46
    &&& text_held(b, 25, 8, o.biz_pbu)
    &&& text_held(b, 33, 10, o.cl_ord_id)
    &&& text_held(b, 43, 12, o.security_id)
    &&& text_held(b, 55, 13, o.account)
    &&& nat_at(b, 68, 1) == o.owner_type
    &&& nat_at(b, 69, 8) == o.transact_time
    &&& int_at(b, 77, 8) == price
    &&& int_at(b, 85, 8) == qty
    &&& is_amount(price, qty, int_at(b, 93, 8))
    &&& nat_at(b, 101, 1) == o.side
    &&& int_at(b, 102, 8) == o.order_qty
    &&& int_at(b, 110, 8) == open
    &&& nat_at(b, 118, 1) == if open == 0 {
        0x32int
    } else {
        0x31
    }
    &&& text_held(b, 119, 2, o.credit_tag)
    &&& text_held(b, 121, 8, o.clearing_firm)
    &&& text_held(b, 129, 8, o.branch_id)
    &&& text_held(b, 137, 16, exec_id)
    &&& text_held(b, 153, 16, order_id)
    &&& nat_at(b, 169, 4) == date
    &&& nat_at(b, 173, 8) == time
    &&& text_held(b, 181, 32, o.user_info)
}

/// The report on the `i`-th execution: its price and quantity are those that were made up;
/// what is open is the rest of the order after all up to it, in the message as in what goes
/// into the order.
pub open spec fn is_told(
    p: PlannedReportView,
    partition_no: i32,
    o: NewOrderView,
    pbu: Seq<char>,
    order_id: Seq<char>,
    exec_id: Seq<char>,
    fs: Seq<(i64, i64)>,
    i: int,
    at: LocalTime,
) -> bool {
    let filled = sum_of(fs.take(i + 1));
    let rest = o.order_qty - filled;
    let open = if rest > 0 {
        rest
    } else {
        0
    };
    &&& p.kind is Trade
    &&& is_execution(
        p.frame,
        partition_no,
        o,
        pbu,
        order_id,
        exec_id,
        fs[i].1,
        fs[i].0,
        open,
        clock::date_of(at),
        clock::ntime_of(at),
    )
    &&& updates(
        p,
        order_id,
        filled,
        open,
        if open == 0 {
            OrderStatus::Filled
        } else {
            OrderStatus::Partial
        },
    )
}

#[verifier::spinoff_prover]
#[verifier::rlimit(40)]
proof fn lemma_execution_is_told(
    p: PlannedReportView,
    partition_no: i32,
    o: NewOrderView,
    pbu: Seq<char>,
    order_id: Seq<char>,
    exec_id: Seq<char>,
    fs: Seq<(i64, i64)>,
    i: int,
    delay_ms: u64,
    at: LocalTime,
)
    requires
        at.wf(),
        0 <= i < fs.len(),
        fills::sums_fit(o.order_qty, fs),
        p == strategy::trade_plan(
            strategy::set_of(strategy::business(o.biz_id), partition_no),
            o,
            pbu,
            order_id,
            exec_id,
            fs,
            i,
            delay_ms,
            clock::date_of(at) as u32,
            clock::ntime_of(at) as u64,
        ),
    ensures
        is_told(p, partition_no, o, pbu, order_id, exec_id, fs, i, at),
{
    reveal(strategy::trade_plan);
    law_businesses(o.biz_id, partition_no);
    clock::law_stamps(at, at);
    crate::sz::answers::lemma_sum_of(fs.take(i + 1));
    assert(fills::sum_fits(o.order_qty, fills::cum_after(fs, i + 1)));
    lemma_amount(fs[i].1, fs[i].0);
    fields::law_execution_fields(
        strategy::trade_of(
            strategy::set_of(strategy::business(o.biz_id), partition_no),
            o,
            pbu,
            order_id,
            exec_id,
            fs[i],
            fills::leaves_after(o.order_qty, fs, i + 1),
            clock::date_of(at) as u32,
            clock::ntime_of(at) as u64,
        ),
    );
}

/// The answer to an order, as the client reads it, by the strategy. No answer at all; or a
/// single rejection with the configured reason; or an acknowledgement, with all of the order
/// open, and behind it the executions: each with its own price and quantity, and with what is
/// open after all that is filled up to it, which is never less than nothing. What goes with
/// each report into the order agrees with its bytes.
#[verifier::spinoff_prover]
#[verifier::rlimit(40)]
pub proof fn law_order_is_answered(
    st: StrategyConfig,
    partition_no: i32,
    o: NewOrderView,
    pbu: Seq<char>,
    before: PlatformStats,
    after: PlatformStats,
    plans: Seq<PlannedReportView>,
    fs: Seq<(i64, i64)>,
    delays: Seq<u64>,
    at: LocalTime,
)
    requires
        strategy::may_plan(st, partition_no, o, pbu, before, after, plans, fs, delays, at),
    ensures
        ({
            let order_id = stats::id_text(before.order_seq + 1);
            let date = clock::date_of(at);
            let time = clock::ntime_of(at);
            &&& after.order_seq == before.order_seq + 1
            &&& forall|i: int|
                0 <= i < plans.len() ==> (#[trigger] plans[i]).cl_ord_id == o.cl_ord_id
                    && plans[i].order_update is Some
            &&& plans.len() > 0 ==> waits(st.ack_delay, plans[0].delay_ms)
            &&& forall|i: int|
                1 <= i < plans.len() ==> waits(st.trade_delay, (#[trigger] plans[i]).delay_ms)
            &&& if st.mode is NoAutoReply {
                plans.len() == 0 && after.exec_seq == before.exec_seq
            } else if st.mode is Reject && st.reject_via is ExecutionReport {
                &&& plans.len() == 1
                &&& plans[0].kind is Reject
                &&& after.exec_seq == before.exec_seq
                &&& is_response(
                    plans[0].frame,
                    partition_no,
                    o,
                    pbu,
                    order_id,
                    0x38,
                    st.reject_reason as int,
                    0,
                    0,
                    date,
                    time,
                )
                &&& updates(plans[0], order_id, 0, 0, OrderStatus::Rejected)
            } else if st.mode is Reject {
                &&& plans.len() == 1
                &&& plans[0].kind is BusinessReject
                &&& after.exec_seq == before.exec_seq
                &&& is_order_rejection(
                    plans[0].frame,
                    o.biz_id,
                    o.biz_pbu,
                    o.cl_ord_id,
                    o.security_id,
                    st.reject_reason as int,
                    date,
                    time,
                    o.user_info,
                )
                &&& updates(plans[0], Seq::empty(), 0, 0, OrderStatus::Rejected)
            } else {
                &&& plans.len() == 1 + fs.len()
                &&& !strategy::business(o.biz_id).allow_trade ==> fs.len() == 0
                &&& after.exec_seq == before.exec_seq + fs.len()
                &&& plans[0].kind is Ack
                &&& is_response(
                    plans[0].frame,
                    partition_no,
                    o,
                    pbu,
                    order_id,
                    0x30,
                    0,
                    o.order_qty,
                    o.time_in_force,
                    date,
                    time,
                )
                &&& updates(plans[0], order_id, 0, o.order_qty as int, OrderStatus::New)
                &&& forall|i: int|
                    0 <= i < fs.len() ==> is_told(
                        #[trigger] plans[1 + i],
                        partition_no,
                        o,
                        pbu,
                        order_id,
                        stats::id_text(before.exec_seq + 1 + i),
                        fs,
                        i,
                        at,
                    )
            }
        }),
{
    reveal(strategy::may_plan);
    reveal(strategy::trade_plan);
    law_businesses(o.biz_id, partition_no);
    clock::law_stamps(at, at);
    let biz = strategy::business(o.biz_id);
    let set_id = strategy::set_of(biz, partition_no);
    let order_id = stats::id_text(before.order_seq + 1);
    let date = clock::date_of(at) as u32;
    let time = clock::ntime_of(at) as u64;
    fields::law_response_fields(strategy::ack_of(set_id, o, pbu, order_id, date, time));
    fields::law_response_fields(
        strategy::reject_of(set_id, o, pbu, order_id, st.reject_reason, date, time),
    );
    fields::law_order_rejection_fields(
        strategy::order_reject_of(o, st.reject_reason, date, time),
    );
    if strategy::trades(o) {
        fills::lemma_fills_fit(
            st,
            biz.allow_partial,
            strategy::terms(o),
            strategy::units(),
            fs,
        );
    }
    if !(st.mode is NoAutoReply) && !(st.mode is Reject) {
        assert forall|i: int| 0 <= i < fs.len() implies is_told(
            #[trigger] plans[1 + i],
            partition_no,
            o,
            pbu,
            order_id,
            stats::id_text(before.exec_seq + 1 + i),
            fs,
            i,
            at,
        ) by {
            lemma_execution_is_told(
                plans[1 + i],
                partition_no,
                o,
                pbu,
                order_id,
                stats::id_text(before.exec_seq + 1 + i),
                fs,
                i,
                delays[i + 1],
                at,
            );
        }
    }
}

/// The counters are those of before but for those that are given, which count so many more.
pub open spec fn counts_only(
    a: StatsSnapshot,
    b: StatsSnapshot,
    orders: int,
    rejects: int,
    cancels: int,
) -> bool {
    &&& a.orders < u64::MAX ==> b.orders == a.orders + orders
    &&& a.order_rejects < u64::MAX ==> b.order_rejects == a.order_rejects + rejects
    &&& a.cancels < u64::MAX ==> b.cancels == a.cancels + cancels
    &&& b.acks == a.acks
    &&& b.trades == a.trades
    &&& b.business_rejects == a.business_rejects
    &&& b.total_connections == a.total_connections
}

/// An order that is kept as it came: nothing is filled, and all of it is open.
pub open spec fn is_kept_order(
    e: OrderEntry,
    o: NewOrderView,
    pbu: Seq<char>,
    conn_id: u64,
    now: LocalTime,
) -> bool {
    &&& e.cl_ord_id@ == o.cl_ord_id
    &&& e.order_id@.len() == 0
    &&& e.security_id@ == o.security_id
    &&& o.side == 0x32 ==> side_of(e) == 0x32
    &&& o.side == 0x31 ==> side_of(e) == 0x31
    &&& e.price == o.price
    &&& e.qty == o.order_qty
    &&& e.cum_qty == 0
    &&& e.leaves_qty == o.order_qty
    &&& e.status is New
    &&& e.ord_type == o.ord_type
    &&& e.account@ == o.account
    &&& e.branch@ == o.branch_id
    &&& e.ts@ == clock::hms_text(now)
    &&& e.conn_id == conn_id
    &&& e.pbu@ == pbu
    &&& e.biz_id == o.biz_id
    &&& e.biz_pbu@ == o.biz_pbu
    &&& e.owner_type == o.owner_type
    &&& e.credit_tag@ == o.credit_tag
    &&& e.clearing_firm@ == o.clearing_firm
    &&& e.user_info@ == o.user_info
    &&& e.biz@ == text::dec(o.biz_id as nat)
}

/// What an order does that is answered: where no business has its number it is rejected with
/// the code 4012 and leaves no other trace than the count of rejections; else it is counted
/// once, kept behind the other orders as it came, and answered by reports. The reports go out
/// at once where the client has told which reports it has; else they wait behind those that
/// wait, in order, unless more than 4096 would wait: they are dropped then, all of them.
#[verifier::spinoff_prover]
#[verifier::rlimit(40)]
pub proof fn law_order_is_taken(
    ctx: SessionCtx,
    sess: SessionView,
    o: NewOrderView,
    conn_id: u64,
    now: LocalTime,
    date: u32,
    time: u64,
    stats_after: PlatformStats,
    orders_after: Option<Seq<OrderEntry>>,
    sess_after: SessionView,
    step: StepView,
)
    requires
        now.wf(),
        session::is_order_answer(
            ctx,
            sess,
            o,
            conn_id,
            now,
            date,
            time,
            stats_after,
            orders_after,
            sess_after,
            step,
        ),
        step != StepView::OutOfRange,
        kept(ctx.orders) matches Some(book) ==> book.len() <= 2000,
    ensures
        ({
            let before = ctx.stats;
            let orders = kept(ctx.orders);
            if !strategy::known(o.biz_id) {
                &&& step matches StepView::Reply(replies)
                &&& replies.len() == 1
                &&& is_order_rejection(
                    replies[0],
                    o.biz_id,
                    o.biz_pbu,
                    o.cl_ord_id,
                    o.security_id,
                    4012,
                    date as int,
                    time as int,
                    o.user_info,
                )
                &&& counts_only(before.counters(), stats_after.counters(), 0, 1, 0)
                &&& stats_after.order_seq == before.order_seq
                &&& stats_after.exec_seq == before.exec_seq
                &&& orders_after == orders
                &&& sess_after == sess
            } else {
                &&& counts_only(before.counters(), stats_after.counters(), 1, 0, 0)
                &&& orders is None ==> orders_after is None
                &&& orders matches Some(book) ==> (orders_after matches Some(t) && t.len() >= 1
                    && is_kept_order(t[t.len() - 1], o, sess.pbu, conn_id, now) && t.len()
                    == if book.len() < 2000 {
                    book.len() + 1
                } else {
                    book.len()
                })
                &&& exists|
                    counted: PlatformStats,
                    plans: Seq<PlannedReportView>,
                    fs: Seq<(i64, i64)>,
                    delays: Seq<u64>,
                    at: LocalTime,
                | #[trigger]
                    strategy::may_plan(
                        ctx.strategy,
                        config::partition_of(ctx.cfg.partition_list(), o.security_id) as i32,
                        o,
                        sess.pbu,
                        counted,
                        stats_after,
                        plans,
                        fs,
                        delays,
                        at,
                    ) && counted.order_seq == before.order_seq && counted.exec_seq
                        == before.exec_seq && are_held(sess, sess_after, plans, step)
            }
        }),
{
    fields::law_order_rejection_fields(strategy::order_reject_of(o, 4012, date, time));
    if strategy::known(o.biz_id) {
        let plans = choose|plans: Seq<PlannedReportView>|
            #[trigger] session::are_planned(
                ctx.cfg,
                ctx.strategy,
                o,
                sess.pbu,
                ctx.stats,
                stats_after,
                plans,
            ) && (step, sess_after) == session::reports_step(sess, plans);
        let (counted, fs, delays, at) = choose|
            counted: PlatformStats,
            fs: Seq<(i64, i64)>,
            delays: Seq<u64>,
            at: LocalTime,
        |
            session::is_planned(
                ctx.cfg,
                ctx.strategy,
                o,
                sess.pbu,
                ctx.stats,
                counted,
                stats_after,
                plans,
                fs,
                delays,
                at,
            );
        assert(strategy::may_plan(
            ctx.strategy,
            config::partition_of(ctx.cfg.partition_list(), o.security_id) as i32,
            o,
            sess.pbu,
            counted,
            stats_after,
            plans,
            fs,
            delays,
            at,
        ));
        assert(stats_after.counters() == counted.counters()) by {
            reveal(strategy::may_plan);
        }
        assert(are_held(sess, sess_after, plans, step));
        match kept(ctx.orders) {
            Some(book) => {
                let e = choose|e: OrderEntry| #[trigger]
                    session::is_entry(e, o, sess.pbu, conn_id, now) && orders_after == Some(
                        orderbook::added(book, e),
                    );
                orderbook::law_added(book, e);
                lemma_side_words(o.side);
            },
            None => {},
        }
    }
}

/// Reports go out, or wait, or are dropped.
pub open spec fn are_held(
    sess: SessionView,
    sess_after: SessionView,
    plans: Seq<PlannedReportView>,
    step: StepView,
) -> bool {
    let n = sess.pending.len() as int;
    let m = plans.len() as int;
    let waiting = sess_after.pending;
    &&& sess_after.hb_secs == sess.hb_secs
    &&& sess_after.logged_on == sess.logged_on
    &&& sess_after.synced == sess.synced
    &&& sess_after.pbu == sess.pbu
    &&& if sess.synced {
        step == StepView::Reports(plans) && waiting == sess.pending
    } else {
        &&& step is Quiet
        &&& n + m > 4096 ==> waiting == sess.pending
        &&& n + m <= 4096 ==> {
            &&& waiting.len() == n + m
            &&& forall|i: int| 0 <= i < n ==> #[trigger] waiting[i] == sess.pending[i]
            &&& forall|i: int| 0 <= i < m ==> waiting[n + i] == #[trigger] plans[i]
        }
    }
}

/// Purchases and sales are kept under words that tell them apart.
proof fn lemma_side_words(side: u8)
    ensures
        side == 0x32 ==> session::side_text(side).contains('卖'),
        side == 0x31 ==> !session::side_text(side).contains('卖'),
{
    if side == 0x31 || side == 0x32 {
        session::law_side_round_trip(side);
    }
}

/// The report on a cancelled order. It answers the request by its number and names the order
/// that was cancelled; nothing is open any more, and what was open of the order that was kept,
/// `e`, is cancelled.
pub open spec fn is_cancellation(
    f: Seq<u8>,
    partition_no: i32,
    q: CancelOrderView,
    e: OrderEntry,
    pbu: Seq<char>,
    order_id: Seq<char>,
    date: u32,
    time: u64,
) -> bool {
    let b = body_of(f);
    &&& is_message(f, 32, 213 + extension_len(q.biz_id))
    &&& text_held(b, 0, 8, pbu)
    &&& nat_at(b, 8, 4) == partition_told(q.biz_id, partition_no)
    &&& nat_at(b, 12, 8) == 0
    &&& nat_at(b, 20, 4) == q.biz_id
    &&& nat_at(b, 24, 1) == 0x34
    &&& text_held(b, 25, 8, q.biz_pbu)
    &&& text_held(b, 33, 10, q.cl_ord_id)
    &&& text_held(b, 43, 12, q.security_id)
    &&& text_held(b, 55, 13, e.account@)
    &&& nat_at(b, 68, 1) == q.owner_type
    &&& nat_at(b, 69, 1) == q.side
    &&& int_at(b, 70, 8) == e.price
    &&& int_at(b, 78, 8) == e.qty
    &&& int_at(b, 86, 8) == 0
    &&& int_at(b, 94, 8) == e.leaves_qty
    &&& nat_at(b, 102, 1) == e.ord_type
    &&& nat_at(b, 103, 1) == 0
    &&& nat_at(b, 104, 1) == 0x34
    &&& text_held(b, 105, 2, Seq::empty())
    &&& text_held(b, 107, 10, q.orig_cl_ord_id)
    &&& text_held(b, 117, 8, Seq::empty())
    &&& text_held(b, 125, 8, e.branch@)
    &&& nat_at(b, 133, 4) == 0
    &&& text_held(b, 137, 16, order_id)
    &&& text_held(b, 153, 16, e.order_id@)
    &&& nat_at(b, 169, 4) == date
    &&& nat_at(b, 173, 8) == time
    &&& text_held(b, 181, 32, q.user_info)
    &&& q.biz_id == 300_060 ==> text_held(b, 213, 3, Seq::empty())
    &&& q.biz_id == 300_070 ==> nat_at(b, 213, 1) == 0
    &&& takes_destination(q.biz_id) ==> text_held(b, 213, 12, Seq::empty())
}

/// The refusal of a request to cancel.
pub open spec fn is_cancel_refusal(
    f: Seq<u8>,
    partition_no: i32,
    q: CancelOrderView,
    pbu: Seq<char>,
    date: u32,
    time: u64,
) -> bool {
    let b = body_of(f);
    &&& is_message(f, 59, 120)
    &&& text_held(b, 0, 8, pbu)
    &&& nat_at(b, 8, 4) == partition_told(q.biz_id, partition_no)
    &&& nat_at(b, 12, 8) == 0
    &&& nat_at(b, 20, 4) == q.biz_id
    &&& text_held(b, 24, 8, q.biz_pbu)
    &&& text_held(b, 32, 10, q.cl_ord_id)
    &&& text_held(b, 42, 12, q.security_id)
    &&& text_held(b, 54, 10, q.orig_cl_ord_id)
    &&& text_held(b, 64, 8, q.branch_id)
    &&& nat_at(b, 72, 4) == 1
    &&& nat_at(b, 76, 4) == date
    &&& nat_at(b, 80, 8) == time
    &&& text_held(b, 88, 32, q.user_info)
}

/// The answer to a request to cancel, as the client reads it. It is granted exactly where its
/// business lets orders be cancelled and the order that it names is kept and new or partly
/// filled. Where it is granted the order is found cancelled afterwards, with nothing open and
/// what was filled as it was, and no other order changes; where it is refused no order changes.
/// The answer goes out at once where the client has told which reports it has; else it waits
/// behind the reports that wait.
#[verifier::spinoff_prover]
#[verifier::rlimit(40)]
pub proof fn law_cancel_is_answered(
    ctx: SessionCtx,
    sess: SessionView,
    q: CancelOrderView,
    date: u32,
    time: u64,
)
    ensures
        ({
            let a = session::request_answer(ctx, sess, q, date, time);
            let orders = kept(ctx.orders);
            let part = config::partition_of(ctx.cfg.partition_list(), q.security_id) as i32;
            let granted = strategy::business(q.biz_id).allow_cancel && can_be_cancelled(
                orders,
                q.orig_cl_ord_id,
            );
            let frame = if sess.synced {
                a.step->Reply_0[0]
            } else {
                a.sess.pending[sess.pending.len() as int].frame
            };
            &&& if sess.synced {
                a.step is Reply && a.step->Reply_0.len() == 1 && a.sess == sess
            } else {
                &&& a.step is Quiet
                &&& a.sess.pending.len() == sess.pending.len() + 1
                &&& a.sess.pending.drop_last() == sess.pending
                &&& a.sess == SessionView { pending: a.sess.pending, ..sess }
                &&& a.sess.pending.last().delay_ms == 0
                &&& a.sess.pending.last().kind is Cancel
                &&& a.sess.pending.last().cl_ord_id == q.orig_cl_ord_id
                &&& !granted ==> a.sess.pending.last().order_update is None
                &&& granted ==> updates(
                    a.sess.pending.last(),
                    orderbook::lookup(orders->0, q.orig_cl_ord_id)->0.order_id@,
                    orderbook::lookup(orders->0, q.orig_cl_ord_id)->0.cum_qty as int,
                    0,
                    OrderStatus::Cancelled,
                )
            }
            &&& counts_only(ctx.stats.counters(), a.counters, 0, 0, 1)
            &&& if granted {
                let named = orderbook::lookup(orders->0, q.orig_cl_ord_id)->0;
                &&& is_cancellation(
                    frame,
                    part,
                    q,
                    named,
                    sess.pbu,
                    stats::id_text(ctx.stats.order_seq + 1),
                    date,
                    time,
                )
                &&& a.ids == 1
                &&& a.orders matches Some(t)
                &&& orderbook::lookup(t, q.orig_cl_ord_id) matches Some(e)
                &&& e.status is Cancelled
                &&& e.leaves_qty == 0
                &&& e.cum_qty == named.cum_qty
                &&& orderbook::same_order(e, named)
                &&& t.len() == orders->0.len()
                &&& forall|i: int|
                    0 <= i < t.len() && orders->0[i].cl_ord_id@ != q.orig_cl_ord_id
                        ==> #[trigger] t[i] == orders->0[i]
            } else {
                &&& is_cancel_refusal(frame, part, q, sess.pbu, date, time)
                &&& a.ids == 0
                &&& a.orders == orders
            }
        }),
{
    let orders = kept(ctx.orders);
    let part = config::partition_of(ctx.cfg.partition_list(), q.security_id) as i32;
    law_businesses(q.biz_id, part);
    let set_id = strategy::set_of(strategy::business(q.biz_id), part);
    fields::law_cancel_rejection_fields(
        session::cancel_reject_of(set_id, q, sess.pbu, date, time),
    );
    let a = session::request_answer(ctx, sess, q, date, time);
    if !sess.synced {
        assert(a.sess.pending.drop_last() =~= sess.pending);
    }
    match orders {
        Some(book) => {
            if orderbook::lookup(book, q.orig_cl_ord_id) is Some {
                orderbook::law_cancelled_order(book, q.orig_cl_ord_id);
                fields::law_response_fields(
                    session::cancelled_of(
                        set_id,
                        q,
                        named_order(orders, q.orig_cl_ord_id)->0,
                        sess.pbu,
                        stats::id_text(ctx.stats.order_seq + 1),
                        date,
                        time,
                    ),
                );
            }
        },
        None => {},
    }
}

/// The report on an order that is cancelled after the report `upd` on it went out cancels what
/// that report said was open: all of the order right after it came in, and after executions
/// the rest that they left.
#[verifier::spinoff_prover]
#[verifier::rlimit(40)]
pub proof fn law_cancel_tells_what_was_open(
    book: Seq<OrderEntry>,
    upd: OrderUpdate,
    set_id: u32,
    q: CancelOrderView,
    pbu: Seq<char>,
    order_id: Seq<char>,
    date: u32,
    time: u64,
)
    requires
        can_be_cancelled(Some(book), q.orig_cl_ord_id),
    ensures
        ({
            let told = orderbook::lookup(
                orderbook::applied(book, q.orig_cl_ord_id, upd),
                q.orig_cl_ord_id,
            );
            let v = session::cancelled_of(set_id, q, told->0, pbu, order_id, date, time);
            let b = body_of(super::protocol::framed(32, v.body()));
            &&& told is Some
            &&& int_at(b, 94, 8) == upd.leaves_qty
            &&& int_at(b, 86, 8) == 0
            &&& text_held(b, 107, 10, told->0.cl_ord_id@)
        }),
{
    let told = orderbook::lookup(
        orderbook::applied(book, q.orig_cl_ord_id, upd),
        q.orig_cl_ord_id,
    );
    orderbook::law_report_is_applied(book, q.orig_cl_ord_id, upd);
    orderbook::law_found_by_number(
        orderbook::applied(book, q.orig_cl_ord_id, upd),
        q.orig_cl_ord_id,
    );
    fields::law_response_fields(
        session::cancelled_of(set_id, q, told->0, pbu, order_id, date, time),
    );
}

/// A designation is registered where it names its security and instruction; else it is
/// rejected with the code 4012. The report repeats the request and, where it is registered,
/// carries the next order number.
pub proof fn law_registration_is_answered(
    body: Seq<u8>,
    pbu: Seq<char>,
    order_no: int,
    date: u32,
    time: u64,
)
    ensures
        ({
            let step = session::registration_step(body, pbu, order_no, date, time);
            let q = RegistrationOrderView::of(body);
            let granted = {
                &&& q.designation_trans_type == 0x31
                &&& {
                    ||| q.biz_id == 300_200 && q.security_id == "799999"@
                        && q.designation_instruction == 0x31
                    ||| q.biz_id == 300_201 && q.security_id == "799998"@
                        && q.designation_instruction == 0x32
                }
            };
            if body.len() < 108 {
                step is Quiet
            } else {
                &&& step matches StepView::Reply(replies)
                &&& replies.len() == 1
                &&& is_registration_report(replies[0], q, pbu, date, time)
                &&& nat_at(body_of(replies[0]), 24, 1) == (if granted {
                    0x30int
                } else {
                    0x38
                })
                &&& nat_at(body_of(replies[0]), 69, 1) == (if granted {
                    0x30int
                } else {
                    0x38
                })
                &&& nat_at(body_of(replies[0]), 88, 4) == (if granted {
                    0int
                } else {
                    4012
                })
                &&& text_held(
                    body_of(replies[0]),
                    92,
                    16,
                    if granted {
                        stats::id_text(order_no + 1)
                    } else {
                        Seq::empty()
                    },
                )
            }
        }),
{
    fields::law_registration_report_fields(
        session::registration_report(RegistrationOrderView::of(body), pbu, order_no, date, time),
    );
}

/// What a report on a registration repeats of it.
pub open spec fn is_registration_report(
    f: Seq<u8>,
    q: RegistrationOrderView,
    pbu: Seq<char>,
    date: u32,
    time: u64,
) -> bool {
    let b = body_of(f);
    &&& is_message(f, 302, 168)
    &&& text_held(b, 0, 8, pbu)
    &&& nat_at(b, 8, 4) == 992
    &&& nat_at(b, 12, 8) == 0
    &&& nat_at(b, 20, 4) == q.biz_id
    &&& text_held(b, 25, 8, q.biz_pbu)
    &&& text_held(b, 33, 10, q.cl_ord_id)
    &&& text_held(b, 43, 12, q.security_id)
    &&& text_held(b, 55, 13, q.account)
    &&& nat_at(b, 68, 1) == q.owner_type
    &&& text_held(b, 70, 10, Seq::empty())
    &&& text_held(b, 80, 8, Seq::empty())
    &&& text_held(b, 108, 16, Seq::empty())
    &&& nat_at(b, 124, 4) == date
    &&& nat_at(b, 128, 8) == time
    &&& text_held(b, 136, 32, q.user_info)
}

/// A request of the password service is repeated in its answer, with the reason 0; that of
/// another business with the reason 4012.
pub proof fn law_password_is_answered(body: Seq<u8>, date: u32, time: u64)
    ensures
        ({
            let step = session::password_step(body, date, time);
            let q = PasswordServiceOrderView::of(body);
            if body.len() < 105 {
                step is Quiet
            } else {
                &&& step matches StepView::Reply(replies)
                &&& replies.len() == 1
                &&& is_message(replies[0], 308, 113)
                &&& {
                    let b = body_of(replies[0]);
                    &&& nat_at(b, 0, 4) == q.biz_id
                    &&& text_held(b, 4, 8, q.biz_pbu)
                    &&& text_held(b, 12, 10, q.cl_ord_id)
                    &&& text_held(b, 22, 12, q.security_id)
                    &&& text_held(b, 34, 13, q.account)
                    &&& nat_at(b, 47, 1) == q.owner_type
                    &&& text_held(b, 48, 8, q.branch_id)
                    &&& nat_at(b, 56, 1) == q.side
                    &&& text_held(b, 57, 8, q.validation_code)
                    &&& nat_at(b, 65, 4) == (if q.biz_id == 300_100 {
                        0int
                    } else {
                        4012
                    })
                    &&& nat_at(b, 69, 4) == date
                    &&& nat_at(b, 73, 8) == time
                    &&& text_held(b, 81, 32, q.user_info)
                }
            }
        }),
{
    fields::law_password_response_fields(
        session::password_response(PasswordServiceOrderView::of(body), date, time),
    );
}

/// A response that is sent by hand repeats the order that is kept.
pub open spec fn is_response_by_hand(
    f: Seq<u8>,
    partition_no: i32,
    e: OrderEntry,
    order_id: Seq<char>,
    kind: u8,
    reason: u32,
    open: i64,
    cancelled: i64,
    named: Seq<char>,
    named_id: Seq<char>,
    date: u32,
    time: u64,
) -> bool {
    let b = body_of(f);
    &&& is_message(f, 32, 213 + extension_len(e.biz_id))
    &&& text_held(b, 0, 8, e.pbu@)
    &&& nat_at(b, 8, 4) == partition_told(e.biz_id, partition_no)
    &&& nat_at(b, 12, 8) == 0
    &&& nat_at(b, 20, 4) == e.biz_id
    &&& nat_at(b, 24, 1) == kind
    &&& text_held(b, 25, 8, e.biz_pbu@)
    &&& text_held(b, 33, 10, e.cl_ord_id@)
    &&& text_held(b, 43, 12, e.security_id@)
    &&& text_held(b, 55, 13, e.account@)
    &&& e.owner_type < 256 ==> nat_at(b, 68, 1) == e.owner_type
    &&& nat_at(b, 69, 1) == side_of(e)
    &&& int_at(b, 70, 8) == e.price
    &&& int_at(b, 78, 8) == e.qty
    &&& int_at(b, 86, 8) == open
    &&& int_at(b, 94, 8) == cancelled
    &&& nat_at(b, 102, 1) == e.ord_type
    &&& nat_at(b, 103, 1) == 0
    &&& nat_at(b, 104, 1) == kind
    &&& text_held(b, 105, 2, e.credit_tag@)
    &&& text_held(b, 107, 10, named)
    &&& text_held(b, 117, 8, e.clearing_firm@)
    &&& text_held(b, 125, 8, e.branch@)
    &&& nat_at(b, 133, 4) == reason
    &&& text_held(b, 137, 16, order_id)
    &&& text_held(b, 153, 16, named_id)
    &&& nat_at(b, 169, 4) == date
    &&& nat_at(b, 173, 8) == time
    &&& text_held(b, 181, 32, e.user_info@)
}

/// A fill that is sent by hand.
pub open spec fn is_fill_by_hand(
    m: ManualReportView,
    partition_no: i32,
    e: OrderEntry,
    order_id: Seq<char>,
    exec_id: Seq<char>,
    qty: Option<i64>,
    price: Option<i64>,
    date: u32,
    time: u64,
) -> bool {
    let b = body_of(m.frame);
    let filled = int_at(b, 85, 8);
    let asked = match price {
        Some(p) => p,
        None => e.price,
    };
    &&& is_message(m.frame, 103, 213)
    &&& text_held(b, 0, 8, e.pbu@)
    &&& nat_at(b, 8, 4) == partition_told(e.biz_id, partition_no)
    &&& nat_at(b, 12, 8) == 0
    &&& nat_at(b, 20, 4) == e.biz_id
    &&& nat_at(b, 24, 1) == 0x46
    &&& text_held(b, 25, 8, e.biz_pbu@)
    &&& text_held(b, 33, 10, e.cl_ord_id@)
    &&& text_held(b, 43, 12, e.security_id@)
    &&& text_held(b, 55, 13, e.account@)
    &&& e.owner_type < 256 ==> nat_at(b, 68, 1) == e.owner_type
    &&& nat_at(b, 69, 8) == time
    &&& asked >= 10 ==> int_at(b, 77, 8) == asked
    &&& asked < 10 ==> int_at(b, 77, 8) == 10
    &&& filled % 1000 == 0
    &&& is_taken(e.leaves_qty as int / 1000, qty, filled / 1000)
    &&& is_amount(int_at(b, 77, 8) as i64, filled as i64, int_at(b, 93, 8))
    &&& nat_at(b, 101, 1) == side_of(e)
    &&& int_at(b, 102, 8) == e.qty
    &&& int_at(b, 110, 8) == e.leaves_qty - filled
    &&& nat_at(b, 118, 1) == if e.leaves_qty == filled {
        0x32int
    } else {
        0x31
    }
    &&& text_held(b, 119, 2, e.credit_tag@)
    &&& text_held(b, 121, 8, e.clearing_firm@)
    &&& text_held(b, 129, 8, e.branch@)
    &&& text_held(b, 137, 16, exec_id)
    &&& text_held(b, 153, 16, order_id)
    &&& nat_at(b, 169, 4) == date
    &&& nat_at(b, 173, 8) == time
    &&& text_held(b, 181, 32, e.user_info@)
    &&& m.update.order_id == e.order_id@
    &&& m.update.cum_qty == e.cum_qty + filled
    &&& m.update.leaves_qty == int_at(b, 110, 8)
    &&& m.update.status == if e.leaves_qty == filled {
        OrderStatus::Filled
    } else {
        OrderStatus::Partial
    }
}

#[verifier::spinoff_prover]
#[verifier::rlimit(40)]
proof fn lemma_fill_by_hand(
    partition_no: i32,
    e: OrderEntry,
    order_id: Seq<char>,
    exec_id: Seq<char>,
    qty: Option<i64>,
    price: Option<i64>,
    date: u32,
    time: u64,
)
    requires
        e.cum_qty + e.leaves_qty <= i64::MAX,
        e.leaves_qty >= 1000,
    ensures
        is_fill_by_hand(
            manual::manual_trade(
                strategy::set_of(strategy::business(e.biz_id), partition_no),
                e,
                order_id,
                exec_id,
                crate::manual::fill_shares(e, qty, 1000),
                manual::fill_price(e, price),
                date,
                time,
            ),
            partition_no,
            e,
            order_id,
            exec_id,
            qty,
            price,
            date,
            time,
        ),
{
    law_businesses(e.biz_id, partition_no);
    let shares = crate::manual::fill_shares(e, qty, 1000);
    let px = manual::fill_price(e, price);
    lemma_amount(px, (shares * 1000) as i64);
    assert(side_code(e.side@) == side_of(e));
    fields::law_execution_fields(
        manual::manual_trade_of(
            strategy::set_of(strategy::business(e.biz_id), partition_no),
            e,
            order_id,
            exec_id,
            shares,
            px,
            date,
            time,
        ),
    );
}

/// The reports that are sent by hand, as the client reads them. A fill is at the price that is
/// asked for, and else at that of the order, but at least at a hundredth of a cent; it fills
/// so many of the open shares as are asked for, and what is open in it agrees with what goes
/// into the order. An acknowledgement leaves the quantities of the order as they are; a
/// rejection and a cancellation leave nothing open, and what a cancellation cancels is what
/// was open.
#[verifier::spinoff_prover]
#[verifier::rlimit(40)]
pub proof fn law_report_by_hand(
    cfg: PlatformConfig,
    order_no: int,
    exec_no: int,
    e: OrderEntry,
    kind: ManualReportKind,
    qty: Option<i64>,
    price: Option<i64>,
    reason: Option<i32>,
    front_reject: bool,
    date: u32,
    time: u64,
)
    requires
        e.cum_qty + e.leaves_qty <= i64::MAX,
    ensures
        ({
            let r = manual::manual_report(
                cfg,
                order_no,
                exec_no,
                e,
                kind,
                qty,
                price,
                reason,
                front_reject,
                date,
                time,
            );
            let part = config::partition_of(cfg.partition_list(), e.security_id@) as i32;
            let order_id = or_else(e.order_id@, stats::id_text(order_no + 1));
            let code = manual::reason_code(reason);
            match kind {
                ManualReportKind::Trade => if !strategy::business(e.biz_id).allow_trade
                    || e.leaves_qty < 1000 {
                    r is Err
                } else {
                    &&& r matches Ok(m)
                    &&& is_fill_by_hand(
                        m,
                        part,
                        e,
                        order_id,
                        stats::id_text(exec_no + 1),
                        qty,
                        price,
                        date,
                        time,
                    )
                },
                ManualReportKind::Ack => {
                    &&& r matches Ok(m)
                    &&& is_response_by_hand(
                        m.frame,
                        part,
                        e,
                        order_id,
                        0x30,
                        0,
                        e.leaves_qty,
                        0,
                        Seq::empty(),
                        Seq::empty(),
                        date,
                        time,
                    )
                    &&& m.update.order_id == order_id
                    &&& m.update.cum_qty == e.cum_qty
                    &&& m.update.leaves_qty == e.leaves_qty
                    &&& m.update.status is New
                },
                ManualReportKind::Reject => {
                    &&& r matches Ok(m)
                    &&& if front_reject {
                        &&& is_order_rejection(
                            m.frame,
                            e.biz_id,
                            e.biz_pbu@,
                            e.cl_ord_id@,
                            e.security_id@,
                            code as int,
                            date as int,
                            time as int,
                            e.user_info@,
                        )
                        &&& m.update.order_id == Seq::<char>::empty()
                    } else {
                        &&& is_response_by_hand(
                            m.frame,
                            part,
                            e,
                            order_id,
                            0x38,
                            code,
                            0,
                            0,
                            Seq::empty(),
                            Seq::empty(),
                            date,
                            time,
                        )
                        &&& m.update.order_id == e.order_id@
                    }
                    &&& m.update.cum_qty == e.cum_qty
                    &&& m.update.leaves_qty == 0
                    &&& m.update.status is Rejected
                    &&& reason is None ==> code == 1
                    &&& reason is Some && 0 <= reason->0 ==> code == reason->0
                },
                ManualReportKind::Cancel => {
                    &&& r matches Ok(m)
                    &&& is_response_by_hand(
                        m.frame,
                        part,
                        e,
                        stats::id_text(
                            order_no + if e.order_id@.len() == 0 {
                                2int
                            } else {
                                1
                            },
                        ),
                        0x34,
                        0,
                        0,
                        e.leaves_qty,
                        e.cl_ord_id@,
                        e.order_id@,
                        date,
                        time,
                    )
                    &&& m.update.order_id == e.order_id@
                    &&& m.update.cum_qty == e.cum_qty
                    &&& m.update.leaves_qty == 0
                    &&& m.update.status is Cancelled
                },
            }
        }),
{
    let part = config::partition_of(cfg.partition_list(), e.security_id@) as i32;
    let set_id = strategy::set_of(strategy::business(e.biz_id), part);
    let order_id = crate::manual::manual_order_id(e, order_no);
    law_businesses(e.biz_id, part);
    assert(side_code(e.side@) == side_of(e));
    let ack = manual::manual_ack_of(set_id, e, order_id, date, time);
    match kind {
        ManualReportKind::Ack => {
            fields::law_response_fields(ack);
        },
        ManualReportKind::Trade => {
            if e.leaves_qty >= 1000 {
                lemma_fill_by_hand(
                    part,
                    e,
                    order_id,
                    stats::id_text(exec_no + 1),
                    qty,
                    price,
                    date,
                    time,
                );
            }
        },
        ManualReportKind::Reject => {
            let code = manual::reason_code(reason);
            fields::law_order_rejection_fields(
                manual::manual_front_reject_of(e, code, date, time),
            );
            fields::law_response_fields(
                ExecRptView {
                    exec_type: 0x38,
                    ord_status: 0x38,
                    ord_rej_reason: code,
                    leaves_qty: 0,
                    ..ack
                },
            );
        },
        ManualReportKind::Cancel => {
            let id = stats::id_text(manual::cancel_order_no(e, order_no) + 1);
            fields::law_response_fields(
                ExecRptView {
                    exec_type: 0x34,
                    ord_status: 0x34,
                    orig_cl_ord_id: e.cl_ord_id@,
                    leaves_qty: 0,
                    cxl_qty: e.leaves_qty,
                    orig_ord_cnfm_id: e.order_id@,
                    ..manual::manual_ack_of(set_id, e, id, date, time)
                },
            );
        },
    }
}

/// The executions that are made up for an order, by the strategy. One at the price of the order
/// for all of it where it is filled at once; one at that price, for less, where it is filled in
/// part. A split has whole lots but for its last piece; its prices move by the configured step
/// towards the price of the order, from above for a sale and from below for a buy, and a full
/// one fills all whole shares. Nothing is filled beyond the order where it is of two shares or
/// more. Orders that are only acknowledged, rejected or not answered have none.
pub proof fn law_executions_of_order(
    st: StrategyConfig,
    partition_no: i32,
    o: NewOrderView,
    pbu: Seq<char>,
    before: PlatformStats,
    after: PlatformStats,
    plans: Seq<PlannedReportView>,
    fs: Seq<(i64, i64)>,
    delays: Seq<u64>,
    at: LocalTime,
)
    requires
        strategy::may_plan(st, partition_no, o, pbu, before, after, plans, fs, delays, at),
        strategy::trades(o),
    ensures
        ({
            let partial = strategy::business(o.biz_id).allow_partial;
            let n = fs.len();
            let tick = fills::tick_of(st.price_tick, strategy::units());
            &&& st.mode is FullSingle || !partial && (st.mode is PartialSingle || st.mode is Custom)
                ==> n == 1 && fs[0].0 == o.order_qty && fs[0].1 == o.price
            &&& st.mode is PartialSingle && partial ==> n == 1 && fs[0].1 == o.price
            &&& st.mode is AckOnly || st.mode is Reject || st.mode is NoAutoReply ==> n == 0
            &&& tick >= 1
            &&& st.price_tick > 0 ==> tick == st.price_tick
            &&& st.mode is FullSplit || st.mode is PartialSplit ==> {
                &&& n >= 1
                &&& forall|i: int|
                    0 <= i < n - 1 ==> (#[trigger] fs[i]).0 as int % 100000 == 0 && fs[i].0
                        >= 100000
                &&& o.side == 0x32 || o.price >= tick ==> fs[n - 1].1 == o.price
                &&& o.side == 0x32 ==> forall|i: int|
                    0 <= i < n - 1 ==> (#[trigger] fs[i]).1 == fs[i + 1].1 + tick
                &&& o.side != 0x32 ==> forall|i: int|
                    0 <= i < n - 1 ==> (#[trigger] fs[i]).1 >= tick && (fs[i].1 > tick ==> fs[i
                        + 1].1 == fs[i].1 + tick)
            }
            &&& (st.mode is FullSplit || !partial && st.mode is PartialSplit) && o.order_qty >= 0
                ==> sum_of(fs) <= o.order_qty < sum_of(fs) + 1000
            &&& o.order_qty >= 2000 ==> sum_of(fs) <= o.order_qty
            &&& partial && o.order_qty >= 2000 && (st.mode is PartialSingle || st.mode
                is PartialSplit) ==> 0 < sum_of(fs) < o.order_qty
        }),
{
    reveal(strategy::may_plan);
    let partial = strategy::business(o.biz_id).allow_partial;
    let t = strategy::terms(o);
    let u = strategy::units();
    let tick = fills::tick_of(st.price_tick, u);
    crate::sz::answers::lemma_sum_of(fs);
    fills::law_filled_at_once(st, partial, t, u, fs);
    fills::law_tick(st.price_tick, u);
    if st.mode is FullSplit || st.mode is PartialSplit {
        fills::law_split_pieces(st, partial, t, u, fs, tick);
    }
    if st.mode is FullSplit || !partial && st.mode is PartialSplit {
        fills::law_full_split_fills_all(st, partial, t, u, fs);
    }
    if o.order_qty >= 2000 {
        fills::law_never_overfilled(st, partial, t, u, fs);
        if partial && (st.mode is PartialSingle || st.mode is PartialSplit) {
            fills::law_partial_leaves_some(st, partial, t, u, fs);
        }
    }
}

} // verus!
