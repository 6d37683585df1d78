//! What the running log says of the connections of a Shanghai auction platform.
use vstd::prelude::*;

use super::protocol;
use super::protocol::{
    msg_type, CancelOrder, CancelOrderView, Logon, LogonView, Logout, LogoutView, NewOrder,
    NewOrderView, PasswordServiceOrder, PasswordServiceOrderView, RegistrationOrder,
    RegistrationOrderView,
};
use super::session;
use super::session::{
    cancel_granted, is_order_answer, registers, side_name, side_text, Session, SessionView,
    MAX_PENDING_PLANS,
};
use super::strategy;
use crate::clock::LocalTime;
use crate::config::StrategyMode;
use crate::note::{
    add_note, error, error_note, info, info_note, no_notes, note_views, only, push_whole, unread,
    unread_text, warn, warn_note, whole, Level, Note, NoteView,
};
use crate::orderbook::OrderEntry;
use crate::report;
use crate::report::PlannedReportView;
use crate::stats::PlatformStats;
use crate::step::StepView;
use crate::sz::session::{find_named, kept, SessionCtx};
use crate::text;

verus! {

/// A client has connected.
pub open spec fn opened_text(peer: Seq<char>) -> Seq<char> {
    "收到 "@ + peer + " 的连接，等待 Logon"@
}

/// A client has connected.
pub fn opened(peer: &str) -> (r: Note)
    ensures
        r@ == info(opened_text(peer@)),
{
    let mut out = "收到 ".to_owned();
    out.push_str(peer);
    out.push_str(" 的连接，等待 Logon");
    info_note(out)
}

/// Nothing more can be read from a client.
pub open spec fn broken_text(peer: Seq<char>, why: Seq<char>) -> Seq<char> {
    "连接 "@ + peer + " 读失败: "@ + why
}

/// Nothing more can be read from a client.
pub fn broken(peer: &str, why: &str) -> (r: Note)
    ensures
        r@ == warn(broken_text(peer@, why@)),
{
    let mut out = "连接 ".to_owned();
    out.push_str(peer);
    out.push_str(" 读失败: ");
    out.push_str(why);
    warn_note(out)
}

/// A message came with a wrong check value.
pub open spec fn bad_check_text(peer: Seq<char>, mt: u32) -> Seq<char> {
    "连接 "@ + peer + " 校验和错误 MsgType="@ + text::dec(mt as nat) + "，回注销后关闭"@
}

/// A message came with a wrong check value.
pub fn bad_check(peer: &str, mt: u32) -> (r: Note)
    ensures
        r@ == warn(bad_check_text(peer@, mt)),
{
    let mut out = "连接 ".to_owned();
    out.push_str(peer);
    out.push_str(" 校验和错误 MsgType=");
    text::push_dec(&mut out, mt as u64);
    out.push_str("，回注销后关闭");
    warn_note(out)
}

/// A message cannot be answered within the range of numbers.
pub open spec fn out_of_range_text(peer: Seq<char>, mt: u32) -> Seq<char> {
    "连接 "@ + peer + " 的报文超出数值范围 MsgType="@ + text::dec(mt as nat)
}

/// A message cannot be answered within the range of numbers.
pub fn out_of_range(peer: &str, mt: u32) -> (r: Note)
    ensures
        r@ == error(out_of_range_text(peer@, mt)),
{
    let mut out = "连接 ".to_owned();
    out.push_str(peer);
    out.push_str(" 的报文超出数值范围 MsgType=");
    text::push_dec(&mut out, mt as u64);
    error_note(out)
}

/// A report was sent.
pub fn sent(desc: &str) -> (r: Note)
    ensures
        r@ == info("发送: "@ + desc@),
{
    info_note(text::cat("发送: ", desc))
}

/// A connection has ended.
pub open spec fn closed_text(peer: Seq<char>) -> Seq<char> {
    "连接 "@ + peer + " 已关闭"@
}

/// A connection has ended.
pub fn closed(peer: &str) -> (r: Note)
    ensures
        r@ == info(closed_text(peer@)),
{
    let mut out = "连接 ".to_owned();
    out.push_str(peer);
    out.push_str(" 已关闭");
    info_note(out)
}

/// What is said of a logon.
pub open spec fn logon_note(peer: Seq<char>, body: Seq<u8>) -> NoteView {
    let l = LogonView::of(body);
    if body.len() < 82 {
        error(unread_text("Logon 报文解析失败"@))
    } else {
        info(
            "连接 "@ + peer + " 登录成功 CompID="@ + l.sender_comp_id + " 心跳="@ + text::dec(
                session::interval(l.heart_bt_int) as nat,
            ) + "s，等待执行回报同步"@,
        )
    }
}

/// What is said of a logon.
pub fn on_logon(peer: &str, body: &[u8]) -> (r: Note)
    ensures
        r@ == logon_note(peer@, body@),
{
    let l = match Logon::decode(body) {
        Ok(l) => l,
        Err(_) => {
            return error_note(unread("Logon 报文解析失败"));
        },
    };
    let mut out = "连接 ".to_owned();
    out.push_str(peer);
    out.push_str(" 登录成功 CompID=");
    out.push_str(l.sender_comp_id.as_str());
    out.push_str(" 心跳=");
    text::push_dec(&mut out, session::heartbeat_secs(l.heart_bt_int));
    out.push_str("s，等待执行回报同步");
    info_note(out)
}

/// The status that a logout names; 0 where it cannot be read.
pub open spec fn logout_status(body: Seq<u8>) -> nat {
    if body.len() < 68 {
        0
    } else {
        LogoutView::of(body).session_status as nat
    }
}

/// What is said of a logout.
pub open spec fn logout_note(peer: Seq<char>, body: Seq<u8>) -> NoteView {
    info("连接 "@ + peer + " 收到注销确认，会话状态="@ + text::dec(logout_status(body)))
}

/// What is said of a logout.
pub fn on_logout(peer: &str, body: &[u8]) -> (r: Note)
    ensures
        r@ == logout_note(peer@, body@),
{
    let status: u32 = match Logout::decode(body) {
        Ok(l) => l.session_status,
        Err(_) => 0,
    };
    let mut out = "连接 ".to_owned();
    out.push_str(peer);
    out.push_str(" 收到注销确认，会话状态=");
    text::push_dec(&mut out, status as u64);
    info_note(out)
}

/// What is said of a request for reports, where `waiting` reports wait.
pub open spec fn sync_notes(body: Seq<u8>, waiting: nat) -> Seq<NoteView> {
    if !protocol::sync_complete(body) {
        seq![error(unread_text("执行回报同步(206)处理失败"@))]
    } else {
        let first = info(
            "执行回报同步(206) 共 "@ + text::dec(protocol::sync_groups(body).len())
                + " 个分区，发送同步回应(207)"@,
        );
        if waiting > 0 {
            seq![first, info("同步完成，补发缓冲的委托 "@ + text::dec(waiting) + " 笔"@)]
        } else {
            seq![first]
        }
    }
}

/// What is said of a request for reports.
pub fn on_sync(body: &[u8], waiting: usize) -> (r: Vec<Note>)
    ensures
        note_views(r@) == sync_notes(body@, waiting as nat),
{
    let groups = match protocol::decode_exec_rpt_sync(body) {
        Ok(g) => g,
        Err(_) => {
            return only(error_note(unread("执行回报同步(206)处理失败")));
        },
    };
    proof {
        let views = groups@.map_values(|g: protocol::SyncGroup| g@);
        assert(views.len() == groups@.len());
    }
    let mut out = "执行回报同步(206) 共 ".to_owned();
    text::push_dec(&mut out, groups.len() as u64);
    out.push_str(" 个分区，发送同步回应(207)");
    let mut notes = only(info_note(out));
    if waiting > 0 {
        let mut more = "同步完成，补发缓冲的委托 ".to_owned();
        text::push_dec(&mut more, waiting as u64);
        more.push_str(" 笔");
        add_note(&mut notes, info_note(more));
    }
    assert(note_views(notes@) =~= sync_notes(body@, waiting as nat));
    notes
}

/// What is said of an order that is taken.
pub open spec fn order_text(o: NewOrderView) -> Seq<char> {
    "收到委托 ClOrdID="@ + o.cl_ord_id + " 证券="@ + o.security_id + " 方向="@ + side_text(o.side)
        + " 价格="@ + text::fixed(o.price as int, 100_000) + " 数量="@ + text::dec_int(
        whole(o.order_qty as int, 1000),
    )
}

/// What is said of the reports on an order that comes before the request for reports: `was`
/// reports waited before it and `is` wait after it. Where none came to them although there
/// are automatic replies, or too many waited already, they were dropped.
pub open spec fn waiting_note(o: NewOrderView, mode: StrategyMode, was: int, is: int) -> NoteView {
    if is > was || mode == StrategyMode::NoAutoReply && was <= MAX_PENDING_PLANS {
        warn(
            "OMS 尚未完成执行回报同步(206)，ClOrdID="@ + o.cl_ord_id + " 的委托已缓冲（共 "@
                + text::dec((is - was) as nat) + " 笔）"@,
        )
    } else {
        error(
            "同步前回报缓冲已满（"@ + text::dec(MAX_PENDING_PLANS as nat) + " 条），ClOrdID="@
                + o.cl_ord_id + " 的委托回报被丢弃"@,
        )
    }
}

/// What is said of a new order, where `is` reports wait after it.
pub open spec fn order_notes(
    ctx: SessionCtx,
    sess: SessionView,
    body: Seq<u8>,
    is: int,
) -> Seq<NoteView> {
    let o = NewOrderView::of(body);
    if body.len() < 125 {
        seq![error(unread_text("委托(58)处理失败"@))]
    } else if !strategy::known(o.biz_id) {
        seq![
            warn(
                "未知业务 BizID="@ + text::dec(o.biz_id as nat) + "，回申报拒绝(204) 4012"@,
            ),
        ]
    } else if sess.synced {
        seq![info(order_text(o))]
    } else {
        seq![
            info(order_text(o)),
            waiting_note(o, ctx.strategy.mode, sess.pending.len() as int, is),
        ]
    }
}

fn order_note(o: &NewOrder) -> (r: Note)
    ensures
        r@ == info(order_text(o@)),
{
    let mut out = "收到委托 ClOrdID=".to_owned();
    out.push_str(o.cl_ord_id.as_str());
    out.push_str(" 证券=");
    out.push_str(o.security_id.as_str());
    out.push_str(" 方向=");
    out.push_str(side_name(o.side));
    out.push_str(" 价格=");
    out.push_str(text::fmt_fixed(o.price, 100_000).as_str());
    out.push_str(" 数量=");
    push_whole(&mut out, o.order_qty, 1000);
    info_note(out)
}

fn note_waiting(o: &NewOrder, mode: StrategyMode, was: usize, is: usize) -> (r: Note)
    requires
        was <= is,
    ensures
        r@ == waiting_note(o@, mode, was as int, is as int),
{
    let none = match mode {
        StrategyMode::NoAutoReply => true,
        _ => false,
    };
    if is > was || none && was <= MAX_PENDING_PLANS {
        let mut out = "OMS 尚未完成执行回报同步(206)，ClOrdID=".to_owned();
        out.push_str(o.cl_ord_id.as_str());
        out.push_str(" 的委托已缓冲（共 ");
        text::push_dec(&mut out, (is - was) as u64);
        out.push_str(" 笔）");
        return warn_note(out);
    }
    let mut out = "同步前回报缓冲已满（".to_owned();
    text::push_dec(&mut out, MAX_PENDING_PLANS as u64);
    out.push_str(" 条），ClOrdID=");
    out.push_str(o.cl_ord_id.as_str());
    out.push_str(" 的委托回报被丢弃");
    error_note(out)
}

/// What is said of a new order that comes to a connection where `was` reports wait, and `is`
/// wait after it.
pub fn on_order(
    ctx: &SessionCtx,
    synced: bool,
    body: &[u8],
    was: usize,
    is: usize,
) -> (r: Vec<Note>)
    requires
        was <= is,
    ensures
        forall|sess: SessionView|
            sess.synced == synced && sess.pending.len() == was ==> note_views(r@)
                == #[trigger] order_notes(*ctx, sess, body@, is as int),
{
    let o = match NewOrder::decode(body) {
        Ok(o) => o,
        Err(_) => {
            return only(error_note(unread("委托(58)处理失败")));
        },
    };
    if !strategy::is_known_biz(o.biz_id) {
        let mut out = "未知业务 BizID=".to_owned();
        text::push_dec(&mut out, o.biz_id as u64);
        out.push_str("，回申报拒绝(204) 4012");
        return only(warn_note(out));
    }
    let mut notes = only(order_note(&o));
    if !synced {
        add_note(&mut notes, note_waiting(&o, ctx.strategy.mode, was, is));
        assert(note_views(notes@) =~= seq![
            info(order_text(o@)),
            waiting_note(o@, ctx.strategy.mode, was as int, is as int),
        ]);
    }
    notes
}

/// What is said of a request to cancel.
pub open spec fn cancel_note(
    orders: Option<Seq<OrderEntry>>,
    synced: bool,
    body: Seq<u8>,
) -> NoteView {
    let q = CancelOrderView::of(body);
    let head = "收到撤单 ClOrdID="@ + q.cl_ord_id + " OrigClOrdID="@ + q.orig_cl_ord_id;
    if body.len() < 107 {
        error(unread_text("撤单(61)处理失败"@))
    } else if !cancel_granted(orders, q) {
        info(head + "，原单不存在或不可撤，回撤单失败(59)"@)
    } else if synced {
        info(head + "，原单在途，已回撤单成功(32)"@)
    } else {
        info(head + "，原单在途，已回撤单成功(32)"@ + "（同步后补发）"@)
    }
}

/// What is said of a request to cancel.
pub fn on_cancel(ctx: &SessionCtx, synced: bool, body: &[u8]) -> (r: Note)
    ensures
        r@ == cancel_note(kept(ctx.orders), synced, body@),
{
    let q = match CancelOrder::decode(body) {
        Ok(q) => q,
        Err(_) => {
            return error_note(unread("撤单(61)处理失败"));
        },
    };
    let mut out = "收到撤单 ClOrdID=".to_owned();
    out.push_str(q.cl_ord_id.as_str());
    out.push_str(" OrigClOrdID=");
    out.push_str(q.orig_cl_ord_id.as_str());
    let inflight = match find_named(&ctx.orders, q.orig_cl_ord_id.as_str()) {
        Some(o) => o.status.is_inflight(),
        None => false,
    };
    if strategy::biz_info(q.biz_id).allow_cancel && inflight {
        out.push_str("，原单在途，已回撤单成功(32)");
        if !synced {
            out.push_str("（同步后补发）");
        }
    } else {
        out.push_str("，原单不存在或不可撤，回撤单失败(59)");
    }
    info_note(out)
}

/// What is said of a registration.
pub open spec fn registration_note(body: Seq<u8>) -> NoteView {
    let q = RegistrationOrderView::of(body);
    if body.len() < 108 {
        error(unread_text("注册处理申报(301)处理失败"@))
    } else {
        info(
            "收到注册处理申报(301) BizID="@ + text::dec(q.biz_id as nat) + " SecurityID="@
                + q.security_id + " 指令="@ + seq![q.designation_instruction as char] + " 类型="@
                + seq![q.designation_trans_type as char] + "，回执行回报(302) "@ + (if registers(q) {
                "申报成功"@
            } else {
                "申报拒绝"@
            }),
        )
    }
}

/// What is said of a registration.
pub fn on_registration(body: &[u8]) -> (r: Note)
    ensures
        r@ == registration_note(body@),
{
    let q = match RegistrationOrder::decode(body) {
        Ok(q) => q,
        Err(_) => {
            return error_note(unread("注册处理申报(301)处理失败"));
        },
    };
    let mut out = "收到注册处理申报(301) BizID=".to_owned();
    text::push_dec(&mut out, q.biz_id as u64);
    out.push_str(" SecurityID=");
    out.push_str(q.security_id.as_str());
    out.push_str(" 指令=");
    out.push_str(text::char_string(q.designation_instruction).as_str());
    out.push_str(" 类型=");
    out.push_str(text::char_string(q.designation_trans_type).as_str());
    out.push_str("，回执行回报(302) ");
    if session::may_register(&q) {
        out.push_str("申报成功");
    } else {
        out.push_str("申报拒绝");
    }
    info_note(out)
}

/// What is said of a request of the password service.
pub open spec fn password_note(body: Seq<u8>) -> NoteView {
    let q = PasswordServiceOrderView::of(body);
    if body.len() < 105 {
        error(unread_text("网络密码服务申报(306)处理失败"@))
    } else {
        info(
            "收到网络密码服务申报(306) ClOrdID="@ + q.cl_ord_id + " SecurityID="@ + q.security_id
                + " Side="@ + seq![q.side as char] + "，回申报响应(308) "@ + (if q.biz_id
                == protocol::BIZ_ID_PWD_SERVICE {
                "成功"@
            } else {
                "拒绝"@
            }),
        )
    }
}

/// What is said of a request of the password service.
pub fn on_password(body: &[u8]) -> (r: Note)
    ensures
        r@ == password_note(body@),
{
    let q = match PasswordServiceOrder::decode(body) {
        Ok(q) => q,
        Err(_) => {
            return error_note(unread("网络密码服务申报(306)处理失败"));
        },
    };
    let mut out = "收到网络密码服务申报(306) ClOrdID=".to_owned();
    out.push_str(q.cl_ord_id.as_str());
    out.push_str(" SecurityID=");
    out.push_str(q.security_id.as_str());
    out.push_str(" Side=");
    out.push_str(text::char_string(q.side).as_str());
    out.push_str("，回申报响应(308) ");
    if q.biz_id == protocol::BIZ_ID_PWD_SERVICE {
        out.push_str("成功");
    } else {
        out.push_str("拒绝");
    }
    info_note(out)
}

/// What is said of a message that is not taken.
pub open spec fn ignored_note(logged_on: bool, peer: Seq<char>, mt: u32) -> NoteView {
    if logged_on {
        warn("连接 "@ + peer + " 收到未知会话报文 MsgType="@ + text::dec(mt as nat) + "，忽略"@)
    } else {
        warn("连接 "@ + peer + " 登录前收到业务报文 MsgType="@ + text::dec(mt as nat) + "，忽略"@)
    }
}

/// What is said of a message that is not taken.
pub fn ignored(logged_on: bool, peer: &str, mt: u32) -> (r: Note)
    ensures
        r@ == ignored_note(logged_on, peer@, mt),
{
    let mut out = "连接 ".to_owned();
    out.push_str(peer);
    if logged_on {
        out.push_str(" 收到未知会话报文 MsgType=");
    } else {
        out.push_str(" 登录前收到业务报文 MsgType=");
    }
    text::push_dec(&mut out, mt as u64);
    out.push_str("，忽略");
    warn_note(out)
}

/// What is said of a message, by the state before it and the number `is` of reports that
/// wait after it.
pub open spec fn notes_of(
    ctx: SessionCtx,
    sess: SessionView,
    peer: Seq<char>,
    mt: u32,
    body: Seq<u8>,
    is: int,
) -> Seq<NoteView> {
    if mt == msg_type::LOGON {
        seq![logon_note(peer, body)]
    } else if mt == msg_type::HEARTBEAT {
        Seq::empty()
    } else if mt == msg_type::LOGOUT {
        seq![logout_note(peer, body)]
    } else if sess.logged_on && mt == msg_type::EXEC_RPT_SYNC {
        sync_notes(body, sess.pending.len())
    } else if sess.logged_on && mt == msg_type::NEW_ORDER {
        order_notes(ctx, sess, body, is)
    } else if sess.logged_on && mt == msg_type::CANCEL_ORDER {
        seq![cancel_note(kept(ctx.orders), sess.synced, body)]
    } else if sess.logged_on && mt == msg_type::REGISTRATION {
        seq![registration_note(body)]
    } else if sess.logged_on && mt == msg_type::PWD_SERVICE {
        seq![password_note(body)]
    } else {
        seq![ignored_note(sess.logged_on, peer, mt)]
    }
}

/// What is said of a message other than an order, by the state before it.
pub fn notes(ctx: &SessionCtx, sess: &Session, peer: &str, mt: u32, body: &[u8]) -> (r: Vec<Note>)
    ensures
        !(sess.logged_on && mt == msg_type::NEW_ORDER) ==> forall|is: int|
            note_views(r@) == #[trigger] notes_of(*ctx, sess@, peer@, mt, body@, is),
{
    assert(report::plan_views(sess.pending@).len() == sess.pending@.len());
    if mt == msg_type::LOGON {
        only(on_logon(peer, body))
    } else if mt == msg_type::HEARTBEAT {
        no_notes()
    } else if mt == msg_type::LOGOUT {
        only(on_logout(peer, body))
    } else if sess.logged_on && mt == msg_type::EXEC_RPT_SYNC {
        on_sync(body, sess.pending.len())
    } else if sess.logged_on && mt == msg_type::CANCEL_ORDER {
        only(on_cancel(ctx, sess.synced, body))
    } else if sess.logged_on && mt == msg_type::REGISTRATION {
        only(on_registration(body))
    } else if sess.logged_on && mt == msg_type::PWD_SERVICE {
        only(on_password(body))
    } else {
        only(ignored(sess.logged_on, peer, mt))
    }
}

/// What the log says of the reports on an order that comes before the request for reports is
/// true: it tells of so many that wait as were planned, or else that they were dropped.
pub proof fn law_waiting_is_told(
    ctx: SessionCtx,
    sess: SessionView,
    o: NewOrderView,
    conn_id: u64,
    now: LocalTime,
    date: u32,
    time: u64,
    stats_after: PlatformStats,
    orders_after: Option<Seq<OrderEntry>>,
    sess_after: SessionView,
    step: StepView,
)
    requires
        is_order_answer(
            ctx,
            sess,
            o,
            conn_id,
            now,
            date,
            time,
            stats_after,
            orders_after,
            sess_after,
            step,
        ),
        strategy::known(o.biz_id),
        step != StepView::OutOfRange,
        !sess.synced,
    ensures
        exists|plans: Seq<PlannedReportView>|
            #[trigger] session::are_planned(
                ctx.cfg,
                ctx.strategy,
                o,
                sess.pbu,
                ctx.stats,
                stats_after,
                plans,
            ) && {
                let n = sess_after.pending.len() - sess.pending.len();
                let told = waiting_note(
                    o,
                    ctx.strategy.mode,
                    sess.pending.len() as int,
                    sess_after.pending.len() as int,
                );
                if sess.pending.len() + plans.len() > MAX_PENDING_PLANS {
                    n == 0 && told.level == Level::Error
                } else {
                    n == plans.len() && told.level == Level::Warn
                }
            },
{
    let plans = choose|plans: Seq<PlannedReportView>|
        #[trigger] session::are_planned(
            ctx.cfg,
            ctx.strategy,
            o,
            sess.pbu,
            ctx.stats,
            stats_after,
            plans,
        ) && (step, sess_after) == session::reports_step(sess, plans);
    let (counted, fs, delays, at) = choose|
        counted: PlatformStats,
        fs: Seq<(i64, i64)>,
        delays: Seq<u64>,
        at: LocalTime,
    |
        session::is_planned(
            ctx.cfg,
            ctx.strategy,
            o,
            sess.pbu,
            ctx.stats,
            counted,
            stats_after,
            plans,
            fs,
            delays,
            at,
        );
    strategy::law_report_count(
        ctx.strategy,
        crate::config::partition_of(ctx.cfg.partition_list(), o.security_id) as i32,
        o,
        sess.pbu,
        counted,
        stats_after,
        plans,
        fs,
        delays,
        at,
    );
}

} // verus!
