//! What the running log says of the connections of a Shenzhen platform.
use vstd::prelude::*;

use super::filings::{
    quote_resp_text, quote_resp_type_name, Designation, Evote, IndicationOfInterest, MarginQuery,
    MultilegOrder, PasswordService, Quote, QuoteRequest, QuoteResponse, TradeCaptureReport,
};
use super::protocol;
use super::protocol::{
    msg_type, Logon, LogonView, Logout, LogoutView, NewOrder, NewOrderView, OrderCancelRequest,
    OrderCancelRequestView, ReportSync, SyncPartition,
};
use super::session;
use super::session::{
    cancel_granted, entry_business, find_named, kept, named_order, on_platform, order_in,
    partition_vec, partitions, side_name, side_text, sync_ok, Session, SessionCtx,
};
use super::strategy;
use crate::capture;
use crate::capture::ConnRecorder;
use crate::config::{CancelMode, PlatformConfig};
use crate::note::{
    add_note, error, error_note, info, info_note, list_text, no_notes, note_views, only, push_list,
    push_whole, unread, unread_text, warn, warn_note, whole, Note, NoteView,
};
use crate::orderbook::OrderEntry;
use crate::text;

verus! {

/// A client has connected.
pub open spec fn opened_text(peer: Seq<char>) -> Seq<char> {
    "柜台 "@ + peer + " 已连接，等待 Logon"@
}

/// A client has connected.
pub fn opened(peer: &str) -> (r: Note)
    ensures
        r@ == info(opened_text(peer@)),
{
    let mut out = "柜台 ".to_owned();
    out.push_str(peer);
    out.push_str(" 已连接，等待 Logon");
    info_note(out)
}

/// Nothing more can be read from a client.
pub open spec fn broken_text(peer: Seq<char>, why: Seq<char>) -> Seq<char> {
    "柜台 "@ + peer + " 连接断开: "@ + why
}

/// Nothing more can be read from a client.
pub fn broken(peer: &str, why: &str) -> (r: Note)
    ensures
        r@ == warn(broken_text(peer@, why@)),
{
    let mut out = "柜台 ".to_owned();
    out.push_str(peer);
    out.push_str(" 连接断开: ");
    out.push_str(why);
    warn_note(out)
}

/// A message came with a wrong check value.
pub open spec fn bad_check_text(peer: Seq<char>, mt: u32) -> Seq<char> {
    "柜台 "@ + peer + " 消息校验和错误 MsgType="@ + text::dec(mt as nat) + "，已忽略"@
}

/// A message came with a wrong check value.
pub fn bad_check(peer: &str, mt: u32) -> (r: Note)
    ensures
        r@ == warn(bad_check_text(peer@, mt)),
{
    let mut out = "柜台 ".to_owned();
    out.push_str(peer);
    out.push_str(" 消息校验和错误 MsgType=");
    text::push_dec(&mut out, mt as u64);
    out.push_str("，已忽略");
    warn_note(out)
}

/// A message cannot be answered within the range of numbers.
pub open spec fn out_of_range_text(peer: Seq<char>, mt: u32) -> Seq<char> {
    "柜台 "@ + peer + " 的报文超出数值范围 MsgType="@ + text::dec(mt as nat)
}

/// A message cannot be answered within the range of numbers.
pub fn out_of_range(peer: &str, mt: u32) -> (r: Note)
    ensures
        r@ == error(out_of_range_text(peer@, mt)),
{
    let mut out = "柜台 ".to_owned();
    out.push_str(peer);
    out.push_str(" 的报文超出数值范围 MsgType=");
    text::push_dec(&mut out, mt as u64);
    error_note(out)
}

/// A report was sent.
pub fn sent(desc: &str) -> (r: Note)
    ensures
        r@ == info("发送 "@ + desc@),
{
    info_note(text::cat("发送 ", desc))
}

/// A connection has ended.
pub open spec fn closed_text(peer: Seq<char>) -> Seq<char> {
    "柜台 "@ + peer + " 会话结束"@
}

/// A connection has ended.
pub fn closed(peer: &str) -> (r: Note)
    ensures
        r@ == info(closed_text(peer@)),
{
    let mut out = "柜台 ".to_owned();
    out.push_str(peer);
    out.push_str(" 会话结束");
    info_note(out)
}

/// What is said of a logon.
pub open spec fn logon_note(cfg: PlatformConfig, peer: Seq<char>, body: Seq<u8>) -> NoteView {
    let l = LogonView::of(body);
    if body.len() < 92 {
        error(unread_text("Logon 消息解析失败"@))
    } else if cfg.check_password && l.password != cfg.password@ {
        warn("柜台 "@ + peer + " 登录密码错误，拒绝登录"@)
    } else {
        info(
            "柜台 "@ + peer + " 登录成功 CompID="@ + l.sender_comp_id + " 心跳间隔="@ + text::dec(
                session::interval(l.heart_bt_int) as nat,
            ) + "s"@,
        )
    }
}

/// What is said of a logon.
pub fn on_logon(cfg: &PlatformConfig, peer: &str, body: &[u8]) -> (r: Note)
    ensures
        r@ == logon_note(*cfg, peer@, body@),
{
    let l = match Logon::decode(body) {
        Ok(l) => l,
        Err(_) => {
            return error_note(unread("Logon 消息解析失败"));
        },
    };
    let mut out = "柜台 ".to_owned();
    out.push_str(peer);
    if cfg.check_password && !text::same_text(l.password.as_str(), cfg.password.as_str()) {
        out.push_str(" 登录密码错误，拒绝登录");
        return warn_note(out);
    }
    out.push_str(" 登录成功 CompID=");
    out.push_str(l.sender_comp_id.as_str());
    out.push_str(" 心跳间隔=");
    text::push_dec(&mut out, session::heartbeat_secs(l.heart_bt_int));
    out.push_str("s");
    info_note(out)
}

/// The status that a logout names; 0 where it cannot be read.
pub open spec fn logout_status(body: Seq<u8>) -> int {
    if body.len() < 204 {
        0
    } else {
        LogoutView::of(body).session_status as int
    }
}

/// What is said of a logout.
pub open spec fn logout_note(peer: Seq<char>, body: Seq<u8>) -> NoteView {
    info("柜台 "@ + peer + " 请求注销（状态="@ + text::dec_int(logout_status(body)) + "）"@)
}

/// What is said of a logout.
pub fn on_logout(peer: &str, body: &[u8]) -> (r: Note)
    ensures
        r@ == logout_note(peer@, body@),
{
    let status: i32 = match Logout::decode(body) {
        Ok(l) => l.session_status,
        Err(_) => 0,
    };
    let mut out = "柜台 ".to_owned();
    out.push_str(peer);
    out.push_str(" 请求注销（状态=");
    text::push_int(&mut out, status as i64);
    out.push_str("）");
    info_note(out)
}

/// Whether a partition of a request is unknown or named before.
pub open spec fn is_bad(valid: Seq<i32>, wanted: Seq<SyncPartition>, i: int) -> bool {
    !valid.contains(wanted[i].partition_no) || exists|k: int|
        0 <= k < i && (#[trigger] wanted[k]).partition_no == wanted[i].partition_no
}

/// The partitions among the first `n` of a request that are unknown or named before.
pub open spec fn bad_partitions(valid: Seq<i32>, wanted: Seq<SyncPartition>, n: int) -> Seq<i32>
    decreases n,
{
    if n <= 0 {
        Seq::empty()
    } else if is_bad(valid, wanted, n - 1) {
        bad_partitions(valid, wanted, n - 1).push(wanted[n - 1].partition_no)
    } else {
        bad_partitions(valid, wanted, n - 1)
    }
}

fn find_bad(valid: &Vec<i32>, wanted: &Vec<SyncPartition>) -> (r: Vec<i32>)
    ensures
        r@ == bad_partitions(valid@, wanted@, wanted@.len() as int),
{
    let mut out: Vec<i32> = Vec::new();
    let mut i: usize = 0;
    while i < wanted.len()
        invariant
            i <= wanted@.len(),
            out@ == bad_partitions(valid@, wanted@, i as int),
        decreases wanted@.len() - i,
    {
        let p: i32 = wanted[i].partition_no;
        if !session::known_partition(valid, p) || session::named_before(wanted, i, p) {
            out.push(p);
        }
        i += 1;
    }
    out
}

/// A partition is unknown or named twice exactly where there are some to tell of.
pub proof fn law_bad_partitions_are_told(valid: Seq<i32>, wanted: Seq<SyncPartition>, n: int)
    requires
        0 <= n <= wanted.len(),
    ensures
        sync_ok(valid, wanted.take(n)) <==> bad_partitions(valid, wanted, n).len() == 0,
    decreases n,
{
    let w = wanted.take(n);
    if n > 0 {
        law_bad_partitions_are_told(valid, wanted, n - 1);
        let v = wanted.take(n - 1);
        assert(w[n - 1] == wanted[n - 1]);
        assert forall|i: int| 0 <= i < n - 1 implies #[trigger] v[i] == w[i] && w[i]
            == wanted[i] by {}
        if sync_ok(valid, w) {
            assert(valid.contains(w[n - 1].partition_no));
            assert forall|k: int| 0 <= k < n - 1 implies (#[trigger] wanted[k]).partition_no
                != wanted[n - 1].partition_no by {
                assert(w[k].partition_no != w[n - 1].partition_no);
            }
            assert(sync_ok(valid, v)) by {
                assert forall|i: int| 0 <= i < v.len() implies valid.contains(
                    (#[trigger] v[i]).partition_no,
                ) by {
                    assert(valid.contains(w[i].partition_no));
                }
                assert forall|i: int, j: int| 0 <= i < j < v.len() implies (
                #[trigger] v[i]).partition_no != (#[trigger] v[j]).partition_no by {
                    assert(w[i].partition_no != w[j].partition_no);
                }
            }
        } else if sync_ok(valid, v) && !is_bad(valid, wanted, n - 1) {
            assert(sync_ok(valid, w)) by {
                assert forall|i: int| 0 <= i < w.len() implies valid.contains(
                    (#[trigger] w[i]).partition_no,
                ) by {
                    if i < n - 1 {
                        assert(valid.contains(v[i].partition_no));
                    }
                }
                assert forall|i: int, j: int| 0 <= i < j < w.len() implies (
                #[trigger] w[i]).partition_no != (#[trigger] w[j]).partition_no by {
                    if j < n - 1 {
                        assert(v[i].partition_no != v[j].partition_no);
                    } else {
                        assert(wanted[i].partition_no != wanted[n - 1].partition_no);
                    }
                }
            }
        }
    }
}

/// How many reports of a partition are sent again.
pub open spec fn resent_count(sent: Map<(i32, i64), Seq<u8>>, p: SyncPartition) -> nat {
    let list = choose|list: Seq<(i64, Vec<u8>)>|
        #[trigger] capture::is_since(sent, p.partition_no, p.report_index, list);
    list.len()
}

/// What is said of the reports of a partition that are sent again.
pub open spec fn resent_note(p: SyncPartition, n: nat) -> NoteView {
    info(
        "按回报同步请求重发分区 "@ + text::dec_int(p.partition_no as int) + " 的历史回报 "@
            + text::dec(n) + " 条"@,
    )
}

/// What is said of the reports of the first `n` partitions: nothing of those without any.
pub open spec fn resent_notes(
    sent: Map<(i32, i64), Seq<u8>>,
    wanted: Seq<SyncPartition>,
    n: int,
) -> Seq<NoteView>
    decreases n,
{
    if n <= 0 {
        Seq::empty()
    } else {
        let before = resent_notes(sent, wanted, n - 1);
        let count = resent_count(sent, wanted[n - 1]);
        if count > 0 {
            before.push(resent_note(wanted[n - 1], count))
        } else {
            before
        }
    }
}

/// What is said of a request for reports.
pub open spec fn sync_notes(
    cfg: PlatformConfig,
    recorders: Seq<ConnRecorder>,
    peer: Seq<char>,
    body: Seq<u8>,
) -> Seq<NoteView> {
    let wanted = protocol::sync_partitions(body);
    let bad = bad_partitions(partitions(cfg), wanted, wanted.len() as int);
    if !protocol::sync_complete(body) {
        seq![warn(unread_text("回报同步请求解析失败"@))]
    } else if bad.len() > 0 {
        seq![
            warn(
                "柜台 "@ + peer + " 回报同步请求含非法/重复分区号 "@ + list_text(bad)
                    + "，回业务拒绝(20106)"@,
            ),
        ]
    } else {
        resent_notes(capture::all_sent(recorders), wanted, wanted.len() as int).push(
            info(
                "柜台 "@ + peer + " 回报同步完成（"@ + text::dec(wanted.len()) + " 个分区）"@,
            ),
        )
    }
}

/// What is said of a request for reports.
pub fn on_sync(cfg: &PlatformConfig, recorders: &Vec<ConnRecorder>, peer: &str, body: &[u8]) -> (r:
    Vec<Note>)
    requires
        capture::all_wf(recorders@),
    ensures
        note_views(r@) == sync_notes(*cfg, recorders@, peer@, body@),
{
    let rs = match ReportSync::decode(body) {
        Ok(rs) => rs,
        Err(_) => {
            return only(warn_note(unread("回报同步请求解析失败")));
        },
    };
    let valid = partition_vec(cfg);
    let bad = find_bad(&valid, &rs.partitions);
    if bad.len() > 0 {
        let mut out = "柜台 ".to_owned();
        out.push_str(peer);
        out.push_str(" 回报同步请求含非法/重复分区号 ");
        push_list(&mut out, &bad);
        out.push_str("，回业务拒绝(20106)");
        return only(warn_note(out));
    }
    let ghost sent = capture::all_sent(recorders@);
    let ghost wanted = protocol::sync_partitions(body@);
    let mut notes = no_notes();
    let mut i: usize = 0;
    while i < rs.partitions.len()
        invariant
            i <= rs.partitions@.len(),
            capture::all_wf(recorders@),
            sent == capture::all_sent(recorders@),
            rs.partitions@ == wanted,
            note_views(notes@) == resent_notes(sent, wanted, i as int),
        decreases rs.partitions@.len() - i,
    {
        let p = rs.partitions[i];
        let list = capture::resend_reports_since(recorders, p.partition_no, p.report_index);
        proof {
            let picked = choose|l: Seq<(i64, Vec<u8>)>|
                #[trigger] capture::is_since(sent, p.partition_no, p.report_index, l);
            capture::law_resend_unique(sent, p.partition_no, p.report_index, list@, picked);
            assert(resent_count(sent, wanted[i as int]) == list@.len());
        }
        if list.len() > 0 {
            let mut out = "按回报同步请求重发分区 ".to_owned();
            text::push_int(&mut out, p.partition_no as i64);
            out.push_str(" 的历史回报 ");
            text::push_dec(&mut out, list.len() as u64);
            out.push_str(" 条");
            add_note(&mut notes, info_note(out));
        }
        i += 1;
    }
    let mut out = "柜台 ".to_owned();
    out.push_str(peer);
    out.push_str(" 回报同步完成（");
    text::push_dec(&mut out, rs.partitions.len() as u64);
    out.push_str(" 个分区）");
    add_note(&mut notes, info_note(out));
    notes
}

/// The platform that a business belongs to, in words.
pub open spec fn home_text(appl_id: Seq<char>) -> Seq<char> {
    match strategy::platform_of(text::trimmed(appl_id)) {
        Some(p) => text::dec(p as nat),
        None => "未知"@,
    }
}

/// What is said of a message whose business is not done on the platform.
pub open spec fn platform_note(
    mt: u32,
    appl_id: Seq<char>,
    ref_id: Seq<char>,
    platform_type: u16,
) -> NoteView {
    warn(
        "业务拒绝(4) MsgType="@ + text::dec(mt as nat) + " ApplID="@ + text::trimmed(appl_id)
            + " RefID="@ + ref_id + "：业务属于平台"@ + home_text(appl_id) + "，当前接入平台"@
            + text::dec(platform_type as nat) + "（20108 "@ + session::platform_reject_text(),
    )
}

/// What is said of a message whose business is not done on the platform.
pub fn platform_refused(mt: u32, appl_id: &str, ref_id: &str, platform_type: u16) -> (r: Note)
    ensures
        r@ == platform_note(mt, appl_id@, ref_id@, platform_type),
{
    let mut out = "业务拒绝(4) MsgType=".to_owned();
    text::push_dec(&mut out, mt as u64);
    out.push_str(" ApplID=");
    out.push_str(text::trim_end(appl_id));
    out.push_str(" RefID=");
    out.push_str(ref_id);
    out.push_str("：业务属于平台");
    let home = match strategy::platform_of_appl_id(appl_id) {
        Some(p) => text::dec_string(p as u64),
        None => "未知".to_owned(),
    };
    out.push_str(home.as_str());
    out.push_str("，当前接入平台");
    text::push_dec(&mut out, platform_type as u64);
    out.push_str("（20108 ");
    out.push_str("平台非法-委托申报的平台错误,例如向现货集中竞价平台申报发行认购业务的委托");
    warn_note(out)
}

/// Whether a business is done on the platform.
fn at_home(appl_id: &str, platform_type: u16) -> (r: bool)
    ensures
        r == on_platform(appl_id@, platform_type),
{
    match strategy::platform_of_appl_id(appl_id) {
        Some(p) => p == platform_type,
        None => false,
    }
}

/// `what` and its type, which could not be read.
pub open spec fn filing_unread(what: Seq<char>, mt: u32) -> NoteView {
    error(unread_text(what + "("@ + text::dec(mt as nat) + ")解析失败"@))
}

/// `what` and its type, which could not be read.
pub fn unread_filing(what: &str, mt: u32) -> (r: Note)
    ensures
        r@ == filing_unread(what@, mt),
{
    let mut out = what.to_owned();
    out.push_str("(");
    text::push_dec(&mut out, mt as u64);
    out.push_str(")解析失败");
    error_note(unread(out.as_str()))
}

/// What is said of an order that is taken.
pub open spec fn order_text(o: NewOrderView) -> Seq<char> {
    "收到委托 MsgType="@ + text::dec(o.msg_type as nat) + " ApplID="@ + o.common.appl_id
        + " ClOrdID="@ + o.common.cl_ord_id + " 证券="@ + o.common.security_id + " 方向="@
        + side_text(o.common.side) + " 价格="@ + text::fixed(o.common.price as int, 10_000)
        + " 数量="@ + text::dec_int(whole(o.common.order_qty as int, 100))
}

/// What is said of a new order.
pub open spec fn order_note(ctx: SessionCtx, mt: u32, body: Seq<u8>) -> NoteView {
    let o = order_in(mt, body);
    if body.len() < 89 {
        filing_unread("新订单"@, mt)
    } else if !on_platform(o.common.appl_id, ctx.cfg.platform_type) {
        platform_note(mt, o.common.appl_id, o.common.cl_ord_id, ctx.cfg.platform_type)
    } else {
        info(order_text(o))
    }
}

/// What is said of a new order.
pub fn on_order(ctx: &SessionCtx, mt: u32, body: &[u8]) -> (r: Note)
    ensures
        r@ == order_note(*ctx, mt, body@),
{
    let o = match NewOrder::decode(mt, body) {
        Ok(o) => o,
        Err(_) => {
            return unread_filing("新订单", mt);
        },
    };
    if !at_home(o.common.appl_id.as_str(), ctx.cfg.platform_type) {
        return platform_refused(
            mt,
            o.common.appl_id.as_str(),
            o.common.cl_ord_id.as_str(),
            ctx.cfg.platform_type,
        );
    }
    let mut out = "收到委托 MsgType=".to_owned();
    text::push_dec(&mut out, o.msg_type as u64);
    out.push_str(" ApplID=");
    out.push_str(o.common.appl_id.as_str());
    out.push_str(" ClOrdID=");
    out.push_str(o.common.cl_ord_id.as_str());
    out.push_str(" 证券=");
    out.push_str(o.common.security_id.as_str());
    out.push_str(" 方向=");
    out.push_str(side_name(o.common.side));
    out.push_str(" 价格=");
    out.push_str(text::fmt_fixed(o.common.price, 10_000).as_str());
    out.push_str(" 数量=");
    push_whole(&mut out, o.common.order_qty, 100);
    info_note(out)
}

/// The message type of the report on a cancelled order.
pub open spec fn cancelled_type(e: Option<OrderEntry>) -> u32 {
    match e {
        Some(x) => entry_business(x.biz@).ack_msg_type,
        None => strategy::business(msg_type::NEW_ORDER_CASH).ack_msg_type,
    }
}

/// What is said of the answer to a request to cancel.
pub open spec fn cancel_answer_text(ctx: SessionCtx, q: OrderCancelRequestView) -> Seq<char> {
    let orders = kept(ctx.orders);
    let mt = cancelled_type(named_order(orders, q.orig_cl_ord_id));
    let reason = text::dec(ctx.strategy.cancel_reject_reason as nat);
    if cancel_granted(ctx.strategy.cancel_mode, orders, q.orig_cl_ord_id) {
        if ctx.strategy.cancel_mode == CancelMode::AlwaysSuccess {
            "，全部撤单成功模式，已回撤单成功("@ + text::dec(mt as nat) + ")"@
        } else {
            "，原单在途，已回撤单成功("@ + text::dec(mt as nat) + ")"@
        }
    } else if ctx.strategy.cancel_front_reject {
        "，回业务拒绝(4) 原因="@ + reason
    } else {
        "，原单不存在或不可撤，已回撤单失败响应(290008) 原因="@ + reason
    }
}

/// What is said of a request to cancel.
pub open spec fn cancel_note(ctx: SessionCtx, body: Seq<u8>) -> NoteView {
    let q = OrderCancelRequestView::of(body);
    if body.len() < 86 {
        filing_unread("撤单请求"@, msg_type::ORDER_CANCEL_REQUEST)
    } else if !text::is_blank(q.appl_id) && !on_platform(q.appl_id, ctx.cfg.platform_type) {
        platform_note(
            msg_type::ORDER_CANCEL_REQUEST,
            q.appl_id,
            q.cl_ord_id,
            ctx.cfg.platform_type,
        )
    } else {
        info(
            "收到撤单请求 ClOrdID="@ + q.cl_ord_id + " OrigClOrdID="@ + q.orig_cl_ord_id
                + cancel_answer_text(ctx, q),
        )
    }
}

fn answer_words(ctx: &SessionCtx, q: &OrderCancelRequest) -> (r: String)
    ensures
        r@ == cancel_answer_text(*ctx, q@),
{
    let found = find_named(&ctx.orders, q.orig_cl_ord_id.as_str());
    let inflight = match &found {
        Some(o) => o.status.is_inflight(),
        None => false,
    };
    let mt: u32 = match &found {
        Some(o) => session::business_of_entry(o.biz.as_str()).ack_msg_type,
        None => strategy::biz_info(msg_type::NEW_ORDER_CASH).ack_msg_type,
    };
    let mut out = match ctx.strategy.cancel_mode {
        CancelMode::AlwaysSuccess => "，全部撤单成功模式，已回撤单成功(".to_owned(),
        CancelMode::AlwaysReject => String::new(),
        CancelMode::Default => if inflight {
            "，原单在途，已回撤单成功(".to_owned()
        } else {
            String::new()
        },
    };
    let granted = match ctx.strategy.cancel_mode {
        CancelMode::AlwaysSuccess => true,
        CancelMode::AlwaysReject => false,
        CancelMode::Default => inflight,
    };
    if granted {
        text::push_dec(&mut out, mt as u64);
        out.push_str(")");
        return out;
    }
    let mut out = if ctx.strategy.cancel_front_reject {
        "，回业务拒绝(4) 原因=".to_owned()
    } else {
        "，原单不存在或不可撤，已回撤单失败响应(290008) 原因=".to_owned()
    };
    text::push_dec(&mut out, ctx.strategy.cancel_reject_reason as u64);
    out
}

/// What is said of a request to cancel.
pub fn on_cancel(ctx: &SessionCtx, body: &[u8]) -> (r: Note)
    ensures
        r@ == cancel_note(*ctx, body@),
{
    let q = match OrderCancelRequest::decode(body) {
        Ok(q) => q,
        Err(_) => {
            return unread_filing("撤单请求", msg_type::ORDER_CANCEL_REQUEST);
        },
    };
    if !text::blank(q.appl_id.as_str()) && !at_home(q.appl_id.as_str(), ctx.cfg.platform_type) {
        return platform_refused(
            msg_type::ORDER_CANCEL_REQUEST,
            q.appl_id.as_str(),
            q.cl_ord_id.as_str(),
            ctx.cfg.platform_type,
        );
    }
    let mut out = "收到撤单请求 ClOrdID=".to_owned();
    out.push_str(q.cl_ord_id.as_str());
    out.push_str(" OrigClOrdID=");
    out.push_str(q.orig_cl_ord_id.as_str());
    out.push_str(answer_words(ctx, &q).as_str());
    info_note(out)
}

/// What is said of a quote that is accepted.
pub open spec fn quote_text(
    mt: u32,
    quote_msg_id: Seq<char>,
    security_id: Seq<char>,
    bid_px: int,
    offer_px: int,
    answer_mt: u32,
) -> Seq<char> {
    "收到报价("@ + text::dec(mt as nat) + ") QuoteMsgID="@ + quote_msg_id + " 证券="@ + security_id
        + " 买价="@ + text::fixed(bid_px, 10_000) + " 卖价="@ + text::fixed(offer_px, 10_000)
        + "，已接受("@ + text::dec(answer_mt as nat) + ")"@
}

/// What is said of a quote that is accepted.
pub fn quote_accepted(mt: u32, q: &Quote, answer_mt: u32) -> (r: Note)
    ensures
        r@ == info(
            quote_text(
                mt,
                q.quote_msg_id@,
                q.security_id@,
                q.bid_px as int,
                q.offer_px as int,
                answer_mt,
            ),
        ),
{
    let mut out = "收到报价(".to_owned();
    text::push_dec(&mut out, mt as u64);
    out.push_str(") QuoteMsgID=");
    out.push_str(q.quote_msg_id.as_str());
    out.push_str(" 证券=");
    out.push_str(q.security_id.as_str());
    out.push_str(" 买价=");
    out.push_str(text::fmt_fixed(q.bid_px, 10_000).as_str());
    out.push_str(" 卖价=");
    out.push_str(text::fmt_fixed(q.offer_px, 10_000).as_str());
    out.push_str("，已接受(");
    text::push_dec(&mut out, answer_mt as u64);
    out.push_str(")");
    info_note(out)
}

/// What is said of the quote of an agreed trade.
pub open spec fn quote_note(platform_type: u16, body: Seq<u8>) -> NoteView {
    let appl_id = crate::wire::text_at(body, 0, 3);
    let quote_msg_id = crate::wire::text_at(body, 41, 10);
    if body.len() < 313 {
        filing_unread("报价"@, msg_type::QUOTE_AGREEMENT)
    } else if !on_platform(appl_id, platform_type) {
        platform_note(msg_type::QUOTE_AGREEMENT, appl_id, quote_msg_id, platform_type)
    } else {
        info(
            quote_text(
                msg_type::QUOTE_AGREEMENT,
                quote_msg_id,
                crate::wire::text_at(body, 9, 8),
                crate::wire::int_at(body, 74, 8),
                crate::wire::int_at(body, 82, 8),
                msg_type::QUOTE_STATUS_AGREEMENT,
            ),
        )
    }
}

/// What is said of the quote of an agreed trade.
pub fn on_quote(platform_type: u16, body: &[u8]) -> (r: Note)
    ensures
        r@ == quote_note(platform_type, body@),
{
    let q = match Quote::decode_agreement(body) {
        Ok(q) => q,
        Err(_) => {
            return unread_filing("报价", msg_type::QUOTE_AGREEMENT);
        },
    };
    if !at_home(q.appl_id.as_str(), platform_type) {
        return platform_refused(
            msg_type::QUOTE_AGREEMENT,
            q.appl_id.as_str(),
            q.quote_msg_id.as_str(),
            platform_type,
        );
    }
    quote_accepted(msg_type::QUOTE_AGREEMENT, &q, msg_type::QUOTE_STATUS_AGREEMENT)
}

/// What is said of the response to a quote that is accepted.
pub open spec fn quote_response_text(mt: u32, q: QuoteResponse, answer_mt: u32) -> Seq<char> {
    "收到报价回复("@ + text::dec(mt as nat) + ") QuoteRespID="@ + q.quote_resp_id@ + " ClOrdID="@
        + q.cl_ord_id@ + " 回复类型="@ + quote_resp_text(q.quote_resp_type) + "，已接受("@
        + text::dec(answer_mt as nat) + ")"@
}

/// What is said of the response to a quote that is accepted.
pub fn quote_response_accepted(mt: u32, q: &QuoteResponse, answer_mt: u32) -> (r: Note)
    ensures
        r@ == info(quote_response_text(mt, *q, answer_mt)),
{
    let mut out = "收到报价回复(".to_owned();
    text::push_dec(&mut out, mt as u64);
    out.push_str(") QuoteRespID=");
    out.push_str(q.quote_resp_id.as_str());
    out.push_str(" ClOrdID=");
    out.push_str(q.cl_ord_id.as_str());
    out.push_str(" 回复类型=");
    out.push_str(quote_resp_type_name(q.quote_resp_type));
    out.push_str("，已接受(");
    text::push_dec(&mut out, answer_mt as u64);
    out.push_str(")");
    info_note(out)
}

/// What is said of a request for quotes that is accepted.
pub open spec fn quote_request_text(mt: u32, q: QuoteRequest, answer_mt: u32) -> Seq<char> {
    "收到询价请求("@ + text::dec(mt as nat) + ") QuoteReqID="@ + q.quote_req_id@ + " ClOrdID="@
        + q.cl_ord_id@ + " 证券="@ + q.security_id@ + "，已接受("@ + text::dec(answer_mt as nat)
        + ")"@
}

/// What is said of a request for quotes that is accepted.
pub fn quote_request_accepted(mt: u32, q: &QuoteRequest, answer_mt: u32) -> (r: Note)
    ensures
        r@ == info(quote_request_text(mt, *q, answer_mt)),
{
    let mut out = "收到询价请求(".to_owned();
    text::push_dec(&mut out, mt as u64);
    out.push_str(") QuoteReqID=");
    out.push_str(q.quote_req_id.as_str());
    out.push_str(" ClOrdID=");
    out.push_str(q.cl_ord_id.as_str());
    out.push_str(" 证券=");
    out.push_str(q.security_id.as_str());
    out.push_str("，已接受(");
    text::push_dec(&mut out, answer_mt as u64);
    out.push_str(")");
    info_note(out)
}

/// What is said of an indication of interest that is accepted.
pub open spec fn ioi_text(mt: u32, q: IndicationOfInterest, answer_mt: u32) -> Seq<char> {
    "收到意向申报("@ + text::dec(mt as nat) + ") IOIID="@ + q.ioi_id@ + " 证券="@ + q.security_id@
        + " 方向="@ + side_text(q.side) + "，已接受("@ + text::dec(answer_mt as nat) + ")"@
}

/// What is said of an indication of interest that is accepted.
pub fn ioi_accepted(mt: u32, q: &IndicationOfInterest, answer_mt: u32) -> (r: Note)
    ensures
        r@ == info(ioi_text(mt, *q, answer_mt)),
{
    let mut out = "收到意向申报(".to_owned();
    text::push_dec(&mut out, mt as u64);
    out.push_str(") IOIID=");
    out.push_str(q.ioi_id.as_str());
    out.push_str(" 证券=");
    out.push_str(q.security_id.as_str());
    out.push_str(" 方向=");
    out.push_str(side_name(q.side));
    out.push_str("，已接受(");
    text::push_dec(&mut out, answer_mt as u64);
    out.push_str(")");
    info_note(out)
}

/// What is said of the report of a trade that is accepted.
pub open spec fn tcr_text(mt: u32, q: TradeCaptureReport, answer_mt: u32) -> Seq<char> {
    "收到成交申报("@ + text::dec(mt as nat) + ") TradeReportID="@ + q.trade_report_id@ + " 证券="@
        + q.security_id@ + " 价格="@ + text::fixed(q.last_px as int, 10_000) + " 数量="@
        + text::dec_int(whole(q.last_qty as int, 100)) + "，已接受("@
        + text::dec(answer_mt as nat) + ")"@
}

/// What is said of the report of a trade that is accepted.
pub fn tcr_accepted(mt: u32, q: &TradeCaptureReport, answer_mt: u32) -> (r: Note)
    ensures
        r@ == info(tcr_text(mt, *q, answer_mt)),
{
    let mut out = "收到成交申报(".to_owned();
    text::push_dec(&mut out, mt as u64);
    out.push_str(") TradeReportID=");
    out.push_str(q.trade_report_id.as_str());
    out.push_str(" 证券=");
    out.push_str(q.security_id.as_str());
    out.push_str(" 价格=");
    out.push_str(text::fmt_fixed(q.last_px, 10_000).as_str());
    out.push_str(" 数量=");
    push_whole(&mut out, q.last_qty, 100);
    out.push_str("，已接受(");
    text::push_dec(&mut out, answer_mt as u64);
    out.push_str(")");
    info_note(out)
}

/// What is said of a transfer of custody that is accepted.
pub open spec fn designation_text(mt: u32, q: Designation, answer_mt: u32) -> Seq<char> {
    "收到注册("@ + text::dec(mt as nat) + ") ClOrdID="@ + q.cl_ord_id@ + " 账户="@ + q.account_id@
        + " 转入单元="@ + q.transferee_pbu_id@ + "，已接受("@ + text::dec(answer_mt as nat) + ")"@
}

/// What is said of a transfer of custody that is accepted.
pub fn designation_accepted(mt: u32, q: &Designation, answer_mt: u32) -> (r: Note)
    ensures
        r@ == info(designation_text(mt, *q, answer_mt)),
{
    let mut out = "收到注册(".to_owned();
    text::push_dec(&mut out, mt as u64);
    out.push_str(") ClOrdID=");
    out.push_str(q.cl_ord_id.as_str());
    out.push_str(" 账户=");
    out.push_str(q.account_id.as_str());
    out.push_str(" 转入单元=");
    out.push_str(q.transferee_pbu_id.as_str());
    out.push_str("，已接受(");
    text::push_dec(&mut out, answer_mt as u64);
    out.push_str(")");
    info_note(out)
}

/// What is said of a vote that is accepted.
pub open spec fn evote_text(mt: u32, q: Evote, answer_mt: u32) -> Seq<char> {
    "收到投票("@ + text::dec(mt as nat) + ") ClOrdID="@ + q.cl_ord_id@ + " 议案="@
        + text::dec(q.voting_proposal as nat) + " 意向="@
        + text::dec(q.voting_preference as nat) + "，已接受("@ + text::dec(answer_mt as nat)
        + ")"@
}

/// What is said of a vote that is accepted.
pub fn evote_accepted(mt: u32, q: &Evote, answer_mt: u32) -> (r: Note)
    ensures
        r@ == info(evote_text(mt, *q, answer_mt)),
{
    let mut out = "收到投票(".to_owned();
    text::push_dec(&mut out, mt as u64);
    out.push_str(") ClOrdID=");
    out.push_str(q.cl_ord_id.as_str());
    out.push_str(" 议案=");
    text::push_dec(&mut out, q.voting_proposal as u64);
    out.push_str(" 意向=");
    text::push_dec(&mut out, q.voting_preference as u64);
    out.push_str("，已接受(");
    text::push_dec(&mut out, answer_mt as u64);
    out.push_str(")");
    info_note(out)
}

/// What is said of a request to the password service that is accepted.
pub open spec fn password_service_text(mt: u32, q: PasswordService, answer_mt: u32) -> Seq<char> {
    "收到密码服务("@ + text::dec(mt as nat) + ") ClOrdID="@ + q.cl_ord_id@ + " 账户="@
        + q.account_id@ + "，已接受("@ + text::dec(answer_mt as nat) + ")"@
}

/// What is said of a request to the password service that is accepted.
pub fn password_service_accepted(mt: u32, q: &PasswordService, answer_mt: u32) -> (r: Note)
    ensures
        r@ == info(password_service_text(mt, *q, answer_mt)),
{
    let mut out = "收到密码服务(".to_owned();
    text::push_dec(&mut out, mt as u64);
    out.push_str(") ClOrdID=");
    out.push_str(q.cl_ord_id.as_str());
    out.push_str(" 账户=");
    out.push_str(q.account_id.as_str());
    out.push_str("，已接受(");
    text::push_dec(&mut out, answer_mt as u64);
    out.push_str(")");
    info_note(out)
}

/// What is said of a query of margins that is answered.
pub open spec fn margin_query_text(mt: u32, q: MarginQuery, answer_mt: u32) -> Seq<char> {
    "收到保证金查询("@ + text::dec(mt as nat) + ") ClOrdID="@ + q.cl_ord_id@ + " 结算账号="@
        + q.fund_pbu_id@ + "，已回查询结果("@ + text::dec(answer_mt as nat) + ")"@
}

/// What is said of a query of margins that is answered.
pub fn margin_query_answered(mt: u32, q: &MarginQuery, answer_mt: u32) -> (r: Note)
    ensures
        r@ == info(margin_query_text(mt, *q, answer_mt)),
{
    let mut out = "收到保证金查询(".to_owned();
    text::push_dec(&mut out, mt as u64);
    out.push_str(") ClOrdID=");
    out.push_str(q.cl_ord_id.as_str());
    out.push_str(" 结算账号=");
    out.push_str(q.fund_pbu_id.as_str());
    out.push_str("，已回查询结果(");
    text::push_dec(&mut out, answer_mt as u64);
    out.push_str(")");
    info_note(out)
}

/// What is said of an order with several legs that is accepted.
pub open spec fn multileg_text(mt: u32, q: MultilegOrder, answer_mt: u32) -> Seq<char> {
    "收到多腿订单("@ + text::dec(mt as nat) + ") ClOrdID="@ + q.cl_ord_id@ + " 合约数="@
        + text::dec(q.no_legs as nat) + "，已接受("@ + text::dec(answer_mt as nat) + ")"@
}

/// What is said of an order with several legs that is accepted.
pub fn multileg_accepted(mt: u32, q: &MultilegOrder, answer_mt: u32) -> (r: Note)
    ensures
        r@ == info(multileg_text(mt, *q, answer_mt)),
{
    let mut out = "收到多腿订单(".to_owned();
    text::push_dec(&mut out, mt as u64);
    out.push_str(") ClOrdID=");
    out.push_str(q.cl_ord_id.as_str());
    out.push_str(" 合约数=");
    text::push_dec(&mut out, q.no_legs as u64);
    out.push_str("，已接受(");
    text::push_dec(&mut out, answer_mt as u64);
    out.push_str(")");
    info_note(out)
}

/// What is said of a message that is not taken.
pub open spec fn ignored_note(logged_on: bool, peer: Seq<char>, mt: u32) -> NoteView {
    if logged_on {
        warn("收到暂不支持的消息 MsgType="@ + text::dec(mt as nat) + "，忽略"@)
    } else {
        warn("柜台 "@ + peer + " 未登录即发送消息 MsgType="@ + text::dec(mt as nat) + "，忽略"@)
    }
}

/// What is said of a message that is not taken.
pub fn ignored(logged_on: bool, peer: &str, mt: u32) -> (r: Note)
    ensures
        r@ == ignored_note(logged_on, peer@, mt),
{
    if logged_on {
        let mut out = "收到暂不支持的消息 MsgType=".to_owned();
        text::push_dec(&mut out, mt as u64);
        out.push_str("，忽略");
        return warn_note(out);
    }
    let mut out = "柜台 ".to_owned();
    out.push_str(peer);
    out.push_str(" 未登录即发送消息 MsgType=");
    text::push_dec(&mut out, mt as u64);
    out.push_str("，忽略");
    warn_note(out)
}

/// What is said of a message, by the state before it.
pub open spec fn notes_of(
    ctx: SessionCtx,
    sess: Session,
    peer: Seq<char>,
    mt: u32,
    body: Seq<u8>,
) -> Seq<NoteView> {
    if mt == msg_type::LOGON {
        seq![logon_note(ctx.cfg, peer, body)]
    } else if mt == msg_type::HEARTBEAT {
        Seq::empty()
    } else if mt == msg_type::LOGOUT {
        seq![logout_note(peer, body)]
    } else if mt == msg_type::REPORT_SYNC {
        sync_notes(ctx.cfg, ctx.recorders@, peer, body)
    } else if sess.logged_on && protocol::new_order_type(mt) {
        seq![order_note(ctx, mt, body)]
    } else if sess.logged_on && mt == msg_type::ORDER_CANCEL_REQUEST {
        seq![cancel_note(ctx, body)]
    } else if sess.logged_on && mt == msg_type::QUOTE_AGREEMENT {
        seq![quote_note(ctx.cfg.platform_type, body)]
    } else {
        seq![ignored_note(sess.logged_on, peer, mt)]
    }
}

/// What is said of a message, by the state before it.
pub fn notes(ctx: &SessionCtx, sess: &Session, peer: &str, mt: u32, body: &[u8]) -> (r: Vec<Note>)
    requires
        capture::all_wf(ctx.recorders@),
    ensures
        note_views(r@) == notes_of(*ctx, *sess, peer@, mt, body@),
{
    if mt == msg_type::LOGON {
        only(on_logon(&ctx.cfg, peer, body))
    } else if mt == msg_type::HEARTBEAT {
        no_notes()
    } else if mt == msg_type::LOGOUT {
        only(on_logout(peer, body))
    } else if mt == msg_type::REPORT_SYNC {
        on_sync(&ctx.cfg, &ctx.recorders, peer, body)
    } else if sess.logged_on && NewOrder::is_new_order(mt) {
        only(on_order(ctx, mt, body))
    } else if sess.logged_on && mt == msg_type::ORDER_CANCEL_REQUEST {
        only(on_cancel(ctx, body))
    } else if sess.logged_on && mt == msg_type::QUOTE_AGREEMENT {
        only(on_quote(ctx.cfg.platform_type, body))
    } else {
        only(ignored(sess.logged_on, peer, mt))
    }
}

} // verus!
