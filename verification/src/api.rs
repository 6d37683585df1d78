//! The commands of the user interface.
use vstd::prelude::*;

use crate::capture::PacketPage;
use crate::clock::LocalTime;
use crate::config;
use crate::config::{GatewayConfig, StrategyConfig};
use crate::engine;
use crate::engine::{Engine, Outgoing, Snapshot};
use crate::manual::ManualReportKind;
use crate::orderbook::OrderEntry;
use crate::text;

verus! {

/// A command.
pub enum Command {
    /// Tell all there is to show.
    GetSnapshot,
    /// Save a gateway, a new one or one that is there.
    SaveGateway { gateway: GatewayConfig },
    DeleteGateway { id: String },
    StartGateway { id: String },
    StopGateway { id: String },
    /// Replace the strategy of a platform.
    UpdateStrategy { gateway_id: String, platform_id: String, strategy: StrategyConfig },
    /// Set the counters of a gateway to 0.
    ResetStats { id: String },
    /// Show the messages of a connection with a number greater than `after_seq`.
    GetConnPackets { gateway_id: String, platform_id: String, conn_id: u64, after_seq: u64 },
    /// Show the orders of a platform.
    GetOrders { gateway_id: String, platform_id: String },
    /// Show the messages of a platform with a number greater than `after_seq`.
    GetPlatformPackets { gateway_id: String, platform_id: String, after_seq: u64 },
    /// Send a report by hand.
    SendReport {
        gateway_id: String,
        platform_id: String,
        cl_ord_id: String,
        kind: ManualReportKind,
        /// In shares.
        qty: Option<i64>,
        /// In the units of the platform.
        price: Option<i64>,
        reason: Option<i32>,
        /// Whether a rejection goes out as a message of its own.
        front_reject: bool,
    },
}

/// What comes of a command.
pub enum Outcome {
    Told(Snapshot),
    Saved(GatewayConfig),
    Deleted,
    /// The platforms of the gateway are to listen; the gateway starts once they do.
    Starting(GatewayConfig),
    Stopped,
    /// The strategy was replaced; with what the log says.
    Updated(String),
    Reset,
    Packets(PacketPage),
    Orders(Vec<OrderEntry>),
    /// The report is to be sent.
    Sending(Outgoing),
    Refused(String),
}

/// The name of a gateway, or its id where it is not there.
pub open spec fn shown_gateway(gateways: Seq<GatewayConfig>, id: Seq<char>) -> Seq<char> {
    let k = engine::place_of(engine::gateway_ids(gateways), id);
    if k < gateways.len() {
        gateways[k].name@
    } else {
        id
    }
}

/// The names of a gateway and of a platform, or their ids where either is not there.
pub open spec fn shown_platform(
    gateways: Seq<GatewayConfig>,
    gateway_id: Seq<char>,
    platform_id: Seq<char>,
) -> (Seq<char>, Seq<char>) {
    let g = engine::place_of(engine::gateway_ids(gateways), gateway_id);
    let p = engine::place_of(engine::platform_ids(gateways[g].platforms@), platform_id);
    if engine::config_refusal(gateways, gateway_id, platform_id) is None {
        (gateways[g].name@, gateways[g].platforms@[p].name@)
    } else {
        (gateway_id, platform_id)
    }
}

/// A kind of report in words.
pub open spec fn kind_text(kind: ManualReportKind) -> Seq<char> {
    match kind {
        ManualReportKind::Ack => "确认"@,
        ManualReportKind::Trade => "成交"@,
        ManualReportKind::Reject => "拒单"@,
        ManualReportKind::Cancel => "撤单成功"@,
    }
}

fn kind_label(kind: ManualReportKind) -> (r: &'static str)
    ensures
        r@ == kind_text(kind),
{
    match kind {
        ManualReportKind::Ack => "确认",
        ManualReportKind::Trade => "成交",
        ManualReportKind::Reject => "拒单",
        ManualReportKind::Cancel => "撤单成功",
    }
}

/// What the log of operations says of a command; nothing of one that only asks.
pub open spec fn op_text(gateways: Seq<GatewayConfig>, cmd: Command) -> Option<Seq<char>> {
    match cmd {
        Command::SaveGateway { gateway } => Some(
            (if gateway.id@.len() == 0 {
                "新建网关"@
            } else {
                "保存网关"@
            }) + " "@ + gateway.name@ + "（"@ + text::dec(gateway.platforms@.len()) + " 个平台）"@,
        ),
        Command::DeleteGateway { id } => Some("删除网关 "@ + shown_gateway(gateways, id@)),
        Command::StartGateway { id } => Some("启动网关 "@ + shown_gateway(gateways, id@)),
        Command::StopGateway { id } => Some("停止网关 "@ + shown_gateway(gateways, id@)),
        Command::UpdateStrategy { gateway_id, platform_id, .. } => {
            let (gw, plat) = shown_platform(gateways, gateway_id@, platform_id@);
            Some("热更新网关 "@ + gw + " 平台 "@ + plat + " 的模拟回报策略"@)
        },
        Command::ResetStats { id } => Some(
            "重置网关 "@ + shown_gateway(gateways, id@) + " 统计"@,
        ),
        Command::SendReport { gateway_id, platform_id, cl_ord_id, kind, .. } => {
            let (gw, plat) = shown_platform(gateways, gateway_id@, platform_id@);
            Some(
                "手动回复订单 "@ + cl_ord_id@ + "（"@ + kind_text(kind) + "）：网关 "@ + gw
                    + " 平台 "@ + plat,
            )
        },
        _ => None,
    }
}

fn gateway_label(e: &Engine, id: &str) -> (r: String)
    ensures
        r@ == shown_gateway(e.gateways@, id@),
{
    proof {
        engine::lemma_place_of(engine::gateway_ids(e.gateways@), id@);
    }
    match e.gateway_name(id) {
        Some(name) => name,
        None => id.to_owned(),
    }
}

fn platform_label(e: &Engine, gateway_id: &str, platform_id: &str) -> (r: (String, String))
    ensures
        (r.0@, r.1@) == shown_platform(e.gateways@, gateway_id@, platform_id@),
{
    match e.platform_name(gateway_id, platform_id) {
        Some(names) => names,
        None => (gateway_id.to_owned(), platform_id.to_owned()),
    }
}

/// What the log of operations says of a command, before it is carried out.
pub fn describe(e: &Engine, cmd: &Command) -> (r: Option<String>)
    ensures
        match r {
            Some(t) => op_text(e.gateways@, *cmd) == Some(t@),
            None => op_text(e.gateways@, *cmd) is None,
        },
{
    match cmd {
        Command::SaveGateway { gateway } => {
            let mut out = if gateway.id.as_str().is_empty() {
                "新建网关".to_owned()
            } else {
                "保存网关".to_owned()
            };
            out.push_str(" ");
            out.push_str(gateway.name.as_str());
            out.push_str("（");
            text::push_dec(&mut out, gateway.platforms.len() as u64);
            out.push_str(" 个平台）");
            Some(out)
        },
        Command::DeleteGateway { id } => Some(
            text::cat("删除网关 ", gateway_label(e, id.as_str()).as_str()),
        ),
        Command::StartGateway { id } => Some(
            text::cat("启动网关 ", gateway_label(e, id.as_str()).as_str()),
        ),
        Command::StopGateway { id } => Some(
            text::cat("停止网关 ", gateway_label(e, id.as_str()).as_str()),
        ),
        Command::UpdateStrategy { gateway_id, platform_id, .. } => {
            let (gw, plat) = platform_label(e, gateway_id.as_str(), platform_id.as_str());
            let mut out = "热更新网关 ".to_owned();
            out.push_str(gw.as_str());
            out.push_str(" 平台 ");
            out.push_str(plat.as_str());
            out.push_str(" 的模拟回报策略");
            Some(out)
        },
        Command::ResetStats { id } => {
            let mut out = "重置网关 ".to_owned();
            out.push_str(gateway_label(e, id.as_str()).as_str());
            out.push_str(" 统计");
            Some(out)
        },
        Command::SendReport { gateway_id, platform_id, cl_ord_id, kind, .. } => {
            let (gw, plat) = platform_label(e, gateway_id.as_str(), platform_id.as_str());
            let mut out = "手动回复订单 ".to_owned();
            out.push_str(cl_ord_id.as_str());
            out.push_str("（");
            out.push_str(kind_label(*kind));
            out.push_str("）：网关 ");
            out.push_str(gw.as_str());
            out.push_str(" 平台 ");
            out.push_str(plat.as_str());
            Some(out)
        },
        _ => None,
    }
}

/// What a command that was carried out, or refused, leads to.
pub open spec fn is_outcome(
    before: Engine,
    cmd: Command,
    conns: Seq<u64>,
    now: LocalTime,
    after: Engine,
    out: Outcome,
) -> bool {
    match cmd {
        Command::GetSnapshot => after == before && (out matches Outcome::Told(s)
            && engine::is_snapshot(before, s)),
        Command::SaveGateway { gateway } => match out {
            Outcome::Saved(gw) => engine::is_save(before, gateway, after, Ok(gw)),
            Outcome::Refused(why) => engine::is_save(before, gateway, after, Err(why)),
            _ => false,
        },
        Command::DeleteGateway { id } => match out {
            Outcome::Deleted => engine::is_delete(before, id@, after, Ok(())),
            Outcome::Refused(why) => engine::is_delete(before, id@, after, Err(why)),
            _ => false,
        },
        Command::StartGateway { id } => after == before && match out {
            Outcome::Starting(gw) => engine::start_refusal(before, id@) is None
                && config::same_gateway(
                gw,
                before.gateways@[engine::place_of(engine::gateway_ids(before.gateways@), id@)],
            ),
            Outcome::Refused(why) => engine::start_refusal(before, id@) == Some(why@),
            _ => false,
        },
        Command::StopGateway { id } => match out {
            Outcome::Stopped => engine::is_stop(before, id@, after, Ok(())),
            Outcome::Refused(why) => engine::is_stop(before, id@, after, Err(why)),
            _ => false,
        },
        Command::UpdateStrategy { gateway_id, platform_id, strategy } => match out {
            Outcome::Updated(said) => engine::is_update(
                before,
                gateway_id@,
                platform_id@,
                strategy,
                after,
                Ok(said),
            ),
            Outcome::Refused(why) => engine::is_update(
                before,
                gateway_id@,
                platform_id@,
                strategy,
                after,
                Err(why),
            ),
            _ => false,
        },
        Command::ResetStats { id } => match out {
            Outcome::Reset => engine::is_reset_of(before, id@, after, Ok(())),
            Outcome::Refused(why) => engine::is_reset_of(before, id@, after, Err(why)),
            _ => false,
        },
        Command::GetConnPackets { gateway_id, platform_id, conn_id, after_seq } => after == before
            && match out {
            Outcome::Packets(page) => engine::is_conn_packets(
                before,
                gateway_id@,
                platform_id@,
                conn_id,
                after_seq,
                Ok(page),
            ),
            Outcome::Refused(why) => engine::is_conn_packets(
                before,
                gateway_id@,
                platform_id@,
                conn_id,
                after_seq,
                Err(why),
            ),
            _ => false,
        },
        Command::GetOrders { gateway_id, platform_id } => after == before && match out {
            Outcome::Orders(list) => engine::is_orders(
                before,
                gateway_id@,
                platform_id@,
                Ok(list),
            ),
            Outcome::Refused(why) => engine::is_orders(
                before,
                gateway_id@,
                platform_id@,
                Err(why),
            ),
            _ => false,
        },
        Command::GetPlatformPackets { gateway_id, platform_id, after_seq } => after == before
            && match out {
            Outcome::Packets(page) => engine::is_platform_packets(
                before,
                gateway_id@,
                platform_id@,
                after_seq,
                Ok(page),
            ),
            Outcome::Refused(why) => engine::is_platform_packets(
                before,
                gateway_id@,
                platform_id@,
                after_seq,
                Err(why),
            ),
            _ => false,
        },
        Command::SendReport {
            gateway_id,
            platform_id,
            cl_ord_id,
            kind,
            qty,
            price,
            reason,
            front_reject,
        } => if !in_range(before, cmd) {
            after == before && (out matches Outcome::Refused(why) && why@ == "该订单不能手动回复"@)
        } else {
            match out {
                Outcome::Sending(report) => engine::is_report(
                    before,
                    gateway_id@,
                    platform_id@,
                    cl_ord_id@,
                    kind,
                    qty,
                    price,
                    reason,
                    front_reject,
                    conns,
                    now,
                    after,
                    Ok(report),
                ),
                Outcome::Refused(why) => engine::is_report(
                    before,
                    gateway_id@,
                    platform_id@,
                    cl_ord_id@,
                    kind,
                    qty,
                    price,
                    reason,
                    front_reject,
                    conns,
                    now,
                    after,
                    Err(why),
                ),
                _ => false,
            }
        },
    }
}

/// Whether a command can be carried out: a report can be built by hand only on an interface
/// that is known here, and where there are numbers left.
pub open spec fn in_range(e: Engine, cmd: Command) -> bool {
    match cmd {
        Command::SendReport { gateway_id, platform_id, .. } => engine::reportable(
            e,
            gateway_id@,
            platform_id@,
        ),
        _ => true,
    }
}

fn check_range(e: &Engine, cmd: &Command) -> (r: bool)
    ensures
        r == in_range(*e, *cmd),
{
    match cmd {
        Command::SendReport { gateway_id, platform_id, .. } => e.can_report(
            gateway_id.as_str(),
            platform_id.as_str(),
        ),
        _ => true,
    }
}

/// Carries out a command; a report that cannot be built is refused. `conns` are the connections
/// that can send, where the command is about a platform.
pub fn dispatch(e: &mut Engine, cmd: Command, conns: &Vec<u64>, now: &LocalTime) -> (r: Outcome)
    requires
        now.wf(),
    ensures
        is_outcome(*old(e), cmd, conns@, *now, *final(e), r),
        old(e).wf() ==> final(e).wf(),
{
    if !check_range(e, &cmd) {
        return Outcome::Refused("该订单不能手动回复".to_owned());
    }
    match cmd {
        Command::GetSnapshot => Outcome::Told(e.snapshot()),
        Command::SaveGateway { gateway } => match e.save_gateway(gateway) {
            Ok(gw) => Outcome::Saved(gw),
            Err(why) => Outcome::Refused(why),
        },
        Command::DeleteGateway { id } => match e.delete_gateway(id.as_str()) {
            Ok(_) => Outcome::Deleted,
            Err(why) => Outcome::Refused(why),
        },
        Command::StartGateway { id } => match e.check_start(id.as_str()) {
            Ok(gw) => Outcome::Starting(gw),
            Err(why) => Outcome::Refused(why),
        },
        Command::StopGateway { id } => match e.stop_gateway(id.as_str()) {
            Ok(_) => Outcome::Stopped,
            Err(why) => Outcome::Refused(why),
        },
        Command::UpdateStrategy { gateway_id, platform_id, strategy } => match e.update_strategy(
            gateway_id.as_str(),
            platform_id.as_str(),
            strategy,
        ) {
            Ok(said) => Outcome::Updated(said),
            Err(why) => Outcome::Refused(why),
        },
        Command::ResetStats { id } => match e.reset_stats(id.as_str()) {
            Ok(_) => Outcome::Reset,
            Err(why) => Outcome::Refused(why),
        },
        Command::GetConnPackets { gateway_id, platform_id, conn_id, after_seq } => {
            match e.conn_packets(gateway_id.as_str(), platform_id.as_str(), conn_id, after_seq) {
                Ok(page) => Outcome::Packets(page),
                Err(why) => Outcome::Refused(why),
            }
        },
        Command::GetOrders { gateway_id, platform_id } => match e.orders(
            gateway_id.as_str(),
            platform_id.as_str(),
        ) {
            Ok(list) => Outcome::Orders(list),
            Err(why) => Outcome::Refused(why),
        },
        Command::GetPlatformPackets { gateway_id, platform_id, after_seq } => {
            match e.platform_packets(gateway_id.as_str(), platform_id.as_str(), after_seq) {
                Ok(page) => Outcome::Packets(page),
                Err(why) => Outcome::Refused(why),
            }
        },
        Command::SendReport {
            gateway_id,
            platform_id,
            cl_ord_id,
            kind,
            qty,
            price,
            reason,
            front_reject,
        } => match e.send_report(
            gateway_id.as_str(),
            platform_id.as_str(),
            cl_ord_id.as_str(),
            kind,
            qty,
            price,
            reason,
            front_reject,
            conns,
            now,
        ) {
            Ok(report) => Outcome::Sending(report),
            Err(why) => Outcome::Refused(why),
        },
    }
}

/// A command that only asks changes nothing and is not written to the log of operations.
pub proof fn law_asking_changes_nothing(
    before: Engine,
    cmd: Command,
    conns: Seq<u64>,
    now: LocalTime,
    after: Engine,
    out: Outcome,
)
    requires
        is_outcome(before, cmd, conns, now, after, out),
        op_text(before.gateways@, cmd) is None,
    ensures
        after == before,
{
}

/// A gateway that runs is neither changed nor deleted.
pub proof fn law_running_is_kept(
    before: Engine,
    cmd: Command,
    conns: Seq<u64>,
    now: LocalTime,
    after: Engine,
    out: Outcome,
)
    requires
        is_outcome(before, cmd, conns, now, after, out),
        match cmd {
            Command::SaveGateway { gateway } => engine::running_ids(before.running@).contains(
                gateway.id@,
            ),
            Command::DeleteGateway { id } => engine::running_ids(before.running@).contains(id@),
            _ => false,
        },
    ensures
        out is Refused,
        after == before,
{
}

} // verus!
