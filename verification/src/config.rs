//! Configuration: gateways, their platforms, and how a platform answers orders.
use vstd::prelude::*;
use vstd::utf8::*;

use crate::rng;
use crate::text;
use crate::wire;

verus! {

/// The configuration of the desktop application.
#[derive(Debug, Clone)]
pub struct AppConfig {
    /// The id of the selected back end; `local` is the built-in engine.
    pub backend: String,
    /// The address of a remote back end, used where the list is empty.
    pub remote_url: String,
    pub backends: Vec<BackendEntry>,
    /// Where updates are looked for; empty to look for none.
    pub update_url: String,
}

/// A back end that can be selected.
#[derive(Debug, Clone)]
pub struct BackendEntry {
    pub id: String,
    pub name: String,
    /// `local` or `remote`.
    pub kind: String,
    pub url: String,
}

impl Default for AppConfig {
    fn default() -> (r: Self)
        ensures
            r.backend@ == "local"@,
            r.remote_url@ == "ws://127.0.0.1:9800/ws"@,
            r.backends@.len() == 0,
            r.update_url@.len() == 0,
    {
        AppConfig {
            backend: "local".to_owned(),
            remote_url: "ws://127.0.0.1:9800/ws".to_owned(),
            backends: Vec::new(),
            update_url: String::new(),
        }
    }
}

impl Default for BackendEntry {
    fn default() -> (r: Self)
        ensures
            r.id@.len() == 0,
            r.name@.len() == 0,
            r.kind@ == "remote"@,
            r.url@.len() == 0,
    {
        BackendEntry {
            id: String::new(),
            name: String::new(),
            kind: "remote".to_owned(),
            url: String::new(),
        }
    }
}

/// Which exchange interface the platforms of a gateway speak.
#[derive(Debug, Clone, Copy, PartialEq, Eq, Structural)]
pub enum GatewayCategory {
    /// The unified gateway of Shenzhen.
    Sz,
    /// The auction gateway of Shanghai.
    Shjj,
    /// The bond gateway of Shanghai.
    Shbond,
}

impl Default for GatewayCategory {
    fn default() -> (r: Self)
        ensures
            r == GatewayCategory::Sz,
    {
        GatewayCategory::Sz
    }
}

pub open spec fn category_text(c: GatewayCategory) -> Seq<char> {
    match c {
        GatewayCategory::Sz => "深圳统一网关"@,
        GatewayCategory::Shjj => "上海竞价网关"@,
        GatewayCategory::Shbond => "上海新债券网关"@,
    }
}

/// The name of a gateway category.
pub fn gateway_category_name(c: GatewayCategory) -> (r: &'static str)
    ensures
        r@ == category_text(c),
{
    match c {
        GatewayCategory::Sz => "深圳统一网关",
        GatewayCategory::Shjj => "上海竞价网关",
        GatewayCategory::Shbond => "上海新债券网关",
    }
}

/// A gateway: a group of platforms that are started and stopped together.
#[derive(Debug)]
pub struct GatewayConfig {
    /// Empty until the gateway is saved.
    pub id: String,
    pub name: String,
    pub category: GatewayCategory,
    pub platforms: Vec<PlatformConfig>,
    /// Whether the gateway was running when the program ended.
    pub was_running: bool,
}

impl Default for GatewayConfig {
    fn default() -> (r: Self)
        ensures
            r.id@.len() == 0,
            r.name@ == "新建网关"@,
            r.category == GatewayCategory::Sz,
            r.platforms@.len() == 0,
            !r.was_running,
    {
        GatewayConfig {
            id: String::new(),
            name: "新建网关".to_owned(),
            category: GatewayCategory::Sz,
            platforms: Vec::new(),
            was_running: false,
        }
    }
}

/// Two gateways with the same settings.
pub open spec fn same_gateway(a: GatewayConfig, b: GatewayConfig) -> bool {
    &&& a == (GatewayConfig { platforms: a.platforms, ..b })
    &&& a.platforms@.len() == b.platforms@.len()
    &&& forall|i: int|
        0 <= i < a.platforms@.len() ==> same_platform(#[trigger] a.platforms@[i], b.platforms@[i])
}

impl Clone for GatewayConfig {
    fn clone(&self) -> (r: Self)
        ensures
            same_gateway(r, *self),
    {
        let mut platforms: Vec<PlatformConfig> = Vec::new();
        let mut i: usize = 0;
        while i < self.platforms.len()
            invariant
                i <= self.platforms@.len(),
                platforms@.len() == i,
                forall|k: int|
                    0 <= k < i ==> same_platform(#[trigger] platforms@[k], self.platforms@[k]),
            decreases self.platforms@.len() - i,
        {
            platforms.push(self.platforms[i].clone());
            i += 1;
        }
        GatewayConfig {
            id: self.id.clone(),
            name: self.name.clone(),
            category: self.category,
            platforms,
            was_running: self.was_running,
        }
    }
}

/// A platform, which listens on a port of its own.
#[derive(Debug)]
pub struct PlatformConfig {
    /// Empty until the platform is saved.
    pub id: String,
    pub name: String,
    /// The number of the platform.
    pub platform_type: u16,
    pub listen_host: String,
    pub port: u16,
    /// The sender that logons are answered with.
    pub comp_id: String,
    pub check_password: bool,
    pub password: String,
    /// The partition, where there is only one.
    pub partition_no: i32,
    /// The partitions, separated by commas; where none is given there is only one.
    pub partition_nos: String,
    /// Whether messages are shown.
    pub show_packets: bool,
    /// Whether messages are written to files.
    pub persist_packets: bool,
    /// Whether orders are kept.
    pub cache_orders: bool,
    pub strategy: StrategyConfig,
}

impl Default for PlatformConfig {
    fn default() -> (r: Self)
        ensures
            r.id@.len() == 0,
            r.name@ == "现货集中竞价交易平台"@,
            r.platform_type == 1,
            r.listen_host@ == "0.0.0.0"@,
            r.port == 7001,
            r.comp_id@ == "SIMX_TGW"@,
            !r.check_password,
            r.password@.len() == 0,
            r.partition_no == 1,
            r.partition_nos@.len() == 0,
            r.show_packets,
            r.persist_packets,
            r.cache_orders,
            is_default_strategy(r.strategy),
    {
        PlatformConfig {
            id: String::new(),
            name: "现货集中竞价交易平台".to_owned(),
            platform_type: 1,
            listen_host: "0.0.0.0".to_owned(),
            port: 7001,
            comp_id: "SIMX_TGW".to_owned(),
            check_password: false,
            password: String::new(),
            partition_no: 1,
            partition_nos: String::new(),
            show_packets: true,
            persist_packets: true,
            cache_orders: true,
            strategy: StrategyConfig::default(),
        }
    }
}

/// Two platforms with the same settings.
pub open spec fn same_platform(a: PlatformConfig, b: PlatformConfig) -> bool {
    &&& a == (PlatformConfig { strategy: a.strategy, ..b })
    &&& same_strategy(a.strategy, b.strategy)
}

impl Clone for PlatformConfig {
    fn clone(&self) -> (r: Self)
        ensures
            same_platform(r, *self),
    {
        PlatformConfig {
            id: self.id.clone(),
            name: self.name.clone(),
            platform_type: self.platform_type,
            listen_host: self.listen_host.clone(),
            port: self.port,
            comp_id: self.comp_id.clone(),
            check_password: self.check_password,
            password: self.password.clone(),
            partition_no: self.partition_no,
            partition_nos: self.partition_nos.clone(),
            show_packets: self.show_packets,
            persist_packets: self.persist_packets,
            cache_orders: self.cache_orders,
            strategy: self.strategy.clone(),
        }
    }
}

/// The numbers among the items of a list; items that are none are left out.
pub open spec fn numbers(items: Seq<Seq<char>>) -> Seq<int>
    decreases items.len(),
{
    if items.len() == 0 {
        Seq::empty()
    } else {
        let before = numbers(items.drop_last());
        match text::parsed_i32(text::trimmed_both(items.last())) {
            Some(v) => before.push(v),
            None => before,
        }
    }
}

/// The partitions of a platform: those that are listed, or else the only one.
pub open spec fn partitions_of(partition_nos: Seq<char>, partition_no: i32) -> Seq<int> {
    let listed = numbers(text::pieces(partition_nos, ','));
    if listed.len() == 0 {
        seq![partition_no as int]
    } else {
        listed
    }
}

/// The partition that a security belongs to.
pub open spec fn partition_of(partitions: Seq<int>, security_id: Seq<char>) -> int {
    partitions[wire::byte_sum(encode_utf8(security_id)) % (partitions.len() as int)]
}

impl PlatformConfig {
    pub open spec fn partition_list(&self) -> Seq<int> {
        partitions_of(self.partition_nos@, self.partition_no)
    }

    /// All partitions.
    pub fn partitions(&self) -> (r: Vec<i32>)
        ensures
            r@.map_values(|p: i32| p as int) == self.partition_list(),
            r@.len() >= 1,
    {
        let items = text::split_on(self.partition_nos.as_str(), ',');
        let ghost views = text::piece_views(items@);
        let mut out: Vec<i32> = Vec::new();
        let mut i: usize = 0;
        assert(out@.map_values(|p: i32| p as int) =~= Seq::<int>::empty());
        assert(views.take(0) =~= Seq::<Seq<char>>::empty());
        while i < items.len()
            invariant
                i <= items@.len(),
                views == text::piece_views(items@),
                out@.map_values(|p: i32| p as int) =~= numbers(views.take(i as int)),
            decreases items@.len() - i,
        {
            let (from, to) = text::trim_range(&items[i]);
            let parsed = text::parse_i32(&items[i], from, to);
            proof {
                let t = views.take(i + 1);
                assert(t.drop_last() =~= views.take(i as int));
                assert(t.last() == items@[i as int]@);
            }
            let ghost before = out@;
            if let Some(v) = parsed {
                out.push(v);
                assert(out@.map_values(|p: i32| p as int) =~= before.map_values(
                    |p: i32| p as int,
                ).push(v as int));
            }
            i += 1;
        }
        assert(views.take(i as int) =~= views);
        assert(out@.map_values(|p: i32| p as int).len() == out@.len());
        if out.len() == 0 {
            out.push(self.partition_no);
            assert(out@.map_values(|p: i32| p as int) =~= seq![self.partition_no as int]);
        }
        out
    }

    /// The partition that reports on a security belong to.
    pub fn partition_for(&self, security_id: &str) -> (r: i32)
        ensures
            r == partition_of(self.partition_list(), security_id@),
            self.partition_list().contains(r as int),
    {
        let parts = self.partitions();
        let bytes = security_id.as_bytes();
        let n: usize = parts.len();
        let mut sum: usize = 0;
        let mut i: usize = 0;
        while i < bytes.len()
            invariant
                i <= bytes@.len(),
                n >= 1,
                sum < n,
                sum == wire::byte_sum(bytes@.take(i as int)) % (n as int),
            decreases bytes@.len() - i,
        {
            proof {
                let t = bytes@.take(i + 1);
                assert(t.drop_last() =~= bytes@.take(i as int));
                assert(t.last() == bytes@[i as int]);
                let a = wire::byte_sum(bytes@.take(i as int));
                vstd::arithmetic::div_mod::lemma_add_mod_noop(a, bytes@[i as int] as int, n as int);
                vstd::arithmetic::div_mod::lemma_add_mod_noop(
                    a % (n as int),
                    bytes@[i as int] as int,
                    n as int,
                );
                vstd::arithmetic::div_mod::lemma_mod_twice(a, n as int);
            }
            sum = ((sum as u128 + bytes[i] as u128) % (n as u128)) as usize;
            i += 1;
        }
        assert(bytes@.take(i as int) =~= bytes@);
        let p: i32 = parts[sum];
        assert(self.partition_list()[sum as int] == p);
        p
    }
}

pub open spec fn platform_text(t: u16) -> Seq<char> {
    if t == 1 {
        "现货集中竞价交易平台"@
    } else if t == 2 {
        "综合金融服务平台"@
    } else if t == 3 {
        "非交易处理平台"@
    } else if t == 4 {
        "衍生品集中竞价交易平台"@
    } else if t == 5 {
        "国际市场互联平台"@
    } else if t == 6 {
        "固定收益交易平台"@
    } else {
        "未知平台"@
    }
}

/// The name of a platform number.
pub fn platform_type_name(t: u16) -> (r: &'static str)
    ensures
        r@ == platform_text(t),
{
    if t == 1 {
        "现货集中竞价交易平台"
    } else if t == 2 {
        "综合金融服务平台"
    } else if t == 3 {
        "非交易处理平台"
    } else if t == 4 {
        "衍生品集中竞价交易平台"
    } else if t == 5 {
        "国际市场互联平台"
    } else if t == 6 {
        "固定收益交易平台"
    } else {
        "未知平台"
    }
}

/// How orders are answered.
#[derive(Debug, Clone, Copy, PartialEq, Eq, Structural)]
pub enum StrategyMode {
    /// Acknowledged and filled at once.
    FullSingle,
    /// Acknowledged and filled in several executions.
    FullSplit,
    /// Acknowledged and filled in part by one execution.
    PartialSingle,
    /// Acknowledged and filled in part by several executions.
    PartialSplit,
    /// Acknowledged and filled as configured.
    Custom,
    /// Acknowledged only.
    AckOnly,
    /// Rejected.
    Reject,
    /// Not answered at all; reports are sent by hand.
    NoAutoReply,
}

/// How orders are rejected.
#[derive(Debug, Clone, Copy, PartialEq, Eq, Structural)]
pub enum RejectVia {
    /// By an execution report.
    ExecutionReport,
    /// By a message of its own.
    BusinessReject,
}

/// How cancel requests are answered.
#[derive(Debug, Clone, Copy, PartialEq, Eq, Structural)]
pub enum CancelMode {
    /// By the state of the order.
    Default,
    /// Always refused.
    AlwaysReject,
    /// Always granted.
    AlwaysSuccess,
}

/// A delay in milliseconds: none, a fixed one, or one out of a range.
#[derive(Debug, Clone, Copy, PartialEq, Eq, Structural)]
pub struct DelayConfig {
    pub min_ms: u64,
    pub max_ms: u64,
}

impl Default for DelayConfig {
    fn default() -> (r: Self)
        ensures
            r == (DelayConfig { min_ms: 0, max_ms: 0 }),
    {
        DelayConfig { min_ms: 0, max_ms: 0 }
    }
}

impl DelayConfig {
    /// The smaller of the two limits.
    pub open spec fn low(self) -> u64 {
        if self.min_ms <= self.max_ms {
            self.min_ms
        } else {
            self.max_ms
        }
    }

    /// The larger of the two limits.
    pub open spec fn high(self) -> u64 {
        if self.min_ms <= self.max_ms {
            self.max_ms
        } else {
            self.min_ms
        }
    }

    /// A delay that may be chosen; the limits may be given in either order.
    pub open spec fn allows(self, ms: u64) -> bool {
        self.low() <= ms <= self.high()
    }

    pub open spec fn zero(self) -> bool {
        self.min_ms == 0 && self.max_ms == 0
    }

    /// Whether there is no delay.
    pub fn is_zero(&self) -> (r: bool)
        ensures
            r == self.zero(),
    {
        self.min_ms == 0 && self.max_ms == 0
    }

    /// A delay out of the range.
    pub fn sample(&self) -> (r: u64)
        ensures
            self.allows(r),
    {
        let (lo, hi): (u64, u64) = if self.min_ms <= self.max_ms {
            (self.min_ms, self.max_ms)
        } else {
            (self.max_ms, self.min_ms)
        };
        if lo == hi {
            lo
        } else {
            rng::gen_range(lo, hi)
        }
    }
}

/// Equal limits are a fixed delay, and no delay is always 0.
pub proof fn law_fixed_delay(d: DelayConfig, ms: u64)
    requires
        d.allows(ms),
    ensures
        d.min_ms == d.max_ms ==> ms == d.min_ms,
        d.zero() ==> ms == 0,
{
}

/// An execution that is configured in advance.
#[derive(Debug, Clone, Copy, PartialEq, Eq, Structural)]
pub struct CustomFill {
    /// In thousandths of a share.
    pub qty: i64,
    /// In hundred-thousandths of a yuan.
    pub price: i64,
}

impl Default for CustomFill {
    fn default() -> (r: Self)
        ensures
            r == (CustomFill { qty: 100_000, price: 1_000_000 }),
    {
        CustomFill { qty: 100_000, price: 1_000_000 }
    }
}

/// How a platform answers.
#[derive(Debug)]
pub struct StrategyConfig {
    pub mode: StrategyMode,
    /// The least number of executions of a split.
    pub split_count_min: u32,
    /// The greatest number of executions of a split.
    pub split_count_max: u32,
    /// The price step of a split, in hundred-thousandths of a yuan.
    pub price_tick: i64,
    pub custom_fills: Vec<CustomFill>,
    pub reject_via: RejectVia,
    pub reject_reason: u16,
    /// Carried by a business reject only.
    pub reject_text: String,
    pub ack_delay: DelayConfig,
    /// The delay of each execution behind the report before it.
    pub trade_delay: DelayConfig,
    pub cancel_mode: CancelMode,
    pub cancel_reject_reason: u16,
    /// Whether cancel requests are refused by a business reject.
    pub cancel_front_reject: bool,
    pub cancel_delay: DelayConfig,
}

/// The configuration of a new platform.
pub open spec fn is_default_strategy(s: StrategyConfig) -> bool {
    &&& s.mode == StrategyMode::FullSingle
    &&& s.split_count_min == 2
    &&& s.split_count_max == 5
    &&& s.price_tick == 1000
    &&& s.custom_fills@ == seq![CustomFill { qty: 100_000, price: 1_000_000 }]
    &&& s.reject_via == RejectVia::ExecutionReport
    &&& s.reject_reason == 1
    &&& s.reject_text@ == "模拟拒单"@
    &&& s.ack_delay.zero()
    &&& s.trade_delay.zero()
    &&& s.cancel_mode == CancelMode::Default
    &&& s.cancel_reject_reason == 1
    &&& !s.cancel_front_reject
    &&& s.cancel_delay.zero()
}

/// Two strategies with the same settings.
pub open spec fn same_strategy(a: StrategyConfig, b: StrategyConfig) -> bool {
    &&& a.mode == b.mode
    &&& a.split_count_min == b.split_count_min
    &&& a.split_count_max == b.split_count_max
    &&& a.price_tick == b.price_tick
    &&& a.custom_fills@ == b.custom_fills@
    &&& a.reject_via == b.reject_via
    &&& a.reject_reason == b.reject_reason
    &&& a.reject_text@ == b.reject_text@
    &&& a.ack_delay == b.ack_delay
    &&& a.trade_delay == b.trade_delay
    &&& a.cancel_mode == b.cancel_mode
    &&& a.cancel_reject_reason == b.cancel_reject_reason
    &&& a.cancel_front_reject == b.cancel_front_reject
    &&& a.cancel_delay == b.cancel_delay
}

impl Default for StrategyConfig {
    fn default() -> (r: Self)
        ensures
            is_default_strategy(r),
    {
        let mut custom_fills: Vec<CustomFill> = Vec::new();
        custom_fills.push(CustomFill::default());
        assert(custom_fills@ =~= seq![CustomFill { qty: 100_000, price: 1_000_000 }]);
        StrategyConfig {
            mode: StrategyMode::FullSingle,
            split_count_min: 2,
            split_count_max: 5,
            price_tick: 1000,
            custom_fills,
            reject_via: RejectVia::ExecutionReport,
            reject_reason: 1,
            reject_text: "模拟拒单".to_owned(),
            ack_delay: DelayConfig::default(),
            trade_delay: DelayConfig::default(),
            cancel_mode: CancelMode::Default,
            cancel_reject_reason: 1,
            cancel_front_reject: false,
            cancel_delay: DelayConfig::default(),
        }
    }
}

impl Clone for StrategyConfig {
    fn clone(&self) -> (r: Self)
        ensures
            same_strategy(r, *self),
    {
        let mut custom_fills: Vec<CustomFill> = Vec::new();
        let mut i: usize = 0;
        while i < self.custom_fills.len()
            invariant
                i <= self.custom_fills@.len(),
                custom_fills@ =~= self.custom_fills@.take(i as int),
            decreases self.custom_fills@.len() - i,
        {
            custom_fills.push(self.custom_fills[i]);
            i += 1;
        }
        assert(custom_fills@ =~= self.custom_fills@);
        StrategyConfig {
            mode: self.mode,
            split_count_min: self.split_count_min,
            split_count_max: self.split_count_max,
            price_tick: self.price_tick,
            custom_fills,
            reject_via: self.reject_via,
            reject_reason: self.reject_reason,
            reject_text: self.reject_text.clone(),
            ack_delay: self.ack_delay,
            trade_delay: self.trade_delay,
            cancel_mode: self.cancel_mode,
            cancel_reject_reason: self.cancel_reject_reason,
            cancel_front_reject: self.cancel_front_reject,
            cancel_delay: self.cancel_delay,
        }
    }
}

/// Which partition a security belongs to: one of those of the platform, the only one where
/// there is one; and of several the one at the sum of the bytes of its code, counted round. So
/// each byte more moves it on by as many places.
pub proof fn law_partition_of_security(partitions: Seq<int>, a: Seq<char>, b: Seq<char>, c: char)
    requires
        partitions.len() >= 1,
        (c as u32) < 128,
    ensures
        partitions.contains(partition_of(partitions, a)),
        partitions.len() == 1 ==> partition_of(partitions, a) == partitions[0],
        partition_of(partitions, Seq::empty()) == partitions[0],
        partition_of(partitions, seq![c]) == partitions[c as u32 as int % (partitions.len()
            as int)],
        partition_of(partitions, a + b) == partition_of(partitions, b + a),
        forall|i: int|
            0 <= i < partitions.len() && wire::byte_sum(encode_utf8(a)) % (partitions.len() as int)
                == i ==> partition_of(partitions, a) == #[trigger] partitions[i] && partition_of(
                partitions,
                a.push(c),
            ) == partitions[(i + c as u32) % (partitions.len() as int)],
{
    let n = partitions.len() as int;
    let ab = wire::byte_sum(encode_utf8(a));
    wire::law_encoded_apart(a, b);
    wire::law_encoded_apart(b, a);
    wire::law_encoded_apart(a, seq![c]);
    assert(a + seq![c] =~= a.push(c));
    assert(is_ascii_chars(seq![c]));
    is_ascii_chars_encode_utf8(seq![c]);
    assert(encode_utf8(seq![c]) =~= seq![c as u8]);
    assert(encode_utf8(Seq::<char>::empty()) =~= wire::nil());
    wire::law_byte_sum(encode_utf8(a), encode_utf8(b), 0);
    wire::law_byte_sum(encode_utf8(b), encode_utf8(a), 0);
    wire::law_byte_sum(encode_utf8(a), seq![c as u8], c as u8);
    vstd::arithmetic::div_mod::lemma_mod_bound(ab, n);
    vstd::arithmetic::div_mod::lemma_small_mod(0, n as nat);
    vstd::arithmetic::div_mod::lemma_add_mod_noop(ab, c as u32 as int, n);
    vstd::arithmetic::div_mod::lemma_add_mod_noop(ab % n, c as u32 as int, n);
    vstd::arithmetic::div_mod::lemma_mod_twice(ab, n);
    assert(partitions[ab % n] == partition_of(partitions, a));
}

/// The partitions of a platform: the numbers that are listed, in order, those that cannot be
/// read left out; and without any the only one.
pub proof fn law_partition_list(items: Seq<Seq<char>>, item: Seq<char>, listed: Seq<char>, only: i32)
    ensures
        numbers(Seq::empty()) == Seq::<int>::empty(),
        match text::parsed_i32(text::trimmed_both(item)) {
            Some(v) => numbers(items.push(item)) == numbers(items).push(v),
            None => numbers(items.push(item)) == numbers(items),
        },
        numbers(text::pieces(listed, ',')).len() == 0 ==> partitions_of(listed, only) == seq![
            only as int,
        ],
        numbers(text::pieces(listed, ',')).len() > 0 ==> partitions_of(listed, only) == numbers(
            text::pieces(listed, ','),
        ),
{
    assert(items.push(item).drop_last() =~= items);
}

/// A list of numbers that is written with commas between them, with or without white space, is
/// read as those numbers, in order.
pub proof fn law_listed_partitions(vs: Seq<int>, only: i32, blank: Seq<char>)
    requires
        vs.len() >= 1,
        text::is_blank(blank),
        forall|i: int| 0 <= i < vs.len() ==> -0x8000_0000 <= #[trigger] vs[i] <= 0x7fff_ffff,
    ensures
        partitions_of(listing(vs, blank), only) == vs,
{
    lemma_listing(vs, blank);
}

/// Numbers with commas between them, and `blank` in front of each.
pub open spec fn listing(vs: Seq<int>, blank: Seq<char>) -> Seq<char>
    decreases vs.len(),
{
    if vs.len() == 0 {
        Seq::empty()
    } else if vs.len() == 1 {
        blank + text::dec_int(vs[0])
    } else {
        listing(vs.drop_last(), blank).push(',') + (blank + text::dec_int(vs.last()))
    }
}

proof fn lemma_listing(vs: Seq<int>, blank: Seq<char>)
    requires
        vs.len() >= 1,
        text::is_blank(blank),
        forall|i: int| 0 <= i < vs.len() ==> -0x8000_0000 <= #[trigger] vs[i] <= 0x7fff_ffff,
    ensures
        numbers(text::pieces(listing(vs, blank), ',')) == vs,
    decreases vs.len(),
{
    let last = blank + text::dec_int(vs.last());
    let v = vs.last();
    text::law_number_is_read(v, blank, Seq::empty());
    assert(last + Seq::<char>::empty() =~= last);
    text::lemma_dec_value(if v < 0 {
        (-v) as nat
    } else {
        v as nat
    });
    assert(!last.contains(',')) by {
        if last.contains(',') {
            let i = last.index_of(',');
            assert(last[i] == ',');
            if i < blank.len() {
                assert(text::is_white(blank[i]));
            } else {
                let s = text::dec_int(v);
                let d = if v < 0 {
                    text::dec((-v) as nat)
                } else {
                    text::dec(v as nat)
                };
                let k: int = if v < 0 {
                    1
                } else {
                    0
                };
                if i - blank.len() >= k {
                    assert(text::is_digit(d[i - blank.len() - k]));
                }
            }
        }
    }
    if vs.len() == 1 {
        text::law_pieces(Seq::empty(), last, ',');
        assert(seq![last].drop_last() =~= Seq::<Seq<char>>::empty());
        assert(numbers(Seq::empty()) == Seq::<int>::empty());
        assert(numbers(seq![last]) =~= seq![v]);
        assert(vs =~= seq![v]);
    } else {
        let front = vs.drop_last();
        assert forall|i: int| 0 <= i < front.len() implies -0x8000_0000 <= #[trigger] front[i]
            <= 0x7fff_ffff by {
            assert(front[i] == vs[i]);
        }
        lemma_listing(front, blank);
        text::law_pieces(listing(front, blank), last, ',');
        let p = text::pieces(listing(front, blank), ',');
        assert(p.push(last).drop_last() =~= p);
        assert(front.push(v) =~= vs);
    }
}

/// A copy of a strategy, of a platform and of a gateway agrees with it in every setting.
pub proof fn law_copies_agree(
    s: StrategyConfig,
    t: StrategyConfig,
    p: PlatformConfig,
    q: PlatformConfig,
    g: GatewayConfig,
    h: GatewayConfig,
)
    requires
        same_strategy(s, t),
        same_platform(p, q),
        same_gateway(g, h),
    ensures
        s.mode == t.mode && s.split_count_min == t.split_count_min,
        s.split_count_max == t.split_count_max && s.price_tick == t.price_tick,
        s.custom_fills@ == t.custom_fills@,
        s.reject_via == t.reject_via && s.reject_reason == t.reject_reason,
        s.reject_text@ == t.reject_text@,
        s.ack_delay == t.ack_delay && s.trade_delay == t.trade_delay,
        s.cancel_mode == t.cancel_mode && s.cancel_reject_reason == t.cancel_reject_reason,
        s.cancel_front_reject == t.cancel_front_reject && s.cancel_delay == t.cancel_delay,
        p.id@ == q.id@ && p.name@ == q.name@ && p.platform_type == q.platform_type,
        p.listen_host@ == q.listen_host@ && p.port == q.port && p.comp_id@ == q.comp_id@,
        p.check_password == q.check_password && p.password@ == q.password@,
        p.partition_no == q.partition_no && p.partition_nos@ == q.partition_nos@,
        p.show_packets == q.show_packets && p.persist_packets == q.persist_packets,
        p.cache_orders == q.cache_orders && p.strategy.mode == q.strategy.mode,
        p.strategy.custom_fills@ == q.strategy.custom_fills@,
        g.id@ == h.id@ && g.name@ == h.name@ && g.category == h.category,
        g.was_running == h.was_running && g.platforms@.len() == h.platforms@.len(),
        forall|i: int|
            0 <= i < g.platforms@.len() ==> (#[trigger] g.platforms@[i]).port
                == h.platforms@[i].port && g.platforms@[i].id@ == h.platforms@[i].id@,
{
}

/// A new platform fills every order whole and at once: one execution, no delay, no refusal of
/// requests to cancel.
pub proof fn law_new_platform_fills_at_once(s: StrategyConfig)
    requires
        is_default_strategy(s),
    ensures
        s.mode is FullSingle,
        s.cancel_mode is Default,
        !s.cancel_front_reject,
        s.ack_delay.min_ms == 0 && s.ack_delay.max_ms == 0,
        s.trade_delay.min_ms == 0 && s.trade_delay.max_ms == 0,
        s.cancel_delay.min_ms == 0 && s.cancel_delay.max_ms == 0,
        s.split_count_min == 2 && s.split_count_max == 5,
        s.price_tick == 1000,
        s.custom_fills@.len() == 1 && s.custom_fills@[0].qty == 100_000
            && s.custom_fills@[0].price == 1_000_000,
        s.reject_via is ExecutionReport && s.reject_reason == 1 && s.cancel_reject_reason == 1,
        s.reject_text@ == "模拟拒单"@,
{
}

} // verus!
