//! The orders that a platform has received, with their current state.
//!
//! An order starts as new, may be filled in part and ends filled, cancelled or rejected.
//! New and partly filled orders are in flight and can be cancelled; the other states are
//! terminal. Quantities and prices are in the exchange's own scaled units.
use vstd::prelude::*;

use crate::text;

verus! {

/// The state of an order.
#[derive(Debug, Clone, Copy, PartialEq, Eq, Structural)]
pub enum OrderStatus {
    New,
    Partial,
    Filled,
    Cancelled,
    Rejected,
}

impl OrderStatus {
    pub open spec fn inflight(self) -> bool {
        self is New || self is Partial
    }

    /// Whether the order can still be cancelled.
    pub fn is_inflight(self) -> (r: bool)
        ensures
            r == self.inflight(),
    {
        match self {
            OrderStatus::New | OrderStatus::Partial => true,
            _ => false,
        }
    }

    /// Whether the order has ended.
    pub fn is_terminal(self) -> (r: bool)
        ensures
            r == !self.inflight(),
    {
        !self.is_inflight()
    }
}

/// An order and what reports on it have to repeat.
#[derive(Debug)]
pub struct OrderEntry {
    /// The client's order number, by which the order is found.
    pub cl_ord_id: String,
    /// The exchange's order number; empty until the order is acknowledged.
    pub order_id: String,
    pub security_id: String,
    /// The side in words.
    pub side: String,
    pub price: i64,
    pub qty: i64,
    pub cum_qty: i64,
    pub leaves_qty: i64,
    pub status: OrderStatus,
    pub ord_type: u8,
    pub account: String,
    pub branch: String,
    /// When the order was received.
    pub ts: String,
    /// The connection that the order came from.
    pub conn_id: u64,
    /// The trading unit that reports go to.
    pub pbu: String,
    /// The business number (Shanghai); 0 in Shenzhen.
    pub biz_id: u32,
    pub biz_pbu: String,
    pub owner_type: u16,
    pub credit_tag: String,
    pub clearing_firm: String,
    pub user_info: String,
    /// The business code (Shenzhen); empty in Shanghai.
    pub biz: String,
}

impl Clone for OrderEntry {
    fn clone(&self) -> (r: Self)
        ensures
            r == *self,
    {
        OrderEntry {
            cl_ord_id: self.cl_ord_id.clone(),
            order_id: self.order_id.clone(),
            security_id: self.security_id.clone(),
            side: self.side.clone(),
            price: self.price,
            qty: self.qty,
            cum_qty: self.cum_qty,
            leaves_qty: self.leaves_qty,
            status: self.status,
            ord_type: self.ord_type,
            account: self.account.clone(),
            branch: self.branch.clone(),
            ts: self.ts.clone(),
            conn_id: self.conn_id,
            pbu: self.pbu.clone(),
            biz_id: self.biz_id,
            biz_pbu: self.biz_pbu.clone(),
            owner_type: self.owner_type,
            credit_tag: self.credit_tag.clone(),
            clearing_firm: self.clearing_firm.clone(),
            user_info: self.user_info.clone(),
            biz: self.biz.clone(),
        }
    }
}

/// What a report changes in the order that it is about.
#[derive(Debug)]
pub struct OrderUpdate {
    /// The exchange's order number; empty where the report carries none.
    pub order_id: String,
    pub cum_qty: i64,
    pub leaves_qty: i64,
    pub status: OrderStatus,
}

impl Clone for OrderUpdate {
    fn clone(&self) -> (r: Self)
        ensures
            r == *self,
    {
        OrderUpdate {
            order_id: self.order_id.clone(),
            cum_qty: self.cum_qty,
            leaves_qty: self.leaves_qty,
            status: self.status,
        }
    }
}

/// The values of [`OrderUpdate`].
pub struct OrderUpdateView {
    pub order_id: Seq<char>,
    pub cum_qty: i64,
    pub leaves_qty: i64,
    pub status: OrderStatus,
}

impl View for OrderUpdate {
    type V = OrderUpdateView;

    open spec fn view(&self) -> OrderUpdateView {
        OrderUpdateView {
            order_id: self.order_id@,
            cum_qty: self.cum_qty,
            leaves_qty: self.leaves_qty,
            status: self.status,
        }
    }
}

/// How many orders are kept.
pub const MAX_ORDERS: usize = 2000;

/// The place of the first order with the given number; the length where there is none.
pub open spec fn slot(s: Seq<OrderEntry>, key: Seq<char>) -> int
    decreases s.len(),
{
    if s.len() == 0 {
        0
    } else if s[0].cl_ord_id@ == key {
        0
    } else {
        1 + slot(s.drop_first(), key)
    }
}

/// The first order with the given number.
pub open spec fn lookup(s: Seq<OrderEntry>, key: Seq<char>) -> Option<OrderEntry> {
    if slot(s, key) < s.len() {
        Some(s[slot(s, key)])
    } else {
        None
    }
}

/// An order after a report. A report that would bring an order back in flight comes too
/// late and changes nothing; an empty order number leaves the old one.
pub open spec fn reported(o: OrderEntry, upd: OrderUpdate) -> OrderEntry {
    if !o.status.inflight() && upd.status.inflight() {
        o
    } else {
        OrderEntry {
            order_id: if upd.order_id@.len() == 0 {
                o.order_id
            } else {
                upd.order_id
            },
            cum_qty: upd.cum_qty,
            leaves_qty: upd.leaves_qty,
            status: upd.status,
            ..o
        }
    }
}

/// An order after it was cancelled.
pub open spec fn cancelled(o: OrderEntry) -> OrderEntry {
    OrderEntry { status: OrderStatus::Cancelled, leaves_qty: 0, ..o }
}

/// The orders after one more: at most [`MAX_ORDERS`], the oldest are dropped.
pub open spec fn added(s: Seq<OrderEntry>, e: OrderEntry) -> Seq<OrderEntry> {
    let t = s.push(e);
    if t.len() > MAX_ORDERS {
        t.subrange(t.len() - MAX_ORDERS, t.len() as int)
    } else {
        t
    }
}

/// The orders after a report on one of them.
pub open spec fn applied(s: Seq<OrderEntry>, key: Seq<char>, upd: OrderUpdate) -> Seq<OrderEntry> {
    let i = slot(s, key);
    if i < s.len() {
        s.update(i, reported(s[i], upd))
    } else {
        s
    }
}

pub proof fn lemma_slot(s: Seq<OrderEntry>, key: Seq<char>)
    ensures
        0 <= slot(s, key) <= s.len(),
        slot(s, key) < s.len() ==> s[slot(s, key)].cl_ord_id@ == key,
        forall|i: int| 0 <= i < slot(s, key) ==> (#[trigger] s[i]).cl_ord_id@ != key,
    decreases s.len(),
{
    if s.len() > 0 && s[0].cl_ord_id@ != key {
        lemma_slot(s.drop_first(), key);
        assert forall|i: int| 0 <= i < slot(s, key) implies (#[trigger] s[i]).cl_ord_id@ != key by {
            if i > 0 {
                assert(s[i] == s.drop_first()[i - 1]);
            }
        }
    }
}

/// The slot is the only place that has these properties.
proof fn lemma_slot_unique(s: Seq<OrderEntry>, key: Seq<char>, k: int)
    requires
        0 <= k <= s.len(),
        k < s.len() ==> s[k].cl_ord_id@ == key,
        forall|i: int| 0 <= i < k ==> (#[trigger] s[i]).cl_ord_id@ != key,
    ensures
        slot(s, key) == k,
{
    lemma_slot(s, key);
    if slot(s, key) < k {
        assert(s[slot(s, key)].cl_ord_id@ != key);
    } else if k < slot(s, key) {
        assert(s[k].cl_ord_id@ != key);
    }
}

/// The orders of a platform.
pub struct OrderBook {
    orders: Vec<OrderEntry>,
}

impl View for OrderBook {
    type V = Seq<OrderEntry>;

    closed spec fn view(&self) -> Seq<OrderEntry> {
        self.orders@
    }
}

impl OrderBook {
    /// Never more than [`MAX_ORDERS`] orders.
    pub open spec fn wf(&self) -> bool {
        self@.len() <= MAX_ORDERS
    }

    pub fn new() -> (r: Self)
        ensures
            r.wf(),
            r@ == Seq::<OrderEntry>::empty(),
    {
        OrderBook { orders: Vec::new() }
    }

    /// Adds an order; the oldest go where there are too many.
    pub fn add(&mut self, entry: OrderEntry)
        requires
            old(self).wf(),
        ensures
            final(self).wf(),
            final(self)@ == added(old(self)@, entry),
    {
        let ghost before = self.orders@.push(entry);
        self.orders.push(entry);
        if self.orders.len() > MAX_ORDERS {
            self.orders.remove(0);
            assert(self.orders@ =~= before.subrange(before.len() - MAX_ORDERS, before.len() as int));
        }
    }

    fn place(&self, cl_ord_id: &str) -> (r: Option<usize>)
        ensures
            match r {
                Some(i) => i == slot(self@, cl_ord_id@) && i < self@.len(),
                None => slot(self@, cl_ord_id@) == self@.len(),
            },
    {
        let mut i: usize = 0;
        while i < self.orders.len()
            invariant
                i <= self.orders@.len(),
                forall|k: int| 0 <= k < i ==> (#[trigger] self.orders@[k]).cl_ord_id@ != cl_ord_id@,
            decreases self.orders@.len() - i,
        {
            if text::same_text(self.orders[i].cl_ord_id.as_str(), cl_ord_id) {
                proof {
                    lemma_slot_unique(self.orders@, cl_ord_id@, i as int);
                }
                return Some(i);
            }
            i += 1;
        }
        proof {
            lemma_slot_unique(self.orders@, cl_ord_id@, i as int);
        }
        None
    }

    /// A copy of the order with the given number.
    pub fn find(&self, cl_ord_id: &str) -> (r: Option<OrderEntry>)
        ensures
            r == lookup(self@, cl_ord_id@),
    {
        match self.place(cl_ord_id) {
            Some(i) => Some(self.orders[i].clone()),
            None => None,
        }
    }

    /// Brings an order up to date with a report that was sent.
    pub fn apply(&mut self, cl_ord_id: &str, upd: &OrderUpdate)
        requires
            old(self).wf(),
        ensures
            final(self).wf(),
            final(self)@ == applied(old(self)@, cl_ord_id@, *upd),
    {
        if let Some(i) = self.place(cl_ord_id) {
            let mut o = self.orders[i].clone();
            if o.status.is_terminal() && upd.status.is_inflight() {
                assert(self.orders@ =~= applied(old(self)@, cl_ord_id@, *upd));
                return;
            }
            if !upd.order_id.as_str().is_empty() {
                o.order_id = upd.order_id.clone();
            }
            o.cum_qty = upd.cum_qty;
            o.leaves_qty = upd.leaves_qty;
            o.status = upd.status;
            assert(o == reported(old(self)@[i as int], *upd));
            self.orders.set(i, o);
        }
    }

    /// Cancels an order that is in flight; says whether it did.
    pub fn cancel_inflight(&mut self, cl_ord_id: &str) -> (r: bool)
        requires
            old(self).wf(),
        ensures
            final(self).wf(),
            r == (lookup(old(self)@, cl_ord_id@) matches Some(o) && o.status.inflight()),
            final(self)@ == (if r {
                old(self)@.update(
                    slot(old(self)@, cl_ord_id@),
                    cancelled(old(self)@[slot(old(self)@, cl_ord_id@)]),
                )
            } else {
                old(self)@
            }),
    {
        match self.place(cl_ord_id) {
            Some(i) => {
                if self.orders[i].status.is_inflight() {
                    let mut o = self.orders[i].clone();
                    o.status = OrderStatus::Cancelled;
                    o.leaves_qty = 0;
                    assert(o == cancelled(old(self)@[i as int]));
                    self.orders.set(i, o);
                    true
                } else {
                    false
                }
            },
            None => false,
        }
    }

    /// All orders, the newest first.
    pub fn all(&self) -> (r: Vec<OrderEntry>)
        ensures
            r@ == self@.reverse(),
    {
        let mut out: Vec<OrderEntry> = Vec::new();
        let n: usize = self.orders.len();
        let mut i: usize = 0;
        while i < n
            invariant
                i <= n,
                n == self.orders@.len(),
                out@.len() == i,
                forall|k: int| 0 <= k < i ==> #[trigger] out@[k] == self.orders@[n - 1 - k],
            decreases n - i,
        {
            out.push(self.orders[n - 1 - i].clone());
            i += 1;
        }
        assert(out@ =~= self@.reverse());
        out
    }
}

/// An order that has ended stays ended, whatever report comes.
pub proof fn law_terminal_stays(s: Seq<OrderEntry>, key: Seq<char>, upd: OrderUpdate, i: int)
    requires
        0 <= i < s.len(),
        !s[i].status.inflight(),
    ensures
        !applied(s, key, upd)[i].status.inflight(),
{
    lemma_slot(s, key);
}

/// A report on one order leaves all others as they are.
pub proof fn law_apply_others(s: Seq<OrderEntry>, key: Seq<char>, upd: OrderUpdate, i: int)
    requires
        0 <= i < s.len(),
        s[i].cl_ord_id@ != key,
    ensures
        applied(s, key, upd).len() == s.len(),
        applied(s, key, upd)[i] == s[i],
{
    lemma_slot(s, key);
}

/// A cancelled order is found cancelled, with nothing open, and cannot be cancelled again.
pub proof fn law_cancel_once(s: Seq<OrderEntry>, key: Seq<char>)
    requires
        lookup(s, key) matches Some(o) && o.status.inflight(),
    ensures
        ({
            let t = s.update(slot(s, key), cancelled(s[slot(s, key)]));
            lookup(t, key) matches Some(o) && o.status is Cancelled && o.leaves_qty == 0
                && !o.status.inflight()
        }),
{
    lemma_slot(s, key);
    let k = slot(s, key);
    let t = s.update(k, cancelled(s[k]));
    assert forall|i: int| 0 <= i < k implies (#[trigger] t[i]).cl_ord_id@ != key by {
        assert(t[i] == s[i]);
    }
    lemma_slot_unique(t, key, k);
}

/// The newest order is always kept and is listed first, and no more orders are kept than the
/// book holds.
pub proof fn law_newest_first(s: Seq<OrderEntry>, e: OrderEntry)
    ensures
        added(s, e).reverse()[0] == e,
        added(s, e).len() <= MAX_ORDERS,
{
}

/// An order is found by its number: what is found carries the number and no earlier order
/// does, and nothing is found only where no order carries it.
pub proof fn law_found_by_number(s: Seq<OrderEntry>, key: Seq<char>)
    ensures
        match lookup(s, key) {
            Some(o) => exists|i: int|
                0 <= i < s.len() && #[trigger] s[i] == o && o.cl_ord_id@ == key && forall|j: int|
                    0 <= j < i ==> (#[trigger] s[j]).cl_ord_id@ != key,
            None => forall|i: int| 0 <= i < s.len() ==> (#[trigger] s[i]).cl_ord_id@ != key,
        },
{
    lemma_slot(s, key);
    if slot(s, key) < s.len() {
        assert(s[slot(s, key)].cl_ord_id@ == key);
    }
}

/// One more order stands behind the others. Up to 2000 are kept, and beyond that the oldest
/// goes; the others stay as they are and in their order. An order whose number is new is
/// found by it.
pub proof fn law_added(s: Seq<OrderEntry>, e: OrderEntry)
    requires
        s.len() <= 2000,
    ensures
        ({
            let t = added(s, e);
            let gone: int = if s.len() < 2000 {
                0
            } else {
                1
            };
            &&& t.len() == s.len() + 1 - gone
            &&& t[t.len() - 1] == e
            &&& forall|i: int| 0 <= i < t.len() - 1 ==> #[trigger] t[i] == s[i + gone]
            &&& (forall|i: int| 0 <= i < s.len() ==> (#[trigger] s[i]).cl_ord_id@ != e.cl_ord_id@)
                ==> lookup(t, e.cl_ord_id@) == Some(e)
        }),
{
    let t = added(s, e);
    let gone: int = if s.len() < 2000 {
        0
    } else {
        1
    };
    assert forall|i: int| 0 <= i < t.len() - 1 implies #[trigger] t[i] == s[i + gone] by {}
    if forall|i: int| 0 <= i < s.len() ==> (#[trigger] s[i]).cl_ord_id@ != e.cl_ord_id@ {
        assert forall|i: int| 0 <= i < t.len() - 1 implies (#[trigger] t[i]).cl_ord_id@
            != e.cl_ord_id@ by {
            assert(t[i] == s[i + gone]);
        }
        lemma_slot_unique(t, e.cl_ord_id@, t.len() - 1);
    }
}

/// What a report leaves of an order that it does not speak of: all but the exchange's number,
/// what is filled, what is open, and the state.
pub open spec fn same_order(a: OrderEntry, b: OrderEntry) -> bool {
    &&& a.cl_ord_id@ == b.cl_ord_id@
    &&& a.security_id@ == b.security_id@
    &&& a.side@ == b.side@
    &&& a.price == b.price
    &&& a.qty == b.qty
    &&& a.ord_type == b.ord_type
    &&& a.account@ == b.account@
    &&& a.branch@ == b.branch@
    &&& a.ts@ == b.ts@
    &&& a.conn_id == b.conn_id
    &&& a.pbu@ == b.pbu@
    &&& a.biz_id == b.biz_id
    &&& a.biz_pbu@ == b.biz_pbu@
    &&& a.owner_type == b.owner_type
    &&& a.credit_tag@ == b.credit_tag@
    &&& a.clearing_firm@ == b.clearing_firm@
    &&& a.user_info@ == b.user_info@
    &&& a.biz@ == b.biz@
}

/// A report on an order that is new or partly filled, and a report that ends an order, is what
/// the order is found with afterwards: its state, what is filled and what is open, and the
/// exchange's number where the report carries one. The rest of the order stays. After a report
/// that it was filled, cancelled or rejected it can no longer be cancelled, and a report that
/// comes after the end and would open it again changes nothing.
pub proof fn law_report_is_applied(s: Seq<OrderEntry>, key: Seq<char>, upd: OrderUpdate)
    requires
        lookup(s, key) is Some,
    ensures
        ({
            let o = lookup(s, key)->0;
            let open = o.status is New || o.status is Partial;
            let opens = upd.status is New || upd.status is Partial;
            &&& lookup(applied(s, key, upd), key) matches Some(e)
            &&& same_order(e, o)
            &&& if open || !opens {
                &&& e.status == upd.status
                &&& e.cum_qty == upd.cum_qty
                &&& e.leaves_qty == upd.leaves_qty
                &&& e.order_id@ == if upd.order_id@.len() > 0 {
                    upd.order_id@
                } else {
                    o.order_id@
                }
            } else {
                e == o
            }
            &&& upd.status is Filled || upd.status is Cancelled || upd.status is Rejected
                ==> !e.status.inflight()
            &&& open && opens ==> e.status.inflight()
        }),
{
    lemma_slot(s, key);
    let k = slot(s, key);
    let t = applied(s, key, upd);
    assert forall|i: int| 0 <= i < k implies (#[trigger] t[i]).cl_ord_id@ != key by {
        assert(t[i] == s[i]);
    }
    lemma_slot_unique(t, key, k);
}

/// A request to cancel takes an order out of flight and leaves nothing open of it; what was
/// filled stays, and so does the rest of the order and every other order. Only an order that
/// is new or partly filled can be cancelled.
pub proof fn law_cancelled_order(s: Seq<OrderEntry>, key: Seq<char>)
    requires
        lookup(s, key) is Some,
    ensures
        ({
            let o = lookup(s, key)->0;
            let k = slot(s, key);
            let t = s.update(k, cancelled(s[k]));
            &&& o.status.inflight() <==> o.status is New || o.status is Partial
            &&& lookup(t, key) matches Some(e)
            &&& same_order(e, o)
            &&& e.status is Cancelled
            &&& e.cum_qty == o.cum_qty
            &&& e.leaves_qty == 0
            &&& e.order_id@ == o.order_id@
            &&& t.len() == s.len()
            &&& forall|i: int|
                0 <= i < s.len() && s[i].cl_ord_id@ != key ==> #[trigger] t[i] == s[i]
        }),
{
    lemma_slot(s, key);
    let k = slot(s, key);
    let t = s.update(k, cancelled(s[k]));
    assert forall|i: int| 0 <= i < k implies (#[trigger] t[i]).cl_ord_id@ != key by {
        assert(t[i] == s[i]);
    }
    lemma_slot_unique(t, key, k);
}

} // verus!
