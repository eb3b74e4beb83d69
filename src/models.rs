//! Orders, positions and calendar events as stored, with their storage keys.
//!
//! Amounts are fixed-point (see `decimal`); times are Unix epoch milliseconds
//! unless named otherwise.
use crate::decimal::{int_text, int_to_text, ONE};
use vstd::prelude::*;
use vstd::string::*;

verus! {

/// Seconds a record is kept before the store may expire it (90 days).
pub const RETENTION_SECS: i64 = 7_776_000;

/// One reading of the wall clock.
pub struct Timestamp {
    /// Milliseconds since the Unix epoch.
    pub millis: i64,
    /// The same instant in RFC 3339 form.
    pub rfc3339: String,
}

/// Relies on chrono: `Utc::now` reads the clock once; `timestamp_millis` and
/// `to_rfc3339` give that instant as epoch milliseconds and as RFC 3339 text.
#[verifier::external_body]
fn now() -> (r: Timestamp) {
    let t = chrono::Utc::now();
    Timestamp { millis: t.timestamp_millis(), rfc3339: t.to_rfc3339() }
}

/// Relies on uuid: `Uuid::new_v4` draws a random identifier, written hyphenated.
#[verifier::external_body]
fn new_id() -> (r: String) {
    uuid::Uuid::new_v4().to_string()
}

/// Deletion horizon of a record created at `millis`: whole seconds plus the retention.
pub open spec fn ttl_of(millis: int) -> int {
    millis / 1000 + RETENTION_SECS
}

/// The deletion horizon of a record created at `millis`.
pub fn ttl_for(millis: i64) -> (r: i64)
    ensures
        r == ttl_of(millis as int),
{
    let m = millis as i128;
    let secs: i128 = if m >= 0 {
        (m as u128 / 1000) as i128
    } else {
        0 - (((0 - m - 1) as u128 / 1000) as i128) - 1
    };
    proof {
        if m < 0 {
            let k = (0 - m - 1) as int;
            assert((0 - (k / 1000) - 1) == (m as int) / 1000) by (nonlinear_arith)
                requires
                    k == -(m as int) - 1,
                    k >= 0,
            ;
        }
    }
    (secs + RETENTION_SECS as i128) as i64
}

/// `s` and `t` hold the same text.
pub fn text_is(s: &str, t: &str) -> (r: bool)
    ensures
        r == (s@ == t@),
{
    let a = String::from_str(s);
    let b = String::from_str(t);
    a == b
}

/// The stages of an order, as stored.
#[derive(Clone, Copy, Debug, PartialEq, Eq, Structural)]
pub enum OrderStatus {
    Pending,
    Open,
    Filled,
    Cancelled,
    Error,
}

/// The stored name of an order status.
pub open spec fn order_status_text(s: OrderStatus) -> Seq<char> {
    match s {
        OrderStatus::Pending => "pending"@,
        OrderStatus::Open => "open"@,
        OrderStatus::Filled => "filled"@,
        OrderStatus::Cancelled => "cancelled"@,
        OrderStatus::Error => "error"@,
    }
}

impl OrderStatus {
    /// The stored name of the status.
    pub fn as_str(&self) -> (r: &'static str)
        ensures
            r@ == order_status_text(*self),
    {
        proof {
            reveal_strlit("pending");
            reveal_strlit("open");
            reveal_strlit("filled");
            reveal_strlit("cancelled");
            reveal_strlit("error");
        }
        match self {
            OrderStatus::Pending => "pending",
            OrderStatus::Open => "open",
            OrderStatus::Filled => "filled",
            OrderStatus::Cancelled => "cancelled",
            OrderStatus::Error => "error",
        }
    }
}

/// Why an update of an order was refused.
#[derive(Clone, Copy, Debug, PartialEq, Eq, Structural)]
pub enum OrderUpdateError {
    /// The filled quantity would exceed the ordered quantity.
    OverFilled,
}

/// One attempted or completed trade.
pub struct OrderItem {
    pub user_id: String,
    pub order_id: String,
    pub symbol: String,
    pub side: String,
    pub order_type: String,
    /// Requested quantity, fixed-point.
    pub quantity: u64,
    /// Limit price, fixed-point; absent for market orders.
    pub price: Option<u64>,
    /// Quantity filled so far, fixed-point.
    pub filled_qty: u64,
    pub status: String,
    /// Creation time in epoch milliseconds; orders the storage key.
    pub timestamp: i64,
    pub created_at: String,
    pub updated_at: String,
    /// The exchange's id, once the exchange has accepted the order.
    pub mexc_order_id: Option<String>,
    pub error_message: Option<String>,
    /// Deletion horizon, epoch seconds.
    pub ttl: i64,
}

/// `ORDER#<timestamp>#<order id>`.
pub open spec fn order_sort_key(timestamp: int, order_id: Seq<char>) -> Seq<char> {
    "ORDER#"@ + int_text(timestamp) + "#"@ + order_id
}

/// `POSITION#<entry time>#<position id>`.
pub open spec fn position_sort_key(entry_time: int, position_id: Seq<char>) -> Seq<char> {
    "POSITION#"@ + int_text(entry_time) + "#"@ + position_id
}

/// `CALENDAR#<launch time>#<event id>`.
pub open spec fn calendar_sort_key(launch_time: int, event_id: Seq<char>) -> Seq<char> {
    "CALENDAR#"@ + int_text(launch_time) + "#"@ + event_id
}

fn compose_key(prefix: &str, time: i64, id: &str) -> (r: String)
    ensures
        r@ == prefix@ + int_text(time as int) + "#"@ + id@,
{
    let mut s = String::from_str(prefix);
    let t = int_to_text(time);
    s.append(t.as_str());
    s.append("#");
    s.append(id);
    s
}

impl OrderItem {
    /// Filled quantity within the ordered quantity, and an error message only
    /// on an order in error.
    pub open spec fn wf(&self) -> bool {
        &&& self.filled_qty <= self.quantity
        &&& self.error_message is Some ==> self.status@ == "error"@
    }

    /// A new pending order, created now under a fresh id.
    pub fn new(
        user_id: String,
        symbol: String,
        side: String,
        order_type: String,
        quantity: u64,
        price: Option<u64>,
    ) -> (r: OrderItem)
        ensures
            r.wf(),
            r.user_id == user_id,
            r.symbol == symbol,
            r.side == side,
            r.order_type == order_type,
            r.quantity == quantity,
            r.price == price,
            r.filled_qty == 0,
            r.status@ == "pending"@,
            r.mexc_order_id is None,
            r.error_message is None,
            r.ttl == ttl_of(r.timestamp as int),
    {
        let at = now();
        let id = new_id();
        OrderItem::new_at(user_id, symbol, side, order_type, quantity, price, id, at)
    }

    /// A new pending order with the given id, created at `at`.
    pub fn new_at(
        user_id: String,
        symbol: String,
        side: String,
        order_type: String,
        quantity: u64,
        price: Option<u64>,
        order_id: String,
        at: Timestamp,
    ) -> (r: OrderItem)
        ensures
            r.wf(),
            r.user_id == user_id,
            r.order_id == order_id,
            r.symbol == symbol,
            r.side == side,
            r.order_type == order_type,
            r.quantity == quantity,
            r.price == price,
            r.filled_qty == 0,
            r.status@ == "pending"@,
            r.timestamp == at.millis,
            r.created_at@ == at.rfc3339@,
            r.updated_at@ == at.rfc3339@,
            r.mexc_order_id is None,
            r.error_message is None,
            r.ttl == ttl_of(at.millis as int),
    {
        let status = String::from_str(OrderStatus::Pending.as_str());
        let ttl = ttl_for(at.millis);
        let created_at = at.rfc3339.clone();
        OrderItem {
            user_id,
            order_id,
            symbol,
            side,
            order_type,
            quantity,
            price,
            filled_qty: 0,
            status,
            timestamp: at.millis,
            created_at,
            updated_at: at.rfc3339,
            mexc_order_id: None,
            error_message: None,
            ttl,
        }
    }

    /// The storage partition: the owner.
    pub fn partition_key(&self) -> (r: String)
        ensures
            r@ == self.user_id@,
    {
        self.user_id.clone()
    }

    /// The storage sort key `ORDER#<timestamp>#<order id>`.
    pub fn sort_key(&self) -> (r: String)
        ensures
            r@ == order_sort_key(self.timestamp as int, self.order_id@),
    {
        compose_key("ORDER#", self.timestamp, self.order_id.as_str())
    }

    /// The exchange accepted the order under `exchange_id`, reporting `status`.
    pub fn mark_accepted(&mut self, exchange_id: String, status: String)
        requires
            old(self).wf(),
        ensures
            final(self).wf(),
            final(self).mexc_order_id == Some(exchange_id),
            final(self).status == status,
            final(self).error_message is None,
            final(self).order_id == old(self).order_id,
            final(self).user_id == old(self).user_id,
            final(self).symbol == old(self).symbol,
            final(self).side == old(self).side,
            final(self).order_type == old(self).order_type,
            final(self).quantity == old(self).quantity,
            final(self).price == old(self).price,
            final(self).filled_qty == old(self).filled_qty,
            final(self).timestamp == old(self).timestamp,
            final(self).created_at == old(self).created_at,
            final(self).updated_at == old(self).updated_at,
            final(self).ttl == old(self).ttl,
    {
        self.mexc_order_id = Some(exchange_id);
        self.status = status;
        self.error_message = None;
    }

    /// The exchange refused the order, or could not be reached: status `error`
    /// with the message kept.
    pub fn mark_failed(&mut self, message: String)
        requires
            old(self).wf(),
        ensures
            final(self).wf(),
            final(self).status@ == "error"@,
            final(self).error_message == Some(message),
            final(self).mexc_order_id == old(self).mexc_order_id,
            final(self).order_id == old(self).order_id,
            final(self).user_id == old(self).user_id,
            final(self).symbol == old(self).symbol,
            final(self).side == old(self).side,
            final(self).order_type == old(self).order_type,
            final(self).quantity == old(self).quantity,
            final(self).price == old(self).price,
            final(self).filled_qty == old(self).filled_qty,
            final(self).timestamp == old(self).timestamp,
            final(self).created_at == old(self).created_at,
            final(self).updated_at == old(self).updated_at,
            final(self).ttl == old(self).ttl,
    {
        self.status = String::from_str(OrderStatus::Error.as_str());
        self.error_message = Some(message);
    }

    /// Records the quantity filled so far; refused when it exceeds the order.
    pub fn record_fill(&mut self, filled_qty: u64) -> (r: Result<(), OrderUpdateError>)
        requires
            old(self).wf(),
        ensures
            final(self).wf(),
            r is Ok <==> filled_qty <= old(self).quantity,
            r is Ok ==> final(self).filled_qty == filled_qty,
            r is Err ==> final(self).filled_qty == old(self).filled_qty,
            final(self).quantity == old(self).quantity,
            final(self).status == old(self).status,
            final(self).order_id == old(self).order_id,
    {
        if filled_qty > self.quantity {
            return Err(OrderUpdateError::OverFilled);
        }
        self.filled_qty = filled_qty;
        Ok(())
    }
}

/// A holding opened from fills.
pub struct PositionItem {
    pub user_id: String,
    pub position_id: String,
    pub symbol: String,
    /// Fixed-point prices and quantity.
    pub entry_price: u64,
    pub current_price: u64,
    pub quantity: u64,
    /// `long` or `short`.
    pub side: String,
    pub entry_time: i64,
    /// Profit or loss, fixed-point.
    pub pnl: Option<i128>,
    /// Profit or loss in percent of the entry, fixed-point.
    pub pnl_percentage: Option<i128>,
    /// `open`, `closed` or `liquidated`.
    pub status: String,
    pub updated_at: String,
    pub ttl: i64,
}

/// Price movement in the position's favour: up for `long`, down for `short`,
/// nothing for another side.
pub open spec fn price_delta(side: Seq<char>, entry: int, current: int) -> int {
    if side == "long"@ {
        current - entry
    } else if side == "short"@ {
        entry - current
    } else {
        0
    }
}

/// `a / b` rounded toward zero.
pub open spec fn div_toward_zero(a: int, b: int) -> int {
    if a >= 0 {
        a / b
    } else {
        -((-a) / b)
    }
}

/// Profit or loss, fixed-point: movement times quantity.
pub open spec fn pnl_of(side: Seq<char>, entry: int, current: int, quantity: int) -> int {
    div_toward_zero(price_delta(side, entry, current) * quantity, ONE as int)
}

/// Profit or loss in percent of the entry price, fixed-point.
pub open spec fn pnl_percentage_of(side: Seq<char>, entry: int, current: int) -> int {
    div_toward_zero(price_delta(side, entry, current) * 100 * (ONE as int), entry)
}

/// `m * k / d` rounded toward zero and given the sign `neg`.
fn scaled_signed(neg: bool, m: u128, k: u128, d: u128) -> (r: i128)
    requires
        d > 0,
        m < 0x1_0000_0000_0000_0000,
        k < 0x1_0000_0000_0000_0000,
        d >= ONE || k <= 100 * ONE,
    ensures
        r == (if neg {
            -((m * k) as int / d as int)
        } else {
            (m * k) as int / d as int
        }),
{
    let ghost prod: int = (m as int) * (k as int);
    proof {
        assert(prod < 0x1_0000_0000_0000_0000 * 0x1_0000_0000_0000_0000) by (nonlinear_arith)
            requires
                prod == (m as int) * (k as int),
                m < 0x1_0000_0000_0000_0000,
                k < 0x1_0000_0000_0000_0000,
        ;
        assert(prod >= 0) by (nonlinear_arith)
            requires
                prod == (m as int) * (k as int),
                m >= 0,
                k >= 0,
        ;
    }
    let q = (m * k) / d;
    proof {
        if d >= ONE {
            assert(prod / (d as int) <= prod / (ONE as int)) by (nonlinear_arith)
                requires
                    d >= ONE,
                    prod >= 0,
            ;
        } else {
            assert(prod <= 0x1_0000_0000_0000_0000 * (100 * ONE)) by (nonlinear_arith)
                requires
                    prod == (m as int) * (k as int),
                    m < 0x1_0000_0000_0000_0000,
                    k <= 100 * ONE,
                    m >= 0,
            ;
            assert(prod / (d as int) <= prod) by (nonlinear_arith)
                requires
                    d > 0,
                    prod >= 0,
            ;
        }
    }
    if neg {
        0 - q as i128
    } else {
        q as i128
    }
}

impl PositionItem {
    /// A new open position at `entry_price`, created now under a fresh id.
    pub fn new(user_id: String, symbol: String, entry_price: u64, quantity: u64, side: String) -> (r:
        PositionItem)
        ensures
            r.user_id == user_id,
            r.symbol == symbol,
            r.entry_price == entry_price,
            r.current_price == entry_price,
            r.quantity == quantity,
            r.side == side,
            r.pnl is None,
            r.pnl_percentage is None,
            r.status@ == "open"@,
            r.ttl == ttl_of(r.entry_time as int),
    {
        let at = now();
        let id = new_id();
        PositionItem::new_at(user_id, symbol, entry_price, quantity, side, id, at)
    }

    /// A new open position with the given id, opened at `at`.
    pub fn new_at(
        user_id: String,
        symbol: String,
        entry_price: u64,
        quantity: u64,
        side: String,
        position_id: String,
        at: Timestamp,
    ) -> (r: PositionItem)
        ensures
            r.user_id == user_id,
            r.position_id == position_id,
            r.symbol == symbol,
            r.entry_price == entry_price,
            r.current_price == entry_price,
            r.quantity == quantity,
            r.side == side,
            r.entry_time == at.millis,
            r.pnl is None,
            r.pnl_percentage is None,
            r.status@ == "open"@,
            r.updated_at@ == at.rfc3339@,
            r.ttl == ttl_of(at.millis as int),
    {
        proof {
            reveal_strlit("open");
        }
        let ttl = ttl_for(at.millis);
        PositionItem {
            user_id,
            position_id,
            symbol,
            entry_price,
            current_price: entry_price,
            quantity,
            side,
            entry_time: at.millis,
            pnl: None,
            pnl_percentage: None,
            status: String::from_str("open"),
            updated_at: at.rfc3339,
            ttl,
        }
    }

    pub fn partition_key(&self) -> (r: String)
        ensures
            r@ == self.user_id@,
    {
        self.user_id.clone()
    }

    /// The storage sort key `POSITION#<entry time>#<position id>`.
    pub fn sort_key(&self) -> (r: String)
        ensures
            r@ == position_sort_key(self.entry_time as int, self.position_id@),
    {
        compose_key("POSITION#", self.entry_time, self.position_id.as_str())
    }

    /// Moves the position to `current_price` and recomputes profit and loss, now.
    pub fn calculate_pnl(&mut self, current_price: u64)
        ensures
            final(self).current_price == current_price,
            final(self).pnl is Some,
            final(self).pnl->0 == pnl_of(
                old(self).side@,
                old(self).entry_price as int,
                current_price as int,
                old(self).quantity as int,
            ),
            old(self).entry_price > 0 ==> final(self).pnl_percentage is Some
                && final(self).pnl_percentage->0 == pnl_percentage_of(
                old(self).side@,
                old(self).entry_price as int,
                current_price as int,
            ),
            old(self).entry_price == 0 ==> final(self).pnl_percentage is None,
            final(self).entry_price == old(self).entry_price,
            final(self).quantity == old(self).quantity,
            final(self).side == old(self).side,
            final(self).status == old(self).status,
            final(self).position_id == old(self).position_id,
            final(self).user_id == old(self).user_id,
            final(self).entry_time == old(self).entry_time,
    {
        let at = now();
        self.calculate_pnl_at(current_price, at);
    }

    /// Moves the position to `current_price` and recomputes profit and loss
    /// together, stamped `at`. The percentage is absent when the entry price is 0.
    pub fn calculate_pnl_at(&mut self, current_price: u64, at: Timestamp)
        ensures
            final(self).current_price == current_price,
            final(self).pnl is Some,
            final(self).pnl->0 == pnl_of(
                old(self).side@,
                old(self).entry_price as int,
                current_price as int,
                old(self).quantity as int,
            ),
            old(self).entry_price > 0 ==> final(self).pnl_percentage is Some
                && final(self).pnl_percentage->0 == pnl_percentage_of(
                old(self).side@,
                old(self).entry_price as int,
                current_price as int,
            ),
            old(self).entry_price == 0 ==> final(self).pnl_percentage is None,
            final(self).updated_at@ == at.rfc3339@,
            final(self).entry_price == old(self).entry_price,
            final(self).quantity == old(self).quantity,
            final(self).side == old(self).side,
            final(self).status == old(self).status,
            final(self).position_id == old(self).position_id,
            final(self).user_id == old(self).user_id,
            final(self).entry_time == old(self).entry_time,
            final(self).symbol == old(self).symbol,
            final(self).ttl == old(self).ttl,
    {
        proof {
            reveal_strlit("long");
            reveal_strlit("short");
        }
        let entry = self.entry_price;
        let long = text_is(self.side.as_str(), "long");
        let short = text_is(self.side.as_str(), "short");
        let (neg, mag): (bool, u128) = if long {
            if current_price >= entry {
                (false, (current_price - entry) as u128)
            } else {
                (true, (entry - current_price) as u128)
            }
        } else if short {
            if entry >= current_price {
                (false, (entry - current_price) as u128)
            } else {
                (true, (current_price - entry) as u128)
            }
        } else {
            (false, 0)
        };
        let ghost delta = price_delta(self.side@, entry as int, current_price as int);
        assert(delta == if neg { -(mag as int) } else { mag as int });
        let pnl = scaled_signed(neg, mag, self.quantity as u128, ONE as u128);
        proof {
            let q = self.quantity as int;
            if neg {
                assert(delta * q == -((mag as int) * q)) by (nonlinear_arith)
                    requires
                        delta == -(mag as int),
                ;
                assert((mag as int) * q >= 0) by (nonlinear_arith)
                    requires
                        mag >= 0,
                        q >= 0,
                ;
                if mag > 0 && q > 0 {
                    assert((mag as int) * q > 0) by (nonlinear_arith)
                        requires
                            mag > 0,
                            q > 0,
                    ;
                }
            } else {
                assert(delta * q == (mag as int) * q);
                assert((mag as int) * q >= 0) by (nonlinear_arith)
                    requires
                        mag >= 0,
                        q >= 0,
                ;
            }
        }
        self.current_price = current_price;
        self.pnl = Some(pnl);
        if entry > 0 {
            let pct = scaled_signed(neg, mag, 100 * ONE as u128, entry as u128);
            proof {
                let k = 100 * (ONE as int);
                if neg {
                    assert(delta * 100 * (ONE as int) == -((mag as int) * k)) by (nonlinear_arith)
                        requires
                            delta == -(mag as int),
                            k == 100 * (ONE as int),
                    ;
                    assert((mag as int) * k >= 0) by (nonlinear_arith)
                        requires
                            mag >= 0,
                            k >= 0,
                    ;
                    if mag > 0 {
                        assert((mag as int) * k > 0) by (nonlinear_arith)
                            requires
                                mag > 0,
                                k > 0,
                        ;
                    }
                } else {
                    assert(delta * 100 * (ONE as int) == (mag as int) * k) by (nonlinear_arith)
                        requires
                            delta == mag as int,
                            k == 100 * (ONE as int),
                    ;
                }
            }
            self.pnl_percentage = Some(pct);
        } else {
            self.pnl_percentage = None;
        }
        self.updated_at = at.rfc3339;
    }
}

/// A detected upcoming or past listing.
pub struct CalendarEventItem {
    pub user_id: String,
    pub event_id: String,
    pub token_name: String,
    pub symbol: String,
    pub launch_time: i64,
    /// `sts:2`, `st:2`, `tt:4`, ...
    pub detected_pattern: String,
    /// Confidence in [0, 1], fixed-point.
    pub confidence: u64,
    pub created_at: String,
    /// `detected`, `sniped` or `missed`.
    pub status: String,
    pub execution_time: Option<i64>,
    /// Ids of the orders placed for this event.
    pub executed_orders: Vec<String>,
    pub ttl: i64,
}

impl CalendarEventItem {
    /// Confidence within [0, 1], and a sniped event names its orders and time.
    pub open spec fn wf(&self) -> bool {
        &&& self.confidence <= ONE
        &&& self.status@ == "sniped"@ ==> self.executed_orders@.len() > 0
            && self.execution_time is Some
    }

    /// A newly detected event, created now under a fresh id.
    pub fn new(
        user_id: String,
        token_name: String,
        symbol: String,
        launch_time: i64,
        detected_pattern: String,
        confidence: u64,
    ) -> (r: CalendarEventItem)
        requires
            confidence <= ONE,
        ensures
            r.wf(),
            r.user_id == user_id,
            r.token_name == token_name,
            r.symbol == symbol,
            r.launch_time == launch_time,
            r.detected_pattern == detected_pattern,
            r.confidence == confidence,
            r.status@ == "detected"@,
            r.execution_time is None,
            r.executed_orders@.len() == 0,
    {
        let at = now();
        let id = new_id();
        CalendarEventItem::new_at(
            user_id,
            token_name,
            symbol,
            launch_time,
            detected_pattern,
            confidence,
            id,
            at,
        )
    }

    /// A newly detected event with the given id, created at `at`.
    pub fn new_at(
        user_id: String,
        token_name: String,
        symbol: String,
        launch_time: i64,
        detected_pattern: String,
        confidence: u64,
        event_id: String,
        at: Timestamp,
    ) -> (r: CalendarEventItem)
        requires
            confidence <= ONE,
        ensures
            r.wf(),
            r.user_id == user_id,
            r.event_id == event_id,
            r.token_name == token_name,
            r.symbol == symbol,
            r.launch_time == launch_time,
            r.detected_pattern == detected_pattern,
            r.confidence == confidence,
            r.created_at@ == at.rfc3339@,
            r.status@ == "detected"@,
            r.execution_time is None,
            r.executed_orders@.len() == 0,
            r.ttl == ttl_of(at.millis as int),
    {
        proof {
            reveal_strlit("detected");
            reveal_strlit("sniped");
            assert("detected"@.len() != "sniped"@.len());
        }
        let ttl = ttl_for(at.millis);
        CalendarEventItem {
            user_id,
            event_id,
            token_name,
            symbol,
            launch_time,
            detected_pattern,
            confidence,
            created_at: at.rfc3339,
            status: String::from_str("detected"),
            execution_time: None,
            executed_orders: Vec::new(),
            ttl,
        }
    }

    pub fn partition_key(&self) -> (r: String)
        ensures
            r@ == self.user_id@,
    {
        self.user_id.clone()
    }

    /// The storage sort key `CALENDAR#<launch time>#<event id>`.
    pub fn sort_key(&self) -> (r: String)
        ensures
            r@ == calendar_sort_key(self.launch_time as int, self.event_id@),
    {
        compose_key("CALENDAR#", self.launch_time, self.event_id.as_str())
    }
}

/// Secondary index entry by symbol.
pub struct SymbolIndex {
    pub symbol: String,
    pub timestamp: i64,
}

/// Secondary index entry by status.
pub struct StatusIndex {
    pub status: String,
    pub timestamp: i64,
}

/// Any stored record.
pub enum DynamoItem {
    Order(OrderItem),
    Position(PositionItem),
    CalendarEvent(CalendarEventItem),
}

} // verus!
