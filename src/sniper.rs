//! Automatic execution of a market order for a detected listing.
//!
//! A snipe runs in two steps around its single exchange call: `prepare_snipe`
//! builds the pending order and the request to send; `execute_snipe` takes what
//! the exchange answered and decides the writes. The order is written before
//! the event, so whoever sees a sniped event finds its order stored.
use crate::exchange::{ExchangeError, MexcClient, OrderRequest, OrderResponse};
use crate::models::{CalendarEventItem, OrderItem, Timestamp};
use crate::records::texts_view;
use crate::store::{calendar_attributes, order_attributes, DynamoDBStore, PutItem};
use vstd::prelude::*;
use vstd::string::*;

verus! {

/// Least pattern confidence, fixed-point, that admits an automatic snipe (0.70).
pub const SNIPE_MIN_CONFIDENCE: u64 = 70_000_000;

/// What to order for a snipe. Quantity is fixed-point.
pub struct SnipeOrderParams {
    /// `BUY` or `SELL`.
    pub side: String,
    pub quantity: u64,
}

/// What a snipe decided once the exchange answered.
pub struct SnipeResult {
    /// The order as it stands after the exchange's answer.
    pub order: OrderItem,
    /// The calendar event as it stands after the snipe.
    pub event: CalendarEventItem,
    /// The writes to make, in this order.
    pub writes: Vec<PutItem>,
    /// The new order's id, or the exchange's error.
    pub outcome: Result<String, ExchangeError>,
}

/// Runs automatic snipes: the exchange client signs, the store lays out the writes.
pub struct SnipingManager {
    pub mexc_client: MexcClient,
    pub store: DynamoDBStore,
}

impl SnipingManager {
    pub fn new(mexc_client: MexcClient, store: DynamoDBStore) -> (r: SnipingManager)
        ensures
            r.mexc_client == mexc_client,
            r.store == store,
    {
        SnipingManager { mexc_client, store }
    }

    /// The pending market order for `event`'s symbol, with id `order_id`
    /// created at `at`, and the exchange request that places it.
    pub fn prepare_snipe(
        &self,
        user_id: &str,
        event: &CalendarEventItem,
        order_params: SnipeOrderParams,
        order_id: String,
        at: Timestamp,
    ) -> (r: (OrderItem, OrderRequest))
        ensures
            r.0.wf(),
            r.0.user_id@ == user_id@,
            r.0.order_id == order_id,
            r.0.symbol@ == event.symbol@,
            r.0.side == order_params.side,
            r.0.order_type@ == "market"@,
            r.0.quantity == order_params.quantity,
            r.0.price is None,
            r.0.filled_qty == 0,
            r.0.status@ == "pending"@,
            r.0.mexc_order_id is None,
            r.0.timestamp == at.millis,
            r.1.symbol@ == event.symbol@,
            r.1.side@ == order_params.side@,
            r.1.order_type@ == "MARKET"@,
            r.1.quantity == order_params.quantity,
            r.1.price is None,
    {
        let order = OrderItem::new_at(
            String::from_str(user_id),
            event.symbol.clone(),
            order_params.side,
            String::from_str("market"),
            order_params.quantity,
            None,
            order_id,
            at,
        );
        let request = OrderRequest {
            symbol: order.symbol.clone(),
            side: order.side.clone(),
            order_type: String::from_str("MARKET"),
            quantity: order.quantity,
            price: None,
        };
        (order, request)
    }

    /// Settles a snipe on the exchange's answer `outcome`, the event marked
    /// executed at `executed_at` (epoch ms).
    ///
    /// On success the order takes the exchange's id and status, the event
    /// becomes `sniped` with the order's id appended, and exactly two writes
    /// follow: the order, then the event. On failure the error is handed on,
    /// the event and the order stay as they were and nothing is written;
    /// storing a failed order is the caller's choice.
    pub fn execute_snipe(
        &self,
        order: OrderItem,
        event: CalendarEventItem,
        outcome: Result<OrderResponse, ExchangeError>,
        executed_at: i64,
    ) -> (r: SnipeResult)
        requires
            order.wf(),
        ensures
            r.order.wf(),
            event.wf() ==> r.event.wf(),
            match outcome {
                Ok(resp) => {
                    &&& r.outcome is Ok
                    &&& r.outcome->Ok_0@ == order.order_id@
                    &&& r.order.order_id == order.order_id
                    &&& r.order.user_id == order.user_id
                    &&& r.order.symbol == order.symbol
                    &&& r.order.quantity == order.quantity
                    &&& r.order.timestamp == order.timestamp
                    &&& r.order.side == order.side
                    &&& r.order.order_type == order.order_type
                    &&& r.order.price == order.price
                    &&& r.order.filled_qty == order.filled_qty
                    &&& r.order.created_at == order.created_at
                    &&& r.order.updated_at == order.updated_at
                    &&& r.order.ttl == order.ttl
                    &&& r.order.error_message is None
                    &&& r.order.status == resp.status
                    &&& r.order.mexc_order_id == Some(resp.order_id)
                    &&& r.event.status@ == "sniped"@
                    &&& texts_view(r.event.executed_orders@) == texts_view(
                        event.executed_orders@,
                    ).push(order.order_id@)
                    &&& r.event.execution_time == Some(executed_at)
                    &&& r.event.user_id == event.user_id
                    &&& r.event.event_id == event.event_id
                    &&& r.event.symbol == event.symbol
                    &&& r.event.launch_time == event.launch_time
                    &&& r.event.confidence == event.confidence
                    &&& r.event.token_name == event.token_name
                    &&& r.event.detected_pattern == event.detected_pattern
                    &&& r.event.created_at == event.created_at
                    &&& r.event.ttl == event.ttl
                    &&& r.writes@.len() == 2
                    &&& r.writes@[0].table_name@ == self.store.table_name@
                    &&& r.writes@[0].item@ == order_attributes(r.order)
                    &&& r.writes@[1].table_name@ == self.store.table_name@
                    &&& r.writes@[1].item@ == calendar_attributes(r.event)
                },
                Err(e) => {
                    &&& r.outcome == Err::<String, ExchangeError>(e)
                    &&& r.order == order
                    &&& r.event == event
                    &&& r.writes@.len() == 0
                },
            },
    {
        match outcome {
            Ok(resp) => {
                let mut order = order;
                order.mark_accepted(resp.order_id, resp.status);
                let mut event = event;
                let ghost before = event.executed_orders@;
                event.status = String::from_str("sniped");
                event.executed_orders.push(order.order_id.clone());
                event.execution_time = Some(executed_at);
                proof {
                    reveal_strlit("sniped");
                    assert(texts_view(event.executed_orders@) =~= texts_view(before).push(
                        order.order_id@,
                    ));
                }
                let mut writes: Vec<PutItem> = Vec::new();
                writes.push(self.store.put_order(&order));
                writes.push(self.store.put_calendar_event(&event));
                let id = order.order_id.clone();
                SnipeResult { order, event, writes, outcome: Ok(id) }
            },
            Err(e) => SnipeResult { order, event, writes: Vec::new(), outcome: Err(e) },
        }
    }

    /// Whether a pattern's confidence admits an automatic snipe: at least 0.70,
    /// whatever pattern it came from.
    pub fn should_execute_snipe(&self, pattern_confidence: u64) -> (r: bool)
        ensures
            r == (pattern_confidence >= SNIPE_MIN_CONFIDENCE),
    {
        pattern_confidence >= SNIPE_MIN_CONFIDENCE
    }
}

} // verus!
