//! Decisions of the order endpoints: what is refused before any side effect,
//! what is stored after the exchange answers, and what may be cancelled.
use crate::exchange::{ExchangeError, OrderRequest, OrderResponse};
use crate::models::OrderItem;
use crate::store::{order_attributes, DynamoDBStore, PutItem};
use vstd::prelude::*;
use vstd::string::*;

verus! {

/// Why an order operation failed.
pub enum TradingError {
    /// Bad caller input, refused before any exchange or storage call.
    Validation(String),
    /// The exchange call failed; the order's state there may be unknown.
    Exchange(ExchangeError),
    /// No such order for the owner.
    NotFound,
    /// The order never reached the exchange, so it cannot be cancelled there.
    NotSent,
}

/// Refuses an order with no positive quantity.
pub fn validate_order_request(request: &OrderRequest) -> (r: Result<(), TradingError>)
    ensures
        r is Ok <==> request.quantity > 0,
        r is Err ==> r->Err_0 is Validation,
{
    if request.quantity == 0 {
        return Err(TradingError::Validation(String::from_str("Quantity must be positive")));
    }
    Ok(())
}

/// The text an exchange error carries.
pub fn exchange_error_message(e: &ExchangeError) -> (r: String)
    ensures
        r@ == match e {
            ExchangeError::Upstream(m) => m@,
            ExchangeError::Transport(m) => m@,
            ExchangeError::Decode(m) => m@,
        },
{
    match e {
        ExchangeError::Upstream(m) => m.clone(),
        ExchangeError::Transport(m) => m.clone(),
        ExchangeError::Decode(m) => m.clone(),
    }
}

/// Records the exchange's answer on `order` and gives the write that stores
/// it. Success: the order takes the exchange's id and status. Failure: the
/// order goes to `error` with the error's text, and is still written, on a
/// best-effort basis; the error is handed back.
pub fn record_order_outcome(
    store: &DynamoDBStore,
    order: OrderItem,
    outcome: Result<OrderResponse, ExchangeError>,
) -> (r: (OrderItem, PutItem, Result<(), ExchangeError>))
    requires
        order.wf(),
    ensures
        r.0.wf(),
        r.0.order_id == order.order_id,
        r.0.user_id == order.user_id,
        r.0.quantity == order.quantity,
        r.0.timestamp == order.timestamp,
        r.1.table_name@ == store.table_name@,
        r.1.item@ == order_attributes(r.0),
        match outcome {
            Ok(resp) => {
                &&& r.2 is Ok
                &&& r.0.status == resp.status
                &&& r.0.mexc_order_id == Some(resp.order_id)
                &&& r.0.error_message is None
            },
            Err(e) => {
                &&& r.2 == Err::<(), ExchangeError>(e)
                &&& r.0.status@ == "error"@
                &&& r.0.error_message is Some
                &&& r.0.mexc_order_id == order.mexc_order_id
            },
        },
{
    let mut order = order;
    match outcome {
        Ok(resp) => {
            order.mark_accepted(resp.order_id, resp.status);
            let put = store.put_order(&order);
            (order, put, Ok(()))
        },
        Err(e) => {
            order.mark_failed(exchange_error_message(&e));
            let put = store.put_order(&order);
            (order, put, Err(e))
        },
    }
}

/// The exchange id under which `order` can be cancelled; an order never sent
/// to the exchange cannot be.
pub fn cancel_target(order: &OrderItem) -> (r: Result<String, TradingError>)
    ensures
        match order.mexc_order_id {
            Some(id) => r is Ok && r->Ok_0@ == id@,
            None => r is Err && r->Err_0 is NotSent,
        },
{
    match &order.mexc_order_id {
        Some(id) => Ok(id.clone()),
        None => Err(TradingError::NotSent),
    }
}

} // verus!
