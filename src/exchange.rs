//! The exchange's REST surface: signed requests, typed results and errors.
//!
//! The library builds each request — method, URL with the canonical signed
//! query, and the API key that goes in the `X-MEXC-APIKEY` header — and judges
//! the response status. Sending and JSON decoding happen outside.
use crate::decimal::{amount_text, amount_to_text, digits_text, uint_to_text};
use crate::signing::{
    create_signature, insert_sorted, query_text, signed_query_text, ParamView, QueryParams,
};
use vstd::prelude::*;
use vstd::string::*;

verus! {

/// The settings the backend runs with.
pub struct Config {
    pub mexc_api_key: String,
    pub mexc_secret_key: String,
    pub mexc_base_url: String,
    pub aws_region: String,
    pub dynamodb_table: String,
    pub rust_api_port: u16,
    pub jwt_secret: Option<String>,
    pub clerk_secret_key: Option<String>,
    pub supabase_url: Option<String>,
    pub supabase_service_role_key: Option<String>,
    pub openai_api_key: Option<String>,
}

/// The port a `RUST_API_PORT` text names, if it is a decimal number that fits.
pub open spec fn port_value(text: Seq<char>) -> Option<u16> {
    match crate::decimal::uint_value(text) {
        Some(n) => if n <= u16::MAX {
            Some(n as u16)
        } else {
            None
        },
        None => None,
    }
}

impl Config {
    /// The API port from its setting; `None` when it is not a port number.
    pub fn port_from_text(text: &str) -> (r: Option<u16>)
        ensures
            r == port_value(text@),
    {
        match crate::decimal::parse_uint(text) {
            Some(n) => if n <= u16::MAX as u64 {
                Some(n as u16)
            } else {
                None
            },
            None => None,
        }
    }

    /// Whether the `USE_SSM` setting asks for secrets from the parameter store:
    /// `true` or `1`.
    pub fn ssm_requested(flag: &str) -> (r: bool)
        ensures
            r == (flag@ == "true"@ || flag@ == "1"@),
    {
        crate::models::text_is(flag, "true") || crate::models::text_is(flag, "1")
    }
}

#[derive(Clone, Copy, Debug, PartialEq, Eq, Structural)]
pub enum HttpMethod {
    Get,
    Post,
    Delete,
}

/// A request ready to send; `api_key` goes in the request header.
pub struct SignedRequest {
    pub method: HttpMethod,
    pub url: String,
    pub api_key: String,
}

/// An order to place. Quantity and price are fixed-point.
pub struct OrderRequest {
    pub symbol: String,
    pub side: String,
    pub order_type: String,
    pub quantity: u64,
    pub price: Option<u64>,
}

/// The exchange's view of an order.
pub struct OrderResponse {
    pub order_id: String,
    pub symbol: String,
    pub side: String,
    pub order_type: String,
    pub quantity: u64,
    pub price: u64,
    pub status: String,
    pub filled_qty: u64,
    pub created_at: i64,
}

/// The 24-hour ticker of a symbol; price fixed-point.
pub struct TickerResponse {
    pub symbol: String,
    pub price: u64,
    pub timestamp: i64,
}

/// One asset's balance; amounts fixed-point.
pub struct BalanceInfo {
    pub asset: String,
    pub free: u64,
    pub locked: u64,
}

/// The account's balances, one per asset.
pub struct AccountBalance {
    pub balances: Vec<BalanceInfo>,
}

/// Why an exchange call failed. None is retried here: a repeated order could
/// execute twice.
pub enum ExchangeError {
    /// The exchange answered with a non-success status; the body is kept.
    Upstream(String),
    /// The exchange could not be reached, or did not answer in time.
    Transport(String),
    /// The answer could not be read.
    Decode(String),
}

/// The order's parameters with the request time, sorted by key.
pub open spec fn order_params(order: OrderRequest, timestamp: nat) -> Seq<ParamView> {
    let e = insert_sorted(Seq::empty(), "symbol"@, order.symbol@);
    let e = insert_sorted(e, "side"@, order.side@);
    let e = insert_sorted(e, "type"@, order.order_type@);
    let e = insert_sorted(e, "quantity"@, amount_text(order.quantity as nat));
    let e = match order.price {
        Some(p) => insert_sorted(e, "price"@, amount_text(p as nat)),
        None => e,
    };
    insert_sorted(e, "timestamp"@, digits_text(timestamp))
}

/// The parameters that name an order, with the request time, sorted by key.
pub open spec fn order_ref_params(symbol: Seq<char>, order_id: Seq<char>, timestamp: nat) -> Seq<
    ParamView,
> {
    let e = insert_sorted(Seq::empty(), "symbol"@, symbol);
    let e = insert_sorted(e, "orderId"@, order_id);
    insert_sorted(e, "timestamp"@, digits_text(timestamp))
}

/// Whether an HTTP status is a success.
pub open spec fn is_success(status: u16) -> bool {
    200 <= status <= 299
}

/// Judges an exchange response: a success status passes the body on, any
/// other status is an upstream error carrying the body.
pub fn check_response(status: u16, body: String) -> (r: Result<String, ExchangeError>)
    ensures
        is_success(status) ==> r is Ok && r->Ok_0 == body,
        !is_success(status) ==> r is Err && r->Err_0 == ExchangeError::Upstream(body),
{
    if 200 <= status && status <= 299 {
        Ok(body)
    } else {
        Err(ExchangeError::Upstream(body))
    }
}

/// Signing client for the exchange.
pub struct MexcClient {
    base_url: String,
    api_key: String,
    secret_key: String,
}

impl MexcClient {
    pub closed spec fn base_url(&self) -> Seq<char> {
        self.base_url@
    }

    pub closed spec fn api_key(&self) -> Seq<char> {
        self.api_key@
    }

    pub closed spec fn secret_key(&self) -> Seq<char> {
        self.secret_key@
    }

    pub fn new(config: &Config) -> (r: MexcClient)
        ensures
            r.base_url() == config.mexc_base_url@,
            r.api_key() == config.mexc_api_key@,
            r.secret_key() == config.mexc_secret_key@,
    {
        MexcClient {
            base_url: config.mexc_base_url.clone(),
            api_key: config.mexc_api_key.clone(),
            secret_key: config.mexc_secret_key.clone(),
        }
    }

    /// The HMAC-SHA256 signature of `query_string` under the account secret,
    /// as 64 lowercase hexadecimal digits.
    pub fn create_signature(&self, query_string: &str) -> (r: String)
        ensures
            r@ == crate::signing::signature_text(self.secret_key(), query_string@),
            r@.len() == 64,
    {
        create_signature(self.secret_key.as_str(), query_string)
    }

    /// The parameters written as a query string, in key order.
    pub fn build_query_string(params: &QueryParams) -> (r: String)
        ensures
            r@ == query_text(params@),
    {
        params.build_query_string()
    }

    fn signed_url(&self, path: &str, params: &QueryParams) -> (r: String)
        ensures
            r@ == self.base_url() + path@ + "?"@ + signed_query_text(
                self.secret_key(),
                query_text(params@),
            ),
    {
        proof {
            reveal_strlit("?");
            reveal_strlit("&signature=");
        }
        let q = params.build_query_string();
        let sig = self.create_signature(q.as_str());
        let mut url = self.base_url.clone();
        url.append(path);
        url.append("?");
        url.append(q.as_str());
        url.append("&signature=");
        url.append(sig.as_str());
        url
    }

    /// The unsigned request for the 24-hour ticker of `symbol`.
    pub fn get_ticker(&self, symbol: &str) -> (r: SignedRequest)
        ensures
            r.method == HttpMethod::Get,
            r.url@ == self.base_url() + "/api/v3/ticker/24hr?symbol="@ + symbol@,
            r.api_key@ == self.api_key(),
    {
        let mut url = self.base_url.clone();
        url.append("/api/v3/ticker/24hr?symbol=");
        url.append(symbol);
        SignedRequest { method: HttpMethod::Get, url, api_key: self.api_key.clone() }
    }

    /// The signed request that places `order`, stamped `timestamp` (epoch ms).
    pub fn create_order(&self, order: &OrderRequest, timestamp: u64) -> (r: SignedRequest)
        ensures
            r.method == HttpMethod::Post,
            r.url@ == self.base_url() + "/api/v3/order"@ + "?"@ + signed_query_text(
                self.secret_key(),
                query_text(order_params(*order, timestamp as nat)),
            ),
            r.api_key@ == self.api_key(),
    {
        proof {
            reveal_strlit("symbol");
            reveal_strlit("side");
            reveal_strlit("type");
            reveal_strlit("quantity");
            reveal_strlit("price");
            reveal_strlit("timestamp");
        }
        let mut params = QueryParams::new();
        params.insert(String::from_str("symbol"), order.symbol.clone());
        params.insert(String::from_str("side"), order.side.clone());
        params.insert(String::from_str("type"), order.order_type.clone());
        params.insert(String::from_str("quantity"), amount_to_text(order.quantity));
        if let Some(price) = order.price {
            params.insert(String::from_str("price"), amount_to_text(price));
        }
        params.insert(String::from_str("timestamp"), uint_to_text(timestamp as u128));
        let url = self.signed_url("/api/v3/order", &params);
        SignedRequest { method: HttpMethod::Post, url, api_key: self.api_key.clone() }
    }

    fn order_ref_request(
        &self,
        method: HttpMethod,
        symbol: &str,
        order_id: &str,
        timestamp: u64,
    ) -> (r: SignedRequest)
        ensures
            r.method == method,
            r.url@ == self.base_url() + "/api/v3/order"@ + "?"@ + signed_query_text(
                self.secret_key(),
                query_text(order_ref_params(symbol@, order_id@, timestamp as nat)),
            ),
            r.api_key@ == self.api_key(),
    {
        proof {
            reveal_strlit("symbol");
            reveal_strlit("orderId");
            reveal_strlit("timestamp");
        }
        let mut params = QueryParams::new();
        params.insert(String::from_str("symbol"), String::from_str(symbol));
        params.insert(String::from_str("orderId"), String::from_str(order_id));
        params.insert(String::from_str("timestamp"), uint_to_text(timestamp as u128));
        let url = self.signed_url("/api/v3/order", &params);
        SignedRequest { method, url, api_key: self.api_key.clone() }
    }

    /// The signed request that queries an order.
    pub fn get_order(&self, symbol: &str, order_id: &str, timestamp: u64) -> (r: SignedRequest)
        ensures
            r.method == HttpMethod::Get,
            r.url@ == self.base_url() + "/api/v3/order"@ + "?"@ + signed_query_text(
                self.secret_key(),
                query_text(order_ref_params(symbol@, order_id@, timestamp as nat)),
            ),
            r.api_key@ == self.api_key(),
    {
        self.order_ref_request(HttpMethod::Get, symbol, order_id, timestamp)
    }

    /// The signed request that cancels an order.
    pub fn cancel_order(&self, symbol: &str, order_id: &str, timestamp: u64) -> (r: SignedRequest)
        ensures
            r.method == HttpMethod::Delete,
            r.url@ == self.base_url() + "/api/v3/order"@ + "?"@ + signed_query_text(
                self.secret_key(),
                query_text(order_ref_params(symbol@, order_id@, timestamp as nat)),
            ),
            r.api_key@ == self.api_key(),
    {
        self.order_ref_request(HttpMethod::Delete, symbol, order_id, timestamp)
    }

    /// The signed request for the account's balances.
    pub fn get_account_balance(&self, timestamp: u64) -> (r: SignedRequest)
        ensures
            r.method == HttpMethod::Get,
            r.url@ == self.base_url() + "/api/v3/account"@ + "?"@ + signed_query_text(
                self.secret_key(),
                query_text(insert_sorted(Seq::empty(), "timestamp"@, digits_text(timestamp as nat))),
            ),
            r.api_key@ == self.api_key(),
    {
        proof {
            reveal_strlit("timestamp");
        }
        let mut params = QueryParams::new();
        params.insert(String::from_str("timestamp"), uint_to_text(timestamp as u128));
        let url = self.signed_url("/api/v3/account", &params);
        SignedRequest { method: HttpMethod::Get, url, api_key: self.api_key.clone() }
    }
}

} // verus!
