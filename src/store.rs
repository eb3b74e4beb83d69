//! The single-table layout: what is written for each entity, how stored items
//! are read back, and which of an owner's items each query returns.
//!
//! Writes are upserts keyed by (`user_id`, `sk`); the engine expires items by
//! their `ttl`. Reads go through `Record`'s strict field readers.
use crate::decimal::{amount_text, amount_to_text, int_text, int_to_text, signed_amount_text,
    signed_amount_to_text};
use crate::models::{
    calendar_sort_key, order_sort_key, position_sort_key, text_is, CalendarEventItem, OrderItem,
    PositionItem,
};
use crate::records::{
    amount_attr, clone_texts, int_attr, lookup, opt_amount_ok, opt_int_ok, opt_signed_amount_ok, opt_text_ok,
    opt_texts_ok, signed_amount_attr, text_attr, texts_attr, texts_view, AttrView, AttributeValue,
    AttrsView, Record, StoreError,
};
use vstd::prelude::*;
use vstd::string::*;

verus! {

/// One item to write: the table and the attributes.
pub struct PutItem {
    pub table_name: String,
    pub item: Record,
}

/// The storage layer's configuration: the table all records live in.
pub struct DynamoDBStore {
    pub table_name: String,
}

pub open spec fn s_attr(name: Seq<char>, v: Seq<char>) -> (Seq<char>, AttrView) {
    (name, AttrView::S(v))
}

pub open spec fn n_attr(name: Seq<char>, v: Seq<char>) -> (Seq<char>, AttrView) {
    (name, AttrView::N(v))
}

/// The attributes an order is stored as, in writing order.
pub open spec fn order_attributes(o: OrderItem) -> AttrsView {
    let a = Seq::empty().push(s_attr("user_id"@, o.user_id@)).push(
        s_attr("sk"@, order_sort_key(o.timestamp as int, o.order_id@)),
    ).push(s_attr("order_id"@, o.order_id@)).push(s_attr("symbol"@, o.symbol@)).push(
        s_attr("side"@, o.side@),
    ).push(s_attr("order_type"@, o.order_type@)).push(
        n_attr("quantity"@, amount_text(o.quantity as nat)),
    );
    let a = match o.price {
        Some(p) => a.push(n_attr("price"@, amount_text(p as nat))),
        None => a,
    };
    let a = a.push(n_attr("filled_qty"@, amount_text(o.filled_qty as nat))).push(
        s_attr("status"@, o.status@),
    ).push(n_attr("timestamp"@, int_text(o.timestamp as int))).push(
        s_attr("created_at"@, o.created_at@),
    ).push(s_attr("updated_at"@, o.updated_at@));
    let a = match o.mexc_order_id {
        Some(m) => a.push(s_attr("mexc_order_id"@, m@)),
        None => a,
    };
    let a = match o.error_message {
        Some(e) => a.push(s_attr("error_message"@, e@)),
        None => a,
    };
    a.push(n_attr("ttl"@, int_text(o.ttl as int))).push(s_attr("data_type"@, "ORDER"@))
}

/// The attributes a position is stored as, in writing order.
pub open spec fn position_attributes(p: PositionItem) -> AttrsView {
    let a = Seq::empty().push(s_attr("user_id"@, p.user_id@)).push(
        s_attr("sk"@, position_sort_key(p.entry_time as int, p.position_id@)),
    ).push(s_attr("position_id"@, p.position_id@)).push(s_attr("symbol"@, p.symbol@)).push(
        n_attr("entry_price"@, amount_text(p.entry_price as nat)),
    ).push(n_attr("current_price"@, amount_text(p.current_price as nat))).push(
        n_attr("quantity"@, amount_text(p.quantity as nat)),
    ).push(s_attr("side"@, p.side@)).push(n_attr("entry_time"@, int_text(p.entry_time as int)));
    let a = match p.pnl {
        Some(v) => a.push(n_attr("pnl"@, signed_amount_text(v as int))),
        None => a,
    };
    let a = match p.pnl_percentage {
        Some(v) => a.push(n_attr("pnl_percentage"@, signed_amount_text(v as int))),
        None => a,
    };
    a.push(s_attr("status"@, p.status@)).push(s_attr("updated_at"@, p.updated_at@)).push(
        n_attr("ttl"@, int_text(p.ttl as int)),
    ).push(s_attr("data_type"@, "POSITION"@))
}

/// The attributes a calendar event is stored as, in writing order; an empty
/// list of orders is left out, as the store keeps no empty sets.
pub open spec fn calendar_attributes(e: CalendarEventItem) -> AttrsView {
    let a = Seq::empty().push(s_attr("user_id"@, e.user_id@)).push(
        s_attr("sk"@, calendar_sort_key(e.launch_time as int, e.event_id@)),
    ).push(s_attr("event_id"@, e.event_id@)).push(s_attr("token_name"@, e.token_name@)).push(
        s_attr("symbol"@, e.symbol@),
    ).push(n_attr("launch_time"@, int_text(e.launch_time as int))).push(
        s_attr("detected_pattern"@, e.detected_pattern@),
    ).push(n_attr("confidence"@, amount_text(e.confidence as nat))).push(
        s_attr("created_at"@, e.created_at@),
    ).push(s_attr("status"@, e.status@));
    let a = match e.execution_time {
        Some(t) => a.push(n_attr("execution_time"@, int_text(t as int))),
        None => a,
    };
    let a = if e.executed_orders@.len() > 0 {
        a.push(("executed_orders"@, AttrView::Ss(texts_view(e.executed_orders@))))
    } else {
        a
    };
    a.push(n_attr("ttl"@, int_text(e.ttl as int))).push(s_attr("data_type"@, "CALENDAR"@))
}

/// The (partition, sort) key under which the attributes `a` are stored.
pub open spec fn row_key(a: AttrsView) -> (Seq<char>, Seq<char>) {
    (text_attr(a, "user_id"@)->0, text_attr(a, "sk"@)->0)
}

/// A table after an upsert of `a`: the row with the same key is replaced.
pub open spec fn upsert(table: Map<(Seq<char>, Seq<char>), AttrsView>, a: AttrsView) -> Map<
    (Seq<char>, Seq<char>),
    AttrsView,
> {
    table.insert(row_key(a), a)
}

/// Writing the same order twice, or two versions of it with the same owner,
/// id and timestamp, leaves one row, holding what was written last.
pub proof fn lemma_order_put_idempotent(
    table: Map<(Seq<char>, Seq<char>), AttrsView>,
    o1: OrderItem,
    o2: OrderItem,
)
    requires
        o1.user_id@ == o2.user_id@,
        o1.order_id@ == o2.order_id@,
        o1.timestamp == o2.timestamp,
    ensures
        row_key(order_attributes(o1)) == row_key(order_attributes(o2)),
        row_key(order_attributes(o1)) == (o1.user_id@, order_sort_key(
            o1.timestamp as int,
            o1.order_id@,
        )),
        upsert(upsert(table, order_attributes(o1)), order_attributes(o2)).dom() == upsert(
            table,
            order_attributes(o1),
        ).dom(),
        upsert(upsert(table, order_attributes(o1)), order_attributes(o2))[row_key(
            order_attributes(o1),
        )] == order_attributes(o2),
        upsert(upsert(table, order_attributes(o1)), order_attributes(o1)) == upsert(
            table,
            order_attributes(o1),
        ),
{
    lemma_order_key(o1);
    lemma_order_key(o2);
    let t1 = upsert(table, order_attributes(o1));
    assert(upsert(t1, order_attributes(o2)).dom() =~= t1.dom());
    assert(upsert(t1, order_attributes(o1)) =~= t1);
}

proof fn lemma_order_key(o: OrderItem)
    ensures
        row_key(order_attributes(o)) == (o.user_id@, order_sort_key(
            o.timestamp as int,
            o.order_id@,
        )),
{
    reveal_strlit("user_id");
    reveal_strlit("sk");
    let a = order_attributes(o);
    assert(a[0] == s_attr("user_id"@, o.user_id@));
    assert(a[1] == s_attr("sk"@, order_sort_key(o.timestamp as int, o.order_id@)));
    assert("user_id"@.len() == 7);
    assert("sk"@.len() == 2);
    assert("user_id"@ != "sk"@);
    assert(a.drop_first()[0] == a[1]);
    assert(lookup(a, "user_id"@) == Some(a[0].1));
    assert(lookup(a.drop_first(), "sk"@) == Some(a[1].1));
    assert(lookup(a, "sk"@) == lookup(a.drop_first(), "sk"@));
}

/// `s` begins with `p`.
pub fn has_prefix(s: &str, p: &str) -> (r: bool)
    ensures
        r == (p@.len() <= s@.len() && s@.take(p@.len() as int) == p@),
{
    let n = s.unicode_len();
    let m = p.unicode_len();
    if m > n {
        return false;
    }
    let mut i: usize = 0;
    while i < m
        invariant
            n == s@.len(),
            m == p@.len(),
            m <= n,
            i <= m,
            forall|k: int| 0 <= k < i ==> s@[k] == p@[k],
        decreases m - i,
    {
        if s.get_char(i) != p.get_char(i) {
            proof {
                assert(s@.take(m as int)[i as int] != p@[i as int]);
            }
            return false;
        }
        i = i + 1;
    }
    proof {
        assert(s@.take(m as int) =~= p@);
    }
    true
}

/// `s` ends with `p`.
pub fn has_suffix(s: &str, p: &str) -> (r: bool)
    ensures
        r == (p@.len() <= s@.len() && s@.skip(s@.len() - p@.len()) == p@),
{
    let n = s.unicode_len();
    let m = p.unicode_len();
    if m > n {
        return false;
    }
    let d = n - m;
    let mut i: usize = 0;
    while i < m
        invariant
            n == s@.len(),
            m == p@.len(),
            d == n - m,
            i <= m,
            forall|k: int| 0 <= k < i ==> s@[d + k] == p@[k],
        decreases m - i,
    {
        if s.get_char(d + i) != p.get_char(i) {
            proof {
                assert(s@.skip(d as int)[i as int] != p@[i as int]);
            }
            return false;
        }
        i = i + 1;
    }
    proof {
        assert(s@.skip(d as int) =~= p@);
    }
    true
}

/// The sort key of `a` marks an item of the kind `prefix`.
pub open spec fn kind_is(a: AttrsView, prefix: Seq<char>) -> bool {
    match text_attr(a, "sk"@) {
        Some(sk) => prefix.len() <= sk.len() && sk.take(prefix.len() as int) == prefix,
        None => false,
    }
}

/// The sort key of `a` has the shape `ORDER#...#<order_id>`.
pub open spec fn is_order_row_for(a: AttrsView, order_id: Seq<char>) -> bool {
    kind_is(a, "ORDER#"@) && match text_attr(a, "sk"@) {
        Some(sk) => order_id.len() + 1 <= sk.len() && sk.skip(
            sk.len() - (order_id.len() + 1),
        ) == "#"@ + order_id,
        None => false,
    }
}

/// All fields of an order can be read from `a`.
pub open spec fn order_readable(a: AttrsView) -> bool {
    &&& text_attr(a, "user_id"@) is Some
    &&& text_attr(a, "order_id"@) is Some
    &&& text_attr(a, "symbol"@) is Some
    &&& text_attr(a, "side"@) is Some
    &&& text_attr(a, "order_type"@) is Some
    &&& amount_attr(a, "quantity"@) is Some
    &&& opt_amount_ok(a, "price"@)
    &&& amount_attr(a, "filled_qty"@) is Some
    &&& text_attr(a, "status"@) is Some
    &&& int_attr(a, "timestamp"@) is Some
    &&& text_attr(a, "created_at"@) is Some
    &&& text_attr(a, "updated_at"@) is Some
    &&& opt_text_ok(a, "mexc_order_id"@)
    &&& opt_text_ok(a, "error_message"@)
    &&& int_attr(a, "ttl"@) is Some
}

pub open spec fn opt_text_is(v: Option<String>, a: AttrsView, key: Seq<char>) -> bool {
    match text_attr(a, key) {
        Some(t) => v is Some && v->0@ == t,
        None => v is None,
    }
}

pub open spec fn opt_amount_is(v: Option<u64>, a: AttrsView, key: Seq<char>) -> bool {
    match amount_attr(a, key) {
        Some(t) => v == Some(t as u64),
        None => v is None,
    }
}

pub open spec fn opt_signed_amount_is(v: Option<i128>, a: AttrsView, key: Seq<char>) -> bool {
    match signed_amount_attr(a, key) {
        Some(t) => v is Some && v->0 == t,
        None => v is None,
    }
}

pub open spec fn opt_int_is(v: Option<i64>, a: AttrsView, key: Seq<char>) -> bool {
    match int_attr(a, key) {
        Some(t) => v is Some && v->0 == t,
        None => v is None,
    }
}

/// Every field of `o` is what `a` holds for it.
pub open spec fn order_read_from(o: OrderItem, a: AttrsView) -> bool {
    &&& o.user_id@ == text_attr(a, "user_id"@)->0
    &&& o.order_id@ == text_attr(a, "order_id"@)->0
    &&& o.symbol@ == text_attr(a, "symbol"@)->0
    &&& o.side@ == text_attr(a, "side"@)->0
    &&& o.order_type@ == text_attr(a, "order_type"@)->0
    &&& o.quantity == amount_attr(a, "quantity"@)->0
    &&& opt_amount_is(o.price, a, "price"@)
    &&& o.filled_qty == amount_attr(a, "filled_qty"@)->0
    &&& o.status@ == text_attr(a, "status"@)->0
    &&& o.timestamp == int_attr(a, "timestamp"@)->0
    &&& o.created_at@ == text_attr(a, "created_at"@)->0
    &&& o.updated_at@ == text_attr(a, "updated_at"@)->0
    &&& opt_text_is(o.mexc_order_id, a, "mexc_order_id"@)
    &&& opt_text_is(o.error_message, a, "error_message"@)
    &&& o.ttl == int_attr(a, "ttl"@)->0
}

/// All fields of a position can be read from `a`.
pub open spec fn position_readable(a: AttrsView) -> bool {
    &&& text_attr(a, "user_id"@) is Some
    &&& text_attr(a, "position_id"@) is Some
    &&& text_attr(a, "symbol"@) is Some
    &&& amount_attr(a, "entry_price"@) is Some
    &&& amount_attr(a, "current_price"@) is Some
    &&& amount_attr(a, "quantity"@) is Some
    &&& text_attr(a, "side"@) is Some
    &&& int_attr(a, "entry_time"@) is Some
    &&& opt_signed_amount_ok(a, "pnl"@)
    &&& opt_signed_amount_ok(a, "pnl_percentage"@)
    &&& text_attr(a, "status"@) is Some
    &&& text_attr(a, "updated_at"@) is Some
    &&& int_attr(a, "ttl"@) is Some
}

/// Every field of `p` is what `a` holds for it.
pub open spec fn position_read_from(p: PositionItem, a: AttrsView) -> bool {
    &&& p.user_id@ == text_attr(a, "user_id"@)->0
    &&& p.position_id@ == text_attr(a, "position_id"@)->0
    &&& p.symbol@ == text_attr(a, "symbol"@)->0
    &&& p.entry_price == amount_attr(a, "entry_price"@)->0
    &&& p.current_price == amount_attr(a, "current_price"@)->0
    &&& p.quantity == amount_attr(a, "quantity"@)->0
    &&& p.side@ == text_attr(a, "side"@)->0
    &&& p.entry_time == int_attr(a, "entry_time"@)->0
    &&& opt_signed_amount_is(p.pnl, a, "pnl"@)
    &&& opt_signed_amount_is(p.pnl_percentage, a, "pnl_percentage"@)
    &&& p.status@ == text_attr(a, "status"@)->0
    &&& p.updated_at@ == text_attr(a, "updated_at"@)->0
    &&& p.ttl == int_attr(a, "ttl"@)->0
}

/// All fields of a calendar event can be read from `a`.
pub open spec fn calendar_readable(a: AttrsView) -> bool {
    &&& text_attr(a, "user_id"@) is Some
    &&& text_attr(a, "event_id"@) is Some
    &&& text_attr(a, "token_name"@) is Some
    &&& text_attr(a, "symbol"@) is Some
    &&& int_attr(a, "launch_time"@) is Some
    &&& text_attr(a, "detected_pattern"@) is Some
    &&& amount_attr(a, "confidence"@) is Some
    &&& text_attr(a, "created_at"@) is Some
    &&& text_attr(a, "status"@) is Some
    &&& opt_int_ok(a, "execution_time"@)
    &&& opt_texts_ok(a, "executed_orders"@)
    &&& int_attr(a, "ttl"@) is Some
}

/// Every field of `e` is what `a` holds for it.
pub open spec fn calendar_read_from(e: CalendarEventItem, a: AttrsView) -> bool {
    &&& e.user_id@ == text_attr(a, "user_id"@)->0
    &&& e.event_id@ == text_attr(a, "event_id"@)->0
    &&& e.token_name@ == text_attr(a, "token_name"@)->0
    &&& e.symbol@ == text_attr(a, "symbol"@)->0
    &&& e.launch_time == int_attr(a, "launch_time"@)->0
    &&& e.detected_pattern@ == text_attr(a, "detected_pattern"@)->0
    &&& e.confidence == amount_attr(a, "confidence"@)->0
    &&& e.created_at@ == text_attr(a, "created_at"@)->0
    &&& e.status@ == text_attr(a, "status"@)->0
    &&& opt_int_is(e.execution_time, a, "execution_time"@)
    &&& texts_view(e.executed_orders@) == match texts_attr(a, "executed_orders"@) {
        Some(v) => v,
        None => Seq::empty(),
    }
    &&& e.ttl == int_attr(a, "ttl"@)->0
}

fn text_value(s: &String) -> (r: AttributeValue)
    ensures
        r@ == AttrView::S(s@),
{
    AttributeValue::S(s.clone())
}

fn amount_value_of(u: u64) -> (r: AttributeValue)
    ensures
        r@ == AttrView::N(amount_text(u as nat)),
{
    AttributeValue::N(amount_to_text(u))
}

fn int_value_of(v: i64) -> (r: AttributeValue)
    ensures
        r@ == AttrView::N(int_text(v as int)),
{
    AttributeValue::N(int_to_text(v))
}

impl DynamoDBStore {
    pub fn new(table_name: String) -> (r: DynamoDBStore)
        ensures
            r.table_name == table_name,
    {
        DynamoDBStore { table_name }
    }

    /// The write that stores `order`, keyed by its owner and sort key.
    pub fn put_order(&self, order: &OrderItem) -> (r: PutItem)
        ensures
            r.table_name@ == self.table_name@,
            r.item@ == order_attributes(*order),
    {
        proof {
            reveal_strlit("ORDER");
        }
        let mut item = Record::new();
        item.put("user_id", text_value(&order.user_id));
        item.put("sk", AttributeValue::S(order.sort_key()));
        item.put("order_id", text_value(&order.order_id));
        item.put("symbol", text_value(&order.symbol));
        item.put("side", text_value(&order.side));
        item.put("order_type", text_value(&order.order_type));
        item.put("quantity", amount_value_of(order.quantity));
        if let Some(price) = order.price {
            item.put("price", amount_value_of(price));
        }
        item.put("filled_qty", amount_value_of(order.filled_qty));
        item.put("status", text_value(&order.status));
        item.put("timestamp", int_value_of(order.timestamp));
        item.put("created_at", text_value(&order.created_at));
        item.put("updated_at", text_value(&order.updated_at));
        if let Some(m) = &order.mexc_order_id {
            item.put("mexc_order_id", text_value(m));
        }
        if let Some(e) = &order.error_message {
            item.put("error_message", text_value(e));
        }
        item.put("ttl", int_value_of(order.ttl));
        item.put("data_type", AttributeValue::S(String::from_str("ORDER")));
        proof {
            assert(item@ =~= order_attributes(*order));
        }
        PutItem { table_name: self.table_name.clone(), item }
    }

    /// The write that stores `position`, keyed by its owner and sort key.
    pub fn put_position(&self, position: &PositionItem) -> (r: PutItem)
        ensures
            r.table_name@ == self.table_name@,
            r.item@ == position_attributes(*position),
    {
        proof {
            reveal_strlit("POSITION");
        }
        let mut item = Record::new();
        item.put("user_id", text_value(&position.user_id));
        item.put("sk", AttributeValue::S(position.sort_key()));
        item.put("position_id", text_value(&position.position_id));
        item.put("symbol", text_value(&position.symbol));
        item.put("entry_price", amount_value_of(position.entry_price));
        item.put("current_price", amount_value_of(position.current_price));
        item.put("quantity", amount_value_of(position.quantity));
        item.put("side", text_value(&position.side));
        item.put("entry_time", int_value_of(position.entry_time));
        if let Some(pnl) = position.pnl {
            item.put("pnl", AttributeValue::N(signed_amount_to_text(pnl)));
        }
        if let Some(pct) = position.pnl_percentage {
            item.put("pnl_percentage", AttributeValue::N(signed_amount_to_text(pct)));
        }
        item.put("status", text_value(&position.status));
        item.put("updated_at", text_value(&position.updated_at));
        item.put("ttl", int_value_of(position.ttl));
        item.put("data_type", AttributeValue::S(String::from_str("POSITION")));
        proof {
            assert(item@ =~= position_attributes(*position));
        }
        PutItem { table_name: self.table_name.clone(), item }
    }

    /// The write that stores `event`, keyed by its owner and sort key.
    pub fn put_calendar_event(&self, event: &CalendarEventItem) -> (r: PutItem)
        ensures
            r.table_name@ == self.table_name@,
            r.item@ == calendar_attributes(*event),
    {
        proof {
            reveal_strlit("CALENDAR");
        }
        let mut item = Record::new();
        item.put("user_id", text_value(&event.user_id));
        item.put("sk", AttributeValue::S(event.sort_key()));
        item.put("event_id", text_value(&event.event_id));
        item.put("token_name", text_value(&event.token_name));
        item.put("symbol", text_value(&event.symbol));
        item.put("launch_time", int_value_of(event.launch_time));
        item.put("detected_pattern", text_value(&event.detected_pattern));
        item.put("confidence", amount_value_of(event.confidence));
        item.put("created_at", text_value(&event.created_at));
        item.put("status", text_value(&event.status));
        if let Some(t) = event.execution_time {
            item.put("execution_time", int_value_of(t));
        }
        if event.executed_orders.len() > 0 {
            item.put("executed_orders", AttributeValue::Ss(clone_texts(&event.executed_orders)));
        }
        item.put("ttl", int_value_of(event.ttl));
        item.put("data_type", AttributeValue::S(String::from_str("CALENDAR")));
        proof {
            assert(item@ =~= calendar_attributes(*event));
        }
        PutItem { table_name: self.table_name.clone(), item }
    }

    /// Reads an order; any missing or malformed field is an error.
    pub fn item_to_order(&self, item: &Record) -> (r: Result<OrderItem, StoreError>)
        ensures
            r is Ok <==> order_readable(item@),
            r is Ok ==> order_read_from(r->Ok_0, item@),
    {
        Ok(
            OrderItem {
                user_id: item.get_string("user_id")?,
                order_id: item.get_string("order_id")?,
                symbol: item.get_string("symbol")?,
                side: item.get_string("side")?,
                order_type: item.get_string("order_type")?,
                quantity: item.get_number("quantity")?,
                price: item.get_optional_number("price")?,
                filled_qty: item.get_number("filled_qty")?,
                status: item.get_string("status")?,
                timestamp: item.get_integer("timestamp")?,
                created_at: item.get_string("created_at")?,
                updated_at: item.get_string("updated_at")?,
                mexc_order_id: item.get_optional_string("mexc_order_id")?,
                error_message: item.get_optional_string("error_message")?,
                ttl: item.get_integer("ttl")?,
            },
        )
    }

    /// Reads a position; any missing or malformed field is an error.
    pub fn item_to_position(&self, item: &Record) -> (r: Result<PositionItem, StoreError>)
        ensures
            r is Ok <==> position_readable(item@),
            r is Ok ==> position_read_from(r->Ok_0, item@),
    {
        Ok(
            PositionItem {
                user_id: item.get_string("user_id")?,
                position_id: item.get_string("position_id")?,
                symbol: item.get_string("symbol")?,
                entry_price: item.get_number("entry_price")?,
                current_price: item.get_number("current_price")?,
                quantity: item.get_number("quantity")?,
                side: item.get_string("side")?,
                entry_time: item.get_integer("entry_time")?,
                pnl: item.get_optional_signed_number("pnl")?,
                pnl_percentage: item.get_optional_signed_number("pnl_percentage")?,
                status: item.get_string("status")?,
                updated_at: item.get_string("updated_at")?,
                ttl: item.get_integer("ttl")?,
            },
        )
    }

    /// Reads a calendar event; any missing or malformed field is an error.
    /// A missing list of orders reads as empty.
    pub fn item_to_calendar_event(&self, item: &Record) -> (r: Result<CalendarEventItem, StoreError>)
        ensures
            r is Ok <==> calendar_readable(item@),
            r is Ok ==> calendar_read_from(r->Ok_0, item@),
    {
        let user_id = item.get_string("user_id")?;
        let event_id = item.get_string("event_id")?;
        let token_name = item.get_string("token_name")?;
        let symbol = item.get_string("symbol")?;
        let launch_time = item.get_integer("launch_time")?;
        let detected_pattern = item.get_string("detected_pattern")?;
        let confidence = item.get_number("confidence")?;
        let created_at = item.get_string("created_at")?;
        let status = item.get_string("status")?;
        let execution_time = item.get_optional_integer("execution_time")?;
        let executed_orders = match item.get_optional_string_list("executed_orders")? {
            Some(v) => v,
            None => {
                let v: Vec<String> = Vec::new();
                proof {
                    assert(texts_view(v@) =~= Seq::<Seq<char>>::empty());
                }
                v
            },
        };
        let ttl = item.get_integer("ttl")?;
        Ok(
            CalendarEventItem {
                user_id,
                event_id,
                token_name,
                symbol,
                launch_time,
                detected_pattern,
                confidence,
                created_at,
                status,
                execution_time,
                executed_orders,
                ttl,
            },
        )
    }
}

/// The items of `items` that satisfy `pred`, in their order.
pub open spec fn select(items: Seq<AttrsView>, pred: spec_fn(AttrsView) -> bool) -> Seq<AttrsView>
    decreases items.len(),
{
    if items.len() == 0 {
        Seq::empty()
    } else {
        let s = select(items.drop_last(), pred);
        if pred(items.last()) {
            s.push(items.last())
        } else {
            s
        }
    }
}

/// The attributes of each record, in order.
pub open spec fn records_view(items: Seq<Record>) -> Seq<AttrsView> {
    items.map_values(|r: Record| r@)
}

/// An order whose status is `status`.
pub open spec fn order_with_status(a: AttrsView, status: Seq<char>) -> bool {
    kind_is(a, "ORDER#"@) && text_attr(a, "status"@) == Some(status)
}

/// A position row for `position_id`.
pub open spec fn is_position_row_for(a: AttrsView, position_id: Seq<char>) -> bool {
    kind_is(a, "POSITION#"@) && text_attr(a, "position_id"@) == Some(position_id)
}

/// An open position.
pub open spec fn open_position(a: AttrsView) -> bool {
    kind_is(a, "POSITION#"@) && text_attr(a, "status"@) == Some("open"@)
}

/// A calendar event launching within [start, end].
pub open spec fn event_in_window(a: AttrsView, start: int, end: int) -> bool {
    kind_is(a, "CALENDAR#"@) && int_attr(a, "launch_time"@) is Some && start <= int_attr(
        a,
        "launch_time"@,
    )->0 <= end
}

fn is_kind(rec: &Record, prefix: &str) -> (r: bool)
    ensures
        r == kind_is(rec@, prefix@),
{
    proof {
        reveal_strlit("sk");
    }
    match rec.get_string("sk") {
        Ok(sk) => has_prefix(sk.as_str(), prefix),
        Err(_) => false,
    }
}

fn has_status(rec: &Record, status: &str) -> (r: bool)
    ensures
        r == (text_attr(rec@, "status"@) == Some(status@)),
{
    proof {
        reveal_strlit("status");
    }
    match rec.get_string("status") {
        Ok(s) => text_is(s.as_str(), status),
        Err(_) => false,
    }
}

fn is_order_row(rec: &Record, order_id: &str) -> (r: bool)
    ensures
        r == is_order_row_for(rec@, order_id@),
{
    proof {
        reveal_strlit("sk");
        reveal_strlit("ORDER#");
        reveal_strlit("#");
    }
    if !is_kind(rec, "ORDER#") {
        return false;
    }
    let mut tail = String::from_str("#");
    tail.append(order_id);
    match rec.get_string("sk") {
        Ok(sk) => has_suffix(sk.as_str(), tail.as_str()),
        Err(_) => false,
    }
}

proof fn lemma_select_step(items: Seq<AttrsView>, pred: spec_fn(AttrsView) -> bool, i: int)
    requires
        0 <= i < items.len(),
    ensures
        select(items.take(i + 1), pred) == if pred(items[i]) {
            select(items.take(i), pred).push(items[i])
        } else {
            select(items.take(i), pred)
        },
{
    assert(items.take(i + 1).drop_last() =~= items.take(i));
    assert(items.take(i + 1).last() == items[i]);
}

impl DynamoDBStore {
    /// The order `order_id` among an owner's items: the first whose sort key
    /// has the shape `ORDER#...#<order_id>`, read strictly; `None` if there is none.
    pub fn get_order(&self, items: &Vec<Record>, order_id: &str) -> (r: Result<
        Option<OrderItem>,
        StoreError,
    >)
        ensures
            ({
                let sel = select(records_view(items@), |a: AttrsView| is_order_row_for(a, order_id@));
                &&& sel.len() == 0 ==> r is Ok && r->Ok_0 is None
                &&& sel.len() > 0 ==> (r is Ok <==> order_readable(sel[0]))
                &&& sel.len() > 0 && r is Ok ==> r->Ok_0 is Some && order_read_from(
                    r->Ok_0->0,
                    sel[0],
                )
            }),
    {
        let ghost pred = |a: AttrsView| is_order_row_for(a, order_id@);
        let ghost all = records_view(items@);
        let n = items.len();
        let mut i: usize = 0;
        proof {
            assert(all.take(0) =~= Seq::<AttrsView>::empty());
        }
        while i < n
            invariant
                n == items@.len(),
                all == records_view(items@),
                i <= n,
                pred == (|a: AttrsView| is_order_row_for(a, order_id@)),
                select(all.take(i as int), pred).len() == 0,
            decreases n - i,
        {
            proof {
                lemma_select_step(all, pred, i as int);
                assert(all[i as int] == items@[i as int]@);
            }
            if is_order_row(&items[i], order_id) {
                proof {
                    lemma_select_prefix(all, pred, i + 1);
                    assert(select(all.take(i + 1), pred)[0] == all[i as int]);
                }
                return match self.item_to_order(&items[i]) {
                    Ok(o) => Ok(Some(o)),
                    Err(e) => Err(e),
                };
            }
            i = i + 1;
        }
        proof {
            assert(all.take(n as int) =~= all);
        }
        Ok(None)
    }

    /// The position `position_id` among an owner's items, read strictly;
    /// `None` if there is none.
    pub fn get_position(&self, items: &Vec<Record>, position_id: &str) -> (r: Result<
        Option<PositionItem>,
        StoreError,
    >)
        ensures
            ({
                let sel = select(records_view(items@), |a: AttrsView| is_position_row_for(a, position_id@));
                &&& sel.len() == 0 ==> r is Ok && r->Ok_0 is None
                &&& sel.len() > 0 ==> (r is Ok <==> position_readable(sel[0]))
                &&& sel.len() > 0 && r is Ok ==> r->Ok_0 is Some && position_read_from(
                    r->Ok_0->0,
                    sel[0],
                )
            }),
    {
        proof {
            reveal_strlit("POSITION#");
            reveal_strlit("position_id");
        }
        let ghost pred = |a: AttrsView| is_position_row_for(a, position_id@);
        let ghost all = records_view(items@);
        let n = items.len();
        let mut i: usize = 0;
        proof {
            assert(all.take(0) =~= Seq::<AttrsView>::empty());
        }
        while i < n
            invariant
                n == items@.len(),
                all == records_view(items@),
                i <= n,
                pred == (|a: AttrsView| is_position_row_for(a, position_id@)),
                select(all.take(i as int), pred).len() == 0,
            decreases n - i,
        {
            proof {
                lemma_select_step(all, pred, i as int);
                assert(all[i as int] == items@[i as int]@);
            }
            let hit = is_kind(&items[i], "POSITION#") && match items[i].get_string("position_id") {
                Ok(id) => text_is(id.as_str(), position_id),
                Err(_) => false,
            };
            if hit {
                proof {
                    lemma_select_prefix(all, pred, i + 1);
                    assert(select(all.take(i + 1), pred)[0] == all[i as int]);
                }
                return match self.item_to_position(&items[i]) {
                    Ok(p) => Ok(Some(p)),
                    Err(e) => Err(e),
                };
            }
            i = i + 1;
        }
        proof {
            assert(all.take(n as int) =~= all);
        }
        Ok(None)
    }

    /// An owner's orders with status `status`, each read strictly.
    pub fn query_orders_by_status(&self, items: &Vec<Record>, status: &str) -> (r: Result<
        Vec<OrderItem>,
        StoreError,
    >)
        ensures
            ({
                let sel = select(records_view(items@), |a: AttrsView| order_with_status(a, status@));
                &&& r is Ok <==> forall|k: int| 0 <= k < sel.len() ==> order_readable(#[trigger] sel[k])
                &&& r is Ok ==> r->Ok_0@.len() == sel.len() && forall|k: int|
                    0 <= k < sel.len() ==> order_read_from(#[trigger] r->Ok_0@[k], sel[k])
            }),
    {
        proof {
            reveal_strlit("ORDER#");
        }
        let ghost pred = |a: AttrsView| order_with_status(a, status@);
        let ghost all = records_view(items@);
        let mut out: Vec<OrderItem> = Vec::new();
        let n = items.len();
        let mut i: usize = 0;
        proof {
            assert(all.take(0) =~= Seq::<AttrsView>::empty());
        }
        while i < n
            invariant
                n == items@.len(),
                all == records_view(items@),
                i <= n,
                pred == (|a: AttrsView| order_with_status(a, status@)),
                "ORDER#"@ =~= seq!['O', 'R', 'D', 'E', 'R', '#'],
                out@.len() == select(all.take(i as int), pred).len(),
                forall|k: int|
                    0 <= k < out@.len() ==> order_readable(select(all.take(i as int), pred)[k]),
                forall|k: int|
                    0 <= k < out@.len() ==> order_read_from(
                        #[trigger] out@[k],
                        select(all.take(i as int), pred)[k],
                    ),
            decreases n - i,
        {
            proof {
                lemma_select_step(all, pred, i as int);
                assert(all[i as int] == items@[i as int]@);
            }
            if is_kind(&items[i], "ORDER#") && has_status(&items[i], status) {
                match self.item_to_order(&items[i]) {
                    Ok(o) => {
                        out.push(o);
                    },
                    Err(e) => {
                        proof {
                            lemma_select_prefix(all, pred, i + 1);
                            let j = out@.len() as int;
                            assert(select(all.take(i + 1), pred)[j] == all[i as int]);
                            assert(select(all, pred)[j] == all[i as int]);
                        }
                        return Err(e);
                    },
                }
            }
            i = i + 1;
        }
        proof {
            assert(all.take(n as int) =~= all);
        }
        Ok(out)
    }

    /// An owner's open positions, each read strictly.
    pub fn query_open_positions(&self, items: &Vec<Record>) -> (r: Result<
        Vec<PositionItem>,
        StoreError,
    >)
        ensures
            ({
                let sel = select(records_view(items@), |a: AttrsView| open_position(a));
                &&& r is Ok <==> forall|k: int| 0 <= k < sel.len() ==> position_readable(#[trigger] sel[k])
                &&& r is Ok ==> r->Ok_0@.len() == sel.len() && forall|k: int|
                    0 <= k < sel.len() ==> position_read_from(#[trigger] r->Ok_0@[k], sel[k])
            }),
    {
        proof {
            reveal_strlit("POSITION#");
            reveal_strlit("open");
        }
        let ghost pred = |a: AttrsView| open_position(a);
        let ghost all = records_view(items@);
        let mut out: Vec<PositionItem> = Vec::new();
        let n = items.len();
        let mut i: usize = 0;
        proof {
            assert(all.take(0) =~= Seq::<AttrsView>::empty());
        }
        while i < n
            invariant
                n == items@.len(),
                all == records_view(items@),
                i <= n,
                pred == (|a: AttrsView| open_position(a)),
                out@.len() == select(all.take(i as int), pred).len(),
                forall|k: int|
                    0 <= k < out@.len() ==> position_readable(select(all.take(i as int), pred)[k]),
                forall|k: int|
                    0 <= k < out@.len() ==> position_read_from(
                        #[trigger] out@[k],
                        select(all.take(i as int), pred)[k],
                    ),
            decreases n - i,
        {
            proof {
                lemma_select_step(all, pred, i as int);
                assert(all[i as int] == items@[i as int]@);
            }
            if is_kind(&items[i], "POSITION#") && has_status(&items[i], "open") {
                match self.item_to_position(&items[i]) {
                    Ok(p) => {
                        out.push(p);
                    },
                    Err(e) => {
                        proof {
                            lemma_select_prefix(all, pred, i + 1);
                            let j = out@.len() as int;
                            assert(select(all.take(i + 1), pred)[j] == all[i as int]);
                            assert(select(all, pred)[j] == all[i as int]);
                        }
                        return Err(e);
                    },
                }
            }
            i = i + 1;
        }
        proof {
            assert(all.take(n as int) =~= all);
        }
        Ok(out)
    }

    /// An owner's calendar events launching within [start_time, end_time], each
    /// read strictly.
    pub fn query_calendar_events_by_time(
        &self,
        items: &Vec<Record>,
        start_time: i64,
        end_time: i64,
    ) -> (r: Result<Vec<CalendarEventItem>, StoreError>)
        ensures
            ({
                let sel = select(
                    records_view(items@),
                    |a: AttrsView| event_in_window(a, start_time as int, end_time as int),
                );
                &&& r is Ok <==> forall|k: int| 0 <= k < sel.len() ==> calendar_readable(#[trigger] sel[k])
                &&& r is Ok ==> r->Ok_0@.len() == sel.len() && forall|k: int|
                    0 <= k < sel.len() ==> calendar_read_from(#[trigger] r->Ok_0@[k], sel[k])
            }),
    {
        proof {
            reveal_strlit("CALENDAR#");
            reveal_strlit("launch_time");
        }
        let ghost pred = |a: AttrsView| event_in_window(a, start_time as int, end_time as int);
        let ghost all = records_view(items@);
        let mut out: Vec<CalendarEventItem> = Vec::new();
        let n = items.len();
        let mut i: usize = 0;
        proof {
            assert(all.take(0) =~= Seq::<AttrsView>::empty());
        }
        while i < n
            invariant
                n == items@.len(),
                all == records_view(items@),
                i <= n,
                pred == (|a: AttrsView| event_in_window(a, start_time as int, end_time as int)),
                out@.len() == select(all.take(i as int), pred).len(),
                forall|k: int|
                    0 <= k < out@.len() ==> calendar_readable(select(all.take(i as int), pred)[k]),
                forall|k: int|
                    0 <= k < out@.len() ==> calendar_read_from(
                        #[trigger] out@[k],
                        select(all.take(i as int), pred)[k],
                    ),
            decreases n - i,
        {
            proof {
                lemma_select_step(all, pred, i as int);
                assert(all[i as int] == items@[i as int]@);
            }
            let in_window = is_kind(&items[i], "CALENDAR#") && match items[i].get_integer(
                "launch_time",
            ) {
                Ok(t) => start_time <= t && t <= end_time,
                Err(_) => false,
            };
            if in_window {
                match self.item_to_calendar_event(&items[i]) {
                    Ok(e) => {
                        out.push(e);
                    },
                    Err(e) => {
                        proof {
                            lemma_select_prefix(all, pred, i + 1);
                            let j = out@.len() as int;
                            assert(select(all.take(i + 1), pred)[j] == all[i as int]);
                            assert(select(all, pred)[j] == all[i as int]);
                        }
                        return Err(e);
                    },
                }
            }
            i = i + 1;
        }
        proof {
            assert(all.take(n as int) =~= all);
        }
        Ok(out)
    }
}

/// Selecting from a longer prefix keeps what the shorter one selected, in front.
proof fn lemma_select_prefix(items: Seq<AttrsView>, pred: spec_fn(AttrsView) -> bool, i: int)
    requires
        0 <= i <= items.len(),
    ensures
        select(items.take(i), pred).len() <= select(items, pred).len(),
        forall|k: int|
            0 <= k < select(items.take(i), pred).len() ==> select(items, pred)[k] == #[trigger] select(
                items.take(i),
                pred,
            )[k],
    decreases items.len() - i,
{
    if i < items.len() {
        lemma_select_step(items, pred, i);
        lemma_select_prefix(items, pred, i + 1);
        assert forall|k: int| 0 <= k < select(items.take(i), pred).len() implies select(
            items,
            pred,
        )[k] == #[trigger] select(items.take(i), pred)[k] by {
            assert(select(items.take(i + 1), pred)[k] == select(items.take(i), pred)[k]);
        }
    } else {
        assert(items.take(i) =~= items);
    }
}

/// Everything selected satisfies the predicate.
pub proof fn lemma_select_satisfies(items: Seq<AttrsView>, pred: spec_fn(AttrsView) -> bool)
    ensures
        forall|k: int| 0 <= k < select(items, pred).len() ==> pred(#[trigger] select(items, pred)[k]),
    decreases items.len(),
{
    if items.len() > 0 {
        let s = select(items.drop_last(), pred);
        lemma_select_satisfies(items.drop_last(), pred);
        assert forall|k: int| 0 <= k < select(items, pred).len() implies pred(
            #[trigger] select(items, pred)[k],
        ) by {
            if k < s.len() {
                assert(select(items, pred)[k] == s[k]);
            }
        }
    }
}

/// Looking a name up after an append finds the earlier attribute if there
/// is one, else the appended one if it has that name.
pub broadcast proof fn lemma_lookup_push(a: AttrsView, x: (Seq<char>, AttrView), k: Seq<char>)
    ensures
        #[trigger] lookup(a.push(x), k) == match lookup(a, k) {
            Some(v) => Some(v),
            None => if x.0 == k {
                Some(x.1)
            } else {
                None
            },
        },
    decreases a.len(),
{
    if a.len() > 0 {
        lemma_lookup_push(a.drop_first(), x, k);
        assert(a.push(x).drop_first() =~= a.drop_first().push(x));
    } else {
        assert(a.push(x).drop_first() =~= a);
    }
}

/// Two orders agree on every stored field.
pub open spec fn same_order(a: OrderItem, b: OrderItem) -> bool {
    &&& a.user_id@ == b.user_id@
    &&& a.order_id@ == b.order_id@
    &&& a.symbol@ == b.symbol@
    &&& a.side@ == b.side@
    &&& a.order_type@ == b.order_type@
    &&& a.quantity == b.quantity
    &&& a.price == b.price
    &&& a.filled_qty == b.filled_qty
    &&& a.status@ == b.status@
    &&& a.timestamp == b.timestamp
    &&& a.created_at@ == b.created_at@
    &&& a.updated_at@ == b.updated_at@
    &&& a.mexc_order_id.is_some() == b.mexc_order_id.is_some()
    &&& a.mexc_order_id is Some ==> a.mexc_order_id->0@ == b.mexc_order_id->0@
    &&& a.error_message.is_some() == b.error_message.is_some()
    &&& a.error_message is Some ==> a.error_message->0@ == b.error_message->0@
    &&& a.ttl == b.ttl
}

/// An order written by `put_order` reads back strictly, with every field as written.
pub proof fn lemma_order_round_trip(o: OrderItem, r: OrderItem)
    ensures
        order_readable(order_attributes(o)),
        order_read_from(r, order_attributes(o)) ==> same_order(r, o),
{
    broadcast use lemma_lookup_push;

    reveal_strlit("user_id");
    reveal_strlit("sk");
    reveal_strlit("order_id");
    reveal_strlit("symbol");
    reveal_strlit("side");
    reveal_strlit("order_type");
    reveal_strlit("quantity");
    reveal_strlit("price");
    reveal_strlit("filled_qty");
    reveal_strlit("status");
    reveal_strlit("timestamp");
    reveal_strlit("created_at");
    reveal_strlit("updated_at");
    reveal_strlit("mexc_order_id");
    reveal_strlit("error_message");
    reveal_strlit("ttl");
    reveal_strlit("data_type");
    crate::decimal::lemma_amount_round_trip(o.quantity as nat);
    crate::decimal::lemma_amount_round_trip(o.filled_qty as nat);
    if o.price is Some {
        crate::decimal::lemma_amount_round_trip(o.price->0 as nat);
    }
    crate::decimal::lemma_int_round_trip(o.timestamp as int);
    crate::decimal::lemma_int_round_trip(o.ttl as int);
    lemma_names_distinct();
    let a = order_attributes(o);
    assert(text_attr(a, "user_id"@) == Some(o.user_id@));
    assert(text_attr(a, "order_id"@) == Some(o.order_id@));
    assert(text_attr(a, "symbol"@) == Some(o.symbol@));
    assert(text_attr(a, "side"@) == Some(o.side@));
    assert(text_attr(a, "order_type"@) == Some(o.order_type@));
    assert(lookup(a, "quantity"@) == Some(AttrView::N(amount_text(o.quantity as nat))));
    assert(amount_attr(a, "quantity"@) == Some(o.quantity as nat));
    assert(amount_attr(a, "filled_qty"@) == Some(o.filled_qty as nat));
    assert(text_attr(a, "status"@) == Some(o.status@));
    assert(int_attr(a, "timestamp"@) == Some(o.timestamp as int));
    assert(text_attr(a, "created_at"@) == Some(o.created_at@));
    assert(text_attr(a, "updated_at"@) == Some(o.updated_at@));
    assert(int_attr(a, "ttl"@) == Some(o.ttl as int));
    assert(opt_amount_is(o.price, a, "price"@));
    assert(opt_text_is(o.mexc_order_id, a, "mexc_order_id"@));
    assert(opt_text_is(o.error_message, a, "error_message"@));
}

proof fn lemma_names_distinct()
    ensures
        "user_id"@.len() == 7,
        "sk"@.len() == 2,
        "order_id"@.len() == 8,
        "symbol"@.len() == 6,
        "side"@.len() == 4,
        "order_type"@.len() == 10,
        "quantity"@.len() == 8,
        "price"@.len() == 5,
        "filled_qty"@.len() == 10,
        "status"@.len() == 6,
        "timestamp"@.len() == 9,
        "created_at"@.len() == 10,
        "updated_at"@.len() == 10,
        "mexc_order_id"@.len() == 13,
        "error_message"@.len() == 13,
        "ttl"@.len() == 3,
        "data_type"@.len() == 9,
        "position_id"@.len() == 11,
        "entry_price"@.len() == 11,
        "current_price"@.len() == 13,
        "entry_time"@.len() == 10,
        "pnl"@.len() == 3,
        "pnl_percentage"@.len() == 14,
        "event_id"@.len() == 8,
        "token_name"@.len() == 10,
        "launch_time"@.len() == 11,
        "detected_pattern"@.len() == 16,
        "confidence"@.len() == 10,
        "execution_time"@.len() == 14,
        "executed_orders"@.len() == 15,
        "order_id"@ != "quantity"@,
        "symbol"@ != "status"@,
        "order_type"@ != "filled_qty"@,
        "order_type"@ != "created_at"@,
        "order_type"@ != "updated_at"@,
        "filled_qty"@ != "created_at"@,
        "filled_qty"@ != "updated_at"@,
        "timestamp"@ != "data_type"@,
        "created_at"@ != "updated_at"@,
        "mexc_order_id"@ != "error_message"@,
        "position_id"@ != "entry_price"@,
        "entry_time"@ != "updated_at"@,
        "pnl"@ != "ttl"@,
        "token_name"@ != "confidence"@,
        "token_name"@ != "created_at"@,
        "confidence"@ != "created_at"@,
{
    reveal_strlit("user_id");
    reveal_strlit("sk");
    reveal_strlit("order_id");
    reveal_strlit("symbol");
    reveal_strlit("side");
    reveal_strlit("order_type");
    reveal_strlit("quantity");
    reveal_strlit("price");
    reveal_strlit("filled_qty");
    reveal_strlit("status");
    reveal_strlit("timestamp");
    reveal_strlit("created_at");
    reveal_strlit("updated_at");
    reveal_strlit("mexc_order_id");
    reveal_strlit("error_message");
    reveal_strlit("ttl");
    reveal_strlit("data_type");
    reveal_strlit("position_id");
    reveal_strlit("entry_price");
    reveal_strlit("current_price");
    reveal_strlit("entry_time");
    reveal_strlit("pnl");
    reveal_strlit("pnl_percentage");
    reveal_strlit("event_id");
    reveal_strlit("token_name");
    reveal_strlit("launch_time");
    reveal_strlit("detected_pattern");
    reveal_strlit("confidence");
    reveal_strlit("execution_time");
    reveal_strlit("executed_orders");
    assert("order_id"@[0] != "quantity"@[0]);
    assert("symbol"@[1] != "status"@[1]);
    assert("order_type"@[0] != "filled_qty"@[0]);
    assert("order_type"@[0] != "created_at"@[0]);
    assert("order_type"@[0] != "updated_at"@[0]);
    assert("filled_qty"@[0] != "created_at"@[0]);
    assert("filled_qty"@[0] != "updated_at"@[0]);
    assert("timestamp"@[0] != "data_type"@[0]);
    assert("created_at"@[0] != "updated_at"@[0]);
    assert("mexc_order_id"@[0] != "error_message"@[0]);
    assert("position_id"@[0] != "entry_price"@[0]);
    assert("entry_time"@[0] != "updated_at"@[0]);
    assert("pnl"@[0] != "ttl"@[0]);
    assert("token_name"@[0] != "confidence"@[0]);
    assert("token_name"@[0] != "created_at"@[0]);
    assert("confidence"@[1] != "created_at"@[1]);
}

/// Two positions agree on every stored field.
pub open spec fn same_position(a: PositionItem, b: PositionItem) -> bool {
    &&& a.user_id@ == b.user_id@
    &&& a.position_id@ == b.position_id@
    &&& a.symbol@ == b.symbol@
    &&& a.entry_price == b.entry_price
    &&& a.current_price == b.current_price
    &&& a.quantity == b.quantity
    &&& a.side@ == b.side@
    &&& a.entry_time == b.entry_time
    &&& a.pnl == b.pnl
    &&& a.pnl_percentage == b.pnl_percentage
    &&& a.status@ == b.status@
    &&& a.updated_at@ == b.updated_at@
    &&& a.ttl == b.ttl
}

/// A position written by `put_position` reads back strictly, with every field as written.
pub proof fn lemma_position_round_trip(p: PositionItem, r: PositionItem)
    ensures
        position_readable(position_attributes(p)),
        position_read_from(r, position_attributes(p)) ==> same_position(r, p),
{
    broadcast use lemma_lookup_push;

    reveal_strlit("user_id");
    reveal_strlit("sk");
    reveal_strlit("position_id");
    reveal_strlit("symbol");
    reveal_strlit("entry_price");
    reveal_strlit("current_price");
    reveal_strlit("quantity");
    reveal_strlit("side");
    reveal_strlit("entry_time");
    reveal_strlit("pnl");
    reveal_strlit("pnl_percentage");
    reveal_strlit("status");
    reveal_strlit("updated_at");
    reveal_strlit("ttl");
    reveal_strlit("data_type");
    crate::decimal::lemma_amount_round_trip(p.entry_price as nat);
    crate::decimal::lemma_amount_round_trip(p.current_price as nat);
    crate::decimal::lemma_amount_round_trip(p.quantity as nat);
    crate::decimal::lemma_int_round_trip(p.entry_time as int);
    crate::decimal::lemma_int_round_trip(p.ttl as int);
    if p.pnl is Some {
        crate::decimal::lemma_signed_amount_round_trip(p.pnl->0 as int);
    }
    if p.pnl_percentage is Some {
        crate::decimal::lemma_signed_amount_round_trip(p.pnl_percentage->0 as int);
    }
    lemma_names_distinct();
    let a = position_attributes(p);
    assert(text_attr(a, "user_id"@) == Some(p.user_id@));
    assert(text_attr(a, "position_id"@) == Some(p.position_id@));
    assert(text_attr(a, "symbol"@) == Some(p.symbol@));
    assert(amount_attr(a, "entry_price"@) == Some(p.entry_price as nat));
    assert(amount_attr(a, "current_price"@) == Some(p.current_price as nat));
    assert(amount_attr(a, "quantity"@) == Some(p.quantity as nat));
    assert(text_attr(a, "side"@) == Some(p.side@));
    assert(int_attr(a, "entry_time"@) == Some(p.entry_time as int));
    assert(opt_signed_amount_is(p.pnl, a, "pnl"@));
    assert(opt_signed_amount_is(p.pnl_percentage, a, "pnl_percentage"@));
    assert(text_attr(a, "status"@) == Some(p.status@));
    assert(text_attr(a, "updated_at"@) == Some(p.updated_at@));
    assert(int_attr(a, "ttl"@) == Some(p.ttl as int));
}

/// Two calendar events agree on every stored field.
pub open spec fn same_calendar_event(a: CalendarEventItem, b: CalendarEventItem) -> bool {
    &&& a.user_id@ == b.user_id@
    &&& a.event_id@ == b.event_id@
    &&& a.token_name@ == b.token_name@
    &&& a.symbol@ == b.symbol@
    &&& a.launch_time == b.launch_time
    &&& a.detected_pattern@ == b.detected_pattern@
    &&& a.confidence == b.confidence
    &&& a.created_at@ == b.created_at@
    &&& a.status@ == b.status@
    &&& a.execution_time == b.execution_time
    &&& texts_view(a.executed_orders@) == texts_view(b.executed_orders@)
    &&& a.ttl == b.ttl
}

/// A calendar event written by `put_calendar_event` reads back strictly, with
/// every field as written.
pub proof fn lemma_calendar_round_trip(e: CalendarEventItem, r: CalendarEventItem)
    ensures
        calendar_readable(calendar_attributes(e)),
        calendar_read_from(r, calendar_attributes(e)) ==> same_calendar_event(r, e),
{
    broadcast use lemma_lookup_push;

    reveal_strlit("user_id");
    reveal_strlit("sk");
    reveal_strlit("event_id");
    reveal_strlit("token_name");
    reveal_strlit("symbol");
    reveal_strlit("launch_time");
    reveal_strlit("detected_pattern");
    reveal_strlit("confidence");
    reveal_strlit("created_at");
    reveal_strlit("status");
    reveal_strlit("execution_time");
    reveal_strlit("executed_orders");
    reveal_strlit("ttl");
    reveal_strlit("data_type");
    crate::decimal::lemma_amount_round_trip(e.confidence as nat);
    crate::decimal::lemma_int_round_trip(e.launch_time as int);
    crate::decimal::lemma_int_round_trip(e.ttl as int);
    if e.execution_time is Some {
        crate::decimal::lemma_int_round_trip(e.execution_time->0 as int);
    }
    lemma_names_distinct();
    let a = calendar_attributes(e);
    assert(text_attr(a, "user_id"@) == Some(e.user_id@));
    assert(text_attr(a, "event_id"@) == Some(e.event_id@));
    assert(text_attr(a, "token_name"@) == Some(e.token_name@));
    assert(text_attr(a, "symbol"@) == Some(e.symbol@));
    assert(int_attr(a, "launch_time"@) == Some(e.launch_time as int));
    assert(text_attr(a, "detected_pattern"@) == Some(e.detected_pattern@));
    assert(amount_attr(a, "confidence"@) == Some(e.confidence as nat));
    assert(text_attr(a, "created_at"@) == Some(e.created_at@));
    assert(text_attr(a, "status"@) == Some(e.status@));
    assert(opt_int_is(e.execution_time, a, "execution_time"@));
    if e.executed_orders@.len() > 0 {
        assert(texts_attr(a, "executed_orders"@) == Some(texts_view(e.executed_orders@)));
    } else {
        assert(lookup(a, "executed_orders"@) is None);
        assert(texts_view(e.executed_orders@) =~= Seq::<Seq<char>>::empty());
    }
    assert(int_attr(a, "ttl"@) == Some(e.ttl as int));
}

} // verus!
