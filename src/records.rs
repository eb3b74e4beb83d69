//! Storage records: the attributes each entity is written as, and their strict
//! reading back.
//!
//! All records of one owner share a partition (`user_id`) and are told apart
//! by the sort key (`sk`), `<TYPE>#<ordering time>#<entity id>`.
use crate::decimal::{
    amount_text, amount_to_text, amount_value, int_text, int_to_text, int_value, parse_amount,
    parse_int, parse_signed_amount, signed_amount_text, signed_amount_to_text, signed_amount_value,
};
use crate::models::text_is;
use vstd::prelude::*;
use vstd::string::*;

verus! {

/// A stored attribute value: text, decimal number (as text), or a set of texts.
pub enum AttributeValue {
    S(String),
    N(String),
    Ss(Vec<String>),
}

/// What an attribute value holds.
pub enum AttrView {
    S(Seq<char>),
    N(Seq<char>),
    Ss(Seq<Seq<char>>),
}

/// The texts of a list of strings.
pub open spec fn texts_view(v: Seq<String>) -> Seq<Seq<char>> {
    v.map_values(|s: String| s@)
}

impl View for AttributeValue {
    type V = AttrView;

    open spec fn view(&self) -> AttrView {
        match self {
            AttributeValue::S(s) => AttrView::S(s@),
            AttributeValue::N(s) => AttrView::N(s@),
            AttributeValue::Ss(v) => AttrView::Ss(texts_view(v@)),
        }
    }
}

pub type AttrsView = Seq<(Seq<char>, AttrView)>;

/// One stored item: named attributes.
pub struct Record {
    pub attrs: Vec<(String, AttributeValue)>,
}

impl View for Record {
    type V = AttrsView;

    open spec fn view(&self) -> AttrsView {
        self.attrs@.map_values(|a: (String, AttributeValue)| (a.0@, a.1@))
    }
}

/// Why a stored item could not be read.
pub enum StoreError {
    /// The named attribute is missing or not in the form the field needs.
    CorruptRecord(String),
}

/// The first attribute named `key`.
pub open spec fn lookup(a: AttrsView, key: Seq<char>) -> Option<AttrView>
    decreases a.len(),
{
    if a.len() == 0 {
        None
    } else if a[0].0 == key {
        Some(a[0].1)
    } else {
        lookup(a.drop_first(), key)
    }
}

/// The text attribute `key`, if it is there as text.
pub open spec fn text_attr(a: AttrsView, key: Seq<char>) -> Option<Seq<char>> {
    match lookup(a, key) {
        Some(AttrView::S(s)) => Some(s),
        _ => None,
    }
}

/// An optional text attribute is absent or text.
pub open spec fn opt_text_ok(a: AttrsView, key: Seq<char>) -> bool {
    lookup(a, key) is None || text_attr(a, key) is Some
}

/// The fixed-point amount in the number attribute `key`, if it reads as one.
pub open spec fn amount_attr(a: AttrsView, key: Seq<char>) -> Option<nat> {
    match lookup(a, key) {
        Some(AttrView::N(s)) => match amount_value(s) {
            Some(v) => if v <= u64::MAX {
                Some(v)
            } else {
                None
            },
            None => None,
        },
        _ => None,
    }
}

pub open spec fn opt_amount_ok(a: AttrsView, key: Seq<char>) -> bool {
    lookup(a, key) is None || amount_attr(a, key) is Some
}

/// The signed fixed-point amount in the number attribute `key`, if it reads as one.
pub open spec fn signed_amount_attr(a: AttrsView, key: Seq<char>) -> Option<int> {
    match lookup(a, key) {
        Some(AttrView::N(s)) => match signed_amount_value(s) {
            Some(v) => if i128::MIN <= v <= i128::MAX {
                Some(v)
            } else {
                None
            },
            None => None,
        },
        _ => None,
    }
}

pub open spec fn opt_signed_amount_ok(a: AttrsView, key: Seq<char>) -> bool {
    lookup(a, key) is None || signed_amount_attr(a, key) is Some
}

/// The 64-bit integer in the number attribute `key`, if it reads as one.
pub open spec fn int_attr(a: AttrsView, key: Seq<char>) -> Option<int> {
    match lookup(a, key) {
        Some(AttrView::N(s)) => match int_value(s) {
            Some(v) => if i64::MIN <= v <= i64::MAX {
                Some(v)
            } else {
                None
            },
            None => None,
        },
        _ => None,
    }
}

pub open spec fn opt_int_ok(a: AttrsView, key: Seq<char>) -> bool {
    lookup(a, key) is None || int_attr(a, key) is Some
}

/// The text set attribute `key`, if it is there as a set.
pub open spec fn texts_attr(a: AttrsView, key: Seq<char>) -> Option<Seq<Seq<char>>> {
    match lookup(a, key) {
        Some(AttrView::Ss(v)) => Some(v),
        _ => None,
    }
}

pub open spec fn opt_texts_ok(a: AttrsView, key: Seq<char>) -> bool {
    lookup(a, key) is None || texts_attr(a, key) is Some
}

/// A copy of a list of texts.
pub fn clone_texts(v: &Vec<String>) -> (r: Vec<String>)
    ensures
        texts_view(r@) == texts_view(v@),
{
    let mut r: Vec<String> = Vec::new();
    let mut i: usize = 0;
    while i < v.len()
        invariant
            i <= v@.len(),
            texts_view(r@) == texts_view(v@.take(i as int)),
        decreases v@.len() - i,
    {
        let ghost before = r@;
        let c = v[i].clone();
        r.push(c);
        proof {
            assert(texts_view(r@) =~= texts_view(before).push(c@));
            assert(texts_view(v@.take(i + 1)) =~= texts_view(v@.take(i as int)).push(v@[i as int]@));
        }
        i = i + 1;
    }
    proof {
        assert(v@.take(v@.len() as int) =~= v@);
    }
    r
}

fn clone_value(v: &AttributeValue) -> (r: AttributeValue)
    ensures
        r@ == v@,
{
    match v {
        AttributeValue::S(s) => AttributeValue::S(s.clone()),
        AttributeValue::N(s) => AttributeValue::N(s.clone()),
        AttributeValue::Ss(t) => AttributeValue::Ss(clone_texts(t)),
    }
}

fn corrupt(key: &str) -> (r: StoreError)
    ensures
        r == StoreError::CorruptRecord(r->CorruptRecord_0) && r->CorruptRecord_0@ == key@,
{
    StoreError::CorruptRecord(String::from_str(key))
}

impl Record {
    pub fn new() -> (r: Record)
        ensures
            r@ == Seq::<(Seq<char>, AttrView)>::empty(),
    {
        let r = Record { attrs: Vec::new() };
        proof {
            assert(r@ =~= Seq::<(Seq<char>, AttrView)>::empty());
        }
        r
    }

    /// Appends the attribute `name` with `value`.
    pub fn put(&mut self, name: &str, value: AttributeValue)
        ensures
            final(self)@ == old(self)@.push((name@, value@)),
    {
        let ghost v = value@;
        self.attrs.push((String::from_str(name), value));
        proof {
            assert(self@ =~= old(self)@.push((name@, v)));
        }
    }

    /// The first attribute named `key`.
    pub fn get(&self, key: &str) -> (r: Option<AttributeValue>)
        ensures
            match lookup(self@, key@) {
                Some(v) => r is Some && r->0@ == v,
                None => r is None,
            },
    {
        let n = self.attrs.len();
        let mut i: usize = 0;
        proof {
            assert(self@.skip(0) =~= self@);
        }
        while i < n
            invariant
                n == self.attrs@.len(),
                i <= n,
                lookup(self@, key@) == lookup(self@.skip(i as int), key@),
            decreases n - i,
        {
            proof {
                assert(self@.skip(i + 1) =~= self@.skip(i as int).drop_first());
                assert(self@.skip(i as int)[0] == self@[i as int]);
            }
            if text_is(self.attrs[i].0.as_str(), key) {
                return Some(clone_value(&self.attrs[i].1));
            }
            i = i + 1;
        }
        proof {
            assert(self@.skip(n as int) =~= Seq::<(Seq<char>, AttrView)>::empty());
        }
        None
    }

    /// A required text attribute.
    pub fn get_string(&self, key: &str) -> (r: Result<String, StoreError>)
        ensures
            r is Ok <==> text_attr(self@, key@) is Some,
            r is Ok ==> r->Ok_0@ == text_attr(self@, key@)->0,
    {
        match self.get(key) {
            Some(AttributeValue::S(s)) => Ok(s),
            _ => Err(corrupt(key)),
        }
    }

    /// An optional text attribute; present in another form is an error.
    pub fn get_optional_string(&self, key: &str) -> (r: Result<Option<String>, StoreError>)
        ensures
            r is Ok <==> opt_text_ok(self@, key@),
            r is Ok ==> (r->Ok_0 is Some <==> text_attr(self@, key@) is Some),
            r is Ok && r->Ok_0 is Some ==> r->Ok_0->0@ == text_attr(self@, key@)->0,
    {
        match self.get(key) {
            None => Ok(None),
            Some(AttributeValue::S(s)) => Ok(Some(s)),
            _ => Err(corrupt(key)),
        }
    }

    /// An optional set of texts; present in another form is an error.
    pub fn get_optional_string_list(&self, key: &str) -> (r: Result<Option<Vec<String>>, StoreError>)
        ensures
            r is Ok <==> opt_texts_ok(self@, key@),
            r is Ok ==> (r->Ok_0 is Some <==> texts_attr(self@, key@) is Some),
            r is Ok && r->Ok_0 is Some ==> texts_view(r->Ok_0->0@) == texts_attr(
                self@,
                key@,
            )->0,
    {
        match self.get(key) {
            None => Ok(None),
            Some(AttributeValue::Ss(v)) => Ok(Some(v)),
            _ => Err(corrupt(key)),
        }
    }

    /// A required fixed-point amount.
    pub fn get_number(&self, key: &str) -> (r: Result<u64, StoreError>)
        ensures
            r is Ok <==> amount_attr(self@, key@) is Some,
            r is Ok ==> r->Ok_0 == amount_attr(self@, key@)->0,
    {
        match self.get(key) {
            Some(AttributeValue::N(s)) => match parse_amount(s.as_str()) {
                Some(v) => Ok(v),
                None => Err(corrupt(key)),
            },
            _ => Err(corrupt(key)),
        }
    }

    /// An optional fixed-point amount; present but unreadable is an error.
    pub fn get_optional_number(&self, key: &str) -> (r: Result<Option<u64>, StoreError>)
        ensures
            r is Ok <==> opt_amount_ok(self@, key@),
            r is Ok ==> (r->Ok_0 is Some <==> amount_attr(self@, key@) is Some),
            r is Ok && r->Ok_0 is Some ==> r->Ok_0->0 == amount_attr(self@, key@)->0,
    {
        match self.get(key) {
            None => Ok(None),
            Some(AttributeValue::N(s)) => match parse_amount(s.as_str()) {
                Some(v) => Ok(Some(v)),
                None => Err(corrupt(key)),
            },
            _ => Err(corrupt(key)),
        }
    }

    /// An optional signed fixed-point amount; present but unreadable is an error.
    pub fn get_optional_signed_number(&self, key: &str) -> (r: Result<Option<i128>, StoreError>)
        ensures
            r is Ok <==> opt_signed_amount_ok(self@, key@),
            r is Ok ==> (r->Ok_0 is Some <==> signed_amount_attr(self@, key@) is Some),
            r is Ok && r->Ok_0 is Some ==> r->Ok_0->0 == signed_amount_attr(self@, key@)->0,
    {
        match self.get(key) {
            None => Ok(None),
            Some(AttributeValue::N(s)) => match parse_signed_amount(s.as_str()) {
                Some(v) => Ok(Some(v)),
                None => Err(corrupt(key)),
            },
            _ => Err(corrupt(key)),
        }
    }

    /// A required 64-bit integer.
    pub fn get_integer(&self, key: &str) -> (r: Result<i64, StoreError>)
        ensures
            r is Ok <==> int_attr(self@, key@) is Some,
            r is Ok ==> r->Ok_0 == int_attr(self@, key@)->0,
    {
        match self.get(key) {
            Some(AttributeValue::N(s)) => match parse_int(s.as_str()) {
                Some(v) => Ok(v),
                None => Err(corrupt(key)),
            },
            _ => Err(corrupt(key)),
        }
    }

    /// An optional 64-bit integer; present but unreadable is an error.
    pub fn get_optional_integer(&self, key: &str) -> (r: Result<Option<i64>, StoreError>)
        ensures
            r is Ok <==> opt_int_ok(self@, key@),
            r is Ok ==> (r->Ok_0 is Some <==> int_attr(self@, key@) is Some),
            r is Ok && r->Ok_0 is Some ==> r->Ok_0->0 == int_attr(self@, key@)->0,
    {
        match self.get(key) {
            None => Ok(None),
            Some(AttributeValue::N(s)) => match parse_int(s.as_str()) {
                Some(v) => Ok(Some(v)),
                None => Err(corrupt(key)),
            },
            _ => Err(corrupt(key)),
        }
    }
}

} // verus!
