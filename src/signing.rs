//! Canonical query strings and their HMAC-SHA256 signatures.
//!
//! Parameters are kept sorted by key, written as `k1=v1&k2=v2&...`, and signed
//! with HMAC-SHA256 under the account's secret; the digest is sent as 64
//! lowercase hexadecimal digits.
use hmac::{Hmac, Mac};
use sha2::Sha256;
use vstd::prelude::*;
use vstd::string::*;
use vstd::utf8::encode_utf8;

verus! {

/// Lexicographic order on character sequences, compared from position `i` on.
pub open spec fn text_lt_from(a: Seq<char>, b: Seq<char>, i: int) -> bool
    decreases a.len() - i,
{
    if i < 0 || i >= a.len() {
        0 <= i < b.len()
    } else if i >= b.len() {
        false
    } else if a[i] != b[i] {
        a[i] < b[i]
    } else {
        text_lt_from(a, b, i + 1)
    }
}

/// `a` sorts strictly before `b`: the order of `str` in Rust, which on UTF-8 text
/// is the order of the characters' code points.
pub open spec fn text_lt(a: Seq<char>, b: Seq<char>) -> bool {
    text_lt_from(a, b, 0)
}

proof fn lemma_lt_irreflexive(a: Seq<char>, i: int)
    requires
        0 <= i,
    ensures
        !text_lt_from(a, a, i),
    decreases a.len() - i,
{
    if i < a.len() {
        lemma_lt_irreflexive(a, i + 1);
    }
}

proof fn lemma_lt_transitive(a: Seq<char>, b: Seq<char>, c: Seq<char>, i: int)
    requires
        0 <= i,
        text_lt_from(a, b, i),
        text_lt_from(b, c, i),
    ensures
        text_lt_from(a, c, i),
    decreases a.len() - i,
{
    if i < a.len() && i < b.len() && i < c.len() && a[i] == b[i] && b[i] == c[i] {
        lemma_lt_transitive(a, b, c, i + 1);
    }
}

proof fn lemma_lt_connected(a: Seq<char>, b: Seq<char>, i: int)
    requires
        0 <= i <= a.len(),
        i <= b.len(),
        a.subrange(i, a.len() as int) != b.subrange(i, b.len() as int),
    ensures
        text_lt_from(a, b, i) || text_lt_from(b, a, i),
    decreases a.len() - i,
{
    if i < a.len() && i < b.len() && a[i] == b[i] {
        if a.subrange(i + 1, a.len() as int) == b.subrange(i + 1, b.len() as int) {
            assert(a.subrange(i, a.len() as int) =~= seq![a[i]] + a.subrange(
                i + 1,
                a.len() as int,
            ));
            assert(b.subrange(i, b.len() as int) =~= seq![b[i]] + b.subrange(
                i + 1,
                b.len() as int,
            ));
        }
        lemma_lt_connected(a, b, i + 1);
    } else if i == a.len() && i == b.len() {
        assert(a.subrange(i, a.len() as int) =~= b.subrange(i, b.len() as int));
    }
}

/// Two different texts are ordered one way or the other.
pub proof fn lemma_text_lt_total(a: Seq<char>, b: Seq<char>)
    ensures
        a != b ==> (text_lt(a, b) || text_lt(b, a)),
        !(text_lt(a, b) && text_lt(b, a)),
        !text_lt(a, a),
{
    lemma_lt_irreflexive(a, 0);
    if text_lt(a, b) && text_lt(b, a) {
        lemma_lt_transitive(a, b, a, 0);
    }
    if a != b {
        assert(a.subrange(0, a.len() as int) =~= a);
        assert(b.subrange(0, b.len() as int) =~= b);
        lemma_lt_connected(a, b, 0);
    }
}

/// A parameter: key and value.
pub type ParamView = (Seq<char>, Seq<char>);

/// Keys strictly increasing, hence all different.
pub open spec fn sorted_keys(e: Seq<ParamView>) -> bool {
    forall|i: int, j: int| 0 <= i < j < e.len() ==> text_lt(#[trigger] e[i].0, #[trigger] e[j].0)
}

/// The sorted parameters `e` with `k` set to `v`: an existing entry for `k` is
/// overwritten, otherwise the entry goes to its place in key order.
pub open spec fn insert_sorted(e: Seq<ParamView>, k: Seq<char>, v: Seq<char>) -> Seq<ParamView>
    decreases e.len(),
{
    if e.len() == 0 {
        seq![(k, v)]
    } else if e[0].0 == k {
        e.update(0, (k, v))
    } else if text_lt(k, e[0].0) {
        seq![(k, v)] + e
    } else {
        seq![e[0]] + insert_sorted(e.drop_first(), k, v)
    }
}

/// One parameter as `key=value`.
pub open spec fn param_text(p: ParamView) -> Seq<char> {
    p.0 + seq!['='] + p.1
}

/// `k1=v1&k2=v2&...` in the order of `e`.
pub open spec fn query_text(e: Seq<ParamView>) -> Seq<char>
    decreases e.len(),
{
    if e.len() == 0 {
        Seq::empty()
    } else if e.len() == 1 {
        param_text(e[0])
    } else {
        query_text(e.drop_last()) + seq!['&'] + param_text(e.last())
    }
}

/// HMAC-SHA256 of `msg` under `key`.
pub uninterp spec fn hmac_sha256(key: Seq<u8>, msg: Seq<u8>) -> Seq<u8>;

/// The lowercase hexadecimal digit for `d` < 16.
pub open spec fn hex_char(d: nat) -> char {
    if d < 10 {
        crate::decimal::digit_char(d)
    } else if d == 10 {
        'a'
    } else if d == 11 {
        'b'
    } else if d == 12 {
        'c'
    } else if d == 13 {
        'd'
    } else if d == 14 {
        'e'
    } else {
        'f'
    }
}

/// Two lowercase hexadecimal digits per byte, high half first.
pub open spec fn hex_text(b: Seq<u8>) -> Seq<char>
    decreases b.len(),
{
    if b.len() == 0 {
        Seq::empty()
    } else {
        hex_text(b.drop_last()) + seq![
            hex_char((b.last() / 16) as nat),
            hex_char((b.last() % 16) as nat),
        ]
    }
}

pub open spec fn is_lower_hex(c: char) -> bool {
    ('0' <= c && c <= '9') || ('a' <= c && c <= 'f')
}

/// The signature of the query text `q` under the secret `secret`.
pub open spec fn signature_text(secret: Seq<char>, q: Seq<char>) -> Seq<char> {
    hex_text(hmac_sha256(encode_utf8(secret), encode_utf8(q)))
}

/// A query followed by its signature: `q&signature=<hex>`.
pub open spec fn signed_query_text(secret: Seq<char>, q: Seq<char>) -> Seq<char> {
    q + "&signature="@ + signature_text(secret, q)
}

/// Relies on hmac's `Mac` for `Hmac<Sha256>`: `new_from_slice` accepts a key of
/// any length, and `finalize` yields the 32-byte tag of the bytes given to `update`.
#[verifier::external_body]
fn hmac_sha256_tag(key: &[u8], msg: &[u8]) -> (r: Vec<u8>)
    ensures
        r@ == hmac_sha256(key@, msg@),
        r@.len() == 32,
{
    let mut mac = <Hmac<Sha256> as Mac>::new_from_slice(key).expect("any key length");
    mac.update(msg);
    mac.finalize().into_bytes().to_vec()
}

/// Relies on hex::encode: two lowercase digits per byte, high half first.
#[verifier::external_body]
fn hex_encode(b: &[u8]) -> (r: String)
    ensures
        r@ == hex_text(b@),
{
    hex::encode(b)
}

/// Hex text has two lowercase hexadecimal digits per byte.
pub proof fn lemma_hex_text_shape(b: Seq<u8>)
    ensures
        hex_text(b).len() == 2 * b.len(),
        forall|i: int| 0 <= i < hex_text(b).len() ==> is_lower_hex(#[trigger] hex_text(b)[i]),
    decreases b.len(),
{
    if b.len() > 0 {
        lemma_hex_text_shape(b.drop_last());
        let h = (b.last() / 16) as nat;
        let l = (b.last() % 16) as nat;
        assert(is_lower_hex(hex_char(h)));
        assert(is_lower_hex(hex_char(l)));
    }
}

/// Signs the query text `q` with `secret`.
pub fn create_signature(secret: &str, q: &str) -> (r: String)
    ensures
        r@ == signature_text(secret@, q@),
        r@.len() == 64,
        forall|i: int| 0 <= i < 64 ==> is_lower_hex(#[trigger] r@[i]),
{
    let tag = hmac_sha256_tag(secret.as_bytes(), q.as_bytes());
    let r = hex_encode(tag.as_slice());
    proof {
        lemma_hex_text_shape(tag@);
    }
    r
}

proof fn lemma_insert_keys(e: Seq<ParamView>, k: Seq<char>, v: Seq<char>)
    requires
        sorted_keys(e),
    ensures
        sorted_keys(insert_sorted(e, k, v)),
        insert_sorted(e, k, v).len() > 0,
        insert_sorted(e, k, v)[0].0 == k || (e.len() > 0 && insert_sorted(e, k, v)[0] == e[0]),
        forall|i: int|
            #![trigger insert_sorted(e, k, v)[i]]
            0 <= i < insert_sorted(e, k, v).len() ==> (insert_sorted(e, k, v)[i] == (k, v)
                || exists|j: int| 0 <= j < e.len() && e[j] == insert_sorted(e, k, v)[i]),
    decreases e.len(),
{
    let r = insert_sorted(e, k, v);
    if e.len() == 0 {
    } else if e[0].0 == k {
        assert forall|i: int| 0 <= i < r.len() implies r[i] == (k, v) || exists|j: int|
            0 <= j < e.len() && e[j] == r[i] by {
            if i > 0 {
                assert(e[i] == r[i]);
            }
        }
    } else if text_lt(k, e[0].0) {
        assert forall|i: int, j: int| 0 <= i < j < r.len() implies text_lt(
            #[trigger] r[i].0,
            #[trigger] r[j].0,
        ) by {
            if i == 0 && j > 1 {
                lemma_lt_transitive(k, e[0].0, e[j - 1].0, 0);
            }
        }
        assert forall|i: int| 0 <= i < r.len() implies r[i] == (k, v) || exists|j: int|
            0 <= j < e.len() && e[j] == r[i] by {
            if i > 0 {
                assert(e[i - 1] == r[i]);
            }
        }
    } else {
        let t = e.drop_first();
        assert(sorted_keys(t)) by {
            assert forall|i: int, j: int| 0 <= i < j < t.len() implies text_lt(
                #[trigger] t[i].0,
                #[trigger] t[j].0,
            ) by {
                assert(t[i] == e[i + 1] && t[j] == e[j + 1]);
            }
        }
        lemma_insert_keys(t, k, v);
        let rt = insert_sorted(t, k, v);
        lemma_text_lt_total(k, e[0].0);
        assert forall|i: int| 0 <= i < rt.len() implies text_lt(e[0].0, #[trigger] rt[i].0) by {
            if rt[i] != (k, v) {
                let j = choose|j: int| 0 <= j < t.len() && t[j] == rt[i];
                assert(t[j] == e[j + 1]);
            }
        }
        assert forall|i: int, j: int| 0 <= i < j < r.len() implies text_lt(
            #[trigger] r[i].0,
            #[trigger] r[j].0,
        ) by {
            if i == 0 {
                assert(r[j] == rt[j - 1]);
            } else {
                assert(r[i] == rt[i - 1] && r[j] == rt[j - 1]);
            }
        }
        assert forall|i: int| 0 <= i < r.len() implies r[i] == (k, v) || exists|j: int|
            0 <= j < e.len() && e[j] == r[i] by {
            if i > 0 {
                assert(r[i] == rt[i - 1]);
                if rt[i - 1] != (k, v) {
                    let j = choose|j: int| 0 <= j < t.len() && t[j] == rt[i - 1];
                    assert(e[j + 1] == r[i]);
                }
            }
        }
    }
}

proof fn lemma_cons(x: ParamView, a: Seq<ParamView>)
    ensures
        (seq![x] + a)[0] == x,
        (seq![x] + a).drop_first() == a,
        (seq![x] + a).len() == a.len() + 1,
{
    assert((seq![x] + a).drop_first() =~= a);
}

/// The two orders of setting agree when `k1` does not sort after the first key.
proof fn lemma_order_free_head(
    e: Seq<ParamView>,
    k1: Seq<char>,
    v1: Seq<char>,
    k2: Seq<char>,
    v2: Seq<char>,
)
    requires
        e.len() > 0,
        k1 != k2,
        k1 == e[0].0 || text_lt(k1, e[0].0),
    ensures
        insert_sorted(insert_sorted(e, k1, v1), k2, v2) == insert_sorted(
            insert_sorted(e, k2, v2),
            k1,
            v1,
        ),
{
    let h = e[0];
    let hk = h.0;
    let t = e.drop_first();
    let p1 = (k1, v1);
    let p2 = (k2, v2);
    lemma_text_lt_total(k1, k2);
    lemma_text_lt_total(k2, hk);
    lemma_text_lt_total(k1, hk);
    assert(e =~= seq![h] + t);
    if k1 == hk {
        assert(e.update(0, p1) =~= seq![p1] + t);
        lemma_cons(p1, t);
        if text_lt(k2, hk) {
            lemma_cons(p2, e);
            lemma_cons(p2, seq![p1] + t);
            assert(insert_sorted(seq![p1] + t, k2, v2) == seq![p2] + (seq![p1] + t));
            assert(insert_sorted(seq![p2] + e, k1, v1) == seq![p2] + insert_sorted(e, k1, v1));
            assert(seq![p2] + (seq![p1] + t) =~= seq![p2] + (seq![p1] + t));
        } else {
            let a = insert_sorted(t, k2, v2);
            lemma_cons(h, a);
            assert(insert_sorted(e, k2, v2) == seq![h] + a);
            assert((seq![h] + a).update(0, p1) =~= seq![p1] + a);
            assert(insert_sorted(seq![p1] + t, k2, v2) == seq![p1] + a);
        }
    } else {
        lemma_cons(p1, e);
        if text_lt(k2, hk) {
            lemma_cons(p2, e);
            if text_lt(k1, k2) {
                lemma_cons(p1, seq![p2] + e);
                assert(insert_sorted(seq![p1] + e, k2, v2) == seq![p1] + insert_sorted(e, k2, v2));
                assert(insert_sorted(seq![p2] + e, k1, v1) == seq![p1] + (seq![p2] + e));
            } else {
                lemma_cons(p2, seq![p1] + e);
                assert(insert_sorted(seq![p1] + e, k2, v2) == seq![p2] + (seq![p1] + e));
                assert(insert_sorted(seq![p2] + e, k1, v1) == seq![p2] + insert_sorted(e, k1, v1));
            }
        } else if k2 == hk {
            lemma_cons(p2, t);
            assert(e.update(0, p2) =~= seq![p2] + t);
            assert(insert_sorted(seq![p1] + e, k2, v2) == seq![p1] + insert_sorted(e, k2, v2));
            assert(insert_sorted(seq![p2] + t, k1, v1) == seq![p1] + (seq![p2] + t));
        } else {
            lemma_lt_transitive(k1, hk, k2, 0);
            let a = insert_sorted(t, k2, v2);
            lemma_cons(h, a);
            assert(insert_sorted(e, k2, v2) == seq![h] + a);
            assert(insert_sorted(seq![p1] + e, k2, v2) == seq![p1] + insert_sorted(e, k2, v2));
            assert(insert_sorted(seq![h] + a, k1, v1) == seq![p1] + (seq![h] + a));
        }
    }
}

/// The sorted parameters depend on what is set, not on the order of setting:
/// setting two different keys one way round or the other gives the same
/// parameters, hence the same query text and the same signature.
pub proof fn lemma_params_order_free(
    e: Seq<ParamView>,
    k1: Seq<char>,
    v1: Seq<char>,
    k2: Seq<char>,
    v2: Seq<char>,
)
    requires
        sorted_keys(e),
        k1 != k2,
    ensures
        insert_sorted(insert_sorted(e, k1, v1), k2, v2) == insert_sorted(
            insert_sorted(e, k2, v2),
            k1,
            v1,
        ),
    decreases e.len(),
{
    lemma_text_lt_total(k1, k2);
    if e.len() == 0 {
        let p1 = (k1, v1);
        let p2 = (k2, v2);
        let z = Seq::<ParamView>::empty();
        assert(insert_sorted(e, k1, v1) == seq![p1]);
        assert(insert_sorted(e, k2, v2) == seq![p2]);
        assert(seq![p1].drop_first() =~= z);
        assert(seq![p2].drop_first() =~= z);
        assert(insert_sorted(z, k1, v1) == seq![p1]);
        assert(insert_sorted(z, k2, v2) == seq![p2]);
        if text_lt(k1, k2) {
            assert(insert_sorted(seq![p1], k2, v2) =~= seq![p1, p2]);
            assert(insert_sorted(seq![p2], k1, v1) =~= seq![p1, p2]);
        } else {
            assert(insert_sorted(seq![p1], k2, v2) =~= seq![p2, p1]);
            assert(insert_sorted(seq![p2], k1, v1) =~= seq![p2, p1]);
        }
    } else {
        let h = e[0];
        let t = e.drop_first();
        lemma_text_lt_total(k1, h.0);
        lemma_text_lt_total(k2, h.0);
        if k1 == h.0 || text_lt(k1, h.0) {
            lemma_order_free_head(e, k1, v1, k2, v2);
        } else if k2 == h.0 || text_lt(k2, h.0) {
            lemma_order_free_head(e, k2, v2, k1, v1);
        } else {
            assert(sorted_keys(t)) by {
                assert forall|i: int, j: int| 0 <= i < j < t.len() implies text_lt(
                    #[trigger] t[i].0,
                    #[trigger] t[j].0,
                ) by {
                    assert(t[i] == e[i + 1] && t[j] == e[j + 1]);
                }
            }
            lemma_params_order_free(t, k1, v1, k2, v2);
            let a = insert_sorted(t, k1, v1);
            let b = insert_sorted(t, k2, v2);
            lemma_cons(h, a);
            lemma_cons(h, b);
        }
    }
}

/// The key-to-value mapping the parameters hold.
pub open spec fn params_map(e: Seq<ParamView>) -> Map<Seq<char>, Seq<char>>
    decreases e.len(),
{
    if e.len() == 0 {
        Map::empty()
    } else {
        params_map(e.drop_first()).insert(e[0].0, e[0].1)
    }
}

proof fn lemma_sorted_tail(e: Seq<ParamView>)
    requires
        sorted_keys(e),
        e.len() > 0,
    ensures
        sorted_keys(e.drop_first()),
        forall|i: int| 0 <= i < e.drop_first().len() ==> text_lt(e[0].0, #[trigger] e.drop_first()[i].0),
{
    let t = e.drop_first();
    assert forall|i: int, j: int| 0 <= i < j < t.len() implies text_lt(
        #[trigger] t[i].0,
        #[trigger] t[j].0,
    ) by {
        assert(t[i] == e[i + 1] && t[j] == e[j + 1]);
    }
    assert forall|i: int| 0 <= i < t.len() implies text_lt(e[0].0, #[trigger] t[i].0) by {
        assert(t[i] == e[i + 1]);
    }
}

proof fn lemma_params_map_dom(e: Seq<ParamView>, k: Seq<char>)
    ensures
        params_map(e).contains_key(k) <==> exists|i: int| 0 <= i < e.len() && #[trigger] e[i].0 == k,
    decreases e.len(),
{
    if e.len() > 0 {
        let t = e.drop_first();
        lemma_params_map_dom(t, k);
        if exists|i: int| 0 <= i < e.len() && #[trigger] e[i].0 == k {
            let i = choose|i: int| 0 <= i < e.len() && #[trigger] e[i].0 == k;
            if i > 0 {
                assert(t[i - 1].0 == k);
            }
        }
        if exists|i: int| 0 <= i < t.len() && #[trigger] t[i].0 == k {
            let i = choose|i: int| 0 <= i < t.len() && #[trigger] t[i].0 == k;
            assert(e[i + 1].0 == k);
        }
    }
}

/// Setting a key acts on the mapping as `Map::insert` does.
pub proof fn lemma_insert_sorted_map(e: Seq<ParamView>, k: Seq<char>, v: Seq<char>)
    requires
        sorted_keys(e),
    ensures
        params_map(insert_sorted(e, k, v)) == params_map(e).insert(k, v),
    decreases e.len(),
{
    if e.len() == 0 {
        let one = seq![(k, v)];
        assert(one.drop_first() =~= Seq::<ParamView>::empty());
        assert(params_map(Seq::<ParamView>::empty()) == Map::<Seq<char>, Seq<char>>::empty());
        assert(one[0] == (k, v));
        assert(params_map(one) == params_map(one.drop_first()).insert(k, v));
    } else {
        let h = e[0];
        let t = e.drop_first();
        lemma_sorted_tail(e);
        if h.0 == k {
            assert(e.update(0, (k, v)).drop_first() =~= t);
            assert(params_map(t).insert(k, h.1).insert(k, v) =~= params_map(t).insert(k, v));
        } else if text_lt(k, h.0) {
            lemma_cons((k, v), e);
        } else {
            lemma_insert_sorted_map(t, k, v);
            let rt = insert_sorted(t, k, v);
            lemma_cons(h, rt);
            assert(params_map(t).insert(k, v).insert(h.0, h.1) =~= params_map(t).insert(h.0, h.1).insert(
                k,
                v,
            ));
        }
    }
}

/// Sorted parameters are determined by the mapping they hold: two sorted lists
/// with the same keys and values are the same list, so they give the same
/// query text and the same signature.
pub proof fn lemma_params_determined_by_map(e1: Seq<ParamView>, e2: Seq<ParamView>)
    requires
        sorted_keys(e1),
        sorted_keys(e2),
        params_map(e1) == params_map(e2),
    ensures
        e1 == e2,
    decreases e1.len(),
{
    if e1.len() == 0 || e2.len() == 0 {
        if e1.len() > 0 {
            lemma_params_map_dom(e1, e1[0].0);
            assert(params_map(e1).contains_key(e1[0].0));
            lemma_params_map_dom(e2, e1[0].0);
        }
        if e2.len() > 0 {
            lemma_params_map_dom(e2, e2[0].0);
            assert(params_map(e2).contains_key(e2[0].0));
            lemma_params_map_dom(e1, e2[0].0);
        }
        assert(e1 =~= e2);
    } else {
        let a = e1[0].0;
        let b = e2[0].0;
        lemma_sorted_tail(e1);
        lemma_sorted_tail(e2);
        let t1 = e1.drop_first();
        let t2 = e2.drop_first();
        lemma_params_map_dom(e1, b);
        lemma_params_map_dom(e2, a);
        lemma_params_map_dom(e1, a);
        lemma_params_map_dom(e2, b);
        lemma_text_lt_total(a, b);
        if a != b {
            let j = choose|j: int| 0 <= j < e2.len() && #[trigger] e2[j].0 == a;
            let i = choose|i: int| 0 <= i < e1.len() && #[trigger] e1[i].0 == b;
            assert(j > 0);
            assert(i > 0);
            assert(text_lt(b, a)) by {
                assert(t2[j - 1].0 == a);
            }
            assert(text_lt(a, b)) by {
                assert(t1[i - 1].0 == b);
            }
        }
        assert(a == b);
        assert(e1[0].1 == params_map(e1)[a]);
        assert(e2[0].1 == params_map(e2)[a]);
        lemma_params_map_dom(t1, a);
        lemma_params_map_dom(t2, a);
        assert(!params_map(t1).contains_key(a)) by {
            if params_map(t1).contains_key(a) {
                let i = choose|i: int| 0 <= i < t1.len() && #[trigger] t1[i].0 == a;
                lemma_text_lt_total(a, a);
            }
        }
        assert(!params_map(t2).contains_key(a)) by {
            if params_map(t2).contains_key(a) {
                let i = choose|i: int| 0 <= i < t2.len() && #[trigger] t2[i].0 == a;
                lemma_text_lt_total(a, a);
            }
        }
        assert(params_map(t1) =~= params_map(e1).remove(a));
        assert(params_map(t2) =~= params_map(e2).remove(a));
        lemma_params_determined_by_map(t1, t2);
        assert(e1 =~= seq![e1[0]] + t1);
        assert(e2 =~= seq![e2[0]] + t2);
    }
}

/// `a` sorts strictly before `b`.
pub fn text_less(a: &str, b: &str) -> (r: bool)
    ensures
        r == text_lt(a@, b@),
{
    let na = a.unicode_len();
    let nb = b.unicode_len();
    let mut i: usize = 0;
    while i < na && i < nb
        invariant
            na == a@.len(),
            nb == b@.len(),
            i <= na,
            i <= nb,
            text_lt(a@, b@) == text_lt_from(a@, b@, i as int),
        decreases na - i,
    {
        let ca = a.get_char(i);
        let cb = b.get_char(i);
        if ca != cb {
            return ca < cb;
        }
        i = i + 1;
    }
    i < nb && i >= na
}

/// Request parameters, kept sorted by key with one value per key.
pub struct QueryParams {
    entries: Vec<(String, String)>,
}

impl View for QueryParams {
    type V = Seq<ParamView>;

    closed spec fn view(&self) -> Seq<ParamView> {
        self.entries@.map_values(|p: (String, String)| (p.0@, p.1@))
    }
}

proof fn lemma_insert_at(e: Seq<ParamView>, k: Seq<char>, v: Seq<char>, i: int)
    requires
        0 <= i <= e.len(),
        forall|j: int| 0 <= j < i ==> text_lt(#[trigger] e[j].0, k),
        i == e.len() || !text_lt(e[i].0, k),
    ensures
        i < e.len() && e[i].0 == k ==> insert_sorted(e, k, v) == e.update(i, (k, v)),
        !(i < e.len() && e[i].0 == k) ==> insert_sorted(e, k, v) == e.insert(i, (k, v)),
    decreases i,
{
    if i == 0 {
        if e.len() > 0 && e[0].0 != k {
            lemma_text_lt_total(k, e[0].0);
            assert(e.insert(0, (k, v)) =~= seq![(k, v)] + e);
        }
        if e.len() == 0 {
            assert(e.insert(0, (k, v)) =~= seq![(k, v)]);
        }
    } else {
        let t = e.drop_first();
        lemma_text_lt_total(k, e[0].0);
        assert forall|j: int| 0 <= j < i - 1 implies text_lt(#[trigger] t[j].0, k) by {
            assert(t[j] == e[j + 1]);
        }
        lemma_insert_at(t, k, v, i - 1);
        if i < e.len() && e[i].0 == k {
            assert(e.update(i, (k, v)) =~= seq![e[0]] + t.update(i - 1, (k, v)));
        } else {
            assert(e.insert(i, (k, v)) =~= seq![e[0]] + t.insert(i - 1, (k, v)));
        }
    }
}

impl QueryParams {
    pub open spec fn wf(&self) -> bool {
        sorted_keys(self@)
    }

    /// No parameters.
    pub fn new() -> (r: QueryParams)
        ensures
            r@ == Seq::<ParamView>::empty(),
            params_map(r@) == Map::<Seq<char>, Seq<char>>::empty(),
            r.wf(),
    {
        let r = QueryParams { entries: Vec::new() };
        proof {
            assert(r@ =~= Seq::<ParamView>::empty());
        }
        r
    }

    /// Sets `key` to `value`, replacing an earlier value of `key`.
    pub fn insert(&mut self, key: String, value: String)
        requires
            old(self).wf(),
        ensures
            final(self)@ == insert_sorted(old(self)@, key@, value@),
            params_map(final(self)@) == params_map(old(self)@).insert(key@, value@),
            final(self).wf(),
    {
        let ghost e = self@;
        let n = self.entries.len();
        let mut i: usize = 0;
        while i < n && text_less(self.entries[i].0.as_str(), key.as_str())
            invariant
                n == self.entries.len(),
                e == self@,
                i <= n,
                forall|j: int| 0 <= j < i ==> text_lt(#[trigger] e[j].0, key@),
            decreases n - i,
        {
            i = i + 1;
        }
        proof {
            lemma_insert_at(e, key@, value@, i as int);
            lemma_insert_keys(e, key@, value@);
            lemma_insert_sorted_map(e, key@, value@);
        }
        if i < n && self.entries[i].0 == key {
            self.entries.set(i, (key, value));
            proof {
                assert(self@ =~= e.update(i as int, (key@, value@)));
            }
        } else {
            self.entries.insert(i, (key, value));
            proof {
                assert(self@ =~= e.insert(i as int, (key@, value@)));
            }
        }
    }

    /// The parameters as `k1=v1&k2=v2&...`, in key order.
    pub fn build_query_string(&self) -> (r: String)
        ensures
            r@ == query_text(self@),
    {
        let mut out = String::new();
        let n = self.entries.len();
        let mut i: usize = 0;
        proof {
            reveal_strlit("&");
            reveal_strlit("=");
            assert(self@.take(0) =~= Seq::<ParamView>::empty());
        }
        while i < n
            invariant
                n == self.entries.len(),
                i <= n,
                out@ == query_text(self@.take(i as int)),
            decreases n - i,
        {
            proof {
                reveal_strlit("&");
                reveal_strlit("=");
            }
            let ghost before = out@;
            if i > 0 {
                out.append("&");
            }
            let ghost sep = out@;
            out.append(self.entries[i].0.as_str());
            out.append("=");
            out.append(self.entries[i].1.as_str());
            proof {
                let t = self@.take(i + 1);
                let p = self@[i as int];
                assert(p == (self.entries@[i as int].0@, self.entries@[i as int].1@));
                assert(t.drop_last() =~= self@.take(i as int));
                assert(t.last() == p);
                assert(out@ =~= sep + param_text(p));
                if i == 0 {
                    assert(t.len() == 1);
                    assert(sep =~= Seq::<char>::empty());
                    assert(out@ =~= param_text(t[0]));
                } else {
                    assert(sep =~= before + seq!['&']);
                }
            }
            i = i + 1;
        }
        proof {
            assert(self@.take(n as int) =~= self@);
        }
        out
    }
}

} // verus!
