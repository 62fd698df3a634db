//! JSON documents as Keel hashes them, and their canonical encoding: objects with sorted keys,
//! no whitespace, integers in decimal, strings escaped as `serde_json` escapes them. Floats are
//! refused: protocol documents must not use them in hashed fields.

use crate::hexcodec::hex_digit;
use crate::text::str_eq;
use vstd::prelude::*;
use vstd::utf8::{encode_utf8, encode_utf8_decode_utf8};

verus! {

/// A JSON document.
pub enum JsonValue {
    Null,
    Bool(bool),
    Int(int),
    /// A number that is not an integer.
    Float,
    Str(Seq<char>),
    Arr(Seq<JsonValue>),
    /// Members in key order.
    Obj(Seq<(Seq<char>, JsonValue)>),
}

/// Byte strings in lexicographic order.
pub open spec fn bytes_lt(a: Seq<u8>, b: Seq<u8>) -> bool
    decreases a.len(),
{
    if a.len() == 0 {
        b.len() > 0
    } else if b.len() == 0 {
        false
    } else if a[0] < b[0] {
        true
    } else if a[0] > b[0] {
        false
    } else {
        bytes_lt(a.drop_first(), b.drop_first())
    }
}

/// The order of object keys: their UTF-8 bytes in lexicographic order, as `String` orders.
pub open spec fn key_lt(a: Seq<char>, b: Seq<char>) -> bool {
    bytes_lt(encode_utf8(a), encode_utf8(b))
}

proof fn lemma_bytes_lt_irreflexive(a: Seq<u8>)
    ensures
        !bytes_lt(a, a),
    decreases a.len(),
{
    if a.len() > 0 {
        lemma_bytes_lt_irreflexive(a.drop_first());
    }
}

proof fn lemma_bytes_lt_transitive(a: Seq<u8>, b: Seq<u8>, c: Seq<u8>)
    requires
        bytes_lt(a, b),
        bytes_lt(b, c),
    ensures
        bytes_lt(a, c),
    decreases a.len(),
{
    if a.len() > 0 && b.len() > 0 && c.len() > 0 && a[0] == b[0] && b[0] == c[0] {
        lemma_bytes_lt_transitive(a.drop_first(), b.drop_first(), c.drop_first());
    }
}

proof fn lemma_bytes_lt_total(a: Seq<u8>, b: Seq<u8>)
    ensures
        a =~= b || bytes_lt(a, b) || bytes_lt(b, a),
    decreases a.len(),
{
    if a.len() > 0 && b.len() > 0 && a[0] == b[0] {
        lemma_bytes_lt_total(a.drop_first(), b.drop_first());
        if a.drop_first() =~= b.drop_first() {
            assert(a =~= seq![a[0]] + a.drop_first());
            assert(b =~= seq![b[0]] + b.drop_first());
        }
    }
}

/// Keys are strictly ordered: irreflexive, transitive, and any two distinct keys are comparable.
pub proof fn lemma_key_order(a: Seq<char>, b: Seq<char>, c: Seq<char>)
    ensures
        !key_lt(a, a),
        key_lt(a, b) && key_lt(b, c) ==> key_lt(a, c),
        a == b || key_lt(a, b) || key_lt(b, a),
        key_lt(a, b) ==> !key_lt(b, a),
{
    lemma_bytes_lt_irreflexive(encode_utf8(a));
    if key_lt(a, b) && key_lt(b, c) {
        lemma_bytes_lt_transitive(encode_utf8(a), encode_utf8(b), encode_utf8(c));
    }
    if key_lt(a, b) && key_lt(b, a) {
        lemma_bytes_lt_transitive(encode_utf8(a), encode_utf8(b), encode_utf8(a));
    }
    lemma_bytes_lt_total(encode_utf8(a), encode_utf8(b));
    if encode_utf8(a) =~= encode_utf8(b) {
        encode_utf8_decode_utf8(a);
        encode_utf8_decode_utf8(b);
    }
}

/// Whether the members are in strictly increasing key order (so no key occurs twice).
pub open spec fn keys_sorted(m: Seq<(Seq<char>, JsonValue)>) -> bool {
    forall|i: int, j: int| 0 <= i < j < m.len() ==> key_lt(#[trigger] m[i].0, #[trigger] m[j].0)
}

/// Whether some member has key `k`.
pub open spec fn has_key(m: Seq<(Seq<char>, JsonValue)>, k: Seq<char>) -> bool {
    exists|i: int| 0 <= i < m.len() && #[trigger] m[i].0 == k
}

/// The members with `k` set to `v`: replaced where `k` is present, else added in key order.
pub open spec fn put(m: Seq<(Seq<char>, JsonValue)>, k: Seq<char>, v: JsonValue) -> Seq<(Seq<char>, JsonValue)>
    decreases m.len(),
{
    if m.len() == 0 {
        seq![(k, v)]
    } else if key_lt(k, m[0].0) {
        seq![(k, v)] + m
    } else if k == m[0].0 {
        seq![(k, v)] + m.drop_first()
    } else {
        seq![m[0]] + put(m.drop_first(), k, v)
    }
}

/// The members without the one keyed `k`.
pub open spec fn del(m: Seq<(Seq<char>, JsonValue)>, k: Seq<char>) -> Seq<(Seq<char>, JsonValue)>
    decreases m.len(),
{
    if m.len() == 0 {
        m
    } else if m[0].0 == k {
        m.drop_first()
    } else {
        seq![m[0]] + del(m.drop_first(), k)
    }
}

/// The value of the first member keyed `k`, if there is one.
pub open spec fn member(m: Seq<(Seq<char>, JsonValue)>, k: Seq<char>) -> Option<JsonValue>
    decreases m.len(),
{
    if m.len() == 0 {
        None
    } else if m[0].0 == k {
        Some(m[0].1)
    } else {
        member(m.drop_first(), k)
    }
}

/// The value of member `k` of a document, if it is an object that has one.
pub open spec fn json_get(v: JsonValue, k: Seq<char>) -> Option<JsonValue> {
    match v {
        JsonValue::Obj(m) => member(m, k),
        _ => None,
    }
}

/// An object with no members.
pub open spec fn no_members() -> Seq<(Seq<char>, JsonValue)> {
    Seq::empty()
}

/// `put` where every earlier key is below `k` and the key at `i` is not.
proof fn lemma_put_at(m: Seq<(Seq<char>, JsonValue)>, k: Seq<char>, v: JsonValue, i: int)
    requires
        0 <= i <= m.len(),
        forall|j: int| 0 <= j < i ==> key_lt(#[trigger] m[j].0, k),
        i < m.len() ==> !key_lt(m[i].0, k),
    ensures
        put(m, k, v) == if i < m.len() && m[i].0 == k {
            m.take(i) + seq![(k, v)] + m.skip(i + 1)
        } else {
            m.take(i) + seq![(k, v)] + m.skip(i)
        },
    decreases i,
{
    if i == 0 {
        if m.len() > 0 {
            lemma_key_order(k, m[0].0, k);
            assert(m.skip(1) =~= m.drop_first());
        }
        assert(m.take(0) + seq![(k, v)] + m.skip(0) =~= seq![(k, v)] + m);
        assert(m.take(0) + seq![(k, v)] + m.skip(1) =~= seq![(k, v)] + m.skip(1));
    } else {
        let t = m.drop_first();
        lemma_key_order(m[0].0, k, k);
        assert forall|j: int| 0 <= j < i - 1 implies key_lt(#[trigger] t[j].0, k) by {
            assert(t[j] == m[j + 1]);
        }
        lemma_put_at(t, k, v, i - 1);
        if i < m.len() && m[i].0 == k {
            assert(m.take(i) + seq![(k, v)] + m.skip(i + 1) =~= seq![m[0]] + (t.take(i - 1) + seq![(k, v)]
                + t.skip(i)));
        } else {
            assert(m.take(i) + seq![(k, v)] + m.skip(i) =~= seq![m[0]] + (t.take(i - 1) + seq![(k, v)]
                + t.skip(i - 1)));
        }
    }
}

/// `del` where the key at `i` is `k`, in sorted members.
proof fn lemma_del_at(m: Seq<(Seq<char>, JsonValue)>, k: Seq<char>, i: int)
    requires
        0 <= i < m.len(),
        m[i].0 == k,
        forall|j: int| 0 <= j < i ==> m[j].0 != k,
    ensures
        del(m, k) == m.remove(i),
    decreases i,
{
    if i > 0 {
        let t = m.drop_first();
        assert forall|j: int| 0 <= j < i - 1 implies t[j].0 != k by {
            assert(t[j] == m[j + 1]);
        }
        lemma_del_at(t, k, i - 1);
        assert(m.remove(i) =~= seq![m[0]] + t.remove(i - 1));
    } else {
        assert(m.remove(0) =~= m.drop_first());
    }
}

/// `del` of a key that is absent changes nothing.
proof fn lemma_del_absent(m: Seq<(Seq<char>, JsonValue)>, k: Seq<char>)
    requires
        !has_key(m, k),
    ensures
        del(m, k) == m,
    decreases m.len(),
{
    if m.len() > 0 {
        assert(m[0].0 != k);
        let t = m.drop_first();
        assert(!has_key(t, k)) by {
            if has_key(t, k) {
                let j = choose|j: int| 0 <= j < t.len() && #[trigger] t[j].0 == k;
                assert(m[j + 1].0 == k);
            }
        }
        lemma_del_absent(t, k);
        assert(m =~= seq![m[0]] + t);
    }
}


/// A lower bound of `k` and of every key of sorted members bounds every key after `put`, and
/// `put` keeps members sorted.
proof fn lemma_put_sorted(m: Seq<(Seq<char>, JsonValue)>, k: Seq<char>, v: JsonValue, x: Seq<char>)
    requires
        keys_sorted(m),
    ensures
        keys_sorted(put(m, k, v)),
        key_lt(x, k) && (forall|j: int| 0 <= j < m.len() ==> key_lt(x, #[trigger] m[j].0)) ==> (forall|
            j: int,
        | 0 <= j < put(m, k, v).len() ==> key_lt(x, #[trigger] put(m, k, v)[j].0)),
    decreases m.len(),
{
    let p = put(m, k, v);
    if m.len() == 0 {
    } else if key_lt(k, m[0].0) {
        assert forall|i: int, j: int| 0 <= i < j < p.len() implies key_lt(#[trigger] p[i].0, #[trigger] p[j].0) by {
            if i == 0 {
                if j > 1 {
                    lemma_key_order(k, m[0].0, m[j - 1].0);
                }
            } else {
                assert(p[i] == m[i - 1] && p[j] == m[j - 1]);
            }
        }
    } else if k == m[0].0 {
        assert forall|i: int, j: int| 0 <= i < j < p.len() implies key_lt(#[trigger] p[i].0, #[trigger] p[j].0) by {
            assert(p[i].0 == m[i].0 && p[j].0 == m[j].0);
        }
    } else {
        let t = m.drop_first();
        lemma_key_order(m[0].0, k, k);
        assert(keys_sorted(t)) by {
            assert forall|i: int, j: int| 0 <= i < j < t.len() implies key_lt(#[trigger] t[i].0, #[trigger] t[j].0) by {
                assert(t[i] == m[i + 1] && t[j] == m[j + 1]);
            }
        }
        assert forall|j: int| 0 <= j < t.len() implies key_lt(m[0].0, #[trigger] t[j].0) by {
            assert(t[j] == m[j + 1]);
        }
        lemma_put_sorted(t, k, v, m[0].0);
        let pt = put(t, k, v);
        assert(p == seq![m[0]] + pt);
        assert forall|i: int, j: int| 0 <= i < j < p.len() implies key_lt(#[trigger] p[i].0, #[trigger] p[j].0) by {
            if i == 0 {
                assert(p[j] == pt[j - 1]);
            } else {
                assert(p[i] == pt[i - 1] && p[j] == pt[j - 1]);
            }
        }
        if key_lt(x, k) && (forall|j: int| 0 <= j < m.len() ==> key_lt(x, #[trigger] m[j].0)) {
            assert forall|j: int| 0 <= j < p.len() implies key_lt(x, #[trigger] p[j].0) by {
                if j == 0 {
                } else {
                    assert(p[j] == pt[j - 1]);
                    assert forall|l: int| 0 <= l < t.len() implies key_lt(x, #[trigger] t[l].0) by {
                        assert(t[l] == m[l + 1]);
                    }
                    lemma_put_sorted(t, k, v, x);
                }
            }
        }
    }
    if key_lt(x, k) && (forall|j: int| 0 <= j < m.len() ==> key_lt(x, #[trigger] m[j].0)) && m.len() > 0
        && !(!key_lt(k, m[0].0) && k != m[0].0) {
        assert forall|j: int| 0 <= j < p.len() implies key_lt(x, #[trigger] p[j].0) by {
            if key_lt(k, m[0].0) {
                if j > 0 {
                    assert(p[j] == m[j - 1]);
                }
            } else {
                assert(p[j].0 == m[j].0 || j == 0);
            }
        }
    }
}

/// Removing a member keeps members sorted.
proof fn lemma_remove_sorted(m: Seq<(Seq<char>, JsonValue)>, i: int)
    requires
        keys_sorted(m),
        0 <= i < m.len(),
    ensures
        keys_sorted(m.remove(i)),
{
    let r = m.remove(i);
    assert forall|a: int, b: int| 0 <= a < b < r.len() implies key_lt(#[trigger] r[a].0, #[trigger] r[b].0) by {
        let a2 = if a < i { a } else { a + 1 };
        let b2 = if b < i { b } else { b + 1 };
        assert(r[a] == m[a2] && r[b] == m[b2]);
    }
}

/// A JSON document held in memory.
#[derive(Debug)]
pub enum Json {
    Null,
    Bool(bool),
    Int(i64),
    UInt(u64),
    /// A number that is not an integer; its value is not kept.
    Float,
    Str(String),
    Arr(Vec<Json>),
    Obj(JsonObject),
}

/// A JSON object: members kept in key order, each key once.
#[derive(Debug)]
pub struct JsonObject {
    entries: Vec<(String, Json)>,
}

/// The document a value stands for.
pub open spec fn json_view(j: Json) -> JsonValue
    decreases j,
{
    match j {
        Json::Null => JsonValue::Null,
        Json::Bool(b) => JsonValue::Bool(b),
        Json::Int(i) => JsonValue::Int(i as int),
        Json::UInt(u) => JsonValue::Int(u as int),
        Json::Float => JsonValue::Float,
        Json::Str(s) => JsonValue::Str(s@),
        Json::Arr(v) => JsonValue::Arr(values_view(v@)),
        Json::Obj(o) => JsonValue::Obj(o.members()),
    }
}

/// The documents that a sequence of values stands for.
pub open spec fn values_view(s: Seq<Json>) -> Seq<JsonValue>
    decreases s,
{
    if s.len() == 0 {
        Seq::empty()
    } else {
        values_view(s.drop_last()).push(json_view(s.last()))
    }
}

/// The members that a sequence of entries stands for.
spec fn members_view(s: Seq<(String, Json)>) -> Seq<(Seq<char>, JsonValue)>
    decreases s,
{
    if s.len() == 0 {
        Seq::empty()
    } else {
        members_view(s.drop_last()).push((s.last().0@, json_view(s.last().1)))
    }
}

impl View for Json {
    type V = JsonValue;

    open spec fn view(&self) -> JsonValue {
        json_view(*self)
    }
}

pub proof fn lemma_values_view(s: Seq<Json>)
    ensures
        values_view(s).len() == s.len(),
        forall|i: int| 0 <= i < s.len() ==> #[trigger] values_view(s)[i] == json_view(s[i]),
    decreases s.len(),
{
    if s.len() > 0 {
        lemma_values_view(s.drop_last());
    }
}

proof fn lemma_members_view(s: Seq<(String, Json)>)
    ensures
        members_view(s).len() == s.len(),
        forall|i: int| 0 <= i < s.len() ==> #[trigger] members_view(s)[i] == (s[i].0@, json_view(s[i].1)),
    decreases s.len(),
{
    if s.len() > 0 {
        lemma_members_view(s.drop_last());
    }
}

impl JsonObject {
    /// The members, in key order.
    pub closed spec fn members(self) -> Seq<(Seq<char>, JsonValue)>
        decreases self,
    {
        members_view(self.entries@)
    }

    #[verifier::type_invariant]
    spec fn sorted(self) -> bool {
        keys_sorted(members_view(self.entries@))
    }

    /// An object with no members.
    pub fn new() -> (r: Self)
        ensures
            r.members() == no_members(),
    {
        let r = JsonObject { entries: Vec::new() };
        assert(members_view(r.entries@) =~= no_members());
        r
    }

    /// The number of members.
    pub fn len(&self) -> (r: usize)
        ensures
            r == self.members().len(),
    {
        proof {
            lemma_members_view(self.entries@);
        }
        self.entries.len()
    }

    /// Sets member `key` to `value`, keeping key order.
    pub fn insert(&mut self, key: String, value: Json)
        ensures
            final(self).members() == put(old(self).members(), key@, value@),
            keys_sorted(final(self).members()),
    {
        proof {
            use_type_invariant(&*self);
        }
        let ghost m = self.members();
        let mut entries: Vec<(String, Json)> = Vec::new();
        std::mem::swap(&mut entries, &mut self.entries);
        proof {
            lemma_members_view(entries@);
        }
        let n = entries.len();
        let mut i: usize = 0;
        while i < n && key_less(entries[i].0.as_str(), key.as_str())
            invariant
                n == entries@.len(),
                m == members_view(entries@),
                members_view(entries@).len() == n,
                i <= n,
                forall|j: int| 0 <= j < i ==> key_lt(#[trigger] m[j].0, key@),
                forall|j: int| 0 <= j < n ==> #[trigger] m[j] == (entries@[j].0@, json_view(entries@[j].1)),
            decreases n - i,
        {
            i = i + 1;
        }
        let ghost kv = (key@, json_view(value));
        proof {
            lemma_put_at(m, key@, json_view(value), i as int);
            lemma_put_sorted(m, key@, json_view(value), key@);
        }
        if i < n && entries[i].0 == key {
            let ghost old_entries = entries@;
            entries.set(i, (key, value));
            proof {
                lemma_members_view(entries@);
                assert(members_view(entries@) =~= m.take(i as int) + seq![kv] + m.skip(i + 1));
            }
        } else {
            let ghost old_entries = entries@;
            entries.insert(i, (key, value));
            proof {
                lemma_members_view(entries@);
                assert(members_view(entries@) =~= m.take(i as int) + seq![kv] + m.skip(i as int));
            }
        }
        self.entries = entries;
    }

    /// Drops member `key`, if present.
    pub fn remove(&mut self, key: &str)
        ensures
            final(self).members() == del(old(self).members(), key@),
            keys_sorted(final(self).members()),
    {
        proof {
            use_type_invariant(&*self);
        }
        let ghost m = self.members();
        let mut entries: Vec<(String, Json)> = Vec::new();
        std::mem::swap(&mut entries, &mut self.entries);
        proof {
            lemma_members_view(entries@);
        }
        let n = entries.len();
        let mut i: usize = 0;
        while i < n && !str_eq(entries[i].0.as_str(), key)
            invariant
                n == entries@.len(),
                m == members_view(entries@),
                members_view(entries@).len() == n,
                i <= n,
                forall|j: int| 0 <= j < i ==> #[trigger] m[j].0 != key@,
                forall|j: int| 0 <= j < n ==> #[trigger] m[j] == (entries@[j].0@, json_view(entries@[j].1)),
            decreases n - i,
        {
            i = i + 1;
        }
        if i < n {
            proof {
                lemma_del_at(m, key@, i as int);
                lemma_remove_sorted(m, i as int);
            }
            let _ = entries.remove(i);
            proof {
                lemma_members_view(entries@);
                assert(members_view(entries@) =~= m.remove(i as int));
            }
        } else {
            proof {
                assert(!has_key(m, key@));
                lemma_del_absent(m, key@);
            }
        }
        self.entries = entries;
    }
}

impl JsonObject {
    /// The value of member `key`, if there is one.
    pub fn get(&self, key: &str) -> (r: Option<&Json>)
        ensures
            match member(self.members(), key@) {
                Some(v) => r matches Some(j) && j@ == v,
                None => r is None,
            },
    {
        let ghost m = self.members();
        proof {
            lemma_members_view(self.entries@);
            assert(m.subrange(0, m.len() as int) =~= m);
        }
        let n = self.entries.len();
        let mut i: usize = 0;
        while i < n
            invariant
                n == self.entries@.len(),
                m == members_view(self.entries@),
                m.len() == n,
                i <= n,
                member(m, key@) == member(m.subrange(i as int, n as int), key@),
                forall|j: int| 0 <= j < n ==> #[trigger] m[j] == (self.entries@[j].0@, json_view(self.entries@[j].1)),
            decreases n - i,
        {
            assert(m.subrange(i as int, n as int)[0] == m[i as int]);
            if str_eq(self.entries[i].0.as_str(), key) {
                return Some(&self.entries[i].1);
            }
            assert(m.subrange(i as int, n as int).drop_first() =~= m.subrange(i + 1, n as int));
            i = i + 1;
        }
        None
    }
}

impl JsonObject {
    /// The member at position `i` in key order.
    pub fn entry(&self, i: usize) -> (r: (&str, &Json))
        requires
            i < self.members().len(),
        ensures
            r.0@ == self.members()[i as int].0,
            r.1@ == self.members()[i as int].1,
    {
        proof {
            lemma_members_view(self.entries@);
        }
        let e = &self.entries[i];
        (e.0.as_str(), &e.1)
    }
}

impl Json {
    /// The value of member `key`, if this is an object that has one.
    pub fn get(&self, key: &str) -> (r: Option<&Json>)
        ensures
            match json_get(self@, key@) {
                Some(v) => r matches Some(j) && j@ == v,
                None => r is None,
            },
    {
        match self {
            Json::Obj(o) => o.get(key),
            _ => None,
        }
    }
}

/// Whether `a` comes before `b` as an object key.
pub fn key_less(a: &str, b: &str) -> (r: bool)
    ensures
        r == key_lt(a@, b@),
{
    let x = a.as_bytes();
    let y = b.as_bytes();
    let ghost xs = x@;
    let ghost ys = y@;
    let mut i: usize = 0;
    assert(xs.skip(0) =~= xs);
    assert(ys.skip(0) =~= ys);
    while i < x.len() && i < y.len()
        invariant
            xs == x@,
            ys == y@,
            xs == encode_utf8(a@),
            ys == encode_utf8(b@),
            i <= xs.len(),
            i <= ys.len(),
            bytes_lt(xs, ys) == bytes_lt(xs.skip(i as int), ys.skip(i as int)),
        decreases xs.len() - i,
    {
        if x[i] < y[i] {
            return true;
        }
        if x[i] > y[i] {
            return false;
        }
        assert(xs.skip(i as int).drop_first() =~= xs.skip(i + 1));
        assert(ys.skip(i as int).drop_first() =~= ys.skip(i + 1));
        i = i + 1;
    }
    i == x.len() && i < y.len()
}


/// The decimal digits of a natural number, as ASCII bytes.
pub open spec fn decimal(n: nat) -> Seq<u8>
    decreases n,
{
    if n < 10 {
        seq![(48 + n) as u8]
    } else {
        decimal(n / 10).push((48 + n % 10) as u8)
    }
}

/// An integer as JSON writes it: decimal, with `-` before a negative one.
pub open spec fn int_text(i: int) -> Seq<u8> {
    if i < 0 {
        seq![45u8] + decimal((-i) as nat)
    } else {
        decimal(i as nat)
    }
}

/// How one byte of a string's UTF-8 is written inside quotes: `"` and `\` and the control
/// characters are escaped (`\b \f \n \r \t`, else `\u00XX` in lowercase hex); other bytes are
/// kept.
pub open spec fn escape_byte(b: u8) -> Seq<u8> {
    if b == 34 {
        seq![92u8, 34u8]
    } else if b == 92 {
        seq![92u8, 92u8]
    } else if b == 8 {
        seq![92u8, 98u8]
    } else if b == 12 {
        seq![92u8, 102u8]
    } else if b == 10 {
        seq![92u8, 110u8]
    } else if b == 13 {
        seq![92u8, 114u8]
    } else if b == 9 {
        seq![92u8, 116u8]
    } else if b < 32 {
        seq![92u8, 117u8, 48u8, 48u8, hex_digit((b / 16) as int) as u8, hex_digit((b % 16) as int) as u8]
    } else {
        seq![b]
    }
}

/// A byte string with every byte escaped.
pub open spec fn escaped(bs: Seq<u8>) -> Seq<u8>
    decreases bs.len(),
{
    if bs.len() == 0 {
        Seq::empty()
    } else {
        escaped(bs.drop_last()) + escape_byte(bs.last())
    }
}

/// A string as JSON writes it: its escaped UTF-8 between double quotes.
pub open spec fn string_text(s: Seq<char>) -> Seq<u8> {
    seq![34u8] + escaped(encode_utf8(s)) + seq![34u8]
}

/// The canonical encoding of a document without floats.
pub open spec fn canonical(v: JsonValue) -> Seq<u8>
    decreases v,
{
    match v {
        JsonValue::Null => seq![110u8, 117u8, 108u8, 108u8],
        JsonValue::Bool(b) => if b {
            seq![116u8, 114u8, 117u8, 101u8]
        } else {
            seq![102u8, 97u8, 108u8, 115u8, 101u8]
        },
        JsonValue::Int(i) => int_text(i),
        JsonValue::Float => Seq::empty(),
        JsonValue::Str(s) => string_text(s),
        JsonValue::Arr(items) => seq![91u8] + items_text(items) + seq![93u8],
        JsonValue::Obj(m) => seq![123u8] + members_text(m) + seq![125u8],
    }
}

/// Array items, comma-separated.
pub open spec fn items_text(items: Seq<JsonValue>) -> Seq<u8>
    decreases items,
{
    if items.len() == 0 {
        Seq::empty()
    } else if items.len() == 1 {
        canonical(items[0])
    } else {
        items_text(items.drop_last()) + seq![44u8] + canonical(items.last())
    }
}

/// Object members as `"key":value`, comma-separated, in the order given.
pub open spec fn members_text(m: Seq<(Seq<char>, JsonValue)>) -> Seq<u8>
    decreases m,
{
    if m.len() == 0 {
        Seq::empty()
    } else if m.len() == 1 {
        string_text(m[0].0) + seq![58u8] + canonical(m[0].1)
    } else {
        members_text(m.drop_last()) + seq![44u8] + string_text(m.last().0) + seq![58u8] + canonical(
            m.last().1,
        )
    }
}

/// Whether a document holds a float anywhere.
pub open spec fn has_float(v: JsonValue) -> bool
    decreases v,
{
    match v {
        JsonValue::Float => true,
        JsonValue::Arr(items) => items_float(items),
        JsonValue::Obj(m) => members_float(m),
        _ => false,
    }
}

/// Whether some item holds a float.
pub open spec fn items_float(items: Seq<JsonValue>) -> bool
    decreases items,
{
    if items.len() == 0 {
        false
    } else {
        items_float(items.drop_last()) || has_float(items.last())
    }
}

/// Whether some member value holds a float.
pub open spec fn members_float(m: Seq<(Seq<char>, JsonValue)>) -> bool
    decreases m,
{
    if m.len() == 0 {
        false
    } else {
        members_float(m.drop_last()) || has_float(m.last().1)
    }
}

/// Whether every object of a document, at any depth, has its members in strictly increasing key
/// order.
pub open spec fn deep_sorted(v: JsonValue) -> bool
    decreases v,
{
    match v {
        JsonValue::Arr(items) => items_sorted(items),
        JsonValue::Obj(m) => keys_sorted(m) && members_sorted(m),
        _ => true,
    }
}

/// Whether every item is `deep_sorted`.
pub open spec fn items_sorted(items: Seq<JsonValue>) -> bool
    decreases items,
{
    if items.len() == 0 {
        true
    } else {
        items_sorted(items.drop_last()) && deep_sorted(items.last())
    }
}

/// Whether every member value is `deep_sorted`.
pub open spec fn members_sorted(m: Seq<(Seq<char>, JsonValue)>) -> bool
    decreases m,
{
    if m.len() == 0 {
        true
    } else {
        members_sorted(m.drop_last()) && deep_sorted(m.last().1)
    }
}

/// Why a document has no content id.
#[derive(Debug)]
pub enum ContentIdError {
    /// The value could not be turned into JSON.
    Serde(String),
    /// The document holds a float.
    Float,
}

impl ContentIdError {
    /// The message of the error.
    pub fn message(&self) -> (r: String)
        ensures
            r@ == match self {
                ContentIdError::Serde(m) => "serde: "@ + m@,
                ContentIdError::Float => "floats are not allowed in hashed Keel documents"@,
            },
    {
        match self {
            ContentIdError::Serde(m) => crate::text::concat_str("serde: ", m.as_str()),
            ContentIdError::Float => String::from_str("floats are not allowed in hashed Keel documents"),
        }
    }
}

/// Appends the decimal digits of `n`.
fn write_decimal(n: u64, out: &mut Vec<u8>)
    ensures
        final(out)@ == old(out)@ + decimal(n as nat),
    decreases n,
{
    if n >= 10 {
        write_decimal(n / 10, out);
    }
    let d: u8 = (n % 10) as u8;
    out.push(48 + d);
    proof {
        if n < 10 {
            assert(final(out)@ =~= old(out)@ + decimal(n as nat));
        }
    }
}

/// Appends an integer as JSON writes it.
fn write_int(i: i64, out: &mut Vec<u8>)
    ensures
        final(out)@ == old(out)@ + int_text(i as int),
{
    if i < 0 {
        out.push(45);
        let m: u64 = ((-(i + 1)) as u64) + 1;
        let ghost mid = out@;
        write_decimal(m, out);
        assert(out@ =~= old(out)@ + int_text(i as int));
    } else {
        write_decimal(i as u64, out);
    }
}

/// Calls `serde_json::to_vec` on a string. `serde_json` writes a string between double quotes,
/// with `"` and `\` escaped by a backslash, the bytes 0x08, 0x0c, 0x0a, 0x0d, 0x09 as `\b \f
/// \n \r \t`, the other bytes below 0x20 as `\u00` and two lowercase hex digits, and every
/// other byte of its UTF-8 as it is (`format_escaped_str` and its `ESCAPE` table); writing into a
/// `Vec` does not fail. Claims exactly that: the bytes are `string_text` of the string.
#[verifier::external_body]
fn json_string_bytes(s: &str) -> (r: Result<Vec<u8>, String>)
    ensures
        r is Ok,
        r matches Ok(b) ==> b@ == string_text(s@),
{
    serde_json::to_vec(s).map_err(|e| e.to_string())
}

/// Appends a string as JSON writes it.
fn write_string(s: &str, out: &mut Vec<u8>)
    ensures
        final(out)@ == old(out)@ + string_text(s@),
{
    if let Ok(mut b) = json_string_bytes(s) {
        out.append(&mut b);
    }
}

proof fn lemma_item_float(items: Seq<JsonValue>, i: int)
    requires
        0 <= i < items.len(),
        has_float(items[i]),
    ensures
        items_float(items),
    decreases items.len(),
{
    if i < items.len() - 1 {
        lemma_item_float(items.drop_last(), i);
    }
}

proof fn lemma_member_float(m: Seq<(Seq<char>, JsonValue)>, i: int)
    requires
        0 <= i < m.len(),
        has_float(m[i].1),
    ensures
        members_float(m),
    decreases m.len(),
{
    if i < m.len() - 1 {
        lemma_member_float(m.drop_last(), i);
    }
}

/// Appends the canonical encoding of a document, or refuses it for a float.
pub fn write_canonical(v: &Json, out: &mut Vec<u8>) -> (r: Result<(), ContentIdError>)
    ensures
        r is Ok <==> !has_float(v@),
        r is Ok ==> final(out)@ == old(out)@ + canonical(v@),
        r is Ok ==> deep_sorted(v@),
    decreases v,
{
    match v {
        Json::Null => {
            out.push(110);
            out.push(117);
            out.push(108);
            out.push(108);
            assert(out@ =~= old(out)@ + canonical(v@));
        },
        Json::Bool(b) => {
            if *b {
                out.push(116);
                out.push(114);
                out.push(117);
                out.push(101);
            } else {
                out.push(102);
                out.push(97);
                out.push(108);
                out.push(115);
                out.push(101);
            }
            assert(out@ =~= old(out)@ + canonical(v@));
        },
        Json::Int(i) => write_int(*i, out),
        Json::UInt(u) => write_decimal(*u, out),
        Json::Float => {
            return Err(ContentIdError::Float);
        },
        Json::Str(s) => write_string(s.as_str(), out),
        Json::Arr(items) => {
            let ghost start = out@;
            let ghost vs = values_view(items@);
            proof {
                lemma_values_view(items@);
            }
            out.push(91);
            let n = items.len();
            assert(vs.take(0) =~= Seq::<JsonValue>::empty());
            for i in 0..n
                invariant
                    n == items@.len(),
                    vs == values_view(items@),
                    vs.len() == n,
                    forall|j: int| 0 <= j < n ==> #[trigger] vs[j] == json_view(items@[j]),
                    v@ == JsonValue::Arr(vs),
                    *v == Json::Arr(*items),
                    out@ == start + seq![91u8] + items_text(vs.take(i as int)),
                    !items_float(vs.take(i as int)),
                    items_sorted(vs.take(i as int)),
            {
                if i > 0 {
                    out.push(44);
                }
                let item = &items[i];
                proof {
                    assert(decreases_to!(*v => *items));
                    assert(decreases_to!(*items => items@));
                    assert(decreases_to!(items@ => items@[i as int]));
                }
                match write_canonical(item, out) {
                    Ok(()) => {},
                    Err(e) => {
                        proof {
                            lemma_item_float(vs, i as int);
                        }
                        return Err(e);
                    },
                }
                assert(vs.take(i + 1).drop_last() =~= vs.take(i as int));
                assert(out@ =~= start + seq![91u8] + items_text(vs.take(i + 1)));
            }
            assert(vs.take(n as int) =~= vs);
            out.push(93);
            assert(out@ =~= old(out)@ + canonical(v@));
        },
        Json::Obj(o) => {
            let ghost start = out@;
            let ghost ms = o.members();
            proof {
                lemma_members_view(o.entries@);
                use_type_invariant(o);
            }
            out.push(123);
            let n = o.entries.len();
            assert(ms.take(0) =~= Seq::<(Seq<char>, JsonValue)>::empty());
            for i in 0..n
                invariant
                    n == o.entries@.len(),
                    ms == o.members(),
                    ms.len() == n,
                    forall|j: int| 0 <= j < n ==> #[trigger] ms[j] == (o.entries@[j].0@, json_view(o.entries@[j].1)),
                    v@ == JsonValue::Obj(ms),
                    *v == Json::Obj(*o),
                    out@ == start + seq![123u8] + members_text(ms.take(i as int)),
                    !members_float(ms.take(i as int)),
                    members_sorted(ms.take(i as int)),
                    keys_sorted(ms),
            {
                if i > 0 {
                    out.push(44);
                }
                let entry = &o.entries[i];
                write_string(entry.0.as_str(), out);
                out.push(58);
                proof {
                    assert(decreases_to!(*v => *o));
                    assert(decreases_to!(*o => o.entries));
                    assert(decreases_to!(o.entries => o.entries@));
                    assert(decreases_to!(o.entries@ => o.entries@[i as int]));
                    assert(decreases_to!(o.entries@[i as int] => o.entries@[i as int].1));
                }
                match write_canonical(&entry.1, out) {
                    Ok(()) => {},
                    Err(e) => {
                        proof {
                            lemma_member_float(ms, i as int);
                        }
                        return Err(e);
                    },
                }
                assert(ms.take(i + 1).drop_last() =~= ms.take(i as int));
                assert(out@ =~= start + seq![123u8] + members_text(ms.take(i + 1)));
            }
            assert(ms.take(n as int) =~= ms);
            out.push(125);
            assert(out@ =~= old(out)@ + canonical(v@));
        },
    }
    Ok(())
}


/// A value with a JSON form: the document that Keel hashes and signs for it.
pub trait ToJson {
    /// The JSON document of the value.
    spec fn json(&self) -> JsonValue;

    /// Builds the JSON document of the value.
    fn to_json(&self) -> (j: Json)
        ensures
            j@ == self.json(),
    ;
}

/// A copy of a document.
pub fn copy_json(v: &Json) -> (r: Json)
    ensures
        r@ == v@,
    decreases v,
{
    match v {
        Json::Null => Json::Null,
        Json::Bool(b) => Json::Bool(*b),
        Json::Int(i) => Json::Int(*i),
        Json::UInt(u) => Json::UInt(*u),
        Json::Float => Json::Float,
        Json::Str(s) => Json::Str(s.clone()),
        Json::Arr(items) => {
            let mut copies: Vec<Json> = Vec::new();
            let n = items.len();
            proof {
                lemma_values_view(items@);
            }
            for i in 0..n
                invariant
                    n == items@.len(),
                    *v == Json::Arr(*items),
                    v@ == JsonValue::Arr(values_view(items@)),
                    copies@.len() == i,
                    forall|j: int| 0 <= j < i ==> json_view(#[trigger] copies@[j]) == json_view(items@[j]),
            {
                proof {
                    assert(decreases_to!(*v => *items));
                    assert(decreases_to!(*items => items@));
                    assert(decreases_to!(items@ => items@[i as int]));
                }
                let c = copy_json(&items[i]);
                copies.push(c);
            }
            proof {
                lemma_values_view(copies@);
                assert(values_view(copies@) =~= values_view(items@));
            }
            Json::Arr(copies)
        },
        Json::Obj(o) => {
            proof {
                use_type_invariant(o);
            }
            let mut copies: Vec<(String, Json)> = Vec::new();
            let n = o.entries.len();
            proof {
                lemma_members_view(o.entries@);
            }
            for i in 0..n
                invariant
                    n == o.entries@.len(),
                    *v == Json::Obj(*o),
                    v@ == JsonValue::Obj(o.members()),
                    copies@.len() == i,
                    forall|j: int| 0 <= j < i ==> (#[trigger] copies@[j]).0@ == o.entries@[j].0@,
                    forall|j: int| 0 <= j < i ==> json_view((#[trigger] copies@[j]).1) == json_view(o.entries@[j].1),
            {
                proof {
                    assert(decreases_to!(*v => *o));
                    assert(decreases_to!(*o => o.entries));
                    assert(decreases_to!(o.entries => o.entries@));
                    assert(decreases_to!(o.entries@ => o.entries@[i as int]));
                    assert(decreases_to!(o.entries@[i as int] => o.entries@[i as int].1));
                }
                let k = o.entries[i].0.clone();
                let c = copy_json(&o.entries[i].1);
                copies.push((k, c));
            }
            proof {
                lemma_members_view(copies@);
                assert(members_view(copies@) =~= members_view(o.entries@));
            }
            Json::Obj(JsonObject { entries: copies })
        },
    }
}

impl Clone for Json {
    fn clone(&self) -> (r: Self)
        ensures
            r@ == self@,
    {
        copy_json(self)
    }
}

impl ToJson for Json {
    open spec fn json(&self) -> JsonValue {
        self@
    }

    fn to_json(&self) -> (j: Json) {
        copy_json(self)
    }
}

impl ToJson for String {
    open spec fn json(&self) -> JsonValue {
        JsonValue::Str(self@)
    }

    fn to_json(&self) -> (j: Json) {
        Json::Str(self.clone())
    }
}

impl<'a> ToJson for &'a str {
    open spec fn json(&self) -> JsonValue {
        JsonValue::Str((*self)@)
    }

    fn to_json(&self) -> (j: Json) {
        Json::Str((*self).to_owned())
    }
}

/// The canonical JSON bytes of a value: refused exactly when its document holds a float.
pub fn canonical_json<T: ToJson>(value: &T) -> (r: Result<Vec<u8>, ContentIdError>)
    ensures
        r is Ok <==> !has_float(value.json()),
        r matches Ok(b) ==> b@ == canonical(value.json()),
        r is Ok ==> deep_sorted(value.json()),
        r matches Err(e) ==> e is Float,
{
    let v = value.to_json();
    let mut out: Vec<u8> = Vec::new();
    match write_canonical(&v, &mut out) {
        Ok(()) => {
            assert(out@ =~= canonical(value.json()));
            Ok(out)
        },
        Err(_) => Err(ContentIdError::Float),
    }
}

/// A document without its top-level member `k`; anything but an object is left as it is.
pub open spec fn without_member(v: JsonValue, k: Seq<char>) -> JsonValue {
    match v {
        JsonValue::Obj(m) => JsonValue::Obj(del(m, k)),
        other => other,
    }
}

/// The document without top-level member `key` (e.g. `signatures` on a manifest, before hashing).
/// Anything but an object is returned as it is. An object's keys are in strictly increasing order
/// before and after, so no member `key` is left.
pub fn without_key(v: Json, key: &str) -> (r: Json)
    ensures
        r@ == without_member(v@, key@),
        v@ matches JsonValue::Obj(m) ==> keys_sorted(m),
        r@ matches JsonValue::Obj(m) ==> keys_sorted(m) && !has_key(m, key@),
{
    match v {
        Json::Obj(mut o) => {
            proof {
                use_type_invariant(&o);
                lemma_del_sorted_drops_key(o.members(), key@);
            }
            o.remove(key);
            Json::Obj(o)
        },
        other => other,
    }
}

/// In members with no key twice, `del` leaves no member with the key.
proof fn lemma_del_sorted_drops_key(m: Seq<(Seq<char>, JsonValue)>, k: Seq<char>)
    requires
        keys_sorted(m),
    ensures
        !has_key(del(m, k), k),
{
    if has_key(m, k) {
        let i = choose|i: int| 0 <= i < m.len() && #[trigger] m[i].0 == k;
        assert forall|j: int| 0 <= j < i implies m[j].0 != k by {
            assert(key_lt(m[j].0, m[i].0));
            lemma_key_order(k, k, k);
        }
        lemma_del_at(m, k, i);
        let d = m.remove(i);
        if has_key(d, k) {
            let j = choose|j: int| 0 <= j < d.len() && #[trigger] d[j].0 == k;
            let j2 = if j < i { j } else { j + 1 };
            assert(d[j] == m[j2]);
            if j2 < i {
                assert(key_lt(m[j2].0, m[i].0));
            } else {
                assert(key_lt(m[i].0, m[j2].0));
            }
            lemma_key_order(k, k, k);
        }
    } else {
        lemma_del_absent(m, k);
    }
}

/// Removing a top-level member twice is removing it once, for a document whose object (if it
/// is one) has no key twice, as every object this library builds.
pub proof fn law_without_key_idempotent(v: JsonValue, k: Seq<char>)
    requires
        v matches JsonValue::Obj(m) ==> keys_sorted(m),
    ensures
        without_member(without_member(v, k), k) == without_member(v, k),
{
    if let JsonValue::Obj(m) = v {
        lemma_del_sorted_drops_key(m, k);
        lemma_del_absent(del(m, k), k);
    }
}

/// The members of a value's document; a document that is not an object becomes the single
/// member `value`.
pub fn object_from_serialize<T: ToJson>(value: &T) -> (r: Result<JsonObject, ContentIdError>)
    ensures
        r matches Ok(o) && o.members() == match value.json() {
            JsonValue::Obj(m) => m,
            other => put(no_members(), "value"@, other),
        },
{
    match value.to_json() {
        Json::Obj(o) => Ok(o),
        other => {
            let mut o = JsonObject::new();
            o.insert(String::from_str("value"), other);
            Ok(o)
        },
    }
}


/// The documents of the items of a sequence.
pub open spec fn items_json<T: ToJson>(s: Seq<T>) -> Seq<JsonValue> {
    s.map_values(|x: T| x.json())
}

impl<T: ToJson> ToJson for Vec<T> {
    open spec fn json(&self) -> JsonValue {
        JsonValue::Arr(items_json(self@))
    }

    fn to_json(&self) -> (j: Json) {
        let mut items: Vec<Json> = Vec::new();
        let n = self.len();
        for i in 0..n
            invariant
                n == self@.len(),
                items@.len() == i,
                forall|j: int| 0 <= j < i ==> json_view(#[trigger] items@[j]) == self@[j].json(),
        {
            items.push(self[i].to_json());
        }
        proof {
            lemma_values_view(items@);
            assert(values_view(items@) =~= items_json(self@));
        }
        Json::Arr(items)
    }
}

/// A document that is a string.
pub fn json_str(s: &str) -> (r: Json)
    ensures
        r@ == JsonValue::Str(s@),
{
    Json::Str(s.to_owned())
}


/// `members_float` holds exactly when some member value holds a float.
proof fn lemma_members_float_index(m: Seq<(Seq<char>, JsonValue)>)
    ensures
        members_float(m) <==> exists|i: int| 0 <= i < m.len() && has_float(#[trigger] m[i].1),
    decreases m.len(),
{
    if m.len() > 0 {
        lemma_members_float_index(m.drop_last());
        if members_float(m.drop_last()) {
            let i = choose|i: int| 0 <= i < m.drop_last().len() && has_float(#[trigger] m.drop_last()[i].1);
            assert(m[i] == m.drop_last()[i]);
        }
        if exists|i: int| 0 <= i < m.len() && has_float(#[trigger] m[i].1) {
            let i = choose|i: int| 0 <= i < m.len() && has_float(#[trigger] m[i].1);
            if i < m.len() - 1 {
                assert(m.drop_last()[i] == m[i]);
            }
        }
    }
}

/// Every member of `put(m, k, v)` is `(k, v)` or a member of `m`, and it has key `x` exactly when
/// `x` is `k` or a key of `m`.
pub proof fn lemma_put_members(m: Seq<(Seq<char>, JsonValue)>, k: Seq<char>, v: JsonValue)
    ensures
        forall|i: int| 0 <= i < put(m, k, v).len() ==> #[trigger] put(m, k, v)[i] == (k, v) || m.contains(put(m, k, v)[i]),
        forall|x: Seq<char>| #[trigger] has_key(put(m, k, v), x) <==> (x == k || has_key(m, x)),
    decreases m.len(),
{
    let p = put(m, k, v);
    if m.len() > 0 {
        let t = m.drop_first();
        lemma_put_members(t, k, v);
        if key_lt(k, m[0].0) {
            assert forall|i: int| 0 <= i < p.len() implies #[trigger] p[i] == (k, v) || m.contains(p[i]) by {
                if i > 0 {
                    assert(p[i] == m[i - 1]);
                }
            }
            assert forall|x: Seq<char>| #[trigger] has_key(p, x) <==> (x == k || has_key(m, x)) by {
                if has_key(p, x) {
                    let i = choose|i: int| 0 <= i < p.len() && #[trigger] p[i].0 == x;
                    if i > 0 {
                        assert(m[i - 1].0 == x);
                    }
                }
                if has_key(m, x) {
                    let i = choose|i: int| 0 <= i < m.len() && #[trigger] m[i].0 == x;
                    assert(p[i + 1].0 == x);
                }
                if x == k {
                    assert(p[0].0 == x);
                }
            }
        } else if k == m[0].0 {
            assert forall|i: int| 0 <= i < p.len() implies #[trigger] p[i] == (k, v) || m.contains(p[i]) by {
                if i > 0 {
                    assert(p[i] == m[i]);
                }
            }
            assert forall|x: Seq<char>| #[trigger] has_key(p, x) <==> (x == k || has_key(m, x)) by {
                if has_key(p, x) {
                    let i = choose|i: int| 0 <= i < p.len() && #[trigger] p[i].0 == x;
                    if i > 0 {
                        assert(m[i].0 == x);
                    }
                }
                if has_key(m, x) {
                    let i = choose|i: int| 0 <= i < m.len() && #[trigger] m[i].0 == x;
                    assert(p[i].0 == x);
                }
                if x == k {
                    assert(p[0].0 == x);
                }
            }
        } else {
            let pt = put(t, k, v);
            assert(p == seq![m[0]] + pt);
            assert forall|i: int| 0 <= i < p.len() implies #[trigger] p[i] == (k, v) || m.contains(p[i]) by {
                if i == 0 {
                    assert(m[0] == p[0]);
                } else {
                    assert(p[i] == pt[i - 1]);
                    if t.contains(pt[i - 1]) {
                        let j = choose|j: int| 0 <= j < t.len() && t[j] == pt[i - 1];
                        assert(m[j + 1] == t[j]);
                    }
                }
            }
            assert forall|x: Seq<char>| #[trigger] has_key(p, x) <==> (x == k || has_key(m, x)) by {
                if has_key(p, x) {
                    let i = choose|i: int| 0 <= i < p.len() && #[trigger] p[i].0 == x;
                    if i > 0 {
                        assert(pt[i - 1].0 == x);
                        assert(has_key(pt, x));
                        if has_key(t, x) {
                            let j = choose|j: int| 0 <= j < t.len() && #[trigger] t[j].0 == x;
                            assert(m[j + 1].0 == x);
                        }
                    }
                }
                if has_key(m, x) {
                    let i = choose|i: int| 0 <= i < m.len() && #[trigger] m[i].0 == x;
                    if i > 0 {
                        assert(t[i - 1].0 == x);
                        assert(has_key(pt, x));
                        let j = choose|j: int| 0 <= j < pt.len() && #[trigger] pt[j].0 == x;
                        assert(p[j + 1].0 == x);
                    } else {
                        assert(p[0].0 == x);
                    }
                }
                if x == k {
                    assert(has_key(pt, x));
                    let j = choose|j: int| 0 <= j < pt.len() && #[trigger] pt[j].0 == x;
                    assert(p[j + 1].0 == x);
                }
            }
        }
    } else {
        assert forall|x: Seq<char>| #[trigger] has_key(p, x) <==> (x == k || has_key(m, x)) by {
            if x == k {
                assert(p[0].0 == x);
            }
        }
    }
}

/// Setting a member to a value without floats keeps an object free of floats.
pub proof fn lemma_put_no_float(m: Seq<(Seq<char>, JsonValue)>, k: Seq<char>, v: JsonValue)
    requires
        !members_float(m),
        !has_float(v),
    ensures
        !members_float(put(m, k, v)),
{
    lemma_put_members(m, k, v);
    lemma_members_float_index(m);
    lemma_members_float_index(put(m, k, v));
    let p = put(m, k, v);
    assert forall|i: int| 0 <= i < p.len() implies !has_float(#[trigger] p[i].1) by {
        if p[i] != (k, v) {
            let j = choose|j: int| 0 <= j < m.len() && m[j] == p[i];
            assert(!has_float(m[j].1));
        }
    }
}

/// Removing a key after setting it is removing it from the start: what the key held before
/// makes no difference.
pub proof fn lemma_del_put(m: Seq<(Seq<char>, JsonValue)>, k: Seq<char>, v: JsonValue)
    requires
        keys_sorted(m),
    ensures
        del(put(m, k, v), k) == del(m, k),
    decreases m.len(),
{
    if m.len() == 0 {
        assert(del(put(m, k, v), k) =~= del(m, k));
    } else if key_lt(k, m[0].0) {
        assert((seq![(k, v)] + m).drop_first() =~= m);
        assert(!has_key(m, k)) by {
            if has_key(m, k) {
                let j = choose|j: int| 0 <= j < m.len() && #[trigger] m[j].0 == k;
                if j > 0 {
                    lemma_key_order(k, m[0].0, m[j].0);
                }
                lemma_key_order(k, k, k);
            }
        }
        lemma_del_absent(m, k);
    } else if k == m[0].0 {
        assert((seq![(k, v)] + m.drop_first()).drop_first() =~= m.drop_first());
    } else {
        let t = m.drop_first();
        assert(keys_sorted(t)) by {
            assert forall|i: int, j: int| 0 <= i < j < t.len() implies key_lt(#[trigger] t[i].0, #[trigger] t[j].0) by {
                assert(t[i] == m[i + 1] && t[j] == m[j + 1]);
            }
        }
        lemma_del_put(t, k, v);
        let p = seq![m[0]] + put(t, k, v);
        assert(p.drop_first() =~= put(t, k, v));
        assert(p[0].0 != k);
    }
}


/// Items none of which holds a float hold no float.
pub proof fn lemma_items_no_float(items: Seq<JsonValue>)
    requires
        forall|i: int| 0 <= i < items.len() ==> !has_float(#[trigger] items[i]),
    ensures
        !items_float(items),
    decreases items.len(),
{
    if items.len() > 0 {
        let t = items.drop_last();
        assert forall|i: int| 0 <= i < t.len() implies !has_float(#[trigger] t[i]) by {
            assert(t[i] == items[i]);
        }
        lemma_items_no_float(t);
    }
}

/// Setting a member keeps members sorted.
pub proof fn lemma_put_keeps_sorted(m: Seq<(Seq<char>, JsonValue)>, k: Seq<char>, v: JsonValue)
    requires
        keys_sorted(m),
    ensures
        keys_sorted(put(m, k, v)),
{
    lemma_put_sorted(m, k, v, k);
}

/// Removing an absent key changes nothing.
pub proof fn lemma_del_missing(m: Seq<(Seq<char>, JsonValue)>, k: Seq<char>)
    requires
        !has_key(m, k),
    ensures
        del(m, k) == m,
{
    lemma_del_absent(m, k);
}


/// Setting member `k` gives `k` the new value and leaves every other member as it was.
pub proof fn lemma_member_put(m: Seq<(Seq<char>, JsonValue)>, k: Seq<char>, v: JsonValue, x: Seq<char>)
    ensures
        member(put(m, k, v), x) == if x == k { Some(v) } else { member(m, x) },
    decreases m.len(),
{
    if m.len() == 0 {
        assert(seq![(k, v)].drop_first() =~= m);
    } else {
        let t = m.drop_first();
        if key_lt(k, m[0].0) {
            assert((seq![(k, v)] + m).drop_first() =~= m);
            assert((seq![(k, v)] + m)[0] == (k, v));
        } else if k == m[0].0 {
            assert((seq![(k, v)] + t).drop_first() =~= t);
            assert((seq![(k, v)] + t)[0] == (k, v));
        } else {
            lemma_member_put(t, k, v, x);
            assert((seq![m[0]] + put(t, k, v)).drop_first() =~= put(t, k, v));
            assert((seq![m[0]] + put(t, k, v))[0] == m[0]);
        }
    }
}

/// An object made by setting two different keys has those two members.
pub proof fn lemma_two_members(a: Seq<char>, va: JsonValue, b: Seq<char>, vb: JsonValue)
    requires
        a != b,
    ensures
        put(put(no_members(), a, va), b, vb).len() == 2,
        member(put(put(no_members(), a, va), b, vb), a) == Some(va),
        member(put(put(no_members(), a, va), b, vb), b) == Some(vb),
{
    let one = put(no_members(), a, va);
    assert(one =~= seq![(a, va)]);
    lemma_member_put(no_members(), a, va, a);
    lemma_member_put(one, b, vb, a);
    lemma_member_put(one, b, vb, b);
    let t = one.drop_first();
    assert(t.len() == 0);
    if !key_lt(b, one[0].0) {
        assert(put(one, b, vb) == seq![one[0]] + put(t, b, vb));
    }
}

/// In members sorted by key, a key below the first one is absent.
proof fn lemma_member_below_first(m: Seq<(Seq<char>, JsonValue)>, x: Seq<char>)
    requires
        keys_sorted(m),
        m.len() > 0,
        key_lt(x, m[0].0),
    ensures
        member(m, x) is None,
    decreases m.len(),
{
    lemma_key_order(x, m[0].0, x);
    lemma_key_order(x, x, x);
    assert(x != m[0].0);
    let t = m.drop_first();
    assert(member(m, x) == member(t, x));
    if t.len() > 0 {
        assert(key_lt(m[0].0, m[1].0));
        assert(t[0] == m[1]);
        lemma_key_order(x, m[0].0, t[0].0);
        assert forall|i: int, j: int| 0 <= i < j < t.len() implies key_lt(#[trigger] t[i].0, #[trigger] t[j].0) by {
            assert(t[i] == m[i + 1] && t[j] == m[j + 1]);
        }
        lemma_member_below_first(t, x);
    }
}

/// Objects whose members are sorted by key and have the same value under every key are the same
/// object, and so have the same canonical text.
pub proof fn law_members_determine_object(s: Seq<(Seq<char>, JsonValue)>, t: Seq<(Seq<char>, JsonValue)>)
    requires
        keys_sorted(s),
        keys_sorted(t),
        forall|x: Seq<char>| #[trigger] member(s, x) == member(t, x),
    ensures
        s == t,
    decreases s.len(),
{
    if s.len() == 0 {
        if t.len() > 0 {
            assert(member(t, t[0].0) == Some(t[0].1));
            assert(member(s, t[0].0) is None);
        }
        assert(s =~= t);
    } else {
        if t.len() == 0 {
            assert(member(s, s[0].0) == Some(s[0].1));
            assert(member(t, s[0].0) is None);
        }
        let a = s[0].0;
        let b = t[0].0;
        lemma_key_order(a, b, a);
        if key_lt(a, b) {
            lemma_member_below_first(t, a);
            assert(member(s, a) == Some(s[0].1));
        }
        if key_lt(b, a) {
            lemma_member_below_first(s, b);
            assert(member(t, b) == Some(t[0].1));
        }
        assert(a == b);
        assert(member(s, a) == Some(s[0].1));
        assert(member(t, a) == Some(t[0].1));
        let s2 = s.drop_first();
        let t2 = t.drop_first();
        assert forall|i: int, j: int| 0 <= i < j < s2.len() implies key_lt(#[trigger] s2[i].0, #[trigger] s2[j].0) by {
            assert(s2[i] == s[i + 1] && s2[j] == s[j + 1]);
        }
        assert forall|i: int, j: int| 0 <= i < j < t2.len() implies key_lt(#[trigger] t2[i].0, #[trigger] t2[j].0) by {
            assert(t2[i] == t[i + 1] && t2[j] == t[j + 1]);
        }
        assert forall|x: Seq<char>| #[trigger] member(s2, x) == member(t2, x) by {
            if x == a {
                if s2.len() > 0 {
                    assert(key_lt(s[0].0, s[1].0));
                    lemma_member_below_first(s2, x);
                }
                if t2.len() > 0 {
                    assert(key_lt(t[0].0, t[1].0));
                    lemma_member_below_first(t2, x);
                }
            } else {
                assert(member(s, x) == member(s2, x));
                assert(member(t, x) == member(t2, x));
            }
        }
        law_members_determine_object(s2, t2);
        assert(s =~= seq![s[0]] + s2);
        assert(t =~= seq![t[0]] + t2);
    }
}

/// Setting two different members gives the same object in either order, so an object's canonical
/// text does not depend on the order its members were set in.
pub proof fn law_set_order_irrelevant(m: Seq<(Seq<char>, JsonValue)>, a: Seq<char>, va: JsonValue, b: Seq<char>, vb: JsonValue)
    requires
        keys_sorted(m),
        a != b,
    ensures
        put(put(m, a, va), b, vb) == put(put(m, b, vb), a, va),
{
    let l = put(put(m, a, va), b, vb);
    let r = put(put(m, b, vb), a, va);
    lemma_put_keeps_sorted(m, a, va);
    lemma_put_keeps_sorted(put(m, a, va), b, vb);
    lemma_put_keeps_sorted(m, b, vb);
    lemma_put_keeps_sorted(put(m, b, vb), a, va);
    assert forall|x: Seq<char>| #[trigger] member(l, x) == member(r, x) by {
        lemma_member_put(m, a, va, x);
        lemma_member_put(put(m, a, va), b, vb, x);
        lemma_member_put(m, b, vb, x);
        lemma_member_put(put(m, b, vb), a, va, x);
    }
    law_members_determine_object(l, r);
}

} // verus!
