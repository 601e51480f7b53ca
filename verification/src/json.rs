//! JSON documents as the merger reads and writes them.
//!
//! A document is held as [`JsonValue`]; its mathematical value is [`Json`].
//! Object members keep the order of the map they were read from, which is the
//! key order of that map.
use vstd::prelude::*;

use crate::text::{
    chars_of, escape_chars, escaped, extend_chars, lemma_lex_total,
    lemma_lex_transitive, lex_lt, str_eq, str_less,
};

verus! {

/// The mathematical value of a JSON document. Numbers are kept as the text
/// that writes them.
pub enum Json {
    Null,
    Bool(bool),
    Number(Seq<char>),
    Str(Seq<char>),
    Array(Seq<Json>),
    Object(Seq<(Seq<char>, Json)>),
}

/// A JSON document. Numbers hold the text that writes them; an object holds
/// its members in order.
pub enum JsonValue {
    Null,
    Bool(bool),
    Number(String),
    String(String),
    Array(Vec<JsonValue>),
    Object(Vec<(String, JsonValue)>),
}

/// The value of a document.
pub open spec fn model(v: JsonValue) -> Json
    decreases v,
{
    match v {
        JsonValue::Null => Json::Null,
        JsonValue::Bool(b) => Json::Bool(b),
        JsonValue::Number(n) => Json::Number(n@),
        JsonValue::String(s) => Json::Str(s@),
        JsonValue::Array(items) => Json::Array(
            Seq::new(
                items@.len(),
                |i: int|
                    if 0 <= i < items@.len() {
                        model(items@[i])
                    } else {
                        Json::Null
                    },
            ),
        ),
        JsonValue::Object(e) => Json::Object(
            Seq::new(
                e@.len(),
                |i: int|
                    if 0 <= i < e@.len() {
                        (e@[i].0@, model(e@[i].1))
                    } else {
                        (Seq::empty(), Json::Null)
                    },
            ),
        ),
    }
}

impl View for JsonValue {
    type V = Json;

    open spec fn view(&self) -> Json {
        model(*self)
    }
}

/// The value of an object's members.
pub open spec fn members_model(e: Seq<(String, JsonValue)>) -> Seq<(Seq<char>, Json)> {
    Seq::new(e.len(), |i: int| (e[i].0@, model(e[i].1)))
}

/// The value of an object is the value of its members.
pub proof fn lemma_object_model(e: Vec<(String, JsonValue)>)
    ensures
        model(JsonValue::Object(e)) == Json::Object(members_model(e@)),
{
    let m = model(JsonValue::Object(e));
    assert(m->Object_0 =~= members_model(e@));
}

// ---------------------------------------------------------------------------
// Text of a document
// ---------------------------------------------------------------------------

/// Two spaces: one level of indentation.
pub open spec fn two_spaces() -> Seq<char> {
    seq![' ', ' ']
}

/// `"  ".repeat(n)`.
pub open spec fn spaces(n: nat) -> Seq<char>
    decreases n,
{
    if n == 0 {
        Seq::empty()
    } else {
        spaces((n - 1) as nat) + two_spaces()
    }
}

/// The text of a value whose enclosing lines are indented by `pad`.
pub open spec fn render(v: Json, pad: Seq<char>) -> Seq<char>
    decreases v,
{
    match v {
        Json::Null => seq!['n', 'u', 'l', 'l'],
        Json::Bool(b) => if b {
            seq!['t', 'r', 'u', 'e']
        } else {
            seq!['f', 'a', 'l', 's', 'e']
        },
        Json::Number(t) => t,
        Json::Str(s) => seq!['"'] + escaped(s) + seq!['"'],
        Json::Array(items) => if items.len() == 0 {
            seq!['[', ']', '\n']
        } else {
            seq!['[', '\n'] + array_body(items, items.len(), pad) + seq!['\n'] + pad + seq![']']
        },
        Json::Object(e) => if e.len() == 0 {
            seq!['{', '}', '\n']
        } else {
            seq!['{', '\n'] + object_body(e, e.len(), pad) + seq!['\n'] + pad + seq!['}']
        },
    }
}

/// The first `n` items of an array, one per line, separated by `",\n"`.
pub open spec fn array_body(items: Seq<Json>, n: nat, pad: Seq<char>) -> Seq<char>
    decreases items, n,
{
    if n == 0 || n > items.len() {
        Seq::empty()
    } else if n == 1 {
        pad + two_spaces() + render(items[0], pad + two_spaces())
    } else {
        array_body(items, (n - 1) as nat, pad) + seq![',', '\n'] + pad + two_spaces() + render(
            items[n - 1],
            pad + two_spaces(),
        )
    }
}

/// One member line: the key in quotes (as it is), a colon, and the value.
pub open spec fn member_line(k: Seq<char>, v: Json, pad: Seq<char>) -> Seq<char> {
    pad + two_spaces() + seq!['"'] + k + seq!['"', ':', ' '] + render(v, pad + two_spaces())
}

/// The first `n` members of an object, one per line, separated by `",\n"`.
pub open spec fn object_body(e: Seq<(Seq<char>, Json)>, n: nat, pad: Seq<char>) -> Seq<char>
    decreases e, n,
{
    if n == 0 || n > e.len() {
        Seq::empty()
    } else if n == 1 {
        pad + two_spaces() + seq!['"'] + e[0].0 + seq!['"', ':', ' '] + render(
            e[0].1,
            pad + two_spaces(),
        )
    } else {
        object_body(e, (n - 1) as nat, pad) + seq![',', '\n'] + pad + two_spaces() + seq!['"']
            + e[n - 1].0 + seq!['"', ':', ' '] + render(e[n - 1].1, pad + two_spaces())
    }
}

// ---------------------------------------------------------------------------
// Members of an object
// ---------------------------------------------------------------------------

/// The position of the first member named `k`, if there is one.
pub open spec fn first_index(e: Seq<(Seq<char>, Json)>, k: Seq<char>) -> Option<int> {
    if exists|i: int| 0 <= i < e.len() && e[i].0 == k {
        Some(
            choose|i: int|
                0 <= i < e.len() && e[i].0 == k && forall|j: int| 0 <= j < i ==> e[j].0 != k,
        )
    } else {
        None
    }
}

/// A position is the first member named `k`.
pub open spec fn is_first_index(e: Seq<(Seq<char>, Json)>, k: Seq<char>, i: int) -> bool {
    0 <= i < e.len() && e[i].0 == k && forall|j: int| 0 <= j < i ==> e[j].0 != k
}

/// `first_index` finds the first member with the key, or tells that none has it.
pub proof fn lemma_first_index(e: Seq<(Seq<char>, Json)>, k: Seq<char>, i: int)
    ensures
        is_first_index(e, k, i) ==> first_index(e, k) == Some(i),
        (forall|j: int| 0 <= j < e.len() ==> e[j].0 != k) ==> first_index(e, k) is None,
{
    if is_first_index(e, k, i) {
        assert(exists|i: int| 0 <= i < e.len() && e[i].0 == k);
        let c = choose|c: int|
            0 <= c < e.len() && e[c].0 == k && forall|j: int| 0 <= j < c ==> e[j].0 != k;
        assert(is_first_index(e, k, c));
        if c < i {
            assert(e[c].0 != k);
        }
        if i < c {
            assert(e[i].0 != k);
        }
    }
}

/// Inserting a member as a map sorted by key does: a member with the same key
/// gets the new value; otherwise the new member goes before the first member
/// whose key is greater.
pub open spec fn insert_member(e: Seq<(Seq<char>, Json)>, k: Seq<char>, v: Json) -> Seq<
    (Seq<char>, Json),
>
    decreases e.len(),
{
    if e.len() == 0 {
        seq![(k, v)]
    } else if e[0].0 == k {
        seq![(k, v)] + e.skip(1)
    } else if lex_lt(k, e[0].0) {
        seq![(k, v)] + e
    } else {
        seq![e[0]] + insert_member(e.skip(1), k, v)
    }
}

/// The keys are in strictly increasing order.
pub open spec fn keys_sorted(e: Seq<(Seq<char>, Json)>) -> bool {
    forall|i: int, j: int| 0 <= i < j < e.len() ==> lex_lt(#[trigger] e[i].0, #[trigger] e[j].0)
}

/// The value stored under key `k`, if any, in a member sequence.
pub open spec fn lookup(e: Seq<(Seq<char>, Json)>, k: Seq<char>) -> Option<Json> {
    match first_index(e, k) {
        Some(i) => Some(e[i].1),
        None => None,
    }
}

pub proof fn lemma_members_update(e: Seq<(String, JsonValue)>, i: int, x: (String, JsonValue))
    requires
        0 <= i < e.len(),
    ensures
        members_model(e.update(i, x)) == members_model(e).update(i, (x.0@, model(x.1))),
{
    assert(members_model(e.update(i, x)) =~= members_model(e).update(i, (x.0@, model(x.1))));
}

pub proof fn lemma_members_insert(e: Seq<(String, JsonValue)>, i: int, x: (String, JsonValue))
    requires
        0 <= i <= e.len(),
    ensures
        members_model(e.insert(i, x)) == members_model(e).insert(i, (x.0@, model(x.1))),
{
    assert(members_model(e.insert(i, x)) =~= members_model(e).insert(i, (x.0@, model(x.1))));
}

pub proof fn lemma_members_push(e: Seq<(String, JsonValue)>, x: (String, JsonValue))
    ensures
        members_model(e.push(x)) == members_model(e).push((x.0@, model(x.1))),
{
    assert(members_model(e.push(x)) =~= members_model(e).push((x.0@, model(x.1))));
}

proof fn lemma_insert_member_prefix(e: Seq<(Seq<char>, Json)>, k: Seq<char>, v: Json, i: int)
    requires
        0 <= i < e.len(),
        e[i].0 != k,
        !lex_lt(k, e[i].0),
    ensures
        insert_member(e.skip(i), k, v) == seq![e[i]] + insert_member(e.skip(i + 1), k, v),
{
    assert(e.skip(i).skip(1) == e.skip(i + 1));
}

/// The position of the first member whose key is `key`.
pub fn find_member(entries: &Vec<(String, JsonValue)>, key: &str) -> (r: Option<usize>)
    ensures
        match r {
            Some(i) => first_index(members_model(entries@), key@) == Some(i as int)
                && is_first_index(members_model(entries@), key@, i as int),
            None => first_index(members_model(entries@), key@) is None && forall|j: int|
                0 <= j < entries@.len() ==> entries@[j].0@ != key@,
        },
{
    let ghost m = members_model(entries@);
    let mut i: usize = 0;
    while i < entries.len()
        invariant
            i <= entries@.len(),
            m == members_model(entries@),
            forall|j: int| 0 <= j < i ==> entries@[j].0@ != key@,
        decreases entries.len() - i,
    {
        if str_eq(entries[i].0.as_str(), key) {
            proof {
                lemma_first_index(m, key@, i as int);
            }
            return Some(i);
        }
        i += 1;
    }
    proof {
        lemma_first_index(m, key@, 0);
    }
    None
}

/// Inserts a member the way a map sorted by key does (see `insert_member`).
pub fn insert_member_exec(entries: &mut Vec<(String, JsonValue)>, key: String, value: JsonValue)
    ensures
        members_model(final(entries)@) == insert_member(
            members_model(old(entries)@),
            key@,
            value@,
        ),
{
    let ghost m = members_model(entries@);
    let ghost k = key@;
    let ghost v = value@;
    let mut i: usize = 0;
    assert(m.skip(0) == m);
    assert(m.take(0) + m.skip(0) == m);
    while i < entries.len()
        invariant
            i <= entries@.len(),
            m == members_model(entries@),
            m == members_model(old(entries)@),
            k == key@,
            v == value@,
            insert_member(m, k, v) == m.take(i as int) + insert_member(m.skip(i as int), k, v),
        decreases entries.len() - i,
    {
        let ghost before = entries@;
        if str_eq(entries[i].0.as_str(), key.as_str()) {
            proof {
                assert(insert_member(m.skip(i as int), k, v) == seq![(k, v)] + m.skip(i as int).skip(1));
            }
            entries.set(i, (key, value));
            proof {
                lemma_members_update(before, i as int, (key, value));
                assert(m.skip(i as int).skip(1) == m.skip(i + 1));
                assert(members_model(entries@) =~= m.take(i as int) + (seq![(k, v)] + m.skip(
                    i + 1,
                )));
            }
            return;
        }
        if str_less(key.as_str(), entries[i].0.as_str()) {
            proof {
                assert(insert_member(m.skip(i as int), k, v) == seq![(k, v)] + m.skip(i as int));
            }
            entries.insert(i, (key, value));
            proof {
                lemma_members_insert(before, i as int, (key, value));
                assert(members_model(entries@) =~= m.take(i as int) + (seq![(k, v)] + m.skip(
                    i as int,
                )));
            }
            return;
        }
        proof {
            lemma_insert_member_prefix(m, k, v, i as int);
            assert(m.take(i as int) + (seq![m[i as int]] + insert_member(m.skip(i + 1), k, v))
                =~= m.take(i + 1) + insert_member(m.skip(i + 1), k, v));
        }
        i += 1;
    }
    let ghost before = entries@;
    entries.push((key, value));
    proof {
        lemma_members_push(before, (key, value));
        assert(m.skip(i as int).len() == 0);
        assert(m.take(i as int) == m);
    }
}

/// Inserting into members sorted by key keeps them sorted.
pub proof fn lemma_insert_member_sorted(e: Seq<(Seq<char>, Json)>, k: Seq<char>, v: Json)
    requires
        keys_sorted(e),
    ensures
        keys_sorted(insert_member(e, k, v)),
        forall|i: int|
            0 <= i < insert_member(e, k, v).len() ==> #[trigger] insert_member(e, k, v)[i].0 == k
                || exists|j: int| 0 <= j < e.len() && e[j].0 == insert_member(e, k, v)[i].0,
    decreases e.len(),
{
    let r = insert_member(e, k, v);
    if e.len() == 0 {
    } else if e[0].0 == k {
        assert forall|i: int, j: int| 0 <= i < j < r.len() implies lex_lt(
            #[trigger] r[i].0,
            #[trigger] r[j].0,
        ) by {
            assert(lex_lt(e[i].0, e[j].0));
        }
        assert forall|i: int| 0 <= i < r.len() implies #[trigger] r[i].0 == k || exists|j: int|
            0 <= j < e.len() && e[j].0 == r[i].0 by {
            if i > 0 {
                assert(e[i].0 == r[i].0);
            }
        }
    } else if lex_lt(k, e[0].0) {
        assert forall|i: int, j: int| 0 <= i < j < r.len() implies lex_lt(
            #[trigger] r[i].0,
            #[trigger] r[j].0,
        ) by {
            if i == 0 {
                if j > 1 {
                    assert(lex_lt(e[0].0, e[j - 1].0));
                    lemma_lex_transitive(k, e[0].0, e[j - 1].0);
                }
            } else {
                assert(lex_lt(e[i - 1].0, e[j - 1].0));
            }
        }
        assert forall|i: int| 0 <= i < r.len() implies #[trigger] r[i].0 == k || exists|j: int|
            0 <= j < e.len() && e[j].0 == r[i].0 by {
            if i > 0 {
                assert(e[i - 1].0 == r[i].0);
            }
        }
    } else {
        let t = e.skip(1);
        assert forall|i: int, j: int| 0 <= i < j < t.len() implies lex_lt(
            #[trigger] t[i].0,
            #[trigger] t[j].0,
        ) by {
            assert(lex_lt(e[i + 1].0, e[j + 1].0));
        }
        lemma_insert_member_sorted(t, k, v);
        let rt = insert_member(t, k, v);
        assert(r == seq![e[0]] + rt);
        lemma_lex_total(k, e[0].0);
        assert forall|i: int| 0 <= i < rt.len() implies lex_lt(e[0].0, #[trigger] rt[i].0) by {
            if rt[i].0 == k {
            } else {
                let j = choose|j: int| 0 <= j < t.len() && t[j].0 == rt[i].0;
                assert(lex_lt(e[0].0, e[j + 1].0));
            }
        }
        assert forall|i: int, j: int| 0 <= i < j < r.len() implies lex_lt(
            #[trigger] r[i].0,
            #[trigger] r[j].0,
        ) by {
            if i == 0 {
                assert(r[j] == rt[j - 1]);
            } else {
                assert(r[i] == rt[i - 1]);
                assert(r[j] == rt[j - 1]);
            }
        }
        assert forall|i: int| 0 <= i < r.len() implies #[trigger] r[i].0 == k || exists|j: int|
            0 <= j < e.len() && e[j].0 == r[i].0 by {
            if i == 0 {
                assert(e[0].0 == r[0].0);
            } else {
                assert(r[i] == rt[i - 1]);
                if rt[i - 1].0 != k {
                    let j = choose|j: int| 0 <= j < t.len() && t[j].0 == rt[i - 1].0;
                    assert(e[j + 1].0 == r[i].0);
                }
            }
        }
    }
}

/// After an insertion, reading the key gives back the inserted value, and
/// every other key keeps its value.
#[verifier::spinoff_prover]
#[verifier::rlimit(40)]
pub proof fn lemma_insert_member_lookup(
    e: Seq<(Seq<char>, Json)>,
    k: Seq<char>,
    v: Json,
    other: Seq<char>,
)
    ensures
        lookup(insert_member(e, k, v), k) == Some(v),
        other != k ==> lookup(insert_member(e, k, v), other) == lookup(e, other),
    decreases e.len(),
{
    let r = insert_member(e, k, v);
    if e.len() == 0 {
        lemma_first_index(r, k, 0);
        lemma_first_index(r, other, 0);
        lemma_first_index(e, other, 0);
    } else if e[0].0 == k {
        lemma_first_index(r, k, 0);
        if other != k {
            lemma_first_index_tail(r, other);
            lemma_first_index_tail(e, other);
            assert(r.skip(1) == e.skip(1));
        }
    } else if lex_lt(k, e[0].0) {
        lemma_first_index(r, k, 0);
        if other != k {
            lemma_first_index_tail(r, other);
            assert(r.skip(1) == e);
        }
    } else {
        let t = e.skip(1);
        lemma_insert_member_lookup(t, k, v, other);
        let rt = insert_member(t, k, v);
        assert(r == seq![e[0]] + rt);
        assert(r.skip(1) == rt);
        lemma_first_index_tail(r, k);
        if other != k {
            if other == e[0].0 {
                lemma_first_index(r, other, 0);
                lemma_first_index(e, other, 0);
            } else {
                lemma_first_index_tail(e, other);
                lemma_first_index_tail(r, other);
            }
        }
    }
}

/// A found first index satisfies its definition.
pub proof fn lemma_first_index_spec(e: Seq<(Seq<char>, Json)>, k: Seq<char>)
    ensures
        first_index(e, k) matches Some(i) ==> is_first_index(e, k, i),
        first_index(e, k) is None ==> forall|j: int| 0 <= j < e.len() ==> e[j].0 != k,
{
    if exists|i: int| 0 <= i < e.len() && e[i].0 == k {
        let w = choose|i: int| 0 <= i < e.len() && e[i].0 == k;
        lemma_least_index(e, k, w);
    }
}

proof fn lemma_least_index(e: Seq<(Seq<char>, Json)>, k: Seq<char>, w: int)
    requires
        0 <= w < e.len(),
        e[w].0 == k,
    ensures
        exists|i: int| is_first_index(e, k, i),
    decreases w,
{
    if forall|j: int| 0 <= j < w ==> e[j].0 != k {
        assert(is_first_index(e, k, w));
    } else {
        let j = choose|j: int| 0 <= j < w && e[j].0 == k;
        lemma_least_index(e, k, j);
    }
}

/// When the first member does not hold the key, looking it up is looking it
/// up in the rest.
proof fn lemma_first_index_tail(e: Seq<(Seq<char>, Json)>, k: Seq<char>)
    requires
        e.len() > 0,
        e[0].0 != k,
    ensures
        lookup(e, k) == lookup(e.skip(1), k),
{
    let t = e.skip(1);
    lemma_first_index_spec(t, k);
    match first_index(t, k) {
        Some(i) => {
            assert(is_first_index(e, k, i + 1)) by {
                assert forall|l: int| 0 <= l < i + 1 implies e[l].0 != k by {
                    if l > 0 {
                        assert(e[l] == t[l - 1]);
                    }
                }
            }
            lemma_first_index(e, k, i + 1);
        },
        None => {
            assert forall|j: int| 0 <= j < e.len() implies e[j].0 != k by {
                if j > 0 {
                    assert(e[j] == t[j - 1]);
                }
            }
            lemma_first_index(e, k, 0);
        },
    }
}

// ---------------------------------------------------------------------------
// Writing
// ---------------------------------------------------------------------------

fn push_seq2(out: &mut Vec<char>, a: char, b: char)
    ensures
        final(out)@ == old(out)@ + seq![a, b],
{
    out.push(a);
    out.push(b);
}

fn push_seq3(out: &mut Vec<char>, a: char, b: char, c: char)
    ensures
        final(out)@ == old(out)@ + seq![a, b, c],
{
    out.push(a);
    out.push(b);
    out.push(c);
}

/// The indentation of the next level.
pub fn deeper(pad: &Vec<char>) -> (r: Vec<char>)
    ensures
        r@ == pad@ + two_spaces(),
{
    let mut r: Vec<char> = Vec::new();
    extend_chars(&mut r, pad.as_slice());
    push_seq2(&mut r, ' ', ' ');
    r
}

proof fn lemma_array_body_step(items: Seq<Json>, n: nat, pad: Seq<char>)
    requires
        0 < n <= items.len(),
    ensures
        array_body(items, n, pad) == if n == 1 {
            pad + two_spaces() + render(items[0], pad + two_spaces())
        } else {
            array_body(items, (n - 1) as nat, pad) + seq![',', '\n'] + pad + two_spaces() + render(
                items[n - 1],
                pad + two_spaces(),
            )
        },
{
}

pub proof fn lemma_object_body_step(e: Seq<(Seq<char>, Json)>, n: nat, pad: Seq<char>)
    requires
        0 < n <= e.len(),
    ensures
        object_body(e, n, pad) == if n == 1 {
            member_line(e[0].0, e[0].1, pad)
        } else {
            object_body(e, (n - 1) as nat, pad) + seq![',', '\n'] + member_line(
                e[n - 1].0,
                e[n - 1].1,
                pad,
            )
        },
{
    if n == 1 {
        assert(object_body(e, n, pad) =~= member_line(e[0].0, e[0].1, pad));
    } else {
        assert(object_body(e, n, pad) =~= object_body(e, (n - 1) as nat, pad) + seq![',', '\n']
            + member_line(e[n - 1].0, e[n - 1].1, pad));
    }
}

/// Appends one member line.
pub fn write_member(out: &mut Vec<char>, key: &String, value: &JsonValue, pad: &Vec<char>)
    ensures
        final(out)@ == old(out)@ + member_line(key@, value@, pad@),
    decreases value, 1nat,
{
    let ghost start = out@;
    extend_chars(out, pad.as_slice());
    push_seq3(out, ' ', ' ', '"');
    let kc = chars_of(key.as_str());
    extend_chars(out, kc.as_slice());
    push_seq3(out, '"', ':', ' ');
    let child = deeper(pad);
    write_json(out, value, &child);
    assert(out@ =~= start + member_line(key@, value@, pad@));
}

/// Appends the text of a value whose enclosing lines are indented by `pad`.
pub fn write_json(out: &mut Vec<char>, v: &JsonValue, pad: &Vec<char>)
    ensures
        final(out)@ == old(out)@ + render(v@, pad@),
    decreases v, 0nat,
{
    let ghost start = out@;
    match v {
        JsonValue::Null => {
            out.push('n');
            out.push('u');
            out.push('l');
            out.push('l');
            assert(out@ =~= start + render(v@, pad@));
        },
        JsonValue::Bool(b) => {
            if *b {
                out.push('t');
                out.push('r');
                out.push('u');
                out.push('e');
            } else {
                out.push('f');
                out.push('a');
                out.push('l');
                out.push('s');
                out.push('e');
            }
            assert(out@ =~= start + render(v@, pad@));
        },
        JsonValue::Number(n) => {
            let nc = chars_of(n.as_str());
            extend_chars(out, nc.as_slice());
        },
        JsonValue::String(s) => {
            out.push('"');
            let sc = chars_of(s.as_str());
            let esc = escape_chars(sc.as_slice());
            extend_chars(out, esc.as_slice());
            out.push('"');
            assert(out@ =~= start + render(v@, pad@));
        },
        JsonValue::Array(items) => {
            let ghost m = v@->Array_0;
            assert(m.len() == items@.len());
            if items.len() == 0 {
                push_seq3(out, '[', ']', '\n');
            } else {
                push_seq2(out, '[', '\n');
                let child = deeper(pad);
                let mut i: usize = 0;
                while i < items.len()
                    invariant
                        i <= items@.len(),
                        *v == JsonValue::Array(*items),
                        m == v@->Array_0,
                        m.len() == items@.len(),
                        child@ == pad@ + two_spaces(),
                        out@ == start + seq!['[', '\n'] + array_body(m, i as nat, pad@),
                    decreases items.len() - i,
                {
                    if i > 0 {
                        push_seq2(out, ',', '\n');
                    }
                    extend_chars(out, pad.as_slice());
                    push_seq2(out, ' ', ' ');
                    proof {
                        assert(decreases_to!(*v => v->Array_0));
                        assert(decreases_to!(v->Array_0 => items@));
                        assert(decreases_to!(items@ => items@[i as int]));
                    }
                    write_json(out, &items[i], &child);
                    proof {
                        assert(m[i as int] == model(items@[i as int]));
                        lemma_array_body_step(m, (i + 1) as nat, pad@);
                        assert(out@ =~= start + seq!['[', '\n'] + array_body(m, (i + 1) as nat, pad@));
                    }
                    i += 1;
                }
                out.push('\n');
                extend_chars(out, pad.as_slice());
                out.push(']');
                assert(out@ =~= start + render(v@, pad@));
            }
        },
        JsonValue::Object(e) => {
            let ghost m = v@->Object_0;
            proof {
                lemma_object_model(*e);
            }
            if e.len() == 0 {
                push_seq3(out, '{', '}', '\n');
            } else {
                push_seq2(out, '{', '\n');
                let mut i: usize = 0;
                while i < e.len()
                    invariant
                        i <= e@.len(),
                        *v == JsonValue::Object(*e),
                        m == v@->Object_0,
                        m == members_model(e@),
                        out@ == start + seq!['{', '\n'] + object_body(m, i as nat, pad@),
                    decreases e.len() - i,
                {
                    if i > 0 {
                        push_seq2(out, ',', '\n');
                    }
                    proof {
                        assert(decreases_to!(*v => v->Object_0));
                        assert(decreases_to!(v->Object_0 => e@));
                        assert(decreases_to!(e@ => e@[i as int]));
                        assert(decreases_to!(e@[i as int] => e@[i as int].1));
                    }
                    write_member(out, &e[i].0, &e[i].1, pad);
                    proof {
                        lemma_object_body_step(m, (i + 1) as nat, pad@);
                        assert(out@ =~= start + seq!['{', '\n'] + object_body(m, (i + 1) as nat, pad@));
                    }
                    i += 1;
                }
                out.push('\n');
                extend_chars(out, pad.as_slice());
                out.push('}');
                assert(out@ =~= start + render(v@, pad@));
            }
        },
    }
}

// ---------------------------------------------------------------------------
// Reading a document
// ---------------------------------------------------------------------------

/// `serde_json::Value`, read only where it is converted into [`JsonValue`].
#[verifier::external_type_specification]
#[verifier::external_body]
pub struct ExSerdeJsonValue(serde_json::Value);

/// The document that `serde_json` reads from a text, or `None` where the text
/// is not JSON.
pub uninterp spec fn json_parsed(text: Seq<char>) -> Option<Json>;

/// The value of an optional document.
pub open spec fn opt_model(r: Option<JsonValue>) -> Option<Json> {
    match r {
        Some(v) => Some(v@),
        None => None,
    }
}

/// Reads a JSON text with `serde_json::from_str` into a `serde_json::Value`
/// and converts that into a [`JsonValue`]. What the parser accepts and what
/// it builds is not restated here: the contract names the result
/// (`json_parsed` of the text). It claims one thing more: an object's map is
/// a `BTreeMap<String, Value>` (no `preserve_order`), whose keys are unique
/// and come in increasing order of `String`, so the members of a top-level
/// object come with strictly increasing keys.
#[verifier::external_body]
pub(crate) fn parse_json(text: &str) -> (r: Option<JsonValue>)
    ensures
        opt_model(r) == json_parsed(text@),
        opt_model(r) matches Some(Json::Object(e)) ==> keys_sorted(e),
{
    match serde_json::from_str::<serde_json::Value>(text) {
        Ok(v) => Some(from_serde_value(v)),
        Err(_) => None,
    }
}

/// Converts a `serde_json::Value` variant by variant; a number becomes the
/// text that `serde_json` writes for it (`Number::to_string`), and an
/// object's members come in the order of its map.
#[verifier::external_body]
fn from_serde_value(v: serde_json::Value) -> JsonValue {
    match v {
        serde_json::Value::Null => JsonValue::Null,
        serde_json::Value::Bool(b) => JsonValue::Bool(b),
        serde_json::Value::Number(n) => JsonValue::Number(n.to_string()),
        serde_json::Value::String(s) => JsonValue::String(s),
        serde_json::Value::Array(a) => JsonValue::Array(a.into_iter().map(from_serde_value).collect()),
        serde_json::Value::Object(m) => JsonValue::Object(
            m.into_iter().map(|(k, x)| (k, from_serde_value(x))).collect(),
        ),
    }
}

} // verus!
