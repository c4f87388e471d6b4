//! The order that a sort puts records in.
//!
//! Identifiers, integers and dates order as numbers; texts order by the
//! bytes of their UTF-8 encoding; doubles order by sign and magnitude of
//! their bit pattern, so that the two zeros are equal. A field that a record
//! does not have orders nothing.

use crate::query::{field_value, sort_keys, Direction, Sort, SortKeyView, Value, ValueView};
use crate::shapes::{copy_docs, doc_views, Doc, DocView};
use vstd::prelude::*;
use vstd::utf8::encode_utf8;

verus! {

/// Whether `a` comes before `b` in the lexicographic order of bytes, given
/// that the two agree below index `i`.
pub open spec fn bytes_before_from(a: Seq<u8>, b: Seq<u8>, i: int) -> bool
    decreases a.len() - i,
{
    if i >= a.len() {
        i < b.len()
    } else if i >= b.len() {
        false
    } else if a[i] == b[i] {
        bytes_before_from(a, b, i + 1)
    } else {
        a[i] < b[i]
    }
}

/// Whether text `a` comes before text `b`.
pub open spec fn text_before(a: Seq<char>, b: Seq<char>) -> bool {
    bytes_before_from(encode_utf8(a), encode_utf8(b), 0)
}

/// The place of a double among the doubles, from its bit pattern: the
/// magnitude, negated where the sign bit is set.
pub open spec fn double_key(bits: u64) -> int {
    if bits >= 0x8000_0000_0000_0000 {
        0x8000_0000_0000_0000 - bits
    } else {
        bits as int
    }
}

/// Whether value `x` comes before value `y`. Values of different kinds do
/// not order.
pub open spec fn value_before(x: ValueView, y: ValueView) -> bool {
    match (x, y) {
        (ValueView::Id(a), ValueView::Id(b)) => a.rank() < b.rank(),
        (ValueView::Text(a), ValueView::Text(b)) => text_before(a, b),
        (ValueView::Double(a), ValueView::Double(b)) => double_key(a) < double_key(b),
        (ValueView::Int32(a), ValueView::Int32(b)) => a < b,
        (ValueView::Date(a), ValueView::Date(b)) => a < b,
        _ => false,
    }
}

/// Whether record `a` comes before record `b` by the named field alone.
pub open spec fn field_before(field: Seq<char>, a: DocView, b: DocView) -> bool {
    match (field_value(a, field), field_value(b, field)) {
        (Some(x), Some(y)) => value_before(x, y),
        _ => false,
    }
}

/// Whether record `a` comes before record `b` by one sort key.
pub open spec fn key_before(key: SortKeyView, a: DocView, b: DocView) -> bool {
    match key.direction {
        Direction::Ascending => field_before(key.field, a, b),
        Direction::Descending => field_before(key.field, b, a),
    }
}

/// Whether record `a` comes before record `b` by the keys from index `k`
/// on: the first key that tells the two apart decides.
pub open spec fn precedes_from(keys: Seq<SortKeyView>, a: DocView, b: DocView, k: int) -> bool
    decreases keys.len() - k,
{
    if k < 0 || k >= keys.len() {
        false
    } else if key_before(keys[k], a, b) {
        true
    } else if key_before(keys[k], b, a) {
        false
    } else {
        precedes_from(keys, a, b, k + 1)
    }
}

/// Whether record `a` comes before record `b` in the sort order `keys`.
pub open spec fn precedes(keys: Seq<SortKeyView>, a: DocView, b: DocView) -> bool {
    precedes_from(keys, a, b, 0)
}

/// An ordered run with `x` put in behind every record that does not come
/// after it.
pub open spec fn insert_ordered(keys: Seq<SortKeyView>, s: Seq<DocView>, x: DocView) -> Seq<
    DocView,
>
    decreases s.len(),
{
    if s.len() > 0 && precedes(keys, x, s.last()) {
        insert_ordered(keys, s.drop_last(), x).push(s.last())
    } else {
        s.push(x)
    }
}

/// The records of `s` in the sort order `keys`; records that the keys do not
/// tell apart keep the order they had.
pub open spec fn ordered_by(keys: Seq<SortKeyView>, s: Seq<DocView>) -> Seq<DocView>
    decreases s.len(),
{
    if s.len() == 0 {
        s
    } else {
        insert_ordered(keys, ordered_by(keys, s.drop_last()), s.last())
    }
}

/// The records of `s` as a query hands them out: sorted where a sort is
/// asked for, as they stand where none is.
pub open spec fn arrange(sort: Option<Seq<SortKeyView>>, s: Seq<DocView>) -> Seq<DocView> {
    match sort {
        Some(keys) => ordered_by(keys, s),
        None => s,
    }
}

/// Whether no record of `s` comes before one that stands earlier.
pub open spec fn in_order(keys: Seq<SortKeyView>, s: Seq<DocView>) -> bool {
    forall|i: int, j: int| 0 <= i < j < s.len() ==> !precedes(keys, #[trigger] s[j], #[trigger] s[i])
}

fn bytes_precede(a: &[u8], b: &[u8]) -> (before: bool)
    ensures
        before == bytes_before_from(a@, b@, 0),
{
    let mut i: usize = 0;
    while i < a.len() && i < b.len()
        invariant
            i <= a.len(),
            i <= b.len(),
            bytes_before_from(a@, b@, 0) == bytes_before_from(a@, b@, i as int),
        decreases a.len() - i,
    {
        if a[i] != b[i] {
            return a[i] < b[i];
        }
        i = i + 1;
    }
    i < b.len()
}

fn double_precedes(a: u64, b: u64) -> (before: bool)
    ensures
        before == (double_key(a) < double_key(b)),
{
    let top: u64 = 0x8000_0000_0000_0000;
    if a >= top {
        if b >= top {
            b < a
        } else {
            a > top || b > 0
        }
    } else {
        if b >= top {
            false
        } else {
            a < b
        }
    }
}

impl Value {
    /// Whether this value comes before `other`.
    pub fn before(&self, other: &Value) -> (before: bool)
        ensures
            before == value_before(self@, other@),
    {
        match (self, other) {
            (Value::Id(a), Value::Id(b)) => a.head < b.head || (a.head == b.head && a.tail
                < b.tail),
            (Value::Text(a), Value::Text(b)) => bytes_precede(
                a.as_str().as_bytes(),
                b.as_str().as_bytes(),
            ),
            (Value::Double(a), Value::Double(b)) => double_precedes(*a, *b),
            (Value::Int32(a), Value::Int32(b)) => *a < *b,
            (Value::Date(a), Value::Date(b)) => *a < *b,
            _ => false,
        }
    }
}

impl Doc {
    fn before_by_field(&self, other: &Doc, field: &String) -> (before: bool)
        ensures
            before == field_before(field@, self@, other@),
    {
        match (self.field(field), other.field(field)) {
            (Some(x), Some(y)) => x.before(&y),
            _ => false,
        }
    }

    /// Whether this record comes before `other` in the given sort order.
    pub fn precedes(&self, other: &Doc, sort: &Sort) -> (before: bool)
        ensures
            before == precedes(sort@, self@, other@),
    {
        let mut k: usize = 0;
        while k < sort.keys.len()
            invariant
                k <= sort.keys.len(),
                sort@.len() == sort.keys.len(),
                precedes(sort@, self@, other@) == precedes_from(sort@, self@, other@, k as int),
            decreases sort.keys.len() - k,
        {
            let key = &sort.keys[k];
            assert(sort@[k as int] == key@);
            let (forth, back) = match key.direction {
                Direction::Ascending => (
                    self.before_by_field(other, &key.field),
                    other.before_by_field(self, &key.field),
                ),
                Direction::Descending => (
                    other.before_by_field(self, &key.field),
                    self.before_by_field(other, &key.field),
                ),
            };
            if forth {
                return true;
            }
            if back {
                return false;
            }
            k = k + 1;
        }
        false
    }
}

/// Where `insert_ordered` puts `x`: at `p`, if every record from `p` on
/// comes after `x` and the one before `p` does not.
proof fn lemma_insert_position(keys: Seq<SortKeyView>, s: Seq<DocView>, x: DocView, p: int)
    requires
        0 <= p <= s.len(),
        forall|j: int| p <= j < s.len() ==> precedes(keys, x, #[trigger] s[j]),
        p > 0 ==> !precedes(keys, x, s[p - 1]),
    ensures
        insert_ordered(keys, s, x) == s.insert(p, x),
    decreases s.len(),
{
    if p == s.len() {
        assert(s.push(x) =~= s.insert(p, x));
    } else {
        assert(precedes(keys, x, s.last()));
        lemma_insert_position(keys, s.drop_last(), x, p);
        assert(s.drop_last().insert(p, x).push(s.last()) =~= s.insert(p, x));
    }
}

/// The byte order is a strict order in which any two sequences compare:
/// it never holds both ways, and what is not before something that is not
/// before a third is not before the third.
proof fn lemma_bytes_order(a: Seq<u8>, b: Seq<u8>, c: Seq<u8>, i: int)
    requires
        0 <= i,
    ensures
        bytes_before_from(a, b, i) ==> !bytes_before_from(b, a, i),
        !bytes_before_from(a, b, i) && !bytes_before_from(b, c, i) ==> !bytes_before_from(
            a,
            c,
            i,
        ),
    decreases a.len() - i,
{
    if i < a.len() && i < b.len() {
        lemma_bytes_order(a, b, c, i + 1);
    }
}

proof fn lemma_field_order(field: Seq<char>, a: DocView, b: DocView, c: DocView)
    ensures
        field_before(field, a, b) ==> !field_before(field, b, a),
        !field_before(field, a, b) && !field_before(field, b, c) ==> !field_before(field, a, c),
{
    lemma_bytes_order(encode_utf8(a.item), encode_utf8(b.item), encode_utf8(c.item), 0);
}

proof fn lemma_key_order(key: SortKeyView, a: DocView, b: DocView, c: DocView)
    ensures
        key_before(key, a, b) ==> !key_before(key, b, a),
        !key_before(key, a, b) && !key_before(key, b, c) ==> !key_before(key, a, c),
{
    lemma_field_order(key.field, a, b, c);
    lemma_field_order(key.field, c, b, a);
}

/// A sort order never puts two records each before the other, and a record
/// that is not before a second, which is not before a third, is not before
/// the third.
pub proof fn lemma_precedes_order(
    keys: Seq<SortKeyView>,
    a: DocView,
    b: DocView,
    c: DocView,
    k: int,
)
    requires
        0 <= k,
    ensures
        precedes_from(keys, a, b, k) ==> !precedes_from(keys, b, a, k),
        !precedes_from(keys, a, b, k) && !precedes_from(keys, b, c, k) ==> !precedes_from(
            keys,
            a,
            c,
            k,
        ),
    decreases keys.len() - k,
{
    if k < keys.len() {
        lemma_key_order(keys[k], a, b, c);
        lemma_key_order(keys[k], b, c, a);
        lemma_key_order(keys[k], c, a, b);
        lemma_precedes_order(keys, a, b, c, k + 1);
    }
}

proof fn lemma_insert_ordered_place(keys: Seq<SortKeyView>, s: Seq<DocView>, x: DocView) -> (p:
    int)
    ensures
        0 <= p <= s.len(),
        insert_ordered(keys, s, x) == s.insert(p, x),
        forall|j: int| p <= j < s.len() ==> precedes(keys, x, #[trigger] s[j]),
        p > 0 ==> !precedes(keys, x, s[p - 1]),
    decreases s.len(),
{
    if s.len() > 0 && precedes(keys, x, s.last()) {
        let p = lemma_insert_ordered_place(keys, s.drop_last(), x);
        assert(s.drop_last().insert(p, x).push(s.last()) =~= s.insert(p, x));
        assert forall|j: int| p <= j < s.len() implies precedes(keys, x, #[trigger] s[j]) by {
            if j < s.len() - 1 {
                assert(s.drop_last()[j] == s[j]);
            }
        }
        p
    } else {
        assert(s.push(x) =~= s.insert(s.len() as int, x));
        s.len() as int
    }
}

/// Sorting rearranges and does no more: the outcome holds each record as
/// often as the input does, and in it no record comes before one that
/// stands earlier.
pub proof fn lemma_ordered_by_sorts(keys: Seq<SortKeyView>, s: Seq<DocView>)
    ensures
        ordered_by(keys, s).to_multiset() == s.to_multiset(),
        ordered_by(keys, s).len() == s.len(),
        in_order(keys, ordered_by(keys, s)),
    decreases s.len(),
{
    if s.len() > 0 {
        let t = ordered_by(keys, s.drop_last());
        let x = s.last();
        lemma_ordered_by_sorts(keys, s.drop_last());
        let p = lemma_insert_ordered_place(keys, t, x);
        let r = t.insert(p, x);
        assert forall|i: int, j: int| 0 <= i < j < r.len() implies !precedes(
            keys,
            #[trigger] r[j],
            #[trigger] r[i],
        ) by {
            if j == p {
                lemma_precedes_order(keys, x, t[p - 1], t[i], 0);
                if i < p - 1 {
                    assert(!precedes(keys, t[p - 1], t[i]));
                }
            } else if i == p {
                assert(precedes(keys, x, t[j - 1]));
                lemma_precedes_order(keys, x, t[j - 1], x, 0);
            } else {
                let i0 = if i < p { i } else { i - 1 };
                let j0 = if j < p { j } else { j - 1 };
                assert(!precedes(keys, t[j0], t[i0]));
            }
        }
        vstd::seq_lib::to_multiset_insert(t, p, x);
        assert(s.drop_last().push(x) =~= s);
        vstd::seq_lib::to_multiset_build(s.drop_last(), x);
    }
}

/// The records in the order that a query with this sort hands them out.
pub fn arrange_docs(sort: &Option<Sort>, docs: &Vec<Doc>) -> (out: Vec<Doc>)
    ensures
        doc_views(out@) == arrange(sort_keys(*sort), doc_views(docs@)),
{
    match sort {
        None => copy_docs(docs),
        Some(order) => sort_docs(order, docs),
    }
}

/// The records in the given sort order.
pub fn sort_docs(order: &Sort, docs: &Vec<Doc>) -> (out: Vec<Doc>)
    ensures
        doc_views(out@) == ordered_by(order@, doc_views(docs@)),
{
    let mut out: Vec<Doc> = Vec::new();
    let mut i: usize = 0;
    while i < docs.len()
        invariant
            i <= docs.len(),
            doc_views(out@) == ordered_by(order@, doc_views(docs@.take(i as int))),
        decreases docs.len() - i,
    {
        let doc = docs[i].clone();
        let ghost before = doc_views(docs@.take(i as int));
        let ghost after = doc_views(docs@.take(i + 1));
        assert(after.drop_last() =~= before);
        assert(after.last() == doc@);
        let mut p: usize = out.len();
        while p > 0 && doc.precedes(&out[p - 1], order)
            invariant
                p <= out.len(),
                forall|j: int|
                    p <= j < out.len() ==> precedes(order@, doc@, #[trigger] doc_views(out@)[j]),
            decreases p,
        {
            p = p - 1;
        }
        proof {
            lemma_insert_position(order@, doc_views(out@), doc@, p as int);
        }
        let ghost old_out = doc_views(out@);
        let ghost added = doc@;
        out.insert(p, doc);
        assert(doc_views(out@) =~= old_out.insert(p as int, added));
        i = i + 1;
    }
    assert(docs@.take(i as int) == docs@);
    out
}

} // verus!
