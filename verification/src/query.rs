//! Filters and sort orders, and what it means for a record to match.

use crate::shapes::{Doc, DocView, Draft, DraftView, ObjectId};
use vstd::prelude::*;

verus! {

/// A value that a field of a record can hold. `Double` carries the bit
/// pattern of the number, `Date` milliseconds since the Unix epoch.
#[derive(Debug, PartialEq, Eq)]
pub enum Value {
    Id(ObjectId),
    Text(String),
    Double(u64),
    Int32(i32),
    Date(i64),
}

/// What a [`Value`] holds.
pub enum ValueView {
    Id(ObjectId),
    Text(Seq<char>),
    Double(u64),
    Int32(i32),
    Date(i64),
}

impl View for Value {
    type V = ValueView;

    open spec fn view(&self) -> ValueView {
        match self {
            Value::Id(id) => ValueView::Id(*id),
            Value::Text(text) => ValueView::Text(text@),
            Value::Double(bits) => ValueView::Double(*bits),
            Value::Int32(n) => ValueView::Int32(*n),
            Value::Date(millis) => ValueView::Date(*millis),
        }
    }
}

impl Clone for Value {
    fn clone(&self) -> (copy: Self)
        ensures
            copy@ == self@,
    {
        match self {
            Value::Id(id) => Value::Id(*id),
            Value::Text(text) => Value::Text(text.clone()),
            Value::Double(bits) => Value::Double(*bits),
            Value::Int32(n) => Value::Int32(*n),
            Value::Date(millis) => Value::Date(*millis),
        }
    }
}

impl Value {
    /// Whether two values are of the same kind and hold the same.
    pub fn same(&self, other: &Value) -> (equal: bool)
        ensures
            equal == (self@ == other@),
    {
        match (self, other) {
            (Value::Id(a), Value::Id(b)) => a.head == b.head && a.tail == b.tail,
            (Value::Text(a), Value::Text(b)) => *a == *b,
            (Value::Double(a), Value::Double(b)) => *a == *b,
            (Value::Int32(a), Value::Int32(b)) => *a == *b,
            (Value::Date(a), Value::Date(b)) => *a == *b,
            _ => false,
        }
    }
}

/// One constraint of a filter: the named field holds exactly this value.
#[derive(Debug, PartialEq, Eq)]
pub struct Clause {
    pub field: String,
    pub value: Value,
}

/// What a [`Clause`] holds.
pub struct ClauseView {
    pub field: Seq<char>,
    pub value: ValueView,
}

impl View for Clause {
    type V = ClauseView;

    open spec fn view(&self) -> ClauseView {
        ClauseView { field: self.field@, value: self.value@ }
    }
}

impl Clone for Clause {
    fn clone(&self) -> (copy: Self)
        ensures
            copy@ == self@,
    {
        Clause { field: self.field.clone(), value: self.value.clone() }
    }
}

/// A filter: a record matches when every clause holds of it. The filter
/// without clauses matches every record.
#[derive(Debug, PartialEq, Eq)]
pub struct Filter {
    pub clauses: Vec<Clause>,
}

impl View for Filter {
    type V = Seq<ClauseView>;

    open spec fn view(&self) -> Seq<ClauseView> {
        self.clauses@.map_values(|c: Clause| c@)
    }
}

impl Default for Filter {
    fn default() -> (filter: Self)
        ensures
            filter@ == Seq::<ClauseView>::empty(),
    {
        Filter { clauses: Vec::new() }
    }
}

impl Clone for Filter {
    fn clone(&self) -> (copy: Self)
        ensures
            copy@ == self@,
    {
        let mut clauses: Vec<Clause> = Vec::new();
        let mut i: usize = 0;
        while i < self.clauses.len()
            invariant
                i <= self.clauses.len(),
                clauses@.len() == i,
                forall|k: int| 0 <= k < i ==> (#[trigger] clauses@[k])@ == self.clauses@[k]@,
            decreases self.clauses.len() - i,
        {
            clauses.push(self.clauses[i].clone());
            i = i + 1;
        }
        let copy = Filter { clauses };
        assert(copy@ =~= self@);
        copy
    }
}

/// The filter that asks for `item` to be the given label.
pub open spec fn item_is(item: Seq<char>) -> Seq<ClauseView> {
    seq![ClauseView { field: "item"@, value: ValueView::Text(item) }]
}

impl Filter {
    /// The filter that matches the records labelled `item`.
    pub fn by_item(item: &str) -> (filter: Filter)
        ensures
            filter@ == item_is(item@),
    {
        let mut clauses: Vec<Clause> = Vec::new();
        clauses.push(Clause { field: "item".to_owned(), value: Value::Text(item.to_owned()) });
        let filter = Filter { clauses };
        assert(filter@ =~= item_is(item@));
        filter
    }
}

/// Which way a sort key orders.
#[derive(Clone, Copy, Debug, PartialEq, Eq, Structural)]
pub enum Direction {
    Ascending,
    Descending,
}

impl Direction {
    /// The number that stands for the direction in a sort document: 1 for
    /// ascending, -1 for descending.
    pub fn sign(&self) -> (n: i32)
        ensures
            n == match self {
                Direction::Ascending => 1i32,
                Direction::Descending => -1i32,
            },
    {
        match self {
            Direction::Ascending => 1,
            Direction::Descending => -1,
        }
    }
}

/// One key of a sort order.
#[derive(Debug, PartialEq, Eq)]
pub struct SortKey {
    pub field: String,
    pub direction: Direction,
}

/// What a [`SortKey`] holds.
pub struct SortKeyView {
    pub field: Seq<char>,
    pub direction: Direction,
}

impl View for SortKey {
    type V = SortKeyView;

    open spec fn view(&self) -> SortKeyView {
        SortKeyView { field: self.field@, direction: self.direction }
    }
}

/// A sort order: the first key decides, later keys break ties.
#[derive(Debug, PartialEq, Eq)]
pub struct Sort {
    pub keys: Vec<SortKey>,
}

impl View for Sort {
    type V = Seq<SortKeyView>;

    open spec fn view(&self) -> Seq<SortKeyView> {
        self.keys@.map_values(|k: SortKey| k@)
    }
}

/// The clauses of a filter that may be absent: none when it is.
pub open spec fn filter_or_all(filter: Option<Filter>) -> Seq<ClauseView> {
    match filter {
        Some(f) => f@,
        None => Seq::empty(),
    }
}

/// The keys of a sort order that may be absent.
pub open spec fn sort_keys(sort: Option<Sort>) -> Option<Seq<SortKeyView>> {
    match sort {
        Some(s) => Some(s@),
        None => None,
    }
}

/// A query: which records, and in what order. Either part may be absent.
#[derive(Debug, PartialEq, Eq)]
pub struct Options {
    pub filter_doc: Option<Filter>,
    pub sort_option: Option<Sort>,
}

impl Options {
    pub fn new(filter_doc: Option<Filter>, sort_option: Option<Sort>) -> (options: Self)
        ensures
            options.filter_doc == filter_doc,
            options.sort_option == sort_option,
    {
        Self { filter_doc, sort_option }
    }
}

/// The value that a record holds under a field's name on the wire, if it
/// has such a field.
pub open spec fn field_value(doc: DocView, field: Seq<char>) -> Option<ValueView> {
    if field == "_id"@ {
        Some(ValueView::Id(doc.id))
    } else if field == "item"@ {
        Some(ValueView::Text(doc.item))
    } else if field == "price"@ {
        Some(ValueView::Double(doc.price))
    } else if field == "quantity"@ {
        Some(ValueView::Int32(doc.quantity))
    } else if field == "date"@ {
        Some(ValueView::Date(doc.date))
    } else {
        None
    }
}

/// Whether one clause holds of a record.
pub open spec fn clause_holds(doc: DocView, clause: ClauseView) -> bool {
    field_value(doc, clause.field) == Some(clause.value)
}

/// Whether a record matches a filter: every clause holds of it.
pub open spec fn fits(doc: DocView, filter: Seq<ClauseView>) -> bool {
    forall|i: int| 0 <= i < filter.len() ==> clause_holds(doc, #[trigger] filter[i])
}

/// The fields of a document on its way into the store, by their names on
/// the wire and in their order there.
pub open spec fn draft_fields(draft: DraftView) -> Seq<(Seq<char>, ValueView)> {
    seq![
        ("item"@, ValueView::Text(draft.item)),
        ("price"@, ValueView::Double(draft.price)),
        ("quantity"@, ValueView::Int32(draft.quantity)),
        ("date"@, ValueView::Date(draft.date)),
    ]
}

/// The names and values of a run of fields.
pub open spec fn field_views(fields: Seq<(String, Value)>) -> Seq<(Seq<char>, ValueView)> {
    fields.map_values(|f: (String, Value)| (f.0@, f.1@))
}

impl Draft {
    /// The fields that an insert of this document sends.
    pub fn fields(&self) -> (fields: Vec<(String, Value)>)
        ensures
            field_views(fields@) == draft_fields(self@),
    {
        let mut fields: Vec<(String, Value)> = Vec::new();
        fields.push(("item".to_owned(), Value::Text(self.item.clone())));
        fields.push(("price".to_owned(), Value::Double(self.price)));
        fields.push(("quantity".to_owned(), Value::Int32(self.quantity)));
        fields.push(("date".to_owned(), Value::Date(self.date)));
        assert(field_views(fields@) =~= draft_fields(self@));
        fields
    }
}

/// The record that the store makes of an inserted document holds each of
/// the document's fields under the name it was sent by.
pub proof fn lemma_draft_fields_are_kept(draft: DraftView, id: ObjectId, i: int)
    requires
        0 <= i < 4,
    ensures
        field_value(draft.with_id(id), draft_fields(draft)[i].0) == Some(draft_fields(draft)[i].1),
{
    reveal_strlit("_id");
    reveal_strlit("item");
    reveal_strlit("price");
    reveal_strlit("quantity");
    reveal_strlit("date");
    assert("_id"@.len() == 3);
    assert("item"@.len() == 4);
    assert("price"@.len() == 5);
    assert("quantity"@.len() == 8);
    assert("date"@[0] == 'd');
    assert("item"@[0] == 'i');
}

pub(crate) fn is_named(key: &String, name: &str) -> (same: bool)
    ensures
        same == (key@ == name@),
{
    let owned = name.to_owned();
    *key == owned
}

impl Doc {
    /// The value held under a field's name on the wire.
    pub fn field(&self, name: &String) -> (value: Option<Value>)
        ensures
            match value {
                Some(v) => field_value(self@, name@) == Some(v@),
                None => field_value(self@, name@) is None,
            },
    {
        if is_named(name, "_id") {
            Some(Value::Id(self.id))
        } else if is_named(name, "item") {
            Some(Value::Text(self.item.clone()))
        } else if is_named(name, "price") {
            Some(Value::Double(self.price))
        } else if is_named(name, "quantity") {
            Some(Value::Int32(self.quantity))
        } else if is_named(name, "date") {
            Some(Value::Date(self.date))
        } else {
            None
        }
    }

    /// Whether this record matches the filter.
    pub fn satisfies(&self, filter: &Filter) -> (ok: bool)
        ensures
            ok == fits(self@, filter@),
    {
        let mut i: usize = 0;
        while i < filter.clauses.len()
            invariant
                i <= filter.clauses.len(),
                forall|k: int| 0 <= k < i ==> clause_holds(self@, #[trigger] filter@[k]),
            decreases filter.clauses.len() - i,
        {
            let clause = &filter.clauses[i];
            assert(filter@[i as int] == clause@);
            let holds = match self.field(&clause.field) {
                Some(v) => v.same(&clause.value),
                None => false,
            };
            if !holds {
                return false;
            }
            i = i + 1;
        }
        true
    }
}

} // verus!
