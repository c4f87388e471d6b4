//! What holds of the gateway's operations when they are carried through
//! against a collection.

use crate::gateway::{
    created, creation_start, delete_start, deleted, draft_of, next_step, not_found, placeholder,
    query_start, update_start, updated, CommandView, ResponseView, SessionView, StepView,
};
use crate::ordering::{arrange, lemma_ordered_by_sorts};
use crate::query::{fits, item_is, ClauseView, SortKeyView};
use crate::shapes::{DocView, JsonBodyView};
use crate::store::{
    apply, first_match, lemma_first_match, lemma_matching_push, matching, relabel, rounds_left,
    run, well_formed, CollectionView,
};
use vstd::prelude::*;

verus! {

/// Whether some record of the collection carries the label.
pub open spec fn has_label(c: CollectionView, item: Seq<char>) -> bool {
    exists|i: int| 0 <= i < c.records.len() && (#[trigger] c.records[i]).item == item
}

/// A record matches the filter on a label exactly when it carries the label.
pub proof fn lemma_fits_label(doc: DocView, item: Seq<char>)
    ensures
        fits(doc, item_is(item)) == (doc.item == item),
{
    reveal_strlit("item");
    reveal_strlit("_id");
    let filter = item_is(item);
    assert(filter.len() == 1);
    assert("item"@.len() == 4);
    assert("_id"@.len() == 3);
    if doc.item == item {
        assert forall|i: int| 0 <= i < filter.len() implies crate::query::clause_holds(
            doc,
            #[trigger] filter[i],
        ) by {}
    } else {
        assert(!crate::query::clause_holds(doc, filter[0]));
    }
}

/// Where no record matches, a filter selects nothing.
pub proof fn lemma_matching_none(records: Seq<DocView>, filter: Seq<ClauseView>)
    requires
        forall|i: int| 0 <= i < records.len() ==> !fits(#[trigger] records[i], filter),
    ensures
        matching(records, filter) == Seq::<DocView>::empty(),
    decreases records.len(),
{
    if records.len() == 0 {
        reveal(Seq::filter);
        assert(matching(records, filter) =~= Seq::<DocView>::empty());
    } else {
        let front = records.drop_last();
        assert forall|i: int| 0 <= i < front.len() implies !fits(#[trigger] front[i], filter) by {
            assert(front[i] == records[i]);
        }
        lemma_matching_none(front, filter);
        lemma_matching_push(front, records.last(), filter);
        assert(front.push(records.last()) =~= records);
    }
}

/// Where every record matches, a filter selects them all, in their order.
pub proof fn lemma_matching_all(records: Seq<DocView>, filter: Seq<ClauseView>)
    requires
        forall|i: int| 0 <= i < records.len() ==> fits(#[trigger] records[i], filter),
    ensures
        matching(records, filter) == records,
    decreases records.len(),
{
    if records.len() == 0 {
        reveal(Seq::filter);
        assert(matching(records, filter) =~= records);
    } else {
        let front = records.drop_last();
        assert forall|i: int| 0 <= i < front.len() implies fits(#[trigger] front[i], filter) by {
            assert(front[i] == records[i]);
        }
        lemma_matching_all(front, filter);
        lemma_matching_push(front, records.last(), filter);
        assert(front.push(records.last()) =~= records);
    }
}

/// No command breaks a collection: identifiers stay distinct, and below the
/// next one to be assigned.
pub proof fn lemma_apply_keeps_well_formed(c: CollectionView, command: CommandView)
    requires
        well_formed(c),
    ensures
        well_formed(apply(c, command).0),
{
    let after = apply(c, command).0;
    match command {
        CommandView::InsertOne { record } => {
            if let Some(id) = c.next {
                assert forall|i: int, j: int| 0 <= i < j < after.records.len() implies (
                #[trigger] after.records[i]).id != (#[trigger] after.records[j]).id by {
                    if j == c.records.len() {
                        assert(c.records[i].id.rank() < id.rank());
                    } else {
                        assert(c.records[i].id != c.records[j].id);
                    }
                }
                if let Some(n) = after.next {
                    assert forall|i: int| 0 <= i < after.records.len() implies (
                    #[trigger] after.records[i]).id.rank() < n.rank() by {
                        if i < c.records.len() {
                            assert(c.records[i].id.rank() < id.rank());
                        }
                    }
                }
            }
        },
        CommandView::UpdateOne { filter, item } => {
            lemma_first_match(c.records, filter);
            if let Some(p) = first_match(c.records, filter) {
                assert forall|i: int, j: int| 0 <= i < j < after.records.len() implies (
                #[trigger] after.records[i]).id != (#[trigger] after.records[j]).id by {
                    assert(c.records[i].id != c.records[j].id);
                }
                if let Some(n) = after.next {
                    assert forall|i: int| 0 <= i < after.records.len() implies (
                    #[trigger] after.records[i]).id.rank() < n.rank() by {
                        assert(c.records[i].id.rank() < n.rank());
                    }
                }
            }
        },
        CommandView::DeleteOne { filter } => {
            lemma_first_match(c.records, filter);
            if let Some(p) = first_match(c.records, filter) {
                assert forall|i: int, j: int| 0 <= i < j < after.records.len() implies (
                #[trigger] after.records[i]).id != (#[trigger] after.records[j]).id by {
                    let i0 = if i < p { i } else { i + 1 };
                    let j0 = if j < p { j } else { j + 1 };
                    assert(c.records[i0].id != c.records[j0].id);
                }
                if let Some(n) = after.next {
                    assert forall|i: int| 0 <= i < after.records.len() implies (
                    #[trigger] after.records[i]).id.rank() < n.rank() by {
                        let i0 = if i < p { i } else { i + 1 };
                        assert(c.records[i0].id.rank() < n.rank());
                    }
                }
            }
        },
        _ => {},
    }
}

/// No operation breaks a collection, however it ends.
pub proof fn lemma_run_keeps_well_formed(
    c: CollectionView,
    session: SessionView,
    command: CommandView,
)
    requires
        well_formed(c),
    ensures
        well_formed(run(c, session, command).0),
    decreases rounds_left(session),
{
    lemma_apply_keeps_well_formed(c, command);
    let (after, event) = apply(c, command);
    if let StepView::Continue(s, next) = next_step(session, event) {
        lemma_run_keeps_well_formed(after, s, next);
    }
}

/// A creation answers with status 200 and the document it sent, and a query
/// for the new label then returns exactly one record: the submitted label,
/// price and quantity, stamped with the time of the creation. This is so
/// where no record carried the label before and an identifier is left.
pub proof fn law_create_then_get(
    c: CollectionView,
    body: JsonBodyView,
    now: i64,
    sort: Option<Seq<SortKeyView>>,
)
    requires
        c.next is Some,
        !has_label(c, body.item),
    ensures
        ({
            let start = creation_start(body, now);
            let (c1, answer) = run(c, start.0, start.1);
            let query = query_start(item_is(body.item), sort);
            let (c2, found) = run(c1, query.0, query.1);
            &&& answer == Ok::<ResponseView, crate::gateway::Fault>(created(draft_of(body, now)))
            &&& c1.records == c.records.push(draft_of(body, now).with_id(c.next.unwrap()))
            &&& c2 == c1
            &&& found == Ok::<ResponseView, crate::gateway::Fault>(
                ResponseView::Records(seq![draft_of(body, now).with_id(c.next.unwrap())]),
            )
        }),
{
    let fresh = draft_of(body, now).with_id(c.next.unwrap());
    let filter = item_is(body.item);
    assert forall|i: int| 0 <= i < c.records.len() implies !fits(#[trigger] c.records[i], filter) by {
        lemma_fits_label(c.records[i], body.item);
    }
    lemma_matching_none(c.records, filter);
    lemma_fits_label(fresh, body.item);
    lemma_matching_push(c.records, fresh, filter);
    let hits = matching(c.records.push(fresh), filter);
    assert(hits =~= seq![fresh]);
    lemma_arrange_one(sort, fresh);
    let items = crate::store::all_found(seq![fresh]);
    assert(crate::gateway::all_decoded(items));
    assert(crate::gateway::decoded(items) =~= seq![fresh]);
}

/// Sorting a single record leaves it as it is.
proof fn lemma_arrange_one(sort: Option<Seq<SortKeyView>>, doc: DocView)
    ensures
        arrange(sort, seq![doc]) == seq![doc],
{
    if let Some(keys) = sort {
        let s = seq![doc];
        assert(s.drop_last() =~= Seq::<DocView>::empty());
        assert(crate::ordering::ordered_by(keys, s.drop_last()) =~= Seq::<DocView>::empty());
        assert(Seq::<DocView>::empty().push(doc) =~= s);
        reveal_with_fuel(crate::ordering::ordered_by, 2);
    }
}

/// An update or a delete by a label that no record carries answers with
/// status 401 and leaves the collection as it was.
pub proof fn law_absent_label_changes_nothing(c: CollectionView, item: Seq<char>)
    requires
        !has_label(c, item),
    ensures
        run(c, update_start(item).0, update_start(item).1) == (
            c,
            Ok::<ResponseView, crate::gateway::Fault>(not_found()),
        ),
        run(c, delete_start(item).0, delete_start(item).1) == (
            c,
            Ok::<ResponseView, crate::gateway::Fault>(not_found()),
        ),
{
    lemma_label_first_match(c, item);
}

/// The first match of a label's filter is the first record that carries the
/// label.
pub proof fn lemma_label_first_match(c: CollectionView, item: Seq<char>)
    ensures
        match first_match(c.records, item_is(item)) {
            Some(i) => {
                &&& 0 <= i < c.records.len()
                &&& c.records[i].item == item
                &&& forall|k: int| 0 <= k < i ==> (#[trigger] c.records[k]).item != item
            },
            None => !has_label(c, item),
        },
        has_label(c, item) == (first_match(c.records, item_is(item)) is Some),
{
    lemma_first_match(c.records, item_is(item));
    assert forall|k: int| 0 <= k < c.records.len() implies fits(
        #[trigger] c.records[k],
        item_is(item),
    ) == (c.records[k].item == item) by {
        lemma_fits_label(c.records[k], item);
    }
}

/// An update by a label that some record carries answers with status 201
/// and gives the first such record the placeholder label; nothing else
/// changes.
pub proof fn law_update_relabels(c: CollectionView, item: Seq<char>)
    requires
        has_label(c, item),
    ensures
        ({
            let (after, answer) = run(c, update_start(item).0, update_start(item).1);
            let i = first_match(c.records, item_is(item)).unwrap();
            &&& answer == Ok::<ResponseView, crate::gateway::Fault>(updated())
            &&& 0 <= i < c.records.len()
            &&& c.records[i].item == item
            &&& after.records == c.records.update(i, relabel(c.records[i], placeholder()))
            &&& after.records[i].item == placeholder()
            &&& after.records.len() == c.records.len()
            &&& after.next == c.next
        }),
{
    lemma_label_first_match(c, item);
    reveal_with_fuel(run, 2);
}

/// A delete by a label that some record carries answers with status 200 and
/// removes the first such record: the collection is smaller by exactly one.
pub proof fn law_delete_removes_one(c: CollectionView, item: Seq<char>)
    requires
        has_label(c, item),
    ensures
        ({
            let (after, answer) = run(c, delete_start(item).0, delete_start(item).1);
            let i = first_match(c.records, item_is(item)).unwrap();
            &&& answer == Ok::<ResponseView, crate::gateway::Fault>(deleted())
            &&& 0 <= i < c.records.len()
            &&& c.records[i].item == item
            &&& after.records == c.records.remove(i)
            &&& after.records.len() == c.records.len() - 1
            &&& after.next == c.next
        }),
{
    lemma_label_first_match(c, item);
    reveal_with_fuel(run, 2);
}

/// A query without filter and without sort returns every record of the
/// collection, each once, and leaves the collection as it was.
pub proof fn law_get_everything(c: CollectionView)
    requires
        well_formed(c),
    ensures
        run(c, query_start(Seq::empty(), None).0, query_start(Seq::empty(), None).1) == (
            c,
            Ok::<ResponseView, crate::gateway::Fault>(ResponseView::Records(c.records)),
        ),
        forall|i: int, j: int|
            0 <= i < j < c.records.len() ==> (#[trigger] c.records[i]).id != (
            #[trigger] c.records[j]).id,
{
    let filter = Seq::<ClauseView>::empty();
    lemma_matching_all(c.records, filter);
    let items = crate::store::all_found(c.records);
    assert(crate::gateway::all_decoded(items));
    assert(crate::gateway::decoded(items) =~= c.records);
}

/// A query without filter returns every record of the collection as often
/// as the collection holds it, whatever sort is asked for, and in the order
/// of that sort.
pub proof fn law_get_everything_sorted(c: CollectionView, keys: Seq<SortKeyView>)
    ensures
        ({
            let start = query_start(Seq::empty(), Some(keys));
            let (after, answer) = run(c, start.0, start.1);
            &&& after == c
            &&& answer matches Ok(ResponseView::Records(found))
            &&& found.to_multiset() == c.records.to_multiset()
            &&& crate::ordering::in_order(keys, found)
        }),
{
    let filter = Seq::<ClauseView>::empty();
    lemma_matching_all(c.records, filter);
    lemma_ordered_by_sorts(keys, c.records);
    let sorted = crate::ordering::ordered_by(keys, c.records);
    let items = crate::store::all_found(sorted);
    assert(crate::gateway::all_decoded(items));
    assert(crate::gateway::decoded(items) =~= sorted);
}

/// A query whose filter no record matches returns the empty sequence: an
/// answer, not a fault.
pub proof fn law_get_nothing(
    c: CollectionView,
    filter: Seq<ClauseView>,
    sort: Option<Seq<SortKeyView>>,
)
    requires
        forall|i: int| 0 <= i < c.records.len() ==> !fits(#[trigger] c.records[i], filter),
    ensures
        run(c, query_start(filter, sort).0, query_start(filter, sort).1) == (
            c,
            Ok::<ResponseView, crate::gateway::Fault>(ResponseView::Records(Seq::empty())),
        ),
{
    lemma_matching_none(c.records, filter);
    let none = Seq::<DocView>::empty();
    assert(arrange(sort, none) =~= none);
    let items = crate::store::all_found(none);
    assert(crate::gateway::all_decoded(items));
    assert(crate::gateway::decoded(items) =~= none);
}

/// Where exactly one record carries a label, a delete by it answers with
/// status 200, and a second delete by it answers with status 401 and leaves
/// the collection as the first left it.
pub proof fn law_delete_twice(c: CollectionView, item: Seq<char>, only: int)
    requires
        0 <= only < c.records.len(),
        forall|k: int| 0 <= k < c.records.len() ==> ((#[trigger] c.records[k]).item == item <==> k
            == only),
    ensures
        ({
            let start = delete_start(item);
            let (c1, first) = run(c, start.0, start.1);
            let (c2, second) = run(c1, start.0, start.1);
            &&& first == Ok::<ResponseView, crate::gateway::Fault>(deleted())
            &&& c1.records == c.records.remove(only)
            &&& second == Ok::<ResponseView, crate::gateway::Fault>(not_found())
            &&& c2 == c1
        }),
{
    assert(c.records[only].item == item);
    assert(has_label(c, item));
    law_delete_removes_one(c, item);
    lemma_label_first_match(c, item);
    let start = delete_start(item);
    let c1 = run(c, start.0, start.1).0;
    assert(first_match(c.records, item_is(item)) == Some(only));
    assert forall|k: int| 0 <= k < c1.records.len() implies (#[trigger] c1.records[k]).item
        != item by {
        let k0 = if k < only { k } else { k + 1 };
        assert(c1.records[k] == c.records[k0]);
    }
    assert(!has_label(c1, item));
    law_absent_label_changes_nothing(c1, item);
}

} // verus!
