use roc::config::{Mongodb, Target};
use roc::gateway::{Command, Event, Fault, Response, Step};
use roc::query::{Clause, Direction, Filter, Sort, SortKey, Value};
use roc::shapes::{Doc, Draft, JsonBody, ObjectId, UpdateBody};
use roc::store::MemoryCollection;

fn gateway() -> Mongodb {
    Mongodb {
        coll: Target {
            uri: "mongodb://h".to_string(),
            app_name: "CRUD_EXAMPLE".to_string(),
            db: "shop".to_string(),
            coll: "items".to_string(),
        },
    }
}

fn by_item(item: &str) -> Filter {
    Filter { clauses: vec![Clause { field: "item".to_string(), value: Value::Text(item.to_string()) }] }
}

fn body(item: &str, price: f64, quantity: i32) -> JsonBody {
    JsonBody { item: item.to_string(), price: price.to_bits(), quantity }
}

fn selector(item: &str) -> UpdateBody {
    UpdateBody { item: item.to_string() }
}

fn status(code: u16, message: &str) -> Result<Response, Fault> {
    Ok(Response::Status { status_code: code, message: message.to_string() })
}

fn create(store: &mut MemoryCollection, item: &str, price: f64, quantity: i32, now: i64) {
    let (session, command) = gateway().post_at(body(item, price, quantity), now);
    let answer = store.serve(session, command);
    assert_eq!(
        answer,
        Ok(Response::Created {
            data: Draft { item: item.to_string(), price: price.to_bits(), quantity, date: now },
            status_code: 200,
            message: "success".to_string(),
        })
    );
}

fn get(store: &mut MemoryCollection, filter: Option<Filter>, sort: Option<Sort>) -> Vec<Doc> {
    let (session, command) = gateway().get(filter, sort);
    match store.serve(session, command) {
        Ok(Response::Records(docs)) => docs,
        other => panic!("a query answers with records, not {:?}", other),
    }
}

fn labels(docs: &[Doc]) -> Vec<String> {
    docs.iter().map(|d| d.item.clone()).collect()
}

fn doc(id: u64, item: &str, price: f64, quantity: i32, date: i64) -> Doc {
    Doc { id: ObjectId { head: 0, tail: id }, item: item.to_string(), price: price.to_bits(), quantity, date }
}

fn sort_by(keys: &[(&str, Direction)]) -> Option<Sort> {
    Some(Sort {
        keys: keys.iter().map(|(f, d)| SortKey { field: f.to_string(), direction: *d }).collect(),
    })
}

#[test]
fn a_new_collection_is_empty() {
    let mut store = MemoryCollection::new();
    assert_eq!(store.len(), 0);
    assert_eq!(store.records(), vec![]);
    assert_eq!(get(&mut store, None, None), vec![]);
}

#[test]
fn create_then_get_returns_the_one_new_record() {
    let mut store = MemoryCollection::new();
    create(&mut store, "ink", 3.25, 2, 1_000);
    create(&mut store, "pen", 1.5, 10, 2_000);
    let found = get(&mut store, Some(by_item("pen")), None);
    assert_eq!(found, vec![doc(1, "pen", 1.5, 10, 2_000)]);
    assert_eq!(store.len(), 2);
}

#[test]
fn update_and_delete_of_an_absent_label_change_nothing() {
    let mut store = MemoryCollection::new();
    create(&mut store, "ink", 3.25, 2, 1_000);
    let before = store.records();
    let (session, command) = gateway().update(selector("pen"));
    assert_eq!(store.serve(session, command), status(401, "not found user"));
    assert_eq!(store.records(), before);
    let (session, command) = gateway().delete(selector("pen"));
    assert_eq!(store.serve(session, command), status(401, "not found user"));
    assert_eq!(store.records(), before);
    assert_eq!(store.len(), 1);
}

#[test]
fn update_gives_the_matched_record_the_placeholder_label() {
    let mut store = MemoryCollection::new();
    create(&mut store, "ink", 3.25, 2, 1_000);
    create(&mut store, "pen", 1.5, 10, 2_000);
    let (session, command) = gateway().update(selector("pen"));
    assert_eq!(store.serve(session, command), status(201, "updated"));
    assert_eq!(
        store.records(),
        vec![doc(0, "ink", 3.25, 2, 1_000), doc(1, "new item", 1.5, 10, 2_000)]
    );
}

#[test]
fn update_touches_only_the_first_of_several_matches() {
    let mut store = MemoryCollection::new();
    create(&mut store, "pen", 1.0, 1, 1_000);
    create(&mut store, "pen", 2.0, 2, 2_000);
    let (session, command) = gateway().update(selector("pen"));
    assert_eq!(store.serve(session, command), status(201, "updated"));
    assert_eq!(
        store.records(),
        vec![doc(0, "new item", 1.0, 1, 1_000), doc(1, "pen", 2.0, 2, 2_000)]
    );
}

#[test]
fn delete_makes_the_collection_smaller_by_one() {
    let mut store = MemoryCollection::new();
    create(&mut store, "pen", 1.0, 1, 1_000);
    create(&mut store, "ink", 3.25, 2, 1_500);
    create(&mut store, "pen", 2.0, 2, 2_000);
    let (session, command) = gateway().delete(selector("pen"));
    assert_eq!(store.serve(session, command), status(200, "deleted"));
    assert_eq!(store.len(), 2);
    assert_eq!(
        store.records(),
        vec![doc(1, "ink", 3.25, 2, 1_500), doc(2, "pen", 2.0, 2, 2_000)]
    );
}

#[test]
fn get_without_filter_and_sort_returns_every_record_once() {
    let mut store = MemoryCollection::new();
    create(&mut store, "pen", 1.5, 10, 1_000);
    create(&mut store, "ink", 3.25, 2, 2_000);
    create(&mut store, "pen", 1.5, 10, 3_000);
    let found = get(&mut store, None, None);
    assert_eq!(
        found,
        vec![
            doc(0, "pen", 1.5, 10, 1_000),
            doc(1, "ink", 3.25, 2, 2_000),
            doc(2, "pen", 1.5, 10, 3_000),
        ]
    );
    assert_eq!(found, store.records());
}

#[test]
fn get_with_a_filter_that_matches_nothing_returns_an_empty_sequence() {
    let mut store = MemoryCollection::new();
    create(&mut store, "pen", 1.5, 10, 1_000);
    let (session, command) = gateway().get(Some(by_item("ink")), None);
    assert_eq!(store.serve(session, command), Ok(Response::Records(vec![])));
    let other_kind =
        Filter { clauses: vec![Clause { field: "item".to_string(), value: Value::Int32(10) }] };
    assert_eq!(get(&mut store, Some(other_kind), None), vec![]);
    let no_such_field =
        Filter { clauses: vec![Clause { field: "label".to_string(), value: Value::Text("pen".to_string()) }] };
    assert_eq!(get(&mut store, Some(no_such_field), None), vec![]);
}

#[test]
fn delete_twice_finds_nothing_the_second_time() {
    let mut store = MemoryCollection::new();
    create(&mut store, "ink", 3.25, 2, 1_000);
    create(&mut store, "pen", 1.5, 10, 2_000);
    let (session, command) = gateway().delete(selector("pen"));
    assert_eq!(store.serve(session, command), status(200, "deleted"));
    let after_first = store.records();
    assert_eq!(after_first, vec![doc(0, "ink", 3.25, 2, 1_000)]);
    let (session, command) = gateway().delete(selector("pen"));
    assert_eq!(store.serve(session, command), status(401, "not found user"));
    assert_eq!(store.records(), after_first);
}

#[test]
fn delete_twice_removes_two_where_two_share_the_label() {
    let mut store = MemoryCollection::new();
    create(&mut store, "pen", 1.0, 1, 1_000);
    create(&mut store, "pen", 2.0, 2, 2_000);
    let (session, command) = gateway().delete(selector("pen"));
    assert_eq!(store.serve(session, command), status(200, "deleted"));
    let (session, command) = gateway().delete(selector("pen"));
    assert_eq!(store.serve(session, command), status(200, "deleted"));
    assert_eq!(store.len(), 0);
}

#[test]
fn pen_is_created_found_relabelled_and_deleted() {
    let mut store = MemoryCollection::new();
    create(&mut store, "pen", 1.5, 10, 1_700_000_000_000);
    let found = get(&mut store, None, None);
    assert_eq!(found.len(), 1);
    assert_eq!(found[0].item, "pen");
    assert_eq!(f64::from_bits(found[0].price), 1.5);
    assert_eq!(found[0].quantity, 10);
    let (session, command) = gateway().update(selector("pen"));
    assert_eq!(store.serve(session, command), status(201, "updated"));
    assert_eq!(labels(&store.records()), vec!["new item".to_string()]);
    let (session, command) = gateway().delete(selector("new item"));
    assert_eq!(store.serve(session, command), status(200, "deleted"));
    assert_eq!(store.len(), 0);
    assert_eq!(get(&mut store, None, None), vec![]);
}

#[test]
fn stepping_by_hand_does_what_serve_does() {
    let mut store = MemoryCollection::new();
    create(&mut store, "pen", 1.5, 10, 1_000);
    let (session, command) = gateway().update(selector("pen"));
    let event = store.execute(&command);
    assert_eq!(event, Event::FoundOne(true));
    let (session, command) = match session.resume(event) {
        Step::Continue(session, command) => (session, command),
        other => panic!("the update goes on to its write, not {:?}", other),
    };
    let event = store.execute(&command);
    assert_eq!(event, Event::Updated);
    assert_eq!(
        session.resume(event),
        Step::Respond(Response::Status { status_code: 201, message: "updated".to_string() })
    );
    assert_eq!(labels(&store.records()), vec!["new item".to_string()]);
}

#[test]
fn a_write_that_matches_nothing_still_goes_through() {
    let mut store = MemoryCollection::new();
    create(&mut store, "pen", 1.5, 10, 1_000);
    let before = store.records();
    let event = store.execute(&Command::UpdateOne { filter: by_item("ink"), item: "x".to_string() });
    assert_eq!(event, Event::Updated);
    let event = store.execute(&Command::DeleteOne { filter: by_item("ink") });
    assert_eq!(event, Event::Deleted);
    assert_eq!(store.records(), before);
}

#[test]
fn identifiers_are_assigned_in_turn_and_never_twice() {
    let mut store = MemoryCollection::starting_at(ObjectId { head: 7, tail: u64::MAX });
    create(&mut store, "a", 0.0, 0, 1);
    create(&mut store, "b", 0.0, 0, 2);
    let (session, command) = gateway().delete(selector("a"));
    assert_eq!(store.serve(session, command), status(200, "deleted"));
    create(&mut store, "c", 0.0, 0, 3);
    let ids: Vec<ObjectId> = store.records().iter().map(|d| d.id).collect();
    assert_eq!(ids, vec![ObjectId { head: 8, tail: 0 }, ObjectId { head: 8, tail: 1 }]);
}

#[test]
fn an_insert_fails_once_the_identifiers_are_used_up() {
    let mut store = MemoryCollection::starting_at(ObjectId { head: u32::MAX, tail: u64::MAX });
    create(&mut store, "last", 0.0, 0, 1);
    let (session, command) = gateway().post_at(body("one more", 0.0, 0), 2);
    assert_eq!(store.serve(session, command), Err(Fault::Write));
    assert_eq!(store.len(), 1);
}

#[test]
fn get_sorts_by_one_key_either_way() {
    let mut store = MemoryCollection::new();
    create(&mut store, "pen", 1.5, 10, 3_000);
    create(&mut store, "ink", 3.25, -2, 1_000);
    create(&mut store, "cap", 0.5, 7, 2_000);
    let up = get(&mut store, None, sort_by(&[("quantity", Direction::Ascending)]));
    assert_eq!(labels(&up), vec!["ink", "cap", "pen"]);
    let down = get(&mut store, None, sort_by(&[("quantity", Direction::Descending)]));
    assert_eq!(labels(&down), vec!["pen", "cap", "ink"]);
    let by_label = get(&mut store, None, sort_by(&[("item", Direction::Ascending)]));
    assert_eq!(labels(&by_label), vec!["cap", "ink", "pen"]);
    let by_price = get(&mut store, None, sort_by(&[("price", Direction::Descending)]));
    assert_eq!(labels(&by_price), vec!["ink", "pen", "cap"]);
    let by_date = get(&mut store, None, sort_by(&[("date", Direction::Ascending)]));
    assert_eq!(labels(&by_date), vec!["ink", "cap", "pen"]);
    let by_id = get(&mut store, None, sort_by(&[("_id", Direction::Descending)]));
    assert_eq!(labels(&by_id), vec!["cap", "ink", "pen"]);
}

#[test]
fn get_breaks_ties_by_later_keys_and_then_by_insertion() {
    let mut store = MemoryCollection::new();
    create(&mut store, "pen", 1.0, 5, 1_000);
    create(&mut store, "ink", 2.0, 5, 2_000);
    create(&mut store, "cap", 2.0, 1, 3_000);
    create(&mut store, "nib", 1.0, 5, 4_000);
    let found = get(
        &mut store,
        None,
        sort_by(&[("quantity", Direction::Ascending), ("price", Direction::Descending)]),
    );
    assert_eq!(labels(&found), vec!["cap", "ink", "pen", "nib"]);
}

#[test]
fn get_keeps_the_order_of_insertion_under_a_field_that_no_record_has() {
    let mut store = MemoryCollection::new();
    create(&mut store, "pen", 1.5, 10, 3_000);
    create(&mut store, "ink", 3.25, 2, 1_000);
    create(&mut store, "cap", 0.5, 7, 2_000);
    let found = get(&mut store, None, sort_by(&[("id", Direction::Ascending)]));
    assert_eq!(labels(&found), vec!["pen", "ink", "cap"]);
    let found = get(&mut store, None, sort_by(&[]));
    assert_eq!(labels(&found), vec!["pen", "ink", "cap"]);
}

#[test]
fn get_filters_and_sorts_together() {
    let mut store = MemoryCollection::new();
    create(&mut store, "pen", 2.0, 10, 1_000);
    create(&mut store, "ink", 3.25, 2, 2_000);
    create(&mut store, "pen", 1.0, 10, 3_000);
    let found = get(&mut store, Some(by_item("pen")), sort_by(&[("price", Direction::Ascending)]));
    assert_eq!(found, vec![doc(2, "pen", 1.0, 10, 3_000), doc(0, "pen", 2.0, 10, 1_000)]);
    let both = Filter {
        clauses: vec![
            Clause { field: "item".to_string(), value: Value::Text("pen".to_string()) },
            Clause { field: "price".to_string(), value: Value::Double(2.0f64.to_bits()) },
        ],
    };
    assert_eq!(get(&mut store, Some(both), None), vec![doc(0, "pen", 2.0, 10, 1_000)]);
}
