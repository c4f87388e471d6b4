use roc::config::{Mongodb, Target};
use roc::gateway::{decode_all, Command, Event, Fault, Response, Session, Step};
use roc::query::{Clause, Direction, Filter, Options, Sort, SortKey, Value};
use roc::shapes::{Doc, Draft, JsonBody, ObjectId, UpdateBody};
use std::time::{SystemTime, UNIX_EPOCH};

fn gateway() -> Mongodb {
    Mongodb {
        coll: Target {
            uri: "mongodb://h".to_string(),
            app_name: "CRUD_EXAMPLE".to_string(),
            db: "shop".to_string(),
            coll: "items".to_string(),
        },
    }
}

fn by_item(item: &str) -> Filter {
    Filter { clauses: vec![Clause { field: "item".to_string(), value: Value::Text(item.to_string()) }] }
}

fn pen(id: u64) -> Doc {
    Doc {
        id: ObjectId { head: 0, tail: id },
        item: "pen".to_string(),
        price: 1.5f64.to_bits(),
        quantity: 10,
        date: 1_700_000_000_000,
    }
}

fn status(code: u16, message: &str) -> Step {
    Step::Respond(Response::Status { status_code: code, message: message.to_string() })
}

#[test]
fn options_new_keeps_both_parts() {
    let sort = Sort { keys: vec![SortKey { field: "id".to_string(), direction: Direction::Ascending }] };
    let options = Options::new(None, Some(sort));
    assert_eq!(options.filter_doc, None);
    assert_eq!(
        options.sort_option,
        Some(Sort { keys: vec![SortKey { field: "id".to_string(), direction: Direction::Ascending }] })
    );
    let options = Options::new(Some(by_item("pen")), None);
    assert_eq!(options.filter_doc, Some(by_item("pen")));
    assert_eq!(options.sort_option, None);
}

#[test]
fn filter_by_item_is_one_clause_on_the_label() {
    assert_eq!(Filter::by_item("pen"), by_item("pen"));
    assert_eq!(Filter::default(), Filter { clauses: vec![] });
}

#[test]
fn get_without_filter_asks_for_everything() {
    let (session, command) = gateway().get(None, None);
    assert_eq!(session, Session::Fetching);
    assert_eq!(command, Command::Find { filter: Filter { clauses: vec![] }, sort: None });
}

#[test]
fn get_carries_filter_and_sort() {
    let sort = Sort { keys: vec![SortKey { field: "price".to_string(), direction: Direction::Descending }] };
    let (session, command) = gateway().get(Some(by_item("pen")), Some(sort));
    assert_eq!(session, Session::Fetching);
    assert_eq!(
        command,
        Command::Find {
            filter: by_item("pen"),
            sort: Some(Sort {
                keys: vec![SortKey { field: "price".to_string(), direction: Direction::Descending }],
            }),
        }
    );
}

#[test]
fn get_answers_with_the_records_in_order() {
    let (session, _) = gateway().get(None, None);
    let step = session.resume(Event::Found(vec![Some(pen(2)), Some(pen(1))]));
    assert_eq!(step, Step::Respond(Response::Records(vec![pen(2), pen(1)])));
}

#[test]
fn get_answers_with_an_empty_sequence_when_nothing_matches() {
    let (session, _) = gateway().get(Some(by_item("ink")), None);
    let step = session.resume(Event::Found(vec![]));
    assert_eq!(step, Step::Respond(Response::Records(vec![])));
}

#[test]
fn get_gives_up_on_a_document_that_does_not_decode() {
    let (session, _) = gateway().get(None, None);
    let step = session.resume(Event::Found(vec![Some(pen(1)), None, Some(pen(3))]));
    assert_eq!(step, Step::Abort(Fault::Decode));
}

#[test]
fn get_gives_up_when_the_query_fails() {
    let (session, _) = gateway().get(None, None);
    assert_eq!(session.resume(Event::Failed), Step::Abort(Fault::Query));
    let (session, _) = gateway().get(None, None);
    assert_eq!(session.resume(Event::Inserted), Step::Abort(Fault::Query));
    let (session, _) = gateway().get(None, None);
    assert_eq!(session.resume(Event::FoundOne(true)), Step::Abort(Fault::Query));
}

#[test]
fn decode_all_has_no_partial_results() {
    assert_eq!(decode_all(&vec![]), Some(vec![]));
    assert_eq!(decode_all(&vec![Some(pen(1)), Some(pen(2))]), Some(vec![pen(1), pen(2)]));
    assert_eq!(decode_all(&vec![Some(pen(1)), None]), None);
    assert_eq!(decode_all(&vec![None]), None);
}

#[test]
fn post_at_builds_the_document_from_the_body() {
    let body = JsonBody { item: "pen".to_string(), price: 1.5f64.to_bits(), quantity: 10 };
    let (session, command) = gateway().post_at(body, 1_700_000_000_123);
    let draft = Draft {
        item: "pen".to_string(),
        price: 0x3FF8_0000_0000_0000,
        quantity: 10,
        date: 1_700_000_000_123,
    };
    assert_eq!(command, Command::InsertOne { record: draft.clone() });
    assert_eq!(session, Session::Inserting(draft));
}

#[test]
fn post_answers_200_with_the_document_sent() {
    let body = JsonBody { item: "pen".to_string(), price: 1.5f64.to_bits(), quantity: -3 };
    let (session, _) = gateway().post_at(body, 42);
    let step = session.resume(Event::Inserted);
    assert_eq!(
        step,
        Step::Respond(Response::Created {
            data: Draft { item: "pen".to_string(), price: 1.5f64.to_bits(), quantity: -3, date: 42 },
            status_code: 200,
            message: "success".to_string(),
        })
    );
}

#[test]
fn post_gives_up_when_the_insert_fails() {
    let body = JsonBody { item: "pen".to_string(), price: 0, quantity: 1 };
    let (session, _) = gateway().post_at(body, 42);
    assert_eq!(session.resume(Event::Failed), Step::Abort(Fault::Write));
    let body = JsonBody { item: "pen".to_string(), price: 0, quantity: 1 };
    let (session, _) = gateway().post_at(body, 42);
    assert_eq!(session.resume(Event::Updated), Step::Abort(Fault::Write));
}

#[test]
fn post_stamps_the_time_of_the_call() {
    let before = SystemTime::now().duration_since(UNIX_EPOCH).unwrap().as_millis() as i64;
    let body = JsonBody { item: "pen".to_string(), price: 1.5f64.to_bits(), quantity: 10 };
    let (session, command) = gateway().post(body);
    let after = SystemTime::now().duration_since(UNIX_EPOCH).unwrap().as_millis() as i64;
    match (session, command) {
        (Session::Inserting(data), Command::InsertOne { record }) => {
            assert_eq!(data, record);
            assert_eq!(record.item, "pen");
            assert_eq!(record.price, 1.5f64.to_bits());
            assert_eq!(record.quantity, 10);
            assert!(before <= record.date);
            assert!(record.date <= after);
        }
        other => panic!("a creation starts with an insert, not {:?}", other),
    }
}

#[test]
fn check_user_looks_for_one_record_by_label() {
    let body = UpdateBody { item: "pen".to_string() };
    assert_eq!(Mongodb::check_user(&body), Command::FindOne { filter: by_item("pen") });
}

#[test]
fn update_starts_with_the_existence_check() {
    let (session, command) = gateway().update(UpdateBody { item: "pen".to_string() });
    assert_eq!(session, Session::CheckingUpdate(UpdateBody { item: "pen".to_string() }));
    assert_eq!(command, Command::FindOne { filter: by_item("pen") });
}

#[test]
fn update_of_an_absent_label_answers_401_without_a_write() {
    let (session, _) = gateway().update(UpdateBody { item: "pen".to_string() });
    assert_eq!(session.resume(Event::FoundOne(false)), status(401, "not found user"));
}

#[test]
fn update_of_a_present_label_writes_the_placeholder() {
    let (session, _) = gateway().update(UpdateBody { item: "pen".to_string() });
    let step = session.resume(Event::FoundOne(true));
    assert_eq!(
        step,
        Step::Continue(
            Session::Updating,
            Command::UpdateOne { filter: by_item("pen"), item: "new item".to_string() },
        )
    );
    assert_eq!(Session::Updating.resume(Event::Updated), status(201, "updated"));
}

#[test]
fn update_gives_up_when_a_round_trip_fails() {
    let (session, _) = gateway().update(UpdateBody { item: "pen".to_string() });
    assert_eq!(session.resume(Event::Failed), Step::Abort(Fault::Query));
    let (session, _) = gateway().update(UpdateBody { item: "pen".to_string() });
    assert_eq!(session.resume(Event::Updated), Step::Abort(Fault::Query));
    assert_eq!(Session::Updating.resume(Event::Failed), Step::Abort(Fault::Write));
    assert_eq!(Session::Updating.resume(Event::Deleted), Step::Abort(Fault::Write));
    assert_eq!(Session::Updating.resume(Event::FoundOne(true)), Step::Abort(Fault::Write));
}

#[test]
fn delete_starts_with_the_existence_check() {
    let (session, command) = gateway().delete(UpdateBody { item: "pen".to_string() });
    assert_eq!(session, Session::CheckingDelete(UpdateBody { item: "pen".to_string() }));
    assert_eq!(command, Command::FindOne { filter: by_item("pen") });
}

#[test]
fn delete_of_an_absent_label_answers_401_without_a_write() {
    let (session, _) = gateway().delete(UpdateBody { item: "pen".to_string() });
    assert_eq!(session.resume(Event::FoundOne(false)), status(401, "not found user"));
}

#[test]
fn delete_of_a_present_label_removes_one_record() {
    let (session, _) = gateway().delete(UpdateBody { item: "pen".to_string() });
    let step = session.resume(Event::FoundOne(true));
    assert_eq!(
        step,
        Step::Continue(Session::Deleting, Command::DeleteOne { filter: by_item("pen") })
    );
    assert_eq!(Session::Deleting.resume(Event::Deleted), status(200, "deleted"));
}

#[test]
fn delete_gives_up_when_a_round_trip_fails() {
    let (session, _) = gateway().delete(UpdateBody { item: "pen".to_string() });
    assert_eq!(session.resume(Event::Failed), Step::Abort(Fault::Query));
    let (session, _) = gateway().delete(UpdateBody { item: "pen".to_string() });
    assert_eq!(session.resume(Event::Found(vec![])), Step::Abort(Fault::Query));
    assert_eq!(Session::Deleting.resume(Event::Failed), Step::Abort(Fault::Write));
    assert_eq!(Session::Deleting.resume(Event::Updated), Step::Abort(Fault::Write));
}
