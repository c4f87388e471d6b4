//! The collection gateway: what each operation asks of the store, and what
//! it makes of each reply.
//!
//! An operation never talks to the store itself. Starting one yields a
//! [`Session`] and the first [`Command`]; whoever holds the connection
//! carries the command out and hands the [`Event`] that came back to
//! [`Session::resume`], until that yields a response or a fault.

use crate::clock::current_millis;
use crate::config::Mongodb;
use crate::query::{
    filter_or_all, item_is, sort_keys, ClauseView, Filter, Sort, SortKeyView,
};
use crate::shapes::{Doc, DocView, Draft, DraftView, JsonBody, JsonBodyView, UpdateBody};
use vstd::prelude::*;

verus! {

/// One round trip to the store.
#[derive(Debug, PartialEq, Eq)]
pub enum Command {
    /// Fetch every record that matches, in the given order.
    Find { filter: Filter, sort: Option<Sort> },
    /// Look for one record that matches.
    FindOne { filter: Filter },
    /// Add a record; the store assigns its identifier.
    InsertOne { record: Draft },
    /// Set the label of one matching record to `item`.
    UpdateOne { filter: Filter, item: String },
    /// Remove one matching record.
    DeleteOne { filter: Filter },
}

/// What a [`Command`] holds.
pub enum CommandView {
    Find { filter: Seq<ClauseView>, sort: Option<Seq<SortKeyView>> },
    FindOne { filter: Seq<ClauseView> },
    InsertOne { record: DraftView },
    UpdateOne { filter: Seq<ClauseView>, item: Seq<char> },
    DeleteOne { filter: Seq<ClauseView> },
}

impl View for Command {
    type V = CommandView;

    open spec fn view(&self) -> CommandView {
        match self {
            Command::Find { filter, sort } => CommandView::Find {
                filter: filter@,
                sort: sort_keys(*sort),
            },
            Command::FindOne { filter } => CommandView::FindOne { filter: filter@ },
            Command::InsertOne { record } => CommandView::InsertOne { record: record@ },
            Command::UpdateOne { filter, item } => CommandView::UpdateOne {
                filter: filter@,
                item: item@,
            },
            Command::DeleteOne { filter } => CommandView::DeleteOne { filter: filter@ },
        }
    }
}

/// What came back from a round trip.
#[derive(Debug, PartialEq, Eq)]
pub enum Event {
    /// The documents that a `Find` fetched, in order; `None` stands for one
    /// that does not fit the record schema.
    Found(Vec<Option<Doc>>),
    /// Whether a `FindOne` found a record.
    FoundOne(bool),
    /// An `InsertOne` went through.
    Inserted,
    /// An `UpdateOne` went through.
    Updated,
    /// A `DeleteOne` went through.
    Deleted,
    /// The store or the connection reported a failure.
    Failed,
}

/// What an [`Event`] holds.
pub enum EventView {
    Found(Seq<Option<DocView>>),
    FoundOne(bool),
    Inserted,
    Updated,
    Deleted,
    Failed,
}

/// The views of fetched documents, in order.
pub open spec fn fetched_views(items: Seq<Option<Doc>>) -> Seq<Option<DocView>> {
    items.map_values(
        |o: Option<Doc>|
            match o {
                Some(d) => Some(d@),
                None => None,
            },
    )
}

impl View for Event {
    type V = EventView;

    open spec fn view(&self) -> EventView {
        match self {
            Event::Found(items) => EventView::Found(fetched_views(items@)),
            Event::FoundOne(present) => EventView::FoundOne(*present),
            Event::Inserted => EventView::Inserted,
            Event::Updated => EventView::Updated,
            Event::Deleted => EventView::Deleted,
            Event::Failed => EventView::Failed,
        }
    }
}

/// Why an operation was given up.
#[derive(Clone, Copy, Debug, PartialEq, Eq, Structural)]
pub enum Fault {
    /// A read did not come back as a read's reply.
    Query,
    /// A write did not come back as that write's reply.
    Write,
    /// A fetched document does not fit the record schema.
    Decode,
}

/// What an operation answers.
#[derive(Debug, PartialEq, Eq)]
pub enum Response {
    /// The records that a query selected.
    Records(Vec<Doc>),
    /// The envelope of a creation: the document that was sent to the store.
    Created { data: Draft, status_code: u16, message: String },
    /// The envelope of an update or a delete.
    Status { status_code: u16, message: String },
}

/// What a [`Response`] holds.
pub enum ResponseView {
    Records(Seq<DocView>),
    Created { data: DraftView, status_code: u16, message: Seq<char> },
    Status { status_code: u16, message: Seq<char> },
}

impl View for Response {
    type V = ResponseView;

    open spec fn view(&self) -> ResponseView {
        match self {
            Response::Records(docs) => ResponseView::Records(crate::shapes::doc_views(docs@)),
            Response::Created { data, status_code, message } => ResponseView::Created {
                data: data@,
                status_code: *status_code,
                message: message@,
            },
            Response::Status { status_code, message } => ResponseView::Status {
                status_code: *status_code,
                message: message@,
            },
        }
    }
}

/// An operation under way: which reply it waits for, and what it still
/// needs to answer.
#[derive(Debug, PartialEq, Eq)]
pub enum Session {
    /// A query waits for its records.
    Fetching,
    /// A creation waits for the insert of this document.
    Inserting(Draft),
    /// An update waits to learn whether a record carries the label.
    CheckingUpdate(UpdateBody),
    /// An update waits for its write.
    Updating,
    /// A delete waits to learn whether a record carries the label.
    CheckingDelete(UpdateBody),
    /// A delete waits for its write.
    Deleting,
}

/// What a [`Session`] holds.
pub enum SessionView {
    Fetching,
    Inserting(DraftView),
    CheckingUpdate(Seq<char>),
    Updating,
    CheckingDelete(Seq<char>),
    Deleting,
}

impl View for Session {
    type V = SessionView;

    open spec fn view(&self) -> SessionView {
        match self {
            Session::Fetching => SessionView::Fetching,
            Session::Inserting(data) => SessionView::Inserting(data@),
            Session::CheckingUpdate(body) => SessionView::CheckingUpdate(body@),
            Session::Updating => SessionView::Updating,
            Session::CheckingDelete(body) => SessionView::CheckingDelete(body@),
            Session::Deleting => SessionView::Deleting,
        }
    }
}

/// What an operation does next.
#[derive(Debug, PartialEq, Eq)]
pub enum Step {
    /// Carry out the command and resume the session with its reply.
    Continue(Session, Command),
    /// The operation is done, with this answer.
    Respond(Response),
    /// The operation is given up.
    Abort(Fault),
}

/// What a [`Step`] holds.
pub enum StepView {
    Continue(SessionView, CommandView),
    Respond(ResponseView),
    Abort(Fault),
}

impl View for Step {
    type V = StepView;

    open spec fn view(&self) -> StepView {
        match self {
            Step::Continue(session, command) => StepView::Continue(session@, command@),
            Step::Respond(response) => StepView::Respond(response@),
            Step::Abort(fault) => StepView::Abort(*fault),
        }
    }
}

/// The label that an update writes.
pub open spec fn placeholder() -> Seq<char> {
    "new item"@
}

/// The envelope for a label that no record carries.
pub open spec fn not_found() -> ResponseView {
    ResponseView::Status { status_code: 401, message: "not found user"@ }
}

/// The envelope of an update that went through.
pub open spec fn updated() -> ResponseView {
    ResponseView::Status { status_code: 201, message: "updated"@ }
}

/// The envelope of a delete that went through.
pub open spec fn deleted() -> ResponseView {
    ResponseView::Status { status_code: 200, message: "deleted"@ }
}

/// The envelope of a creation that went through.
pub open spec fn created(data: DraftView) -> ResponseView {
    ResponseView::Created { data, status_code: 200, message: "success"@ }
}

/// Whether every fetched document fits the schema.
pub open spec fn all_decoded(items: Seq<Option<DocView>>) -> bool {
    forall|i: int| 0 <= i < items.len() ==> (#[trigger] items[i]) is Some
}

/// The records that the fetched documents decode to, in order.
pub open spec fn decoded(items: Seq<Option<DocView>>) -> Seq<DocView> {
    items.map_values(|o: Option<DocView>| o.unwrap())
}

/// The existence check that opens an update or a delete.
pub open spec fn probe(item: Seq<char>) -> CommandView {
    CommandView::FindOne { filter: item_is(item) }
}

/// The document that a creation sends to the store at time `now`.
pub open spec fn draft_of(body: JsonBodyView, now: i64) -> DraftView {
    DraftView { item: body.item, price: body.price, quantity: body.quantity, date: now }
}

/// How a query starts.
pub open spec fn query_start(
    filter: Seq<ClauseView>,
    sort: Option<Seq<SortKeyView>>,
) -> (SessionView, CommandView) {
    (SessionView::Fetching, CommandView::Find { filter, sort })
}

/// How a creation starts at time `now`.
pub open spec fn creation_start(body: JsonBodyView, now: i64) -> (SessionView, CommandView) {
    (
        SessionView::Inserting(draft_of(body, now)),
        CommandView::InsertOne { record: draft_of(body, now) },
    )
}

/// How an update starts.
pub open spec fn update_start(item: Seq<char>) -> (SessionView, CommandView) {
    (SessionView::CheckingUpdate(item), probe(item))
}

/// How a delete starts.
pub open spec fn delete_start(item: Seq<char>) -> (SessionView, CommandView) {
    (SessionView::CheckingDelete(item), probe(item))
}

/// What a session does with a reply. A reply of another kind than the one
/// awaited counts as a failed round trip: of a read while fetching or
/// checking, of a write otherwise.
pub open spec fn next_step(session: SessionView, event: EventView) -> StepView {
    match session {
        SessionView::Fetching => match event {
            EventView::Found(items) => if all_decoded(items) {
                StepView::Respond(ResponseView::Records(decoded(items)))
            } else {
                StepView::Abort(Fault::Decode)
            },
            _ => StepView::Abort(Fault::Query),
        },
        SessionView::Inserting(data) => match event {
            EventView::Inserted => StepView::Respond(created(data)),
            _ => StepView::Abort(Fault::Write),
        },
        SessionView::CheckingUpdate(item) => match event {
            EventView::FoundOne(present) => if present {
                StepView::Continue(
                    SessionView::Updating,
                    CommandView::UpdateOne { filter: item_is(item), item: placeholder() },
                )
            } else {
                StepView::Respond(not_found())
            },
            _ => StepView::Abort(Fault::Query),
        },
        SessionView::Updating => match event {
            EventView::Updated => StepView::Respond(updated()),
            _ => StepView::Abort(Fault::Write),
        },
        SessionView::CheckingDelete(item) => match event {
            EventView::FoundOne(present) => if present {
                StepView::Continue(
                    SessionView::Deleting,
                    CommandView::DeleteOne { filter: item_is(item) },
                )
            } else {
                StepView::Respond(not_found())
            },
            _ => StepView::Abort(Fault::Query),
        },
        SessionView::Deleting => match event {
            EventView::Deleted => StepView::Respond(deleted()),
            _ => StepView::Abort(Fault::Write),
        },
    }
}

/// The records behind fetched documents, or `None` if one of them does not
/// fit the schema: there are no partial results.
pub fn decode_all(items: &Vec<Option<Doc>>) -> (docs: Option<Vec<Doc>>)
    ensures
        match docs {
            Some(d) => all_decoded(fetched_views(items@)) && crate::shapes::doc_views(d@)
                == decoded(fetched_views(items@)),
            None => !all_decoded(fetched_views(items@)),
        },
{
    let mut docs: Vec<Doc> = Vec::new();
    let mut i: usize = 0;
    while i < items.len()
        invariant
            i <= items.len(),
            docs@.len() == i,
            forall|k: int| 0 <= k < i ==> (#[trigger] items@[k]) is Some,
            forall|k: int| 0 <= k < i ==> (#[trigger] docs@[k])@ == items@[k].unwrap()@,
        decreases items.len() - i,
    {
        match &items[i] {
            Some(doc) => {
                docs.push(doc.clone());
            },
            None => {
                assert(fetched_views(items@)[i as int] is None);
                return None;
            },
        }
        i = i + 1;
    }
    proof {
        let views = fetched_views(items@);
        assert forall|k: int| 0 <= k < views.len() implies (#[trigger] views[k]) is Some by {
            assert(items@[k] is Some);
        }
        assert(crate::shapes::doc_views(docs@) =~= decoded(views));
    }
    Some(docs)
}

fn not_found_envelope() -> (response: Response)
    ensures
        response@ == not_found(),
{
    Response::Status { status_code: 401, message: "not found user".to_owned() }
}

impl Mongodb {
    /// Starts a query for the records that match `filter_doc`, ordered by
    /// `sort_option`. An absent filter matches every record; an absent sort
    /// leaves the order to the store.
    pub fn get(&self, filter_doc: Option<Filter>, sort_option: Option<Sort>) -> (started: (
        Session,
        Command,
    ))
        ensures
            (started.0@, started.1@) == query_start(
                filter_or_all(filter_doc),
                sort_keys(sort_option),
            ),
    {
        let filter = match filter_doc {
            Some(f) => f,
            None => Filter::default(),
        };
        (Session::Fetching, Command::Find { filter, sort: sort_option })
    }

    /// Starts a creation, stamped with the clock's reading at the call.
    pub fn post(&self, body: JsonBody) -> (started: (Session, Command))
        ensures
            exists|now: i64| (started.0@, started.1@) == #[trigger] creation_start(body@, now),
    {
        let now = current_millis();
        let started = self.post_at(body, now);
        assert((started.0@, started.1@) == creation_start(body@, now));
        started
    }

    /// Starts a creation, stamped with `now`.
    pub fn post_at(&self, body: JsonBody, now: i64) -> (started: (Session, Command))
        ensures
            (started.0@, started.1@) == creation_start(body@, now),
    {
        let record = Draft {
            item: body.item,
            price: body.price,
            quantity: body.quantity,
            date: now,
        };
        let data = record.clone();
        (Session::Inserting(data), Command::InsertOne { record })
    }

    /// The existence check: look for one record labelled `body.item`.
    pub fn check_user(body: &UpdateBody) -> (command: Command)
        ensures
            command@ == probe(body@),
    {
        Command::FindOne { filter: Filter::by_item(body.item.as_str()) }
    }

    /// Starts an update of the record labelled `body.item`.
    pub fn update(&self, body: UpdateBody) -> (started: (Session, Command))
        ensures
            (started.0@, started.1@) == update_start(body@),
    {
        let command = Mongodb::check_user(&body);
        (Session::CheckingUpdate(body), command)
    }

    /// Starts a delete of the record labelled `body.item`.
    pub fn delete(&self, body: UpdateBody) -> (started: (Session, Command))
        ensures
            (started.0@, started.1@) == delete_start(body@),
    {
        let command = Mongodb::check_user(&body);
        (Session::CheckingDelete(body), command)
    }
}

impl Session {
    /// Takes the reply to the command that this session waits for and says
    /// what to do next.
    pub fn resume(self, event: Event) -> (step: Step)
        ensures
            step@ == next_step(self@, event@),
    {
        match self {
            Session::Fetching => match event {
                Event::Found(items) => match decode_all(&items) {
                    Some(docs) => Step::Respond(Response::Records(docs)),
                    None => Step::Abort(Fault::Decode),
                },
                _ => Step::Abort(Fault::Query),
            },
            Session::Inserting(data) => match event {
                Event::Inserted => Step::Respond(
                    Response::Created { data, status_code: 200, message: "success".to_owned() },
                ),
                _ => Step::Abort(Fault::Write),
            },
            Session::CheckingUpdate(body) => match event {
                Event::FoundOne(present) => if present {
                    Step::Continue(
                        Session::Updating,
                        Command::UpdateOne {
                            filter: Filter::by_item(body.item.as_str()),
                            item: "new item".to_owned(),
                        },
                    )
                } else {
                    Step::Respond(not_found_envelope())
                },
                _ => Step::Abort(Fault::Query),
            },
            Session::Updating => match event {
                Event::Updated => Step::Respond(
                    Response::Status { status_code: 201, message: "updated".to_owned() },
                ),
                _ => Step::Abort(Fault::Write),
            },
            Session::CheckingDelete(body) => match event {
                Event::FoundOne(present) => if present {
                    Step::Continue(
                        Session::Deleting,
                        Command::DeleteOne { filter: Filter::by_item(body.item.as_str()) },
                    )
                } else {
                    Step::Respond(not_found_envelope())
                },
                _ => Step::Abort(Fault::Query),
            },
            Session::Deleting => match event {
                Event::Deleted => Step::Respond(
                    Response::Status { status_code: 200, message: "deleted".to_owned() },
                ),
                _ => Step::Abort(Fault::Write),
            },
        }
    }
}

} // verus!
