//! A collection held in memory that answers the gateway's commands the way
//! the store does. It is the model that the gateway's laws are stated
//! against, and it stands in for the store where there is none.
//!
//! Where the store is free to choose, this collection chooses the record
//! that was inserted first.

use crate::gateway::{
    next_step, Command, CommandView, Event, EventView, Fault, Response, ResponseView, Session,
    SessionView, Step, StepView,
};
use crate::ordering::{arrange, arrange_docs};
use crate::query::{fits, ClauseView, Filter};
use crate::shapes::{copy_docs, doc_views, Doc, DocView, ObjectId};
use vstd::prelude::*;

verus! {

/// What a collection holds: its records in the order of their insertion, and
/// the identifier that the next insert assigns (`None` once all are used).
pub struct CollectionView {
    pub records: Seq<DocView>,
    pub next: Option<ObjectId>,
}

/// No two records share an identifier, and every identifier in use ranks
/// below the next one to be assigned.
pub open spec fn well_formed(c: CollectionView) -> bool {
    &&& forall|i: int, j: int|
        0 <= i < j < c.records.len() ==> (#[trigger] c.records[i]).id != (
        #[trigger] c.records[j]).id
    &&& c.next matches Some(n) ==> forall|i: int|
        0 <= i < c.records.len() ==> (#[trigger] c.records[i]).id.rank() < n.rank()
}

/// The records that match a filter, in the order of their insertion.
pub open spec fn matching(records: Seq<DocView>, filter: Seq<ClauseView>) -> Seq<DocView> {
    records.filter(|d: DocView| fits(d, filter))
}

/// The index of the first record that matches a filter.
pub open spec fn first_match(records: Seq<DocView>, filter: Seq<ClauseView>) -> Option<int>
    decreases records.len(),
{
    if records.len() == 0 {
        None
    } else {
        match first_match(records.drop_last(), filter) {
            Some(i) => Some(i),
            None => if fits(records.last(), filter) {
                Some(records.len() - 1)
            } else {
                None
            },
        }
    }
}

/// Fetched documents that all fit the schema.
pub open spec fn all_found(docs: Seq<DocView>) -> Seq<Option<DocView>> {
    docs.map_values(|d: DocView| Some(d))
}

/// A record under a new label.
pub open spec fn relabel(doc: DocView, item: Seq<char>) -> DocView {
    DocView { item, ..doc }
}

/// What a command does to a collection, and the reply it gets.
///
/// A write that finds no matching record changes nothing and still goes
/// through. An insert fails once the identifiers are used up.
pub open spec fn apply(c: CollectionView, command: CommandView) -> (CollectionView, EventView) {
    match command {
        CommandView::Find { filter, sort } => (
            c,
            EventView::Found(all_found(arrange(sort, matching(c.records, filter)))),
        ),
        CommandView::FindOne { filter } => (
            c,
            EventView::FoundOne(first_match(c.records, filter) is Some),
        ),
        CommandView::InsertOne { record } => match c.next {
            Some(id) => (
                CollectionView { records: c.records.push(record.with_id(id)), next: id.following() },
                EventView::Inserted,
            ),
            None => (c, EventView::Failed),
        },
        CommandView::UpdateOne { filter, item } => match first_match(c.records, filter) {
            Some(i) => (
                CollectionView { records: c.records.update(i, relabel(c.records[i], item)), ..c },
                EventView::Updated,
            ),
            None => (c, EventView::Updated),
        },
        CommandView::DeleteOne { filter } => match first_match(c.records, filter) {
            Some(i) => (CollectionView { records: c.records.remove(i), ..c }, EventView::Deleted),
            None => (c, EventView::Deleted),
        },
    }
}

/// How many more commands a session may still issue.
pub open spec fn rounds_left(session: SessionView) -> nat {
    match session {
        SessionView::CheckingUpdate(_) => 1,
        SessionView::CheckingDelete(_) => 1,
        _ => 0,
    }
}

/// What an operation answers.
pub open spec fn outcome_view(outcome: Result<Response, Fault>) -> Result<ResponseView, Fault> {
    match outcome {
        Ok(response) => Ok(response@),
        Err(fault) => Err(fault),
    }
}

/// An operation carried through against a collection: the collection it
/// leaves, and its answer.
pub open spec fn run(c: CollectionView, session: SessionView, command: CommandView) -> (
    CollectionView,
    Result<ResponseView, Fault>,
)
    decreases rounds_left(session),
{
    let (after, event) = apply(c, command);
    match next_step(session, event) {
        StepView::Continue(s, next) => run(after, s, next),
        StepView::Respond(response) => (after, Ok(response)),
        StepView::Abort(fault) => (after, Err(fault)),
    }
}

/// What `first_match` finds: a matching record with none before it, or
/// nothing where no record matches.
pub proof fn lemma_first_match(records: Seq<DocView>, filter: Seq<ClauseView>)
    ensures
        match first_match(records, filter) {
            Some(i) => {
                &&& 0 <= i < records.len()
                &&& fits(records[i], filter)
                &&& forall|k: int| 0 <= k < i ==> !fits(#[trigger] records[k], filter)
            },
            None => forall|k: int| 0 <= k < records.len() ==> !fits(#[trigger] records[k], filter),
        },
    decreases records.len(),
{
    if records.len() > 0 {
        lemma_first_match(records.drop_last(), filter);
        let front = records.drop_last();
        assert forall|k: int| 0 <= k < front.len() implies front[k] == records[k] by {}
        match first_match(front, filter) {
            Some(i) => {
                assert forall|k: int| 0 <= k < i implies !fits(#[trigger] records[k], filter) by {
                    assert(front[k] == records[k]);
                }
            },
            None => {
                assert forall|k: int| 0 <= k < records.len() - 1 implies !fits(
                    #[trigger] records[k],
                    filter,
                ) by {
                    assert(front[k] == records[k]);
                }
            },
        }
    }
}

/// How the matching records grow with the collection.
pub proof fn lemma_matching_push(records: Seq<DocView>, doc: DocView, filter: Seq<ClauseView>)
    ensures
        matching(records.push(doc), filter) == if fits(doc, filter) {
            matching(records, filter).push(doc)
        } else {
            matching(records, filter)
        },
{
    records.lemma_filter_push(doc, |d: DocView| fits(d, filter));
}

/// A collection in memory.
pub struct MemoryCollection {
    records: Vec<Doc>,
    next: Option<ObjectId>,
}

impl View for MemoryCollection {
    type V = CollectionView;

    closed spec fn view(&self) -> CollectionView {
        CollectionView { records: doc_views(self.records@), next: self.next }
    }
}

impl MemoryCollection {
    /// The empty collection, whose first insert assigns the identifier zero.
    pub fn new() -> (c: Self)
        ensures
            c@ == (CollectionView {
                records: Seq::empty(),
                next: Some(ObjectId { head: 0, tail: 0 }),
            }),
            well_formed(c@),
    {
        MemoryCollection::starting_at(ObjectId { head: 0, tail: 0 })
    }

    /// The empty collection, whose first insert assigns the identifier
    /// `first`.
    pub fn starting_at(first: ObjectId) -> (c: Self)
        ensures
            c@ == (CollectionView { records: Seq::empty(), next: Some(first) }),
            well_formed(c@),
    {
        let c = MemoryCollection { records: Vec::new(), next: Some(first) };
        assert(c@.records =~= Seq::empty());
        c
    }

    /// The number of records.
    pub fn len(&self) -> (n: usize)
        ensures
            n == self@.records.len(),
    {
        self.records.len()
    }

    /// A copy of the records, in the order of their insertion.
    pub fn records(&self) -> (docs: Vec<Doc>)
        ensures
            doc_views(docs@) == self@.records,
    {
        copy_docs(&self.records)
    }

    fn position(&self, filter: &Filter) -> (found: Option<usize>)
        ensures
            match found {
                Some(i) => first_match(self@.records, filter@) == Some(i as int) && i
                    < self.records.len(),
                None => first_match(self@.records, filter@) is None,
            },
    {
        let mut i: usize = 0;
        while i < self.records.len()
            invariant
                i <= self.records.len(),
                first_match(doc_views(self.records@.take(i as int)), filter@) is None,
            decreases self.records.len() - i,
        {
            let ghost before = doc_views(self.records@.take(i as int));
            let ghost upto = doc_views(self.records@.take(i + 1));
            assert(upto.drop_last() =~= before);
            assert(upto.last() == self.records@[i as int]@);
            if self.records[i].satisfies(filter) {
                proof {
                    lemma_first_match_extends(upto, self@.records, filter@);
                }
                return Some(i);
            }
            i = i + 1;
        }
        assert(self.records@.take(i as int) == self.records@);
        None
    }

    fn select(&self, filter: &Filter) -> (hits: Vec<Doc>)
        ensures
            doc_views(hits@) == matching(self@.records, filter@),
    {
        let mut hits: Vec<Doc> = Vec::new();
        let mut i: usize = 0;
        assert(doc_views(self.records@.take(0)) =~= Seq::empty());
        assert(doc_views(hits@) =~= Seq::empty());
        proof {
            reveal(Seq::filter);
        }
        assert(matching(Seq::empty(), filter@) =~= Seq::empty());
        while i < self.records.len()
            invariant
                i <= self.records.len(),
                doc_views(hits@) == matching(doc_views(self.records@.take(i as int)), filter@),
            decreases self.records.len() - i,
        {
            let ghost before = doc_views(self.records@.take(i as int));
            let ghost upto = doc_views(self.records@.take(i + 1));
            assert(upto =~= before.push(self.records@[i as int]@));
            proof {
                lemma_matching_push(before, self.records@[i as int]@, filter@);
            }
            if self.records[i].satisfies(filter) {
                let ghost old_hits = doc_views(hits@);
                let doc = self.records[i].clone();
                let ghost added = doc@;
                hits.push(doc);
                assert(doc_views(hits@) =~= old_hits.push(added));
            }
            i = i + 1;
        }
        assert(self.records@.take(i as int) == self.records@);
        hits
    }

    /// Carries out one command and gives the store's reply.
    pub fn execute(&mut self, command: &Command) -> (event: Event)
        ensures
            (final(self)@, event@) == apply(old(self)@, command@),
    {
        match command {
            Command::Find { filter, sort } => {
                let hits = self.select(filter);
                let docs = arrange_docs(sort, &hits);
                let mut items: Vec<Option<Doc>> = Vec::new();
                let mut i: usize = 0;
                while i < docs.len()
                    invariant
                        i <= docs.len(),
                        items@.len() == i,
                        forall|k: int|
                            0 <= k < i ==> (#[trigger] items@[k]) is Some && items@[k].unwrap()@
                                == docs@[k]@,
                    decreases docs.len() - i,
                {
                    items.push(Some(docs[i].clone()));
                    i = i + 1;
                }
                assert(crate::gateway::fetched_views(items@) =~= all_found(doc_views(docs@)));
                Event::Found(items)
            },
            Command::FindOne { filter } => {
                let found = self.position(filter);
                Event::FoundOne(found.is_some())
            },
            Command::InsertOne { record } => {
                match self.next {
                    Some(id) => {
                        let ghost before = self@;
                        let doc = record.clone().into_doc(id);
                        self.next = id.successor();
                        self.records.push(doc);
                        assert(self@.records =~= before.records.push(record@.with_id(id)));
                        Event::Inserted
                    },
                    None => Event::Failed,
                }
            },
            Command::UpdateOne { filter, item } => {
                match self.position(filter) {
                    Some(i) => {
                        let ghost before = self@;
                        let mut doc = self.records[i].clone();
                        doc.item = item.clone();
                        self.records.set(i, doc);
                        assert(self@.records =~= before.records.update(
                            i as int,
                            relabel(before.records[i as int], item@),
                        ));
                        Event::Updated
                    },
                    None => Event::Updated,
                }
            },
            Command::DeleteOne { filter } => {
                match self.position(filter) {
                    Some(i) => {
                        let ghost before = self@;
                        let _ = self.records.remove(i);
                        assert(self@.records =~= before.records.remove(i as int));
                        Event::Deleted
                    },
                    None => Event::Deleted,
                }
            },
        }
    }

    /// Carries an operation through: executes its commands one after the
    /// other until it answers or gives up.
    pub fn serve(&mut self, session: Session, command: Command) -> (outcome: Result<
        Response,
        Fault,
    >)
        ensures
            (final(self)@, outcome_view(outcome)) == run(old(self)@, session@, command@),
        decreases rounds_left(session@),
    {
        let event = self.execute(&command);
        match session.resume(event) {
            Step::Continue(s, next) => self.serve(s, next),
            Step::Respond(response) => Ok(response),
            Step::Abort(fault) => Err(fault),
        }
    }
}

/// A first match among the leading records is the first match of all.
proof fn lemma_first_match_extends(
    upto: Seq<DocView>,
    records: Seq<DocView>,
    filter: Seq<ClauseView>,
)
    requires
        0 < upto.len() <= records.len(),
        forall|k: int| 0 <= k < upto.len() ==> upto[k] == records[k],
        first_match(upto.drop_last(), filter) is None,
        fits(upto.last(), filter),
    ensures
        first_match(records, filter) == Some(upto.len() - 1),
{
    lemma_first_match(records, filter);
    lemma_first_match(upto.drop_last(), filter);
    let i = upto.len() - 1;
    assert forall|k: int| 0 <= k < i implies !fits(#[trigger] records[k], filter) by {
        assert(upto.drop_last()[k] == records[k]);
    }
    assert(fits(records[i], filter));
}

} // verus!
