//! Plain data carried between a caller, the gateway and the store.

use vstd::prelude::*;

verus! {

/// The twelve-byte identifier that the store assigns to a record, split into
/// its leading four bytes and its trailing eight.
#[derive(Clone, Copy, Debug, PartialEq, Eq, Structural)]
pub struct ObjectId {
    pub head: u32,
    pub tail: u64,
}

impl ObjectId {
    /// The identifier as one number: `head` above `tail`.
    pub open spec fn rank(self) -> int {
        self.head as int * 0x1_0000_0000_0000_0000 + self.tail as int
    }

    /// The identifier that follows this one in rank; the last has none.
    pub open spec fn following(self) -> Option<ObjectId> {
        if self.tail < u64::MAX {
            Some(ObjectId { head: self.head, tail: (self.tail + 1) as u64 })
        } else if self.head < u32::MAX {
            Some(ObjectId { head: (self.head + 1) as u32, tail: 0 })
        } else {
            None
        }
    }

    /// The identifier that follows this one, or `None` after the last.
    pub fn successor(&self) -> (next: Option<ObjectId>)
        ensures
            next == self.following(),
            next matches Some(n) ==> n.rank() == self.rank() + 1,
    {
        if self.tail < u64::MAX {
            Some(ObjectId { head: self.head, tail: self.tail + 1 })
        } else if self.head < u32::MAX {
            Some(ObjectId { head: self.head + 1, tail: 0 })
        } else {
            None
        }
    }
}

/// The number that four bytes spell, the first the most significant.
pub open spec fn spell4(a: u8, b: u8, c: u8, d: u8) -> int {
    ((a as int * 256 + b as int) * 256 + c as int) * 256 + d as int
}

/// The number that eight bytes of `bytes` spell from index `at` on, the
/// first the most significant.
pub open spec fn spell8(bytes: Seq<u8>, at: int) -> int {
    spell4(bytes[at], bytes[at + 1], bytes[at + 2], bytes[at + 3]) * 0x1_0000_0000 + spell4(
        bytes[at + 4],
        bytes[at + 5],
        bytes[at + 6],
        bytes[at + 7],
    )
}

impl ObjectId {
    /// The identifier that twelve bytes spell: the first four its head, the
    /// other eight its tail.
    pub open spec fn of_bytes(bytes: Seq<u8>) -> ObjectId {
        ObjectId {
            head: spell4(bytes[0], bytes[1], bytes[2], bytes[3]) as u32,
            tail: spell8(bytes, 4) as u64,
        }
    }

    /// The identifier that the twelve bytes spell.
    pub fn from_bytes(bytes: [u8; 12]) -> (id: ObjectId)
        ensures
            id == ObjectId::of_bytes(bytes@),
    {
        let head: u32 = ((bytes[0] as u32 * 256 + bytes[1] as u32) * 256 + bytes[2] as u32) * 256
            + bytes[3] as u32;
        let high: u64 = ((bytes[4] as u64 * 256 + bytes[5] as u64) * 256 + bytes[6] as u64) * 256
            + bytes[7] as u64;
        let low: u64 = ((bytes[8] as u64 * 256 + bytes[9] as u64) * 256 + bytes[10] as u64) * 256
            + bytes[11] as u64;
        ObjectId { head, tail: high * 0x1_0000_0000 + low }
    }

    /// The twelve bytes that spell this identifier.
    pub fn to_bytes(&self) -> (bytes: [u8; 12])
        ensures
            ObjectId::of_bytes(bytes@) == *self,
    {
        let high: u64 = self.tail / 0x1_0000_0000;
        let low: u64 = self.tail % 0x1_0000_0000;
        [
            (self.head / 0x100_0000) as u8,
            (self.head / 0x1_0000 % 256) as u8,
            (self.head / 0x100 % 256) as u8,
            (self.head % 256) as u8,
            (high / 0x100_0000) as u8,
            (high / 0x1_0000 % 256) as u8,
            (high / 0x100 % 256) as u8,
            (high % 256) as u8,
            (low / 0x100_0000) as u8,
            (low / 0x1_0000 % 256) as u8,
            (low / 0x100 % 256) as u8,
            (low % 256) as u8,
        ]
    }
}

/// Twelve bytes spell one identifier, and no other twelve spell the same.
pub proof fn lemma_of_bytes_is_injective(a: Seq<u8>, b: Seq<u8>)
    requires
        a.len() == 12,
        b.len() == 12,
        ObjectId::of_bytes(a) == ObjectId::of_bytes(b),
    ensures
        a == b,
{
    assert(spell4(a[0], a[1], a[2], a[3]) == spell4(b[0], b[1], b[2], b[3]));
    assert(spell8(a, 4) == spell8(b, 4));
    assert(spell4(a[4], a[5], a[6], a[7]) == spell4(b[4], b[5], b[6], b[7]));
    assert(spell4(a[8], a[9], a[10], a[11]) == spell4(b[8], b[9], b[10], b[11]));
    assert(a =~= b);
}

/// A record as the store holds it. `price` is the bit pattern of a double,
/// `date` a count of milliseconds since the Unix epoch.
#[derive(Debug, PartialEq, Eq)]
pub struct Doc {
    pub id: ObjectId,
    pub item: String,
    pub price: u64,
    pub quantity: i32,
    pub date: i64,
}

/// What a [`Doc`] holds, as a value of the specification.
pub struct DocView {
    pub id: ObjectId,
    pub item: Seq<char>,
    pub price: u64,
    pub quantity: i32,
    pub date: i64,
}

impl View for Doc {
    type V = DocView;

    open spec fn view(&self) -> DocView {
        DocView {
            id: self.id,
            item: self.item@,
            price: self.price,
            quantity: self.quantity,
            date: self.date,
        }
    }
}

impl Clone for Doc {
    fn clone(&self) -> (copy: Self)
        ensures
            copy@ == self@,
    {
        Doc {
            id: self.id,
            item: self.item.clone(),
            price: self.price,
            quantity: self.quantity,
            date: self.date,
        }
    }
}

/// The body of a creation request. `price` is the bit pattern of a double.
#[derive(Debug, PartialEq, Eq)]
pub struct JsonBody {
    pub item: String,
    pub price: u64,
    pub quantity: i32,
}

/// What a [`JsonBody`] holds.
pub struct JsonBodyView {
    pub item: Seq<char>,
    pub price: u64,
    pub quantity: i32,
}

impl View for JsonBody {
    type V = JsonBodyView;

    open spec fn view(&self) -> JsonBodyView {
        JsonBodyView { item: self.item@, price: self.price, quantity: self.quantity }
    }
}

/// The body of an update or delete request: the label to look a record up by.
#[derive(Debug, PartialEq, Eq)]
pub struct UpdateBody {
    pub item: String,
}

impl View for UpdateBody {
    type V = Seq<char>;

    open spec fn view(&self) -> Seq<char> {
        self.item@
    }
}

/// A record on its way into the store: everything but the identifier.
#[derive(Debug, PartialEq, Eq)]
pub struct Draft {
    pub item: String,
    pub price: u64,
    pub quantity: i32,
    pub date: i64,
}

/// What a [`Draft`] holds.
pub struct DraftView {
    pub item: Seq<char>,
    pub price: u64,
    pub quantity: i32,
    pub date: i64,
}

impl DraftView {
    /// The record that this draft becomes under the identifier `id`.
    pub open spec fn with_id(self, id: ObjectId) -> DocView {
        DocView { id, item: self.item, price: self.price, quantity: self.quantity, date: self.date }
    }
}

impl View for Draft {
    type V = DraftView;

    open spec fn view(&self) -> DraftView {
        DraftView {
            item: self.item@,
            price: self.price,
            quantity: self.quantity,
            date: self.date,
        }
    }
}

impl Clone for Draft {
    fn clone(&self) -> (copy: Self)
        ensures
            copy@ == self@,
    {
        Draft {
            item: self.item.clone(),
            price: self.price,
            quantity: self.quantity,
            date: self.date,
        }
    }
}

impl Draft {
    /// The record that this draft becomes under the identifier `id`.
    pub fn into_doc(self, id: ObjectId) -> (doc: Doc)
        ensures
            doc@ == self@.with_id(id),
    {
        Doc { id, item: self.item, price: self.price, quantity: self.quantity, date: self.date }
    }
}

/// The views of a run of records, in order.
pub open spec fn doc_views(docs: Seq<Doc>) -> Seq<DocView> {
    docs.map_values(|d: Doc| d@)
}

/// A copy of each record, in order.
pub fn copy_docs(docs: &Vec<Doc>) -> (copies: Vec<Doc>)
    ensures
        doc_views(copies@) == doc_views(docs@),
{
    let mut copies: Vec<Doc> = Vec::new();
    let mut i: usize = 0;
    while i < docs.len()
        invariant
            i <= docs.len(),
            copies@.len() == i,
            forall|k: int| 0 <= k < i ==> (#[trigger] copies@[k])@ == docs@[k]@,
        decreases docs.len() - i,
    {
        copies.push(docs[i].clone());
        i = i + 1;
    }
    assert(doc_views(copies@) =~= doc_views(docs@));
    copies
}

} // verus!
