//! The local store and the reconciliation of change items against it.
//!
//! An entity is kept under its upstream identifier. A removed entity leaves
//! a tombstone that remembers when it was removed, so that an older write
//! arriving late cannot bring it back.

use vstd::prelude::*;
use crate::model::{ChangeItem, HarvestItem, PayloadView, Timestamp, copy_text, text_view};

verus! {

/// What the store holds under one identifier (model). A tombstone has no
/// payload.
pub struct Entry {
    pub updated_at: int,
    pub payload: Option<PayloadView>,
}

/// The store's contents (model): identifier to entry.
pub type StoreView = Map<Seq<char>, Entry>;

/// Whether what is stored outranks an incoming item, which then changes
/// nothing. The stored entry is given by its time and by whether it is a
/// tombstone. A strictly newer entry always outranks; at equal times a
/// tombstone outranks a write, and nothing outranks a removal.
pub open spec fn outranks(stored_at: int, tombstone: bool, item: ChangeItem) -> bool {
    stored_at > item.updated_at() || (stored_at == item.updated_at() && tombstone
        && item is Upserted)
}

/// The entry that an item leaves behind when it takes effect.
pub open spec fn entry_of(item: ChangeItem) -> Entry {
    match item {
        ChangeItem::Upserted { payload, updated_at, .. } => Entry {
            updated_at,
            payload: Some(payload),
        },
        ChangeItem::Deleted { updated_at, .. } => Entry { updated_at, payload: None },
    }
}

/// Whether an item changes the store: it is valid and nothing stored
/// outranks it.
pub open spec fn takes_effect(s: StoreView, item: ChangeItem) -> bool {
    item.valid() && !(s.dom().contains(item.id()) && outranks(
        s[item.id()].updated_at,
        s[item.id()].payload is None,
        item,
    ))
}

/// The store after one item has been reconciled against it.
pub open spec fn apply_item(s: StoreView, item: ChangeItem) -> StoreView {
    if takes_effect(s, item) {
        s.insert(item.id(), entry_of(item))
    } else {
        s
    }
}

/// The store after a run of items has been reconciled in feed order.
pub open spec fn apply_all(s: StoreView, items: Seq<ChangeItem>) -> StoreView
    decreases items.len(),
{
    if items.len() == 0 {
        s
    } else {
        apply_all(apply_item(s, items[0]), items.drop_first())
    }
}

/// How many items of a run fail domain validation.
pub open spec fn count_invalid(items: Seq<ChangeItem>) -> nat
    decreases items.len(),
{
    if items.len() == 0 {
        0
    } else {
        (if items[0].valid() { 0nat } else { 1nat }) + count_invalid(items.drop_first())
    }
}

/// The entities that readers can see: identifier to payload, tombstones
/// left out.
pub open spec fn visible(s: StoreView) -> Map<Seq<char>, PayloadView> {
    Map::new(
        |id: Seq<char>| s.dom().contains(id) && s[id].payload is Some,
        |id: Seq<char>| s[id].payload->Some_0,
    )
}

/// Why an item was not applied.
#[derive(Debug, Clone, Copy, PartialEq, Eq, Structural)]
pub enum ApplyError {
    /// The store could not be reached; the whole page is to be retried.
    Unavailable,
    /// The item failed domain validation and was skipped.
    Invalid,
}

/// What is known of a stored entry when an item arrives for its identifier.
#[derive(Debug, Clone, Copy, PartialEq, Eq, Structural)]
pub struct Stamp {
    pub updated: Timestamp,
    pub tombstone: bool,
}

/// What to do with an incoming item.
#[derive(Debug, Clone, Copy, PartialEq, Eq, Structural)]
pub enum Verdict {
    /// Write the item's entry over whatever is stored.
    Write,
    /// Leave the store as it is: what it holds outranks the item.
    Keep,
    /// Skip the item and count it: it failed domain validation.
    Reject,
}

/// The last-writer-wins rule (model): what becomes of an item, given the
/// stamp of what is stored under its identifier, if anything.
pub open spec fn verdict(stored: Option<Stamp>, item: ChangeItem) -> Verdict {
    if !item.valid() {
        Verdict::Reject
    } else if stored is Some && outranks(
        stored->Some_0.updated as int,
        stored->Some_0.tombstone,
        item,
    ) {
        Verdict::Keep
    } else {
        Verdict::Write
    }
}

/// The last-writer-wins rule for any store that can tell the stamp of what
/// it holds: says whether the item is written, dropped or rejected.
pub fn resolve(stored: Option<Stamp>, item: &HarvestItem) -> (v: Verdict)
    ensures
        v == verdict(stored, item@),
{
    if !item.is_valid() {
        return Verdict::Reject;
    }
    match stored {
        None => Verdict::Write,
        Some(stamp) => {
            let t: Timestamp = item.updated();
            if stamp.updated > t || (stamp.updated == t && stamp.tombstone && !item.is_deletion()) {
                Verdict::Keep
            } else {
                Verdict::Write
            }
        },
    }
}

/// An owned payload as the store keeps it.
#[derive(Debug, Clone, PartialEq, Eq)]
pub struct Payload {
    pub title: String,
    pub description: Option<String>,
    pub part_of: Option<String>,
}

impl View for Payload {
    type V = PayloadView;

    open spec fn view(&self) -> PayloadView {
        PayloadView {
            title: self.title@,
            description: text_view(self.description),
            part_of: text_view(self.part_of),
        }
    }
}

struct Record {
    id: String,
    updated: Timestamp,
    payload: Option<Payload>,
}

impl Record {
    spec fn entry(self) -> Entry {
        Entry {
            updated_at: self.updated as int,
            payload: match self.payload {
                Some(p) => Some(p@),
                None => None,
            },
        }
    }
}

spec fn holds_at(recs: Seq<Record>, i: int, id: Seq<char>) -> bool {
    0 <= i < recs.len() && recs[i].id@ == id
}

spec fn slot_of(recs: Seq<Record>, id: Seq<char>) -> int {
    choose|i: int| holds_at(recs, i, id)
}

spec fn distinct_ids(recs: Seq<Record>) -> bool {
    forall|i: int, j: int|
        0 <= i < recs.len() && 0 <= j < recs.len() && #[trigger] recs[i].id@ == #[trigger] recs[j].id@
            ==> i == j
}

spec fn contents(recs: Seq<Record>) -> StoreView {
    Map::new(
        |id: Seq<char>| exists|i: int| holds_at(recs, i, id),
        |id: Seq<char>| recs[slot_of(recs, id)].entry(),
    )
}

proof fn lemma_contents_at(recs: Seq<Record>, i: int)
    requires
        distinct_ids(recs),
        0 <= i < recs.len(),
    ensures
        contents(recs).dom().contains(recs[i].id@),
        contents(recs)[recs[i].id@] == recs[i].entry(),
{
    let id = recs[i].id@;
    assert(holds_at(recs, i, id));
    let k = slot_of(recs, id);
    assert(holds_at(recs, k, id));
}

fn record_of(item: &HarvestItem) -> (r: Record)
    ensures
        r.id@ == item@.id(),
        r.entry() == entry_of(item@),
{
    match item {
        HarvestItem::Event { id, title, description, part_of, updated } => Record {
            id: id.clone(),
            updated: *updated,
            payload: Some(
                Payload {
                    title: title.clone(),
                    description: copy_text(description),
                    part_of: copy_text(part_of),
                },
            ),
        },
        HarvestItem::EventDeleted { id, updated } => Record {
            id: id.clone(),
            updated: *updated,
            payload: None,
        },
    }
}

/// A local store held in memory.
pub struct LocalStore {
    records: Vec<Record>,
}

impl View for LocalStore {
    type V = StoreView;

    closed spec fn view(&self) -> StoreView {
        contents(self.records@)
    }
}

impl LocalStore {
    /// The store's invariant: no identifier is kept twice.
    pub closed spec fn well_formed(&self) -> bool {
        distinct_ids(self.records@)
    }

    /// A store that holds nothing.
    pub fn new() -> (s: LocalStore)
        ensures
            s.well_formed(),
            s@ == Map::<Seq<char>, Entry>::empty(),
    {
        let s = LocalStore { records: Vec::new() };
        assert(s@ =~= Map::<Seq<char>, Entry>::empty());
        s
    }

    fn position(&self, id: &String) -> (r: Option<usize>)
        ensures
            match r {
                Some(i) => holds_at(self.records@, i as int, id@),
                None => forall|j: int| !holds_at(self.records@, j, id@),
            },
    {
        let mut i: usize = 0;
        while i < self.records.len()
            invariant
                i <= self.records.len(),
                forall|j: int| 0 <= j < i ==> !holds_at(self.records@, j, id@),
            decreases self.records.len() - i,
        {
            if self.records[i].id == *id {
                return Some(i);
            }
            i += 1;
        }
        None
    }

    /// The stamp of what is stored under an identifier, if anything.
    pub fn stamp(&self, id: &String) -> (r: Option<Stamp>)
        requires
            self.well_formed(),
        ensures
            r is Some <==> self@.dom().contains(id@),
            r matches Some(st) ==> st.updated as int == self@[id@].updated_at && st.tombstone == (
            self@[id@].payload is None),
    {
        match self.position(id) {
            Some(i) => {
                proof {
                    lemma_contents_at(self.records@, i as int);
                }
                Some(Stamp { updated: self.records[i].updated, tombstone: self.records[i].payload.is_none() })
            },
            None => None,
        }
    }

    /// Whether readers can see an entity under this identifier.
    pub fn is_visible(&self, id: &String) -> (b: bool)
        requires
            self.well_formed(),
        ensures
            b == visible(self@).dom().contains(id@),
    {
        match self.stamp(id) {
            Some(st) => !st.tombstone,
            None => false,
        }
    }

    /// The entity under this identifier, if readers can see one.
    pub fn get(&self, id: &String) -> (r: Option<Payload>)
        requires
            self.well_formed(),
        ensures
            r is Some <==> visible(self@).dom().contains(id@),
            r matches Some(p) ==> p@ == visible(self@)[id@],
    {
        match self.position(id) {
            Some(i) => {
                proof {
                    lemma_contents_at(self.records@, i as int);
                }
                match &self.records[i].payload {
                    Some(p) => Some(
                        Payload {
                            title: p.title.clone(),
                            description: copy_text(&p.description),
                            part_of: copy_text(&p.part_of),
                        },
                    ),
                    None => None,
                }
            },
            None => None,
        }
    }

    /// How many identifiers the store knows, tombstones included.
    pub fn len(&self) -> (n: usize)
        requires
            self.well_formed(),
        ensures
            n == self@.dom().len(),
            self@.dom().finite(),
    {
        proof {
            lemma_contents_size(self.records@);
        }
        self.records.len()
    }

    /// Reconciles one item against the store. A valid item is written
    /// unless what is stored outranks it; an invalid one is refused and
    /// changes nothing.
    pub fn apply(&mut self, item: &HarvestItem) -> (r: Result<(), ApplyError>)
        requires
            old(self).well_formed(),
        ensures
            final(self).well_formed(),
            final(self)@ == apply_item(old(self)@, item@),
            item@.valid() ==> r is Ok,
            !item@.valid() ==> r == Err::<(), ApplyError>(ApplyError::Invalid),
    {
        let ghost before = self.records@;
        let slot = self.position(item.id());
        let stored = match slot {
            Some(i) => {
                proof {
                    lemma_contents_at(before, i as int);
                }
                Some(Stamp {
                    updated: self.records[i].updated,
                    tombstone: self.records[i].payload.is_none(),
                })
            },
            None => None,
        };
        match resolve(stored, item) {
            Verdict::Reject => {
                return Err(ApplyError::Invalid);
            },
            Verdict::Keep => {
                assert(!takes_effect(contents(before), item@));
            },
            Verdict::Write => {
                let rec = record_of(item);
                let ghost k = match slot {
                    Some(i) => i as int,
                    None => before.len() as int,
                };
                match slot {
                    Some(i) => {
                        self.records.set(i, rec);
                    },
                    None => {
                        self.records.push(rec);
                    },
                }
                proof {
                    let after = self.records@;
                    assert(distinct_ids(after)) by {
                        assert forall|a: int, b: int|
                            0 <= a < after.len() && 0 <= b < after.len() && #[trigger] after[a].id@
                                == #[trigger] after[b].id@ implies a == b by {
                            if a != k {
                                assert(holds_at(before, a, after[a].id@));
                            }
                            if b != k {
                                assert(holds_at(before, b, after[b].id@));
                            }
                        }
                    }
                    lemma_contents_written(before, after, k, item@);
                }
            },
        }
        Ok(())
    }
}

/// Writing a record for an item into slot `k`, be it a new slot at the end
/// or the slot that held the item's identifier, inserts the item's entry.
proof fn lemma_contents_written(before: Seq<Record>, after: Seq<Record>, k: int, item: ChangeItem)
    requires
        distinct_ids(before),
        distinct_ids(after),
        0 <= k < after.len(),
        after[k].id@ == item.id(),
        after[k].entry() == entry_of(item),
        k < before.len() ==> after.len() == before.len() && before[k].id@ == item.id(),
        k >= before.len() ==> after.len() == before.len() + 1 && forall|j: int|
            !holds_at(before, j, item.id()),
        forall|j: int| 0 <= j < before.len() && j != k ==> before[j] == after[j],
    ensures
        contents(after) =~= contents(before).insert(item.id(), entry_of(item)),
{
    let lhs = contents(after);
    let rhs = contents(before).insert(item.id(), entry_of(item));
    assert forall|id: Seq<char>| lhs.dom().contains(id) <==> rhs.dom().contains(id) by {
        if lhs.dom().contains(id) {
            let i = choose|i: int| holds_at(after, i, id);
            if i != k {
                assert(holds_at(before, i, id));
            }
        }
        if rhs.dom().contains(id) {
            if id == item.id() {
                assert(holds_at(after, k, id));
            } else {
                let i = choose|i: int| holds_at(before, i, id);
                assert(holds_at(after, i, id));
            }
        }
    }
    assert forall|id: Seq<char>| lhs.dom().contains(id) implies lhs[id] == rhs[id] by {
        let i = choose|i: int| holds_at(after, i, id);
        lemma_contents_at(after, i);
        if i != k {
            lemma_contents_at(before, i);
        }
    }
}

proof fn lemma_contents_size(recs: Seq<Record>)
    requires
        distinct_ids(recs),
    ensures
        contents(recs).dom().finite(),
        contents(recs).dom().len() == recs.len(),
    decreases recs.len(),
{
    if recs.len() == 0 {
        assert(contents(recs).dom() =~= Set::<Seq<char>>::empty());
    } else {
        let front = recs.drop_last();
        let last = recs.last();
        lemma_contents_size(front);
        assert(!contents(front).dom().contains(last.id@)) by {
            if contents(front).dom().contains(last.id@) {
                let i = choose|i: int| holds_at(front, i, last.id@);
                assert(recs[i].id@ == recs[recs.len() - 1].id@);
            }
        }
        assert(contents(recs).dom() =~= contents(front).dom().insert(last.id@)) by {
            assert forall|id: Seq<char>|
                contents(recs).dom().contains(id) <==> contents(front).dom().insert(
                    last.id@,
                ).contains(id) by {
                if contents(recs).dom().contains(id) {
                    let i = choose|i: int| holds_at(recs, i, id);
                    if i < front.len() {
                        assert(holds_at(front, i, id));
                    }
                }
                if contents(front).dom().contains(id) {
                    let i = choose|i: int| holds_at(front, i, id);
                    assert(holds_at(recs, i, id));
                }
                if id == last.id@ {
                    assert(holds_at(recs, recs.len() - 1, id));
                }
            }
        }
    }
}

} // verus!
