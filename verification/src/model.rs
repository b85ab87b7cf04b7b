//! The change feed: items, pages and their mathematical models.

use vstd::prelude::*;

verus! {

/// Milliseconds since the Unix epoch, as assigned by the upstream service.
pub type Timestamp = i64;

/// What the feed says about an entity that exists upstream (model).
pub struct PayloadView {
    pub title: Seq<char>,
    pub description: Option<Seq<char>>,
    pub part_of: Option<Seq<char>>,
}

/// One change of the feed (model): an entity was written or removed upstream.
pub enum ChangeItem {
    Upserted { id: Seq<char>, payload: PayloadView, updated_at: int },
    Deleted { id: Seq<char>, updated_at: int },
}

impl ChangeItem {
    pub open spec fn id(self) -> Seq<char> {
        match self {
            ChangeItem::Upserted { id, .. } => id,
            ChangeItem::Deleted { id, .. } => id,
        }
    }

    pub open spec fn updated_at(self) -> int {
        match self {
            ChangeItem::Upserted { updated_at, .. } => updated_at,
            ChangeItem::Deleted { updated_at, .. } => updated_at,
        }
    }

    /// Domain validity: an item must name the entity it is about.
    pub open spec fn valid(self) -> bool {
        self.id().len() > 0
    }
}

/// The model of an optional string.
pub open spec fn text_view(t: Option<String>) -> Option<Seq<char>> {
    match t {
        Some(s) => Some(s@),
        None => None,
    }
}

/// A copy of an optional string.
pub fn copy_text(t: &Option<String>) -> (r: Option<String>)
    ensures
        text_view(r) == text_view(*t),
{
    match t {
        Some(s) => Some(s.clone()),
        None => None,
    }
}

/// One item of a page, as the harvesting API delivers it.
#[derive(Debug, Clone, PartialEq, Eq)]
pub enum HarvestItem {
    Event {
        id: String,
        title: String,
        description: Option<String>,
        part_of: Option<String>,
        updated: Timestamp,
    },
    EventDeleted { id: String, updated: Timestamp },
}

impl View for HarvestItem {
    type V = ChangeItem;

    open spec fn view(&self) -> ChangeItem {
        match *self {
            HarvestItem::Event { id, title, description, part_of, updated } => ChangeItem::Upserted {
                id: id@,
                payload: PayloadView {
                    title: title@,
                    description: text_view(description),
                    part_of: text_view(part_of),
                },
                updated_at: updated as int,
            },
            HarvestItem::EventDeleted { id, updated } => ChangeItem::Deleted {
                id: id@,
                updated_at: updated as int,
            },
        }
    }
}

impl HarvestItem {
    /// The upstream modification time of the entity this item is about.
    pub fn updated(&self) -> (t: Timestamp)
        ensures
            t as int == self@.updated_at(),
    {
        match self {
            HarvestItem::Event { updated, .. } => *updated,
            HarvestItem::EventDeleted { updated, .. } => *updated,
        }
    }

    /// The identifier of the entity this item is about.
    pub fn id(&self) -> (id: &String)
        ensures
            id@ == self@.id(),
    {
        match self {
            HarvestItem::Event { id, .. } => id,
            HarvestItem::EventDeleted { id, .. } => id,
        }
    }

    /// Whether this item removes its entity.
    pub fn is_deletion(&self) -> (d: bool)
        ensures
            d == (self@ is Deleted),
    {
        match self {
            HarvestItem::Event { .. } => false,
            HarvestItem::EventDeleted { .. } => true,
        }
    }

    /// Whether the item passes domain validation.
    pub fn is_valid(&self) -> (ok: bool)
        ensures
            ok == self@.valid(),
    {
        !self.id().as_str().is_empty()
    }
}

/// The models of a run of items, in feed order.
pub open spec fn items_view(items: Seq<HarvestItem>) -> Seq<ChangeItem> {
    Seq::new(items.len(), |i: int| items[i]@)
}

/// What the harvesting API returns for one request.
#[derive(Debug, Clone, PartialEq, Eq)]
pub struct HarvestResponse {
    /// Every change up to this instant is in this page or an earlier one.
    pub includes_items_until: Timestamp,
    /// Whether another page is waiting upstream.
    pub has_more: bool,
    /// The changes, sorted by modification time, oldest first.
    pub items: Vec<HarvestItem>,
}

/// One page of the feed (model).
pub struct HarvestPage {
    pub items: Seq<ChangeItem>,
    pub items_included_until: int,
    pub has_more: bool,
}

impl View for HarvestResponse {
    type V = HarvestPage;

    open spec fn view(&self) -> HarvestPage {
        HarvestPage {
            items: items_view(self.items@),
            items_included_until: self.includes_items_until as int,
            has_more: self.has_more,
        }
    }
}

} // verus!
