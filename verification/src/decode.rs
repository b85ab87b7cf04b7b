//! Telling the kind of each item of a page.
//!
//! The kinds form a closed set. An item of any other kind, or one that
//! lacks what its kind requires, makes the whole page malformed: nothing is
//! dropped in silence.

use vstd::prelude::*;
use crate::driver::HarvestError;
use crate::model::{ChangeItem, HarvestItem, HarvestResponse, PayloadView, Timestamp, copy_text, items_view, text_view};

verus! {

/// An item as it stands in the response body, before its kind is told.
#[derive(Debug, Clone, PartialEq, Eq)]
pub struct RawItem {
    pub kind: String,
    pub id: String,
    pub title: Option<String>,
    pub description: Option<String>,
    pub part_of: Option<String>,
    pub updated: Timestamp,
}

/// The change that a raw item stands for, if it stands for any: an
/// `event` with a title is a write, an `event-deleted` is a removal.
pub open spec fn decoded(raw: RawItem) -> Option<ChangeItem> {
    if raw.kind@ == "event"@ {
        match raw.title {
            Some(title) => Some(
                ChangeItem::Upserted {
                    id: raw.id@,
                    payload: PayloadView {
                        title: title@,
                        description: text_view(raw.description),
                        part_of: text_view(raw.part_of),
                    },
                    updated_at: raw.updated as int,
                },
            ),
            None => None,
        }
    } else if raw.kind@ == "event-deleted"@ {
        Some(ChangeItem::Deleted { id: raw.id@, updated_at: raw.updated as int })
    } else {
        None
    }
}

/// Tells the kind of one raw item. Fails as malformed exactly when the item
/// stands for no change.
pub fn decode_item(raw: &RawItem) -> (r: Result<HarvestItem, HarvestError>)
    ensures
        match decoded(*raw) {
            Some(change) => r is Ok && r->Ok_0@ == change,
            None => r == Err::<HarvestItem, HarvestError>(HarvestError::Malformed),
        },
{
    let event = "event".to_owned();
    let event_deleted = "event-deleted".to_owned();
    if raw.kind == event {
        match &raw.title {
            Some(title) => Ok(
                HarvestItem::Event {
                    id: raw.id.clone(),
                    title: title.clone(),
                    description: copy_text(&raw.description),
                    part_of: copy_text(&raw.part_of),
                    updated: raw.updated,
                },
            ),
            None => Err(HarvestError::Malformed),
        }
    } else if raw.kind == event_deleted {
        Ok(HarvestItem::EventDeleted { id: raw.id.clone(), updated: raw.updated })
    } else {
        Err(HarvestError::Malformed)
    }
}

/// Decodes the items of a response body in order. One item that stands for
/// no change fails the whole page.
pub fn decode_page(includes_items_until: Timestamp, has_more: bool, raw: &Vec<RawItem>) -> (r: Result<
    HarvestResponse,
    HarvestError,
>)
    ensures
        r is Ok <==> forall|i: int| 0 <= i < raw@.len() ==> decoded(#[trigger] raw@[i]) is Some,
        r matches Ok(page) ==> {
            &&& page@.items_included_until == includes_items_until as int
            &&& page@.has_more == has_more
            &&& page@.items.len() == raw@.len()
            &&& forall|i: int|
                0 <= i < raw@.len() ==> Some(#[trigger] page@.items[i]) == decoded(raw@[i])
        },
        r matches Err(e) ==> e == HarvestError::Malformed,
{
    let mut items: Vec<HarvestItem> = Vec::new();
    let mut i: usize = 0;
    while i < raw.len()
        invariant
            i <= raw.len(),
            items@.len() == i,
            forall|k: int| 0 <= k < i ==> Some(#[trigger] items@[k]@) == decoded(raw@[k]),
        decreases raw.len() - i,
    {
        match decode_item(&raw[i]) {
            Ok(item) => {
                items.push(item);
            },
            Err(e) => {
                assert(decoded(raw@[i as int]) is None);
                return Err(e);
            },
        }
        i += 1;
    }
    let page = HarvestResponse { includes_items_until, has_more, items };
    proof {
        assert forall|k: int| 0 <= k < raw@.len() implies Some(#[trigger] page@.items[k]) == decoded(
            raw@[k],
        ) by {
            assert(page@.items[k] == items_view(page.items@)[k]);
            assert(Some(page.items@[k]@) == decoded(raw@[k]));
        }
        assert forall|k: int| 0 <= k < raw@.len() implies decoded(#[trigger] raw@[k]) is Some by {
            assert(Some(page.items@[k]@) == decoded(raw@[k]));
        }
    }
    Ok(page)
}

} // verus!
