//! Applying pages to a store and moving the watermark.

use vstd::prelude::*;
use crate::laws::apply_pages;
use crate::model::{ChangeItem, HarvestItem, HarvestResponse, Timestamp, items_view};
use crate::store::{LocalStore, apply_all, count_invalid};

verus! {

/// Why a watermark was not saved.
#[derive(Debug, Clone, Copy, PartialEq, Eq, Structural)]
pub enum StoreError {
    /// The value lies before the one that is already kept.
    Regression,
}

/// The instant through which the local store is known to be consistent with
/// upstream. It never moves backwards.
#[derive(Debug)]
pub struct SyncWatermark {
    last_consistent_timestamp: Timestamp,
}

impl View for SyncWatermark {
    type V = int;

    closed spec fn view(&self) -> int {
        self.last_consistent_timestamp as int
    }
}

impl SyncWatermark {
    /// A watermark for a first run, at the configured start.
    pub fn new(start: Timestamp) -> (w: SyncWatermark)
        ensures
            w@ == start as int,
    {
        SyncWatermark { last_consistent_timestamp: start }
    }

    /// The instant that is kept.
    pub fn load(&self) -> (t: Timestamp)
        ensures
            t as int == self@,
    {
        self.last_consistent_timestamp
    }

    /// Keeps a new instant, unless it lies before the one that is kept:
    /// that is refused and changes nothing.
    pub fn save(&mut self, t: Timestamp) -> (r: Result<(), StoreError>)
        ensures
            t as int >= old(self)@ ==> r is Ok && final(self)@ == t as int,
            (t as int) < old(self)@ ==> r == Err::<(), StoreError>(StoreError::Regression)
                && final(self)@ == old(self)@,
            final(self)@ >= old(self)@,
    {
        if t < self.last_consistent_timestamp {
            Err(StoreError::Regression)
        } else {
            self.last_consistent_timestamp = t;
            Ok(())
        }
    }
}

/// The watermark after a page that promises completeness up to `until`:
/// the later of the two instants.
pub open spec fn advanced(current: int, until: int) -> int {
    if until > current {
        until
    } else {
        current
    }
}

/// The watermark after a run of pages, each given by its promise.
pub open spec fn advanced_through(current: int, untils: Seq<int>) -> int
    decreases untils.len(),
{
    if untils.len() == 0 {
        current
    } else {
        advanced_through(advanced(current, untils[0]), untils.drop_first())
    }
}

/// The watermark to persist once a page has been applied in full.
pub fn next_watermark(current: Timestamp, includes_items_until: Timestamp) -> (w: Timestamp)
    ensures
        w as int == advanced(current as int, includes_items_until as int),
{
    if includes_items_until > current {
        includes_items_until
    } else {
        current
    }
}

/// Applies the items of a page in feed order. Items that fail validation are
/// skipped and counted; the count is returned.
pub fn apply_page(store: &mut LocalStore, items: &Vec<HarvestItem>) -> (invalid: usize)
    requires
        old(store).well_formed(),
    ensures
        final(store).well_formed(),
        final(store)@ == apply_all(old(store)@, items_view(items@)),
        invalid as nat == count_invalid(items_view(items@)),
{
    let ghost all = items_view(items@);
    let ghost start = store@;
    let mut invalid: usize = 0;
    let mut i: usize = 0;
    assert(all.skip(0) =~= all);
    while i < items.len()
        invariant
            i <= items.len(),
            invalid <= i,
            all == items_view(items@),
            store.well_formed(),
            apply_all(store@, all.skip(i as int)) == apply_all(start, all),
            invalid as nat + count_invalid(all.skip(i as int)) == count_invalid(all),
        decreases items.len() - i,
    {
        proof {
            let tail = all.skip(i as int);
            assert(tail[0] == items@[i as int]@);
            assert(tail.drop_first() =~= all.skip(i as int + 1));
        }
        let r = store.apply(&items[i]);
        if r.is_err() {
            invalid += 1;
        }
        i += 1;
    }
    invalid
}

/// What became of one page.
#[derive(Debug, Clone, Copy, PartialEq, Eq, Structural)]
pub struct PageReport {
    /// How many items failed validation and were skipped.
    pub invalid: usize,
    /// Whether the watermark moved.
    pub advanced: bool,
    /// Whether upstream has another page waiting.
    pub has_more: bool,
}

/// One cycle against an in-memory store: applies the page in full, then
/// moves the watermark to the page's promise if that lies ahead. Invalid
/// items hold nothing up.
pub fn sync_page(store: &mut LocalStore, watermark: &mut SyncWatermark, page: &HarvestResponse) -> (report:
    PageReport)
    requires
        old(store).well_formed(),
    ensures
        final(store).well_formed(),
        final(store)@ == apply_all(old(store)@, page@.items),
        final(watermark)@ == advanced(old(watermark)@, page@.items_included_until),
        final(watermark)@ >= old(watermark)@,
        report.invalid as nat == count_invalid(page@.items),
        report.advanced == (page@.items_included_until > old(watermark)@),
        report.has_more == page@.has_more,
{
    let invalid = apply_page(store, &page.items);
    let current = watermark.load();
    let target = next_watermark(current, page.includes_items_until);
    let moved = target > current;
    if moved {
        let saved = watermark.save(target);
        assert(saved is Ok);
    }
    PageReport { invalid, advanced: moved, has_more: page.has_more }
}

/// The items of each page of a run (model).
pub open spec fn pages_items(pages: Seq<HarvestResponse>) -> Seq<Seq<ChangeItem>> {
    Seq::new(pages.len(), |i: int| pages[i]@.items)
}

/// The promise of each page of a run (model).
pub open spec fn pages_untils(pages: Seq<HarvestResponse>) -> Seq<int> {
    Seq::new(pages.len(), |i: int| pages[i]@.items_included_until)
}

/// Applies a backlog of pages one after another, moving the watermark after
/// each. Returns, for each page, how many of its items were skipped as
/// invalid.
pub fn drain(store: &mut LocalStore, watermark: &mut SyncWatermark, pages: &Vec<HarvestResponse>) -> (skipped:
    Vec<usize>)
    requires
        old(store).well_formed(),
    ensures
        final(store).well_formed(),
        final(store)@ == apply_pages(old(store)@, pages_items(pages@)),
        final(watermark)@ == advanced_through(old(watermark)@, pages_untils(pages@)),
        final(watermark)@ >= old(watermark)@,
        skipped@.len() == pages@.len(),
        forall|k: int|
            0 <= k < pages@.len() ==> #[trigger] skipped@[k] as nat == count_invalid(pages@[k]@.items),
{
    let ghost items = pages_items(pages@);
    let ghost untils = pages_untils(pages@);
    let ghost start = store@;
    let ghost first = watermark@;
    let mut skipped: Vec<usize> = Vec::new();
    let mut i: usize = 0;
    assert(items.skip(0) =~= items);
    assert(untils.skip(0) =~= untils);
    while i < pages.len()
        invariant
            i <= pages.len(),
            items == pages_items(pages@),
            untils == pages_untils(pages@),
            store.well_formed(),
            apply_pages(store@, items.skip(i as int)) == apply_pages(start, items),
            advanced_through(watermark@, untils.skip(i as int)) == advanced_through(first, untils),
            watermark@ >= first,
            skipped@.len() == i,
            forall|k: int|
                0 <= k < i ==> #[trigger] skipped@[k] as nat == count_invalid(pages@[k]@.items),
        decreases pages.len() - i,
    {
        proof {
            assert(items.skip(i as int)[0] == pages@[i as int]@.items);
            assert(items.skip(i as int).drop_first() =~= items.skip(i as int + 1));
            assert(untils.skip(i as int)[0] == pages@[i as int]@.items_included_until);
            assert(untils.skip(i as int).drop_first() =~= untils.skip(i as int + 1));
        }
        let report = sync_page(store, watermark, &pages[i]);
        skipped.push(report.invalid);
        i += 1;
    }
    skipped
}

} // verus!
