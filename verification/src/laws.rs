//! What holds of reconciliation whatever the store and the items are.

use vstd::prelude::*;
use crate::model::ChangeItem;
use crate::store::{StoreView, apply_all, apply_item, entry_of, takes_effect, visible};

verus! {

/// Reconciling an item a second time changes nothing.
pub proof fn law_apply_idempotent(s: StoreView, item: ChangeItem)
    ensures
        apply_item(apply_item(s, item), item) == apply_item(s, item),
{
    assert(apply_item(apply_item(s, item), item) =~= apply_item(s, item));
}

/// Removing an entity that readers cannot see, because it was never there
/// or is removed already, changes nothing that they can see.
pub proof fn law_delete_of_unseen_is_invisible(s: StoreView, item: ChangeItem)
    requires
        item is Deleted,
        !visible(s).dom().contains(item.id()),
    ensures
        visible(apply_item(s, item)) == visible(s),
{
    assert(visible(apply_item(s, item)) =~= visible(s));
}

/// A removal that takes effect hides its entity and nothing else; a write
/// that takes effect shows its payload and touches nothing else.
pub proof fn law_effect_is_local(s: StoreView, item: ChangeItem)
    requires
        takes_effect(s, item),
    ensures
        match item {
            ChangeItem::Deleted { id, .. } => visible(apply_item(s, item)) == visible(s).remove(id),
            ChangeItem::Upserted { id, payload, .. } => visible(apply_item(s, item)) == visible(
                s,
            ).insert(id, payload),
        },
{
    match item {
        ChangeItem::Deleted { id, .. } => {
            assert(visible(apply_item(s, item)) =~= visible(s).remove(id));
        },
        ChangeItem::Upserted { id, payload, .. } => {
            assert(visible(apply_item(s, item)) =~= visible(s).insert(id, payload));
        },
    }
}

/// Two items for one identifier with one modification time leave the same
/// store in either order, provided one of them is a removal or they are the
/// same item. A removal wins over a write of the same instant.
pub proof fn law_tie_order_irrelevant(s: StoreView, a: ChangeItem, b: ChangeItem)
    requires
        a.id() == b.id(),
        a.updated_at() == b.updated_at(),
        a is Deleted || b is Deleted || a == b,
    ensures
        apply_item(apply_item(s, a), b) == apply_item(apply_item(s, b), a),
        (a is Deleted || b is Deleted) && a.valid() && takes_effect(s, a) ==> apply_item(
            apply_item(s, a),
            b,
        )[a.id()].payload is None,
{
    assert(apply_item(apply_item(s, a), b) =~= apply_item(apply_item(s, b), a));
}

/// Of two items, either the order does not matter or the later one hides
/// that the earlier one was ever applied.
proof fn lemma_commute_or_absorb(s: StoreView, x: ChangeItem, y: ChangeItem)
    ensures
        apply_item(apply_item(s, x), y) == apply_item(apply_item(s, y), x) || apply_item(
            apply_item(s, x),
            y,
        ) == apply_item(s, y),
{
    let xy = apply_item(apply_item(s, x), y);
    let yx = apply_item(apply_item(s, y), x);
    let y_only = apply_item(s, y);
    if x.id() != y.id() {
        assert(xy =~= yx);
    } else if !x.valid() {
        assert(xy =~= y_only);
    } else if entry_of(x).updated_at < entry_of(y).updated_at || (entry_of(x).updated_at
        == entry_of(y).updated_at && !(x is Deleted && y is Upserted)) {
        assert(xy =~= y_only);
    } else {
        assert(xy =~= yx);
    }
}

/// An item that occurs in a run may be applied once more before the run
/// without any effect on the outcome.
proof fn lemma_early_copy_absorbed(s: StoreView, x: ChangeItem, items: Seq<ChangeItem>)
    requires
        items.contains(x),
    ensures
        apply_all(apply_item(s, x), items) == apply_all(s, items),
    decreases items.len(),
{
    let y = items[0];
    let rest = items.drop_first();
    lemma_commute_or_absorb(s, x, y);
    if apply_item(apply_item(s, x), y) == apply_item(s, y) {
    } else {
        if x == y {
            law_apply_idempotent(s, x);
        } else {
            let k = choose|k: int| 0 <= k < items.len() && items[k] == x;
            assert(rest[k - 1] == x);
            lemma_early_copy_absorbed(apply_item(s, y), x, rest);
        }
    }
}

/// Replay: items of a page that were already applied, in whatever order and
/// however often, do not change what applying the whole page gives.
pub proof fn law_replay_absorbed(s: StoreView, replayed: Seq<ChangeItem>, items: Seq<ChangeItem>)
    requires
        forall|k: int| 0 <= k < replayed.len() ==> items.contains(#[trigger] replayed[k]),
    ensures
        apply_all(apply_all(s, replayed), items) == apply_all(s, items),
    decreases replayed.len(),
{
    if replayed.len() > 0 {
        let first = replayed[0];
        let rest = replayed.drop_first();
        assert forall|k: int| 0 <= k < rest.len() implies items.contains(#[trigger] rest[k]) by {
            assert(rest[k] == replayed[k + 1]);
        }
        law_replay_absorbed(apply_item(s, first), rest, items);
        lemma_early_copy_absorbed(s, first, items);
    }
}

/// Crash safety: when a page was applied up to its `k`-th item, the
/// watermark was not moved and the page is applied again from its start, the
/// store ends as if the page had been applied once without interruption.
pub proof fn law_crash_safe(s: StoreView, items: Seq<ChangeItem>, k: int)
    requires
        0 <= k <= items.len(),
    ensures
        apply_all(apply_all(s, items.take(k)), items) == apply_all(s, items),
{
    let done = items.take(k);
    assert forall|j: int| 0 <= j < done.len() implies items.contains(#[trigger] done[j]) by {
        assert(items[j] == done[j]);
    }
    law_replay_absorbed(s, done, items);
}

/// Applying a whole page twice gives what applying it once gives.
pub proof fn law_page_idempotent(s: StoreView, items: Seq<ChangeItem>)
    ensures
        apply_all(apply_all(s, items), items) == apply_all(s, items),
{
    assert(items.take(items.len() as int) =~= items);
    law_crash_safe(s, items, items.len() as int);
}

/// An item that fails validation is as good as absent: the other items of
/// its page are applied as if it had not been there.
pub proof fn law_invalid_item_isolated(s: StoreView, items: Seq<ChangeItem>, j: int)
    requires
        0 <= j < items.len(),
        !items[j].valid(),
    ensures
        apply_all(s, items) == apply_all(s, items.remove(j)),
    decreases items.len(),
{
    if j == 0 {
        assert(items.remove(0) =~= items.drop_first());
    } else {
        assert(items.remove(j)[0] == items[0]);
        assert(items.remove(j).drop_first() =~= items.drop_first().remove(j - 1));
        law_invalid_item_isolated(apply_item(s, items[0]), items.drop_first(), j - 1);
    }
}

/// Applying one run after another is applying their concatenation.
pub proof fn lemma_apply_all_concat(s: StoreView, a: Seq<ChangeItem>, b: Seq<ChangeItem>)
    ensures
        apply_all(s, a + b) == apply_all(apply_all(s, a), b),
    decreases a.len(),
{
    if a.len() == 0 {
        assert(a + b =~= b);
    } else {
        assert((a + b)[0] == a[0]);
        assert((a + b).drop_first() =~= a.drop_first() + b);
        lemma_apply_all_concat(apply_item(s, a[0]), a.drop_first(), b);
    }
}

/// The items of a run of pages, in the order of arrival.
pub open spec fn stream_of(pages: Seq<Seq<ChangeItem>>) -> Seq<ChangeItem>
    decreases pages.len(),
{
    if pages.len() == 0 {
        Seq::empty()
    } else {
        pages[0] + stream_of(pages.drop_first())
    }
}

/// The store after a run of pages has been applied one after another.
pub open spec fn apply_pages(s: StoreView, pages: Seq<Seq<ChangeItem>>) -> StoreView
    decreases pages.len(),
{
    if pages.len() == 0 {
        s
    } else {
        apply_pages(apply_all(s, pages[0]), pages.drop_first())
    }
}

/// The store after every valid item of a stream has been written in order
/// with no regard to what was stored: the state that the stream implies.
pub open spec fn replay(s: StoreView, items: Seq<ChangeItem>) -> StoreView
    decreases items.len(),
{
    if items.len() == 0 {
        s
    } else if items[0].valid() {
        replay(s.insert(items[0].id(), entry_of(items[0])), items.drop_first())
    } else {
        replay(s, items.drop_first())
    }
}

/// Whether the modification times of a stream grow strictly.
pub open spec fn strictly_increasing(items: Seq<ChangeItem>) -> bool {
    forall|i: int, j: int|
        0 <= i < j < items.len() ==> (#[trigger] items[i]).updated_at() < (
        #[trigger] items[j]).updated_at()
}

/// Whether everything stored is older than a given instant.
pub open spec fn all_older(s: StoreView, t: int) -> bool {
    forall|id: Seq<char>| s.dom().contains(id) ==> (#[trigger] s[id]).updated_at < t
}

/// How a stream is cut into pages does not matter.
pub proof fn law_paging_irrelevant(s: StoreView, pages: Seq<Seq<ChangeItem>>)
    ensures
        apply_pages(s, pages) == apply_all(s, stream_of(pages)),
    decreases pages.len(),
{
    if pages.len() > 0 {
        lemma_apply_all_concat(s, pages[0], stream_of(pages.drop_first()));
        law_paging_irrelevant(apply_all(s, pages[0]), pages.drop_first());
    }
}

/// In a stream whose modification times grow strictly, met by a store that
/// holds nothing as new as its first item, the last-writer-wins rule drops
/// no valid item.
pub proof fn lemma_increasing_stream_replays(s: StoreView, items: Seq<ChangeItem>)
    requires
        strictly_increasing(items),
        items.len() > 0 ==> all_older(s, items[0].updated_at()),
    ensures
        apply_all(s, items) == replay(s, items),
    decreases items.len(),
{
    if items.len() > 0 {
        let first = items[0];
        let rest = items.drop_first();
        let next = apply_item(s, first);
        assert(strictly_increasing(rest)) by {
            assert forall|i: int, j: int| 0 <= i < j < rest.len() implies (#[trigger] rest[i]).updated_at()
                < (#[trigger] rest[j]).updated_at() by {
                assert(rest[i] == items[i + 1] && rest[j] == items[j + 1]);
            }
        }
        if rest.len() > 0 {
            assert(rest[0] == items[1]);
            assert(items[0].updated_at() < items[1].updated_at());
            assert(all_older(next, rest[0].updated_at()));
        }
        if first.valid() {
            assert(takes_effect(s, first));
        }
        lemma_increasing_stream_replays(next, rest);
    }
}

/// No lost updates: a stream with strictly growing modification times, cut
/// into pages in any way and applied page by page to a store that holds
/// nothing as new as its first item, leaves exactly the state that writing
/// its valid items in order implies.
pub proof fn law_no_lost_updates(s: StoreView, pages: Seq<Seq<ChangeItem>>)
    requires
        strictly_increasing(stream_of(pages)),
        stream_of(pages).len() > 0 ==> all_older(s, stream_of(pages)[0].updated_at()),
    ensures
        apply_pages(s, pages) == replay(s, stream_of(pages)),
{
    law_paging_irrelevant(s, pages);
    lemma_increasing_stream_replays(s, stream_of(pages));
}

} // verus!
