//! The color index: the eligible applications, each with the average color
//! of its icon, and the nearest-color lookup over them.
//!
//! The index holds at most one application per id. Of several entries with
//! one id the first to arrive stays; later ones are dropped, as are entries
//! that are not eligible. Items keep the order in which they were added, so
//! that a lookup with several equally near items has a fixed answer: the
//! first of them.

use vstd::prelude::*;
use crate::color::{distance_squared, Oklab};
use crate::desktop::{
    eligible, names_icon, ApplicationEntry, Descriptor, DescriptorView, EntryView,
};

verus! {

/// An application of the index with the average color of its icon.
#[derive(Clone, Debug)]
pub struct IndexedApp {
    pub entry: ApplicationEntry,
    pub color: Oklab,
}

/// The mathematical value of an [`IndexedApp`].
pub struct IndexedView {
    pub entry: EntryView,
    pub color: Oklab,
}

impl View for IndexedApp {
    type V = IndexedView;

    open spec fn view(&self) -> IndexedView {
        IndexedView { entry: self.entry@, color: self.color }
    }
}

/// The values of a sequence of items.
pub open spec fn item_views(items: Seq<IndexedApp>) -> Seq<IndexedView> {
    items.map_values(|item: IndexedApp| item@)
}

/// Whether some item of `items` has the id `id`.
pub open spec fn has_id(items: Seq<IndexedView>, id: Seq<char>) -> bool {
    exists|i: int| 0 <= i < items.len() && (#[trigger] items[i]).entry.id == id
}

/// What holds of every index: each item is eligible, and no two items share
/// an id.
pub open spec fn well_formed(items: Seq<IndexedView>) -> bool {
    &&& forall|i: int| 0 <= i < items.len() ==> eligible((#[trigger] items[i]).entry)
    &&& forall|i: int, j: int|
        0 <= i < j < items.len() ==> (#[trigger] items[i]).entry.id != (#[trigger] items[j]).entry.id
}

/// Whether `entry` may be added to `items`: it is eligible and its id is new.
pub open spec fn admits(items: Seq<IndexedView>, entry: EntryView) -> bool {
    eligible(entry) && !has_id(items, entry.id)
}

/// Whether the icon of the descriptor found under `id` is worth looking up:
/// the id is new and the descriptor is a visible application that names an
/// icon.
pub open spec fn wants_icon(items: Seq<IndexedView>, id: Seq<char>, d: DescriptorView) -> bool {
    !has_id(items, id) && names_icon(d)
}

/// `items` after `entry` with `color` was offered: one item longer where the
/// entry is admitted, unchanged where it is not.
pub open spec fn offered(items: Seq<IndexedView>, entry: EntryView, color: Oklab) -> Seq<
    IndexedView,
> {
    if admits(items, entry) {
        items.push(IndexedView { entry, color })
    } else {
        items
    }
}

/// The index built by offering `candidates` one after the other, starting
/// from the empty index.
pub open spec fn index_of(candidates: Seq<IndexedView>) -> Seq<IndexedView>
    decreases candidates.len(),
{
    if candidates.len() == 0 {
        Seq::empty()
    } else {
        offered(
            index_of(candidates.drop_last()),
            candidates.last().entry,
            candidates.last().color,
        )
    }
}

/// Whether item `i` is the answer to a lookup of `query`: no item is nearer,
/// and every item before it is farther.
pub open spec fn is_nearest(items: Seq<IndexedView>, query: Oklab, i: int) -> bool {
    &&& 0 <= i < items.len()
    &&& forall|j: int|
        0 <= j < items.len() ==> distance_squared(items[i].color, query) <= distance_squared(
            (#[trigger] items[j]).color,
            query,
        )
    &&& forall|j: int|
        0 <= j < i ==> distance_squared(items[i].color, query) < distance_squared(
            (#[trigger] items[j]).color,
            query,
        )
}

/// The position of the answer to a lookup of `query` in a non-empty index.
pub open spec fn nearest_of(items: Seq<IndexedView>, query: Oklab) -> int {
    choose|i: int| is_nearest(items, query, i)
}

/// A lookup has one answer only.
pub proof fn lemma_nearest_unique(items: Seq<IndexedView>, query: Oklab, i: int, j: int)
    requires
        is_nearest(items, query, i),
        is_nearest(items, query, j),
    ensures
        i == j,
        nearest_of(items, query) == i,
{
    if i < j {
        assert(distance_squared(items[j].color, query) < distance_squared(items[i].color, query));
    } else if j < i {
        assert(distance_squared(items[i].color, query) < distance_squared(items[j].color, query));
    }
    let k = nearest_of(items, query);
    if k < i {
        assert(distance_squared(items[i].color, query) < distance_squared(items[k].color, query));
    } else if i < k {
        assert(distance_squared(items[k].color, query) < distance_squared(items[i].color, query));
    }
}

/// Offering an entry keeps an index well formed.
pub proof fn lemma_offered_well_formed(items: Seq<IndexedView>, entry: EntryView, color: Oklab)
    requires
        well_formed(items),
    ensures
        well_formed(offered(items, entry, color)),
{
    let after = offered(items, entry, color);
    if admits(items, entry) {
        assert forall|i: int, j: int| 0 <= i < j < after.len() implies (#[trigger] after[i]).entry.id
            != (#[trigger] after[j]).entry.id by {
            if j == items.len() {
                assert(items[i].entry.id != entry.id);
            } else {
                assert(items[i].entry.id != items[j].entry.id);
            }
        }
    }
}

/// The immutable-once-built collection of indexed applications.
#[derive(Debug)]
pub struct DesktopIndex {
    items: Vec<IndexedApp>,
}

impl View for DesktopIndex {
    type V = Seq<IndexedView>;

    closed spec fn view(&self) -> Seq<IndexedView> {
        item_views(self.items@)
    }
}

impl DesktopIndex {
    /// Every index is well formed: its items are eligible and no two of
    /// them share an id.
    #[verifier::type_invariant]
    pub open spec fn inv(self) -> bool {
        well_formed(self@)
    }

    /// The empty index.
    pub fn new() -> (index: DesktopIndex)
        ensures
            index@ == Seq::<IndexedView>::empty(),
            well_formed(index@),
    {
        let index = DesktopIndex { items: Vec::new() };
        assert(index@ =~= Seq::<IndexedView>::empty());
        index
    }

    /// The number of indexed applications.
    pub fn len(&self) -> (n: usize)
        ensures
            n == self@.len(),
            well_formed(self@),
    {
        proof {
            use_type_invariant(self);
        }
        self.items.len()
    }

    /// The `i`-th indexed application, in the order of arrival.
    pub fn get(&self, i: usize) -> (item: Option<&IndexedApp>)
        ensures
            item is Some <==> i < self@.len(),
            item matches Some(app) ==> app@ == self@[i as int],
    {
        if i < self.items.len() {
            Some(&self.items[i])
        } else {
            None
        }
    }

    /// The colors of the indexed applications, in index order.
    pub fn colors(&self) -> (colors: Vec<Oklab>)
        ensures
            colors.len() == self@.len(),
            forall|i: int| 0 <= i < colors.len() ==> #[trigger] colors[i] == self@[i].color,
    {
        let mut colors: Vec<Oklab> = Vec::new();
        let mut i: usize = 0;
        while i < self.items.len()
            invariant
                i <= self.items.len(),
                colors.len() == i,
                forall|j: int| 0 <= j < i ==> #[trigger] colors[j] == self@[j].color,
            decreases self.items.len() - i,
        {
            colors.push(self.items[i].color);
            i += 1;
        }
        colors
    }

    /// Whether an application with the id `id` is indexed.
    pub fn contains_id(&self, id: &str) -> (found: bool)
        ensures
            found == has_id(self@, id@),
    {
        let wanted: String = id.to_owned();
        let mut i: usize = 0;
        while i < self.items.len()
            invariant
                i <= self.items.len(),
                wanted@ == id@,
                forall|j: int| 0 <= j < i ==> (#[trigger] self@[j]).entry.id != id@,
            decreases self.items.len() - i,
        {
            if self.items[i].entry.id == wanted {
                assert(self@[i as int].entry.id == id@);
                return true;
            }
            i += 1;
        }
        false
    }

    /// Whether the icon of the descriptor found under `id` is worth looking
    /// up. Where it is not, the descriptor can be skipped without resolving
    /// or decoding anything.
    pub fn wants_icon(&self, id: &str, descriptor: &Descriptor) -> (r: bool)
        ensures
            r == wants_icon(self@, id@, descriptor@),
    {
        descriptor.names_icon() && !self.contains_id(id)
    }

    /// Whether `entry` would be added if offered now.
    pub fn admits(&self, entry: &ApplicationEntry) -> (r: bool)
        ensures
            r == admits(self@, entry@),
    {
        entry.is_eligible() && !self.contains_id(entry.id.as_str())
    }

    /// Offers `entry` with the average color of its icon. The entry is added
    /// at the end if it is eligible and its id is new; otherwise the index
    /// stays as it is. Returns whether the entry was added.
    pub fn insert(&mut self, entry: ApplicationEntry, color: Oklab) -> (added: bool)
        ensures
            added == admits(old(self)@, entry@),
            final(self)@ == offered(old(self)@, entry@, color),
            well_formed(final(self)@),
    {
        proof {
            use_type_invariant(&*self);
            lemma_offered_well_formed(self@, entry@, color);
        }
        if self.admits(&entry) {
            let ghost before = self.items@;
            let item = IndexedApp { entry, color };
            let mut items: Vec<IndexedApp> = Vec::new();
            std::mem::swap(&mut items, &mut self.items);
            items.push(item);
            assert(item_views(items@) =~= item_views(before).push(item@));
            self.items = items;
            true
        } else {
            false
        }
    }

    /// The index of `candidates`, offered in order.
    pub fn from_candidates(candidates: Vec<IndexedApp>) -> (index: DesktopIndex)
        ensures
            index@ == index_of(item_views(candidates@)),
            well_formed(index@),
    {
        let ghost all = item_views(candidates@);
        let mut index = DesktopIndex::new();
        assert(all.take(0) =~= Seq::<IndexedView>::empty());
        for item in it: candidates
            invariant
                it.seq() == candidates@,
                all == item_views(candidates@),
                index@ == index_of(all.take(it.index())),
        {
            let ghost k = it.index();
            assert(all.take(k + 1).drop_last() =~= all.take(k));
            assert(all.take(k + 1).last() == item@);
            index.insert(item.entry, item.color);
        }
        assert(all.take(all.len() as int) =~= all);
        proof {
            use_type_invariant(&index);
        }
        index
    }

    /// Looks up the application whose icon color is nearest to `query`, by
    /// squared Euclidean distance. Of several equally near items the first
    /// is returned. There is no answer only if the index is empty.
    pub fn nearest(&self, query: &Oklab) -> (best: Option<usize>)
        ensures
            best is None <==> self@.len() == 0,
            best matches Some(i) ==> is_nearest(self@, *query, i as int) && i == nearest_of(
                self@,
                *query,
            ),
    {
        if self.items.len() == 0 {
            return None;
        }
        let mut best: usize = 0;
        let mut best_distance: u128 = self.items[0].color.distance_squared(query);
        let mut i: usize = 1;
        while i < self.items.len()
            invariant
                1 <= i <= self.items.len(),
                best < i,
                best_distance == distance_squared(self@[best as int].color, *query),
                forall|j: int|
                    0 <= j < i ==> best_distance <= distance_squared(
                        (#[trigger] self@[j]).color,
                        *query,
                    ),
                forall|j: int|
                    0 <= j < best ==> best_distance < distance_squared(
                        (#[trigger] self@[j]).color,
                        *query,
                    ),
            decreases self.items.len() - i,
        {
            let distance: u128 = self.items[i].color.distance_squared(query);
            if distance < best_distance {
                best = i;
                best_distance = distance;
            }
            i += 1;
        }
        proof {
            lemma_nearest_unique(self@, *query, best as int, best as int);
        }
        Some(best)
    }
}

} // verus!
