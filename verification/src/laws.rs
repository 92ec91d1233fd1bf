//! Laws that relate several operations of the library.
//!
//! Each is stated over the same spec functions as the contracts of the
//! operations it speaks of, and proved from their definitions.

use vstd::prelude::*;
use crate::average::{average_of, lemma_sums_of_rearranged, WeightedColor};
use crate::color::Oklab;
use crate::desktop::{
    eligible, entry_of, has_extension, vector_ext, DescriptorView, EntryKind, EntryView,
};
use crate::index::{
    admits, has_id, index_of, lemma_offered_well_formed, offered, wants_icon, well_formed,
    IndexedView,
};
use crate::launcher::{action_for, clicked_color, records_after, ActionView, Event};
use crate::raster::{color_at, lemma_row_order, renderable};
use crate::surface::{
    by_output, by_surface, configured, disconnected, distinct, first_index, lemma_first_index,
    lemma_first_index_is, tracks_output, tracks_surface, OutputSurface,
};

verus! {

/// Drawing and clicking agree: the color drawn at a pixel of a frame is the
/// color that a click on that pixel resolves to, for every position inside
/// a surface whose recorded size is the frame's.
pub proof fn law_render_matches_click(record: OutputSurface, x: u32, y: u32)
    requires
        x < record.width,
        y < record.height,
    ensures
        clicked_color(record, x, y) == Some(
            color_at(record.width as int, record.height as int, y * record.width + x),
        ),
{
    lemma_row_order(x as int, y as int, record.width as int, record.height as int);
}

/// The average color of an icon does not depend on the order in which its
/// pixels are enumerated.
pub proof fn law_average_order_independent(first: Seq<WeightedColor>, second: Seq<WeightedColor>)
    requires
        first.to_multiset() == second.to_multiset(),
    ensures
        average_of(first) == average_of(second),
{
    lemma_sums_of_rearranged(first, second, 0);
    lemma_sums_of_rearranged(first, second, 1);
    lemma_sums_of_rearranged(first, second, 2);
}

/// The id and color of an item.
pub open spec fn pair_of(item: IndexedView) -> (Seq<char>, Oklab) {
    (item.entry.id, item.color)
}

/// The ids of `items`, each with its color.
pub open spec fn pairs(items: Seq<IndexedView>) -> Set<(Seq<char>, Oklab)> {
    Set::new(
        |p: (Seq<char>, Oklab)| exists|i: int| 0 <= i < items.len() && p == pair_of(#[trigger] items[i]),
    )
}

/// The ids of the eligible candidates, each with its color.
pub open spec fn eligible_pairs(candidates: Seq<IndexedView>) -> Set<(Seq<char>, Oklab)> {
    Set::new(
        |p: (Seq<char>, Oklab)|
            exists|i: int|
                0 <= i < candidates.len() && eligible((#[trigger] candidates[i]).entry) && p
                    == pair_of(candidates[i]),
    )
}

/// Eligible candidates that share an id also share their color, so that it
/// does not matter which of them comes first.
pub open spec fn unambiguous(candidates: Seq<IndexedView>) -> bool {
    forall|i: int, j: int|
        0 <= i < candidates.len() && 0 <= j < candidates.len() && eligible(
            (#[trigger] candidates[i]).entry,
        ) && eligible((#[trigger] candidates[j]).entry) && candidates[i].entry.id
            == candidates[j].entry.id ==> candidates[i].color == candidates[j].color
}

/// An index built from unambiguous candidates holds the id and color of
/// every eligible candidate, and nothing else.
pub proof fn lemma_index_pairs(candidates: Seq<IndexedView>)
    requires
        unambiguous(candidates),
    ensures
        pairs(index_of(candidates)) == eligible_pairs(candidates),
    decreases candidates.len(),
{
    if candidates.len() == 0 {
        assert(pairs(index_of(candidates)) =~= eligible_pairs(candidates));
    } else {
        let before = candidates.drop_last();
        let last = candidates.last();
        assert forall|i: int, j: int|
            0 <= i < before.len() && 0 <= j < before.len() && eligible(
                (#[trigger] before[i]).entry,
            ) && eligible((#[trigger] before[j]).entry) && before[i].entry.id
                == before[j].entry.id implies before[i].color == before[j].color by {
            assert(before[i] == candidates[i]);
            assert(before[j] == candidates[j]);
        }
        lemma_index_pairs(before);
        let built = index_of(before);
        let after = index_of(candidates);
        assert(after == offered(built, last.entry, last.color));
        assert forall|p: (Seq<char>, Oklab)| pairs(after).contains(p) implies eligible_pairs(
            candidates,
        ).contains(p) by {
            let i = choose|i: int| 0 <= i < after.len() && p == pair_of(#[trigger] after[i]);
            if i < built.len() {
                assert(after[i] == built[i]);
                assert(pairs(built).contains(p));
                assert(eligible_pairs(before).contains(p));
                let k = choose|k: int|
                    0 <= k < before.len() && eligible((#[trigger] before[k]).entry) && p
                        == pair_of(before[k]);
                assert(candidates[k] == before[k]);
            } else {
                assert(after[i] == IndexedView { entry: last.entry, color: last.color });
                assert(candidates[candidates.len() - 1] == last);
            }
        }
        assert forall|p: (Seq<char>, Oklab)| eligible_pairs(candidates).contains(p) implies pairs(
            after,
        ).contains(p) by {
            let k = choose|k: int|
                0 <= k < candidates.len() && eligible((#[trigger] candidates[k]).entry) && p
                    == pair_of(candidates[k]);
            if k < before.len() {
                assert(before[k] == candidates[k]);
                assert(eligible_pairs(before).contains(p));
                assert(pairs(built).contains(p));
                let i = choose|i: int| 0 <= i < built.len() && p == pair_of(#[trigger] built[i]);
                assert(after[i] == built[i]);
            } else if admits(built, last.entry) {
                assert(after[built.len() as int] == IndexedView {
                    entry: last.entry,
                    color: last.color,
                });
            } else {
                // An item with the same id is in the index already; by the
                // induction hypothesis it stems from an eligible candidate,
                // which has the same color.
                let i = choose|i: int|
                    0 <= i < built.len() && (#[trigger] built[i]).entry.id == last.entry.id;
                let q = pair_of(built[i]);
                assert(pairs(built).contains(q));
                assert(eligible_pairs(before).contains(q));
                let m = choose|m: int|
                    0 <= m < before.len() && eligible((#[trigger] before[m]).entry) && q
                        == pair_of(before[m]);
                assert(candidates[m] == before[m]);
                assert(candidates[m].color == candidates[k].color);
                assert(after[i] == built[i]);
            }
        }
        assert(pairs(after) =~= eligible_pairs(candidates));
    }
}

/// Indexing does not depend on the order of enumeration: two enumerations of
/// the same candidates give indexes with the same ids and colors, provided
/// that eligible candidates with one id have one color.
pub proof fn law_index_order_independent(first: Seq<IndexedView>, second: Seq<IndexedView>)
    requires
        first.to_multiset() == second.to_multiset(),
        unambiguous(first),
    ensures
        pairs(index_of(first)) == pairs(index_of(second)),
{
    assert forall|v: IndexedView| first.contains(v) <==> second.contains(v) by {
        vstd::seq_lib::to_multiset_contains(first, v);
        vstd::seq_lib::to_multiset_contains(second, v);
    }
    assert forall|i: int, j: int|
        0 <= i < second.len() && 0 <= j < second.len() && eligible((#[trigger] second[i]).entry)
            && eligible((#[trigger] second[j]).entry) && second[i].entry.id
            == second[j].entry.id implies second[i].color == second[j].color by {
        assert(second.contains(second[i]));
        assert(second.contains(second[j]));
        assert(first.contains(second[i]));
        assert(first.contains(second[j]));
        let a = choose|a: int| 0 <= a < first.len() && first[a] == second[i];
        let b = choose|b: int| 0 <= b < first.len() && first[b] == second[j];
        assert(first[a].color == first[b].color);
    }
    lemma_index_pairs(first);
    lemma_index_pairs(second);
    assert forall|p: (Seq<char>, Oklab)| eligible_pairs(first).contains(p) implies eligible_pairs(
        second,
    ).contains(p) by {
        let k = choose|k: int|
            0 <= k < first.len() && eligible((#[trigger] first[k]).entry) && p == pair_of(first[k]);
        assert(first.contains(first[k]));
        assert(second.contains(first[k]));
        let m = choose|m: int| 0 <= m < second.len() && second[m] == first[k];
        assert(eligible(second[m].entry));
    }
    assert forall|p: (Seq<char>, Oklab)| eligible_pairs(second).contains(p) implies eligible_pairs(
        first,
    ).contains(p) by {
        let k = choose|k: int|
            0 <= k < second.len() && eligible((#[trigger] second[k]).entry) && p == pair_of(
                second[k],
            );
        assert(second.contains(second[k]));
        assert(first.contains(second[k]));
        let m = choose|m: int| 0 <= m < first.len() && first[m] == second[k];
        assert(eligible(first[m].entry));
    }
    assert(eligible_pairs(first) =~= eligible_pairs(second));
}

/// Of two entries with one id only the first is kept: once the first was
/// offered, offering the second changes nothing.
pub proof fn law_first_of_an_id_wins(
    items: Seq<IndexedView>,
    first: EntryView,
    first_color: Oklab,
    second: EntryView,
    second_color: Oklab,
)
    requires
        first.id == second.id,
        eligible(first),
    ensures
        offered(offered(items, first, first_color), second, second_color) == offered(
            items,
            first,
            first_color,
        ),
{
    let after = offered(items, first, first_color);
    if admits(items, first) {
        assert(after[items.len() as int].entry.id == second.id);
    } else {
        let i = choose|i: int| 0 <= i < items.len() && (#[trigger] items[i]).entry.id == first.id;
        assert(after[i].entry.id == second.id);
    }
    assert(has_id(after, second.id));
}

/// An entry that is hidden, or not to be displayed, or no application, or
/// without an icon file, or with a vector icon is not eligible, whatever
/// else it holds; and an entry that is not eligible never enters an index.
pub proof fn law_ineligible_never_indexed(items: Seq<IndexedView>, entry: EntryView, color: Oklab)
    ensures
        entry.no_display ==> !eligible(entry),
        entry.hidden ==> !eligible(entry),
        entry.kind != EntryKind::Application ==> !eligible(entry),
        entry.icon is None ==> !eligible(entry),
        entry.icon matches Some(path) && has_extension(path, vector_ext()) ==> !eligible(entry),
        !eligible(entry) ==> offered(items, entry, color) == items,
{
}

/// Skipping a descriptor whose icon is not wanted loses nothing: whatever
/// file its icon might resolve to, the entry would not be admitted.
pub proof fn law_unwanted_is_never_admitted(
    items: Seq<IndexedView>,
    id: Seq<char>,
    d: DescriptorView,
    icon_path: Option<Seq<char>>,
)
    requires
        !wants_icon(items, id, d),
    ensures
        !admits(items, entry_of(id, d, icon_path)),
{
}

/// Every item of an index built from candidates is eligible, and no two
/// items share an id.
pub proof fn law_index_well_formed(candidates: Seq<IndexedView>)
    ensures
        well_formed(index_of(candidates)),
    decreases candidates.len(),
{
    if candidates.len() > 0 {
        law_index_well_formed(candidates.drop_last());
        lemma_offered_well_formed(
            index_of(candidates.drop_last()),
            candidates.last().entry,
            candidates.last().color,
        );
    }
}

/// A display that connects and disconnects again before any configure event
/// leaves the surface records as they were, and neither event asks for a
/// frame: the first asks for nothing, the second for the release of the
/// record just made, still of size 0 by 0.
pub proof fn law_connect_then_disconnect(
    records: Seq<OutputSurface>,
    items: Seq<IndexedView>,
    output: u32,
    surface: u32,
)
    requires
        !tracks_output(records, output),
        !tracks_surface(records, surface),
    ensures
        ({
            let connect = Event::OutputConnected { output, surface: Some(surface) };
            let disconnect = Event::OutputDisconnected { output };
            let between = records_after(records, connect);
            &&& action_for(records, items, connect) == ActionView::Idle
            &&& action_for(between, items, disconnect) == ActionView::Release(
                OutputSurface { output, surface, width: 0, height: 0 },
            )
            &&& records_after(between, disconnect) == records
        }),
{
    let made = OutputSurface { output, surface, width: 0, height: 0 };
    let between = records.push(made);
    lemma_first_index(records, by_output(output));
    assert forall|j: int| 0 <= j < records.len() implies !by_output(output)(
        #[trigger] between[j],
    ) by {
        assert(between[j] == records[j]);
    }
    lemma_first_index_is(between, by_output(output), records.len() as int);
    assert(between.update(records.len() as int, between.last()).drop_last() =~= records);
}

/// A display has a record only between its connecting and its
/// disconnecting: once it disconnected it has none, and no event other than
/// its connecting gives it one.
pub proof fn law_record_only_while_connected(
    records: Seq<OutputSurface>,
    event: Event,
    output: u32,
)
    ensures
        distinct(records) ==> !tracks_output(disconnected(records, output), output),
        tracks_output(records_after(records, event), output) && !tracks_output(records, output)
            ==> (event matches Event::OutputConnected { output: o, surface: Some(_) } && o
            == output),
{
    let wanted = by_output(output);
    lemma_first_index(records, wanted);
    let at = first_index(records, wanted);
    let gone = disconnected(records, output);
    lemma_first_index(gone, wanted);
    if distinct(records) && first_index(gone, wanted) < gone.len() {
        let k = first_index(gone, wanted);
        let last = records.len() - 1;
        if k == at {
            assert(records[at].output != records[last].output);
        } else {
            assert(gone[k] == records[k]);
            if k < at {
                assert(!wanted(records[k]));
            } else {
                assert(records[at].output != records[k].output);
            }
        }
    }
    let after = records_after(records, event);
    lemma_first_index(after, wanted);
    if first_index(after, wanted) < after.len() && !tracks_output(records, output) {
        let k = first_index(after, wanted);
        assert(forall|j: int| 0 <= j < records.len() ==> !wanted(#[trigger] records[j]));
        match event {
            Event::OutputConnected { output: o, surface: Some(s) } => {
                if k < records.len() {
                    assert(after[k] == records[k]);
                }
            },
            Event::OutputConnected { output: o, surface: None } => {},
            Event::OutputDisconnected { output: o } => {
                lemma_first_index(records, by_output(o));
                let i = first_index(records, by_output(o));
                if i < records.len() {
                    assert(wanted(if k == i {
                        records[records.len() - 1]
                    } else {
                        records[k]
                    }));
                }
            },
            Event::SurfaceClosed { surface } => {
                lemma_first_index(records, by_surface(surface));
                let i = first_index(records, by_surface(surface));
                if i < records.len() {
                    assert(wanted(if k == i {
                        records[records.len() - 1]
                    } else {
                        records[k]
                    }));
                }
            },
            Event::Configure { surface, width, height } => {
                lemma_first_index(records, by_surface(surface));
                assert(wanted(records[k]));
            },
            Event::Pointer(_) => {},
        }
    }
}

/// A configure event leaves the surface's recorded size and the frame it
/// asks for in agreement: the record holds the size of the event, the frame
/// to draw has that size, and from then on a click on the surface is
/// resolved against that size and no other.
pub proof fn law_configure_consistent(
    records: Seq<OutputSurface>,
    items: Seq<IndexedView>,
    surface: u32,
    width: u32,
    height: u32,
)
    requires
        tracks_surface(records, surface),
    ensures
        ({
            let event = Event::Configure { surface, width, height };
            let after = records_after(records, event);
            let record = after[first_index(after, by_surface(surface))];
            &&& tracks_surface(after, surface)
            &&& record.surface == surface
            &&& record.width == width
            &&& record.height == height
            &&& renderable(width as int, height as int) ==> action_for(records, items, event)
                == ActionView::Render { surface, width: width as int, height: height as int }
            &&& forall|x: u32, y: u32|
                #![trigger clicked_color(record, x, y)]
                clicked_color(record, x, y) == if x < width && y < height {
                    Some(color_at(width as int, height as int, y * width + x))
                } else {
                    None
                }
        }),
{
    let at = first_index(records, by_surface(surface));
    lemma_first_index(records, by_surface(surface));
    let after = configured(records, surface, width, height);
    assert forall|j: int| 0 <= j < at implies !by_surface(surface)(#[trigger] after[j]) by {
        assert(after[j] == records[j]);
    }
    lemma_first_index_is(after, by_surface(surface), at);
    let record = after[at];
    assert forall|x: u32, y: u32|
        #![trigger clicked_color(record, x, y)]
        clicked_color(record, x, y) == if x < width && y < height {
            Some(color_at(width as int, height as int, y * width + x))
        } else {
            None
        } by {
        if x < width && y < height {
            law_render_matches_click(record, x, y);
        }
    }
}

} // verus!
