//! The surfaces of the connected displays.
//!
//! Each connected display has one surface record: the display's identity,
//! the identity of the surface drawn on it, and the size given by the last
//! configure event, 0 by 0 before the first. A record is made when the
//! display connects and removed when it disconnects. Records are found by
//! identity and removed by moving the last record into the gap, so their
//! order means nothing.

use vstd::prelude::*;

verus! {

/// The record of one display's surface.
#[derive(Clone, Copy, Debug, PartialEq, Eq, Structural)]
pub struct OutputSurface {
    /// Identity of the display.
    pub output: u32,
    /// Identity of the surface.
    pub surface: u32,
    /// Width given by the last configure event.
    pub width: u32,
    /// Height given by the last configure event.
    pub height: u32,
}

/// Selects the records of the display `output`.
pub open spec fn by_output(output: u32) -> spec_fn(OutputSurface) -> bool {
    |r: OutputSurface| r.output == output
}

/// Selects the records of the surface `surface`.
pub open spec fn by_surface(surface: u32) -> spec_fn(OutputSurface) -> bool {
    |r: OutputSurface| r.surface == surface
}

/// The position of the first record that `wanted` selects, or the number of
/// records if it selects none.
pub open spec fn first_index(
    records: Seq<OutputSurface>,
    wanted: spec_fn(OutputSurface) -> bool,
) -> int
    decreases records.len(),
{
    if records.len() == 0 {
        0
    } else if wanted(records[0]) {
        0
    } else {
        1 + first_index(records.skip(1), wanted)
    }
}

/// Whether a record of the display `output` exists.
pub open spec fn tracks_output(records: Seq<OutputSurface>, output: u32) -> bool {
    first_index(records, by_output(output)) < records.len()
}

/// Whether a record of the surface `surface` exists.
pub open spec fn tracks_surface(records: Seq<OutputSurface>, surface: u32) -> bool {
    first_index(records, by_surface(surface)) < records.len()
}

/// No two records share a display, and no two share a surface.
pub open spec fn distinct(records: Seq<OutputSurface>) -> bool {
    forall|i: int, j: int|
        0 <= i < j < records.len() ==> (#[trigger] records[i]).output != (
        #[trigger] records[j]).output && records[i].surface != records[j].surface
}

/// The records after the display `output` connected and got the surface
/// `surface`: one more record of size 0 by 0, unless the display or the
/// surface has a record already.
pub open spec fn connected(records: Seq<OutputSurface>, output: u32, surface: u32) -> Seq<
    OutputSurface,
> {
    if tracks_output(records, output) || tracks_surface(records, surface) {
        records
    } else {
        records.push(OutputSurface { output, surface, width: 0, height: 0 })
    }
}

/// The records after the display `output` disconnected: its record is gone
/// and the last record has taken its place.
pub open spec fn disconnected(records: Seq<OutputSurface>, output: u32) -> Seq<OutputSurface> {
    let i = first_index(records, by_output(output));
    if i < records.len() {
        records.update(i, records.last()).drop_last()
    } else {
        records
    }
}

/// The records after the surface `surface` was closed: its record is gone
/// and the last record has taken its place.
pub open spec fn closed(records: Seq<OutputSurface>, surface: u32) -> Seq<OutputSurface> {
    let i = first_index(records, by_surface(surface));
    if i < records.len() {
        records.update(i, records.last()).drop_last()
    } else {
        records
    }
}

/// The records after the surface `surface` was configured to `width` by
/// `height`: its record holds the new size.
pub open spec fn configured(records: Seq<OutputSurface>, surface: u32, width: u32, height: u32) -> Seq<
    OutputSurface,
> {
    let i = first_index(records, by_surface(surface));
    if i < records.len() {
        records.update(i, OutputSurface { width, height, ..records[i] })
    } else {
        records
    }
}

/// `first_index` is the least position that `wanted` selects.
pub proof fn lemma_first_index(
    records: Seq<OutputSurface>,
    wanted: spec_fn(OutputSurface) -> bool,
)
    ensures
        0 <= first_index(records, wanted) <= records.len(),
        first_index(records, wanted) < records.len() ==> wanted(
            records[first_index(records, wanted)],
        ),
        forall|j: int| 0 <= j < first_index(records, wanted) ==> !wanted(#[trigger] records[j]),
    decreases records.len(),
{
    if records.len() > 0 && !wanted(records[0]) {
        let rest = records.skip(1);
        lemma_first_index(rest, wanted);
        let k = first_index(rest, wanted);
        assert forall|j: int| 0 <= j < 1 + k implies !wanted(#[trigger] records[j]) by {
            if j > 0 {
                assert(rest[j - 1] == records[j]);
            }
        }
        if k < rest.len() {
            assert(rest[k] == records[1 + k]);
        }
    }
}

/// A position that `wanted` selects, with none before it, is the first.
pub proof fn lemma_first_index_is(
    records: Seq<OutputSurface>,
    wanted: spec_fn(OutputSurface) -> bool,
    i: int,
)
    requires
        0 <= i <= records.len(),
        forall|j: int| 0 <= j < i ==> !wanted(#[trigger] records[j]),
        i < records.len() ==> wanted(records[i]),
    ensures
        first_index(records, wanted) == i,
{
    lemma_first_index(records, wanted);
    let k = first_index(records, wanted);
    if k < i {
        assert(!wanted(records[k]));
    }
}

/// Removing one record keeps the others distinct.
pub proof fn lemma_distinct_without(records: Seq<OutputSurface>, at: int)
    requires
        distinct(records),
        0 <= at < records.len(),
    ensures
        distinct(records.update(at, records.last()).drop_last()),
{
    let gone = records.update(at, records.last()).drop_last();
    assert forall|i: int, j: int| 0 <= i < j < gone.len() implies (#[trigger] gone[i]).output != (
    #[trigger] gone[j]).output && gone[i].surface != gone[j].surface by {
        let last = records.len() - 1;
        if i == at {
            assert(records[j].output != records[last].output);
        } else if j == at {
            assert(records[i].output != records[last].output);
        } else {
            assert(records[i].output != records[j].output);
        }
    }
}

/// Connecting, disconnecting, closing and configuring keep the records
/// distinct.
pub proof fn lemma_distinct_kept(records: Seq<OutputSurface>, output: u32, surface: u32, width: u32, height: u32)
    requires
        distinct(records),
    ensures
        distinct(connected(records, output, surface)),
        distinct(disconnected(records, output)),
        distinct(closed(records, surface)),
        distinct(configured(records, surface, width, height)),
{
    lemma_first_index(records, by_output(output));
    lemma_first_index(records, by_surface(surface));
    let after = connected(records, output, surface);
    assert forall|i: int, j: int| 0 <= i < j < after.len() implies (#[trigger] after[i]).output != (
    #[trigger] after[j]).output && after[i].surface != after[j].surface by {
        if j == records.len() {
            assert(!by_output(output)(records[i]));
            assert(!by_surface(surface)(records[i]));
        } else {
            assert(records[i].output != records[j].output);
        }
    }
    if tracks_output(records, output) {
        lemma_distinct_without(records, first_index(records, by_output(output)));
    }
    if tracks_surface(records, surface) {
        lemma_distinct_without(records, first_index(records, by_surface(surface)));
    }
    let sized = configured(records, surface, width, height);
    assert forall|i: int, j: int| 0 <= i < j < sized.len() implies (#[trigger] sized[i]).output != (
    #[trigger] sized[j]).output && sized[i].surface != sized[j].surface by {
        assert(records[i].output != records[j].output);
    }
}

/// The set of surface records, one per connected display.
#[derive(Debug)]
pub struct SurfaceSet {
    records: Vec<OutputSurface>,
}

impl View for SurfaceSet {
    type V = Seq<OutputSurface>;

    closed spec fn view(&self) -> Seq<OutputSurface> {
        self.records@
    }
}

impl SurfaceSet {
    /// In every set the records are distinct: no display and no surface
    /// has two.
    #[verifier::type_invariant]
    pub open spec fn inv(self) -> bool {
        distinct(self@)
    }

    /// The set before any display has connected.
    pub fn new() -> (set: SurfaceSet)
        ensures
            set@ == Seq::<OutputSurface>::empty(),
            distinct(set@),
    {
        SurfaceSet { records: Vec::new() }
    }

    /// The number of records.
    pub fn len(&self) -> (n: usize)
        ensures
            n == self@.len(),
            distinct(self@),
    {
        proof {
            use_type_invariant(self);
        }
        self.records.len()
    }

    /// Whether there is no record.
    pub fn is_empty(&self) -> (r: bool)
        ensures
            r == (self@.len() == 0),
    {
        self.records.len() == 0
    }

    /// The `i`-th record, if there are that many.
    pub fn get(&self, i: usize) -> (record: Option<OutputSurface>)
        ensures
            record == if i < self@.len() {
                Some(self@[i as int])
            } else {
                None
            },
    {
        if i < self.records.len() {
            Some(self.records[i])
        } else {
            None
        }
    }

    /// The position of the first record of the display `output`.
    fn find_output(&self, output: u32) -> (i: usize)
        ensures
            i == first_index(self@, by_output(output)),
            i <= self@.len(),
    {
        let mut i: usize = 0;
        while i < self.records.len()
            invariant
                i <= self.records.len(),
                forall|j: int| 0 <= j < i ==> !by_output(output)(#[trigger] self@[j]),
            decreases self.records.len() - i,
        {
            if self.records[i].output == output {
                proof {
                    lemma_first_index_is(self@, by_output(output), i as int);
                }
                return i;
            }
            i += 1;
        }
        proof {
            lemma_first_index_is(self@, by_output(output), i as int);
        }
        i
    }

    /// The position of the first record of the surface `surface`.
    fn find_surface(&self, surface: u32) -> (i: usize)
        ensures
            i == first_index(self@, by_surface(surface)),
            i <= self@.len(),
    {
        let mut i: usize = 0;
        while i < self.records.len()
            invariant
                i <= self.records.len(),
                forall|j: int| 0 <= j < i ==> !by_surface(surface)(#[trigger] self@[j]),
            decreases self.records.len() - i,
        {
            if self.records[i].surface == surface {
                proof {
                    lemma_first_index_is(self@, by_surface(surface), i as int);
                }
                return i;
            }
            i += 1;
        }
        proof {
            lemma_first_index_is(self@, by_surface(surface), i as int);
        }
        i
    }

    /// The record of the surface `surface`, if the set holds one.
    pub fn lookup(&self, surface: u32) -> (record: Option<OutputSurface>)
        ensures
            record is Some <==> tracks_surface(self@, surface),
            record matches Some(r) ==> r == self@[first_index(self@, by_surface(surface))]
                && r.surface == surface,
    {
        let i: usize = self.find_surface(surface);
        proof {
            lemma_first_index(self@, by_surface(surface));
        }
        if i < self.records.len() {
            Some(self.records[i])
        } else {
            None
        }
    }

    /// Records that the display `output` connected and got the surface
    /// `surface`. The new record has the size 0 by 0. Nothing is recorded if
    /// the display or the surface has a record already. Returns whether a
    /// record was made.
    pub fn connect(&mut self, output: u32, surface: u32) -> (made: bool)
        ensures
            final(self)@ == connected(old(self)@, output, surface),
            made == !(tracks_output(old(self)@, output) || tracks_surface(old(self)@, surface)),
            distinct(final(self)@),
    {
        proof {
            use_type_invariant(&*self);
            lemma_distinct_kept(self@, output, surface, 0, 0);
        }
        if self.find_output(output) < self.records.len() || self.find_surface(surface)
            < self.records.len() {
            false
        } else {
            let mut records: Vec<OutputSurface> = Vec::new();
            std::mem::swap(&mut records, &mut self.records);
            records.push(OutputSurface { output, surface, width: 0, height: 0 });
            self.records = records;
            true
        }
    }

    /// Records that the display `output` disconnected. Returns the record
    /// that was removed, if the display had one.
    pub fn disconnect(&mut self, output: u32) -> (removed: Option<OutputSurface>)
        ensures
            final(self)@ == disconnected(old(self)@, output),
            removed is Some <==> tracks_output(old(self)@, output),
            removed matches Some(r) ==> r == old(self)@[first_index(old(self)@, by_output(output))]
                && r.output == output,
            distinct(final(self)@),
    {
        proof {
            use_type_invariant(&*self);
            lemma_first_index(self@, by_output(output));
            lemma_distinct_kept(self@, output, 0, 0, 0);
        }
        let i: usize = self.find_output(output);
        if i < self.records.len() {
            let mut records: Vec<OutputSurface> = Vec::new();
            std::mem::swap(&mut records, &mut self.records);
            let removed: OutputSurface = records.swap_remove(i);
            self.records = records;
            Some(removed)
        } else {
            None
        }
    }

    /// Records that the surface `surface` was closed. Returns the record
    /// that was removed, if the surface had one.
    pub fn close(&mut self, surface: u32) -> (removed: Option<OutputSurface>)
        ensures
            final(self)@ == closed(old(self)@, surface),
            removed is Some <==> tracks_surface(old(self)@, surface),
            removed matches Some(r) ==> r == old(self)@[first_index(
                old(self)@,
                by_surface(surface),
            )] && r.surface == surface,
            distinct(final(self)@),
    {
        proof {
            use_type_invariant(&*self);
            lemma_first_index(self@, by_surface(surface));
            lemma_distinct_kept(self@, 0, surface, 0, 0);
        }
        let i: usize = self.find_surface(surface);
        if i < self.records.len() {
            let mut records: Vec<OutputSurface> = Vec::new();
            std::mem::swap(&mut records, &mut self.records);
            let removed: OutputSurface = records.swap_remove(i);
            self.records = records;
            Some(removed)
        } else {
            None
        }
    }

    /// Records that the surface `surface` was configured to `width` by
    /// `height`. Returns whether the surface has a record.
    pub fn configure(&mut self, surface: u32, width: u32, height: u32) -> (known: bool)
        ensures
            final(self)@ == configured(old(self)@, surface, width, height),
            known == tracks_surface(old(self)@, surface),
            distinct(final(self)@),
    {
        proof {
            use_type_invariant(&*self);
            lemma_distinct_kept(self@, 0, surface, width, height);
        }
        let i: usize = self.find_surface(surface);
        if i < self.records.len() {
            let record: OutputSurface = self.records[i];
            let mut records: Vec<OutputSurface> = Vec::new();
            std::mem::swap(&mut records, &mut self.records);
            records.set(i, OutputSurface { width, height, ..record });
            self.records = records;
            true
        } else {
            false
        }
    }
}

} // verus!
