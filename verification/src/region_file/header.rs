//! The container header: the table of chunk descriptors and the table of
//! modification timestamps, read from the first two sectors of a container.

use crate::region_file::chunk::{Chunk, ChunkView};
use crate::region_file::codec::{grid_index_to_coords, spec_grid_index_to_coords, GRID_CELLS};
use crate::region_file::source::{be_u32_at, ByteSource, SourceView};
use crate::decimal::{push_decimal, spec_decimal};
use vstd::prelude::*;
use vstd::string::StringExecFns;

verus! {

/// A cell of the grid as a plain value.
pub open spec fn cell_view(cell: Option<Chunk>) -> Option<ChunkView> {
    match cell {
        Some(c) => Some(c@),
        None => None,
    }
}

/// The cells of a table as plain values.
pub open spec fn cell_views(cells: Seq<Option<Chunk>>) -> Seq<Option<ChunkView>> {
    Seq::new(cells.len(), |i: int| cell_view(cells[i]))
}

/// The present cells among `cells[from..]`, in ascending index order.
pub open spec fn present_from(cells: Seq<Option<ChunkView>>, from: int) -> Seq<ChunkView>
    decreases cells.len() - from,
{
    if from < 0 || from >= cells.len() {
        Seq::empty()
    } else {
        match cells[from] {
            Some(c) => seq![c] + present_from(cells, from + 1),
            None => present_from(cells, from + 1),
        }
    }
}

/// A header as a plain value.
pub struct HeaderView {
    /// One cell per grid index `z * 32 + x`.
    pub chunks: Seq<Option<ChunkView>>,
    /// Last-modified marker of each cell, by the same index.
    pub timestamps: Seq<u32>,
}

impl HeaderView {
    /// The cell that the location table at the position of `src` holds at
    /// index `i`. In an eager read a present cell has had its header read.
    pub open spec fn cell(src: SourceView, i: int, visit: bool) -> Option<ChunkView> {
        let at = spec_grid_index_to_coords(i as u32);
        match ChunkView::fresh(at.x, at.z, be_u32_at(src.bytes, src.position + 4 * i)) {
            None => None,
            Some(chunk) => Some(
                if visit {
                    chunk.after_header_read(src.bytes)
                } else {
                    chunk
                },
            ),
        }
    }

    /// The header that `src` holds at its position: 1024 location words, then
    /// 1024 timestamps. None when `src` ends before the two tables do.
    pub open spec fn parse(src: SourceView, visit: bool) -> Option<HeaderView> {
        if src.has(8192) {
            Some(
                HeaderView {
                    chunks: Seq::new(1024, |i: int| Self::cell(src, i, visit)),
                    timestamps: Seq::new(
                        1024,
                        |i: int| be_u32_at(src.bytes, src.position + 4096 + 4 * i),
                    ),
                },
            )
        } else {
            None
        }
    }

    /// Where an eager read that has walked the first `n` cells has left the
    /// position: after the header read of the last present cell among them,
    /// or after the two tables when none of them is present.
    pub open spec fn eager_position(src: SourceView, n: nat) -> nat
        decreases n,
    {
        if n == 0 {
            src.position + 8192
        } else {
            match Self::cell(src, n - 1, false) {
                Some(chunk) => chunk.source_after_header_read(src.bytes).position,
                None => Self::eager_position(src, (n - 1) as nat),
            }
        }
    }

    /// The source after the header was read from `src`. A table that cannot
    /// be read whole is not stepped over.
    pub open spec fn source_after_parse(src: SourceView, visit: bool) -> SourceView {
        if !src.has(4096) {
            src
        } else if !src.has(8192) {
            src.at(src.position + 4096)
        } else if !visit {
            src.at(src.position + 8192)
        } else {
            src.at(Self::eager_position(src, 1024))
        }
    }

    /// The present cells, in ascending index order.
    pub open spec fn present(self) -> Seq<ChunkView> {
        present_from(self.chunks, 0)
    }

    /// The text of cell `i`: nothing for an empty cell, else the chunk's
    /// text and a line with its timestamp.
    pub open spec fn cell_text(self, i: int) -> Seq<char> {
        match self.chunks[i] {
            Some(c) => c.text() + "\n Modified: "@ + spec_decimal(self.timestamps[i] as nat)
                + "\n"@,
            None => Seq::empty(),
        }
    }

    /// The texts of the first `n` cells, one after the other.
    pub open spec fn text_of_first(self, n: nat) -> Seq<char>
        decreases n,
    {
        if n == 0 {
            Seq::empty()
        } else {
            self.text_of_first((n - 1) as nat) + self.cell_text(n - 1)
        }
    }

    /// The header as text: the texts of all its cells.
    pub open spec fn text(self) -> Seq<char> {
        self.text_of_first(self.chunks.len())
    }
}

/// The header of one container: 1024 cells, each empty or a chunk
/// descriptor, and 1024 timestamps.
#[derive(Debug)]
pub struct Header {
    chunks: Vec<Option<Chunk>>,
    timestamps: Vec<u32>,
}

impl View for Header {
    type V = HeaderView;

    closed spec fn view(&self) -> HeaderView {
        HeaderView { chunks: cell_views(self.chunks@), timestamps: self.timestamps@ }
    }
}

/// Walks the present cells of a header in ascending index order.
pub struct IterHeader<'a> {
    chunks: &'a Vec<Option<Chunk>>,
    index: usize,
}

impl<'a> IterHeader<'a> {
    /// The cells that are still to come.
    pub closed spec fn remaining(&self) -> Seq<ChunkView> {
        present_from(cell_views(self.chunks@), self.index as int)
    }

    /// The next present cell, or none when the walk is over.
    pub fn next(&mut self) -> (r: Option<&'a Chunk>)
        ensures
            match r {
                Some(c) => {
                    &&& old(self).remaining().len() > 0
                    &&& c@ == old(self).remaining()[0]
                    &&& final(self).remaining() == old(self).remaining().drop_first()
                },
                None => old(self).remaining().len() == 0 && final(self).remaining().len() == 0,
            },
    {
        while self.index < self.chunks.len()
            invariant
                self.chunks == old(self).chunks,
                self.remaining() == old(self).remaining(),
            decreases self.chunks@.len() - self.index,
        {
            let at: usize = self.index;
            self.index = at + 1;
            match &self.chunks[at] {
                Some(c) => {
                    proof {
                        let rest = present_from(cell_views(self.chunks@), at + 1);
                        assert((seq![c@] + rest).drop_first() =~= rest);
                    }
                    return Some(c);
                },
                None => {},
            }
        }
        None
    }
}

/// The first index at or after `from` at which `cells` holds a chunk, or the
/// length of `cells` when there is none.
pub open spec fn next_present(cells: Seq<Option<ChunkView>>, from: int) -> int
    decreases cells.len() - from,
{
    if from < 0 || from >= cells.len() {
        cells.len() as int
    } else if cells[from] is Some {
        from
    } else {
        next_present(cells, from + 1)
    }
}

/// Walks the present cells of a header in ascending index order and hands
/// each out for change. The walk holds the header for as long as it lasts.
pub struct IterHeaderMut<'a> {
    /// The header that is walked.
    pub header: &'a mut Header,
    /// Index at which the walk goes on.
    pub index: usize,
}

impl<'a> IterHeaderMut<'a> {
    /// The next present cell, or none when the walk is over.
    pub fn next(&mut self) -> (r: Option<&mut Chunk>)
        ensures
            *final(final(self).header) == *final(old(self).header),
            final(self).header@.timestamps == old(self).header@.timestamps,
            match r {
                Some(c) => {
                    let at = next_present(old(self).header@.chunks, old(self).index as int);
                    &&& old(self).index <= at < old(self).header@.chunks.len()
                    &&& old(self).header@.chunks[at] == Some(c@)
                    &&& final(self).header@.chunks == old(self).header@.chunks.update(
                        at,
                        Some(final(c)@),
                    )
                    &&& final(self).index == at + 1
                },
                None => {
                    &&& next_present(old(self).header@.chunks, old(self).index as int) == old(
                        self,
                    ).header@.chunks.len()
                    &&& final(self).header@ == old(self).header@
                },
            },
    {
        while self.index < self.header.chunks.len()
            invariant
                *self.header == *old(self).header,
                *final(self.header) == *final(old(self).header),
                old(self).index <= self.index,
                next_present(self.header@.chunks, self.index as int) == next_present(
                    old(self).header@.chunks,
                    old(self).index as int,
                ),
            decreases self.header.chunks@.len() - self.index,
        {
            let at: usize = self.index;
            self.index = at + 1;
            if self.header.chunks[at].is_some() {
                proof {
                    use_type_invariant(&*self.header);
                }
                return self.header.chunks[at].as_mut();
            }
        }
        None
    }
}

impl Header {
    #[verifier::type_invariant]
    spec fn well_formed(self) -> bool {
        self.chunks@.len() == 1024 && self.timestamps@.len() == 1024
    }

    /// Reads a container's header at the position of `src`: the location
    /// table, one descriptor or absence per grid index, then the timestamp
    /// table. A source that ends before both tables do gives no header.
    ///
    /// With `visit_chunks` the header of every present chunk is read as
    /// well. A chunk whose header cannot be read keeps its header unknown,
    /// and the others are still read.
    pub fn new(src: &mut ByteSource, visit_chunks: bool) -> (r: Option<Header>)
        ensures
            r is Some <==> old(src)@.has(8192),
            final(src)@ == HeaderView::source_after_parse(old(src)@, visit_chunks),
            match r {
                Some(h) => HeaderView::parse(old(src)@, visit_chunks) == Some(h@),
                None => HeaderView::parse(old(src)@, visit_chunks) is None,
            },
    {
        let ghost before = src@;
        let mut buffer: Vec<u32> = vec![0u32; GRID_CELLS];

        // Parse the locations first.
        if src.read_u32_into(&mut buffer).is_err() {
            return None;
        }
        // Create a descriptor for each chunk position and put them into the table.

        let mut chunks: Vec<Option<Chunk>> = Vec::new();
        let mut index: usize = 0;
        while index < GRID_CELLS
            invariant
                index <= 1024,
                buffer@.len() == 1024,
                chunks@.len() == index,
                forall|j: int|
                    0 <= j < 1024 ==> buffer@[j] == be_u32_at(
                        before.bytes,
                        before.position + 4 * j,
                    ),
                forall|j: int|
                    0 <= j < index ==> cell_view(#[trigger] chunks@[j]) == HeaderView::cell(
                        before,
                        j,
                        false,
                    ),
            decreases 1024 - index,
        {
            let at = grid_index_to_coords(index as u32);
            chunks.push(Chunk::new(at.x, at.z, buffer[index]));
            index += 1;
        }

        // Parse the timestamps second.
        if src.read_u32_into(&mut buffer).is_err() {
            return None;
        }
        if visit_chunks {
            let mut index: usize = 0;
            while index < GRID_CELLS
                invariant
                    index <= 1024,
                    chunks@.len() == 1024,
                    before.has(8192),
                    src@.bytes == before.bytes,
                    src@.position == HeaderView::eager_position(before, index as nat),
                    forall|j: int|
                        0 <= j < index ==> cell_view(#[trigger] chunks@[j]) == HeaderView::cell(
                            before,
                            j,
                            true,
                        ),
                    forall|j: int|
                        index <= j < 1024 ==> cell_view(#[trigger] chunks@[j]) == HeaderView::cell(
                            before,
                            j,
                            false,
                        ),
                decreases 1024 - index,
            {
                match chunks[index].as_mut() {
                    Some(c) => {
                        let _ = c.parse_chunk_header(src);
                    },
                    None => {},
                }
                index += 1;
            }
        }
        let header = Header { chunks, timestamps: buffer };
        proof {
            let expected = HeaderView::parse(before, visit_chunks)->0;
            assert(header@.chunks =~= expected.chunks);
            assert(header@.timestamps =~= expected.timestamps);
        }
        Some(header)
    }

    /// A walk over the present cells, from the first.
    pub fn iter<'a>(&'a self) -> (it: IterHeader<'a>)
        ensures
            it.remaining() == self@.present(),
    {
        IterHeader { chunks: &self.chunks, index: 0 }
    }

    /// The cell at grid index `index`: its chunk, or none for an empty cell
    /// and for an index outside the grid.
    pub fn chunk(&self, index: usize) -> (r: Option<&Chunk>)
        ensures
            self@.chunks.len() == 1024,
            match r {
                Some(c) => index < 1024 && self@.chunks[index as int] == Some(c@),
                None => index >= 1024 || self@.chunks[index as int] is None,
            },
    {
        proof {
            use_type_invariant(self);
        }
        if index < self.chunks.len() {
            self.chunks[index].as_ref()
        } else {
            None
        }
    }

    /// The timestamp of the cell at grid index `index`; none for an index
    /// outside the grid.
    pub fn timestamp(&self, index: usize) -> (r: Option<u32>)
        ensures
            self@.timestamps.len() == 1024,
            index < 1024 ==> r == Some(self@.timestamps[index as int]),
            index >= 1024 ==> r is None,
    {
        proof {
            use_type_invariant(self);
        }
        if index < self.timestamps.len() {
            Some(self.timestamps[index])
        } else {
            None
        }
    }

    /// The header as text: for each present cell, in index order, the
    /// chunk's text and a line with its timestamp.
    pub fn to_text(&self) -> (s: String)
        ensures
            s@ == self@.text(),
    {
        proof {
            use_type_invariant(self);
        }
        let mut s: String = String::new();
        let mut index: usize = 0;
        while index < self.chunks.len()
            invariant
                index <= self.chunks@.len(),
                self.chunks@.len() == self.timestamps@.len(),
                s@ == self@.text_of_first(index as nat),
            decreases self.chunks@.len() - index,
        {
            match &self.chunks[index] {
                Some(chunk) => {
                    let text: String = chunk.to_text();
                    s.append(text.as_str());
                    s.append("\n Modified: ");
                    push_decimal(&mut s, self.timestamps[index] as u64);
                    s.append("\n");
                },
                None => {},
            }
            index += 1;
            assert(s@ =~= self@.text_of_first(index as nat));
        }
        s
    }

    /// A walk over the present cells, from the first, that hands each out
    /// for change.
    pub fn iter_mut(&mut self) -> (it: IterHeaderMut<'_>)
        ensures
            *it.header == *old(self),
            it.index == 0,
            *final(self) == *final(it.header),
    {
        IterHeaderMut { header: self, index: 0 }
    }
}

/// Both walks go the same way: the present cells from `from` on are the cell
/// at the next index that holds one, then the present cells after it, and
/// none when no index from `from` on holds one.
pub proof fn lemma_present_from_starts_at_next_present(cells: Seq<Option<ChunkView>>, from: int)
    requires
        0 <= from,
    ensures
        from <= next_present(cells, from) <= cells.len() || from > cells.len(),
        next_present(cells, from) < cells.len() ==> cells[next_present(cells, from)] is Some
            && present_from(cells, from) == seq![cells[next_present(cells, from)]->0]
            + present_from(cells, next_present(cells, from) + 1),
        next_present(cells, from) >= cells.len() ==> present_from(cells, from) == Seq::<
            ChunkView,
        >::empty(),
    decreases cells.len() - from,
{
    if from < cells.len() && cells[from] is None {
        lemma_present_from_starts_at_next_present(cells, from + 1);
    }
}

/// A table whose cells from `from` on are all empty has no present cell
/// from there on.
pub proof fn lemma_present_from_empty(cells: Seq<Option<ChunkView>>, from: int)
    requires
        forall|i: int| from <= i < cells.len() ==> cells[i] is None,
    ensures
        present_from(cells, from) == Seq::<ChunkView>::empty(),
    decreases cells.len() - from,
{
    if 0 <= from < cells.len() {
        lemma_present_from_empty(cells, from + 1);
    }
}

/// An eager read over a location table of zero words reads no chunk header,
/// and so stays behind the two tables.
pub proof fn lemma_eager_position_of_zero_table(src: SourceView, n: nat)
    requires
        n <= 1024,
        forall|i: int| 0 <= i < 1024 ==> HeaderView::cell(src, i, false) is None,
    ensures
        HeaderView::eager_position(src, n) == src.position + 8192,
    decreases n,
{
    if n > 0 {
        lemma_eager_position_of_zero_table(src, (n - 1) as nat);
    }
}

/// A container whose location table is all zero bytes, as it is when the
/// first 8192 bytes are, has a header without a present cell: every cell is
/// empty, a walk over it yields nothing, and no chunk header is read.
pub proof fn lemma_zero_location_table_holds_no_chunk(src: SourceView, visit: bool)
    requires
        src.has(8192),
        forall|i: int| src.position <= i < src.position + 4096 ==> src.bytes[i] == 0,
    ensures
        HeaderView::parse(src, visit) matches Some(h) && h.present() == Seq::<ChunkView>::empty()
            && forall|i: int| 0 <= i < 1024 ==> h.chunks[i] is None,
        HeaderView::source_after_parse(src, visit) == src.at(src.position + 8192),
{
    let h = HeaderView::parse(src, visit)->0;
    assert forall|i: int| 0 <= i < 1024 implies HeaderView::cell(src, i, false) is None
        && h.chunks[i] is None by {
        assert(be_u32_at(src.bytes, src.position + 4 * i) == 0);
    }
    lemma_present_from_empty(h.chunks, 0);
    lemma_eager_position_of_zero_table(src, 1024);
}

} // verus!
