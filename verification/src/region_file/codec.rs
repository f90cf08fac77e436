//! Position codec: grid indices to coordinates, and the packed location word.

use crate::decimal::{push_decimal, spec_decimal};
use vstd::prelude::*;
use vstd::string::StringExecFns;

verus! {

/// Size in bytes of one sector, the unit in which a container addresses data.
pub const SECTOR_SIZE: u32 = 4096;

/// Number of cells along one side of the grid.
pub const GRID_SIDE: u32 = 32;

/// Number of cells in the grid, and of words in each of the two header tables.
pub const GRID_CELLS: usize = 1024;

/// Position of a cell in the grid.
#[derive(Clone, Copy, Debug, PartialEq, Eq, Structural)]
pub struct Coords {
    pub x: u32,
    pub z: u32,
}

impl Coords {
    /// The cell as text: `(X, Z) (x, z)`.
    pub open spec fn text(self) -> Seq<char> {
        "(X, Z) ("@ + spec_decimal(self.x as nat) + ", "@ + spec_decimal(self.z as nat) + ")"@
    }

    /// Appends the cell's text to `out`.
    pub fn push_text(&self, out: &mut String)
        ensures
            final(out)@ == old(out)@ + self.text(),
    {
        out.append("(X, Z) (");
        push_decimal(out, self.x as u64);
        out.append(", ");
        push_decimal(out, self.z as u64);
        out.append(")");
        assert(out@ =~= old(out)@ + self.text());
    }

    /// The cell as text.
    pub fn to_text(&self) -> (s: String)
        ensures
            s@ == self.text(),
    {
        let mut s: String = String::new();
        self.push_text(&mut s);
        assert(s@ =~= self.text());
        s
    }
}

/// The two fields packed into a nonzero location word.
#[derive(Clone, Copy, Debug, PartialEq, Eq, Structural)]
pub struct Location {
    /// Sector at which the chunk's data starts.
    pub offset: u32,
    /// Number of sectors set aside for the chunk.
    pub count: u8,
}

/// Coordinates of the cell with linear index `i`: `x = i mod 32`, `z = i div 32`.
pub open spec fn spec_grid_index_to_coords(i: u32) -> Coords {
    Coords { x: (i % 32) as u32, z: (i / 32) as u32 }
}

/// Linear index of the cell at `c`: `z * 32 + x`.
pub open spec fn spec_grid_index(c: Coords) -> int {
    c.z * 32 + c.x
}

/// What a location word stands for: nothing when it is zero, else the sector
/// offset in its high 24 bits and the sector count in its low 8 bits.
pub open spec fn spec_decode_location(word: u32) -> Option<Location> {
    if word == 0 {
        None
    } else {
        Some(Location { offset: (word >> 8) & 0xFF_FFFF, count: (word & 0xFF) as u8 })
    }
}

/// The location word of `loc`: `(offset << 8) | count`.
pub open spec fn spec_encode_location(loc: Location) -> u32 {
    (loc.offset << 8) | (loc.count as u32)
}

/// Maps a linear header index to its cell.
pub fn grid_index_to_coords(i: u32) -> (c: Coords)
    ensures
        c == spec_grid_index_to_coords(i),
        c.x == i % 32,
        c.z == i / 32,
{
    Coords { x: i % GRID_SIDE, z: i / GRID_SIDE }
}

/// Unpacks a location word.
pub fn decode_location(word: u32) -> (r: Option<Location>)
    ensures
        r == spec_decode_location(word),
{
    if word == 0 {
        None
    } else {
        let low: u32 = word & 0xFF;
        assert(low < 0x100) by (bit_vector)
            requires
                low == word & 0xFF,
        ;
        Some(Location { offset: (word >> 8) & 0xFF_FFFF, count: low as u8 })
    }
}

/// Packs a sector offset and a sector count into a location word.
pub fn encode_location(loc: Location) -> (word: u32)
    ensures
        word == spec_encode_location(loc),
{
    (loc.offset << 8) | (loc.count as u32)
}

/// Every index is recovered from its coordinates, and indices below 1024 land
/// inside the 32 x 32 grid.
pub proof fn lemma_grid_index_round_trip(i: u32)
    ensures
        spec_grid_index(spec_grid_index_to_coords(i)) == i,
        spec_grid_index_to_coords(i).x < 32,
        i < 1024 ==> spec_grid_index_to_coords(i).z < 32,
{
}

/// Every cell of the grid is the cell of its own index.
pub proof fn lemma_grid_coords_round_trip(c: Coords)
    requires
        c.x < 32,
        c.z < 32,
    ensures
        0 <= spec_grid_index(c) < 1024,
        spec_grid_index_to_coords(spec_grid_index(c) as u32) == c,
{
}

/// The fields of a location word are its quotient and remainder by 256.
pub proof fn lemma_decode_location_arith(word: u32)
    ensures
        (word >> 8) & 0xFF_FFFF == word / 256,
        word & 0xFF == word % 256,
{
    assert((word >> 8) & 0xFF_FFFF == word / 256) by (bit_vector);
    assert(word & 0xFF == word % 256) by (bit_vector);
}

/// Packing the fields of a nonzero word gives the word back.
pub proof fn lemma_encode_decode_location(word: u32)
    requires
        word != 0,
    ensures
        spec_decode_location(word) is Some,
        spec_encode_location(spec_decode_location(word)->0) == word,
{
    let offset: u32 = (word >> 8) & 0xFF_FFFF;
    let low: u32 = word & 0xFF;
    assert(low < 0x100) by (bit_vector)
        requires
            low == word & 0xFF,
    ;
    assert(((low as u8) as u32) == low);
    assert((offset << 8) | low == word) by (bit_vector)
        requires
            offset == (word >> 8) & 0xFF_FFFF,
            low == word & 0xFF,
    ;
}

/// Unpacking the word of a location gives the location back, as long as the
/// offset fits in 24 bits and the two fields are not both zero.
pub proof fn lemma_decode_encode_location(loc: Location)
    requires
        loc.offset <= 0xFF_FFFF,
        loc.offset != 0 || loc.count != 0,
    ensures
        spec_encode_location(loc) != 0,
        spec_decode_location(spec_encode_location(loc)) == Some(loc),
{
    let offset: u32 = loc.offset;
    let count: u32 = loc.count as u32;
    let word: u32 = (offset << 8) | count;
    assert(word != 0 && (word >> 8) & 0xFF_FFFF == offset && word & 0xFF == count)
        by (bit_vector)
        requires
            word == (offset << 8) | count,
            offset <= 0xFF_FFFF,
            count <= 0xFF,
            offset != 0 || count != 0,
    ;
    assert((count as u8) == loc.count);
}

} // verus!
