//! A scan of a plain document before it is handed to the document decoder.
//!
//! The decoder sets up its buffers by the lengths that a document declares,
//! before it reads the items, and goes one call deeper for each list and
//! compound. The scan walks a document as the decoder reads it and tells
//! whether it declares a length that is negative or larger than the bytes
//! that follow it, or nests deeper than `MAX_DEPTH`.

use crate::region_file::source::{be_u32, be_u32_at};
use vstd::prelude::*;
use vstd::slice::slice_subrange;

verus! {

/// Deepest nesting of lists and compounds inside the root compound.
pub const MAX_DEPTH: u32 = 512;

/// What the scan of a value, or of a run of values, finds.
#[derive(Clone, Copy, Debug, PartialEq, Eq, Structural)]
pub enum Scan {
    /// The values are whole, and end before this byte.
    Ends(usize),
    /// The bytes end early or hold a tag that is none: reading stops there
    /// with an error, before any unsound length.
    Rejected,
    /// A declared length is negative or larger than the bytes that follow
    /// it, or the nesting is too deep.
    Unsound,
}

/// The two bytes of `data` at `at` as an integer, most significant first.
pub open spec fn be_u16_at(data: Seq<u8>, at: int) -> int {
    data[at] * 256 + data[at + 1]
}

/// Where the string at `at` ends: it is a two-byte length and that many
/// bytes. None when `data` ends before the string does.
pub open spec fn string_end(data: Seq<u8>, at: int) -> Option<int> {
    if at + 2 <= data.len() && at + 2 + be_u16_at(data, at) <= data.len() {
        Some(at + 2 + be_u16_at(data, at))
    } else {
        None
    }
}

/// Number of bytes of a number with tag 1 to 6.
pub open spec fn number_size(tag: u8) -> int {
    if tag == 1 {
        1
    } else if tag == 2 {
        2
    } else if tag == 3 || tag == 5 {
        4
    } else {
        8
    }
}

/// Number of bytes of one item of an array with tag 7, 11 or 12.
pub open spec fn item_size(tag: u8) -> int {
    if tag == 7 {
        1
    } else if tag == 11 {
        4
    } else {
        8
    }
}

/// Whether a length declared as `declared`, read as a signed 32-bit number,
/// is negative or larger than `rest`, the number of bytes that follow it.
pub open spec fn unsound_length(declared: u32, rest: int) -> bool {
    declared >= 0x8000_0000 || declared > rest
}

/// The scan of the value with tag `tag` whose payload starts at `at`, with
/// `budget` more levels of nesting allowed inside it.
pub open spec fn scan_value(data: Seq<u8>, at: int, tag: u8, budget: nat) -> Scan
    decreases budget, 0nat,
{
    if 1 <= tag <= 6 {
        if at + number_size(tag) <= data.len() {
            Scan::Ends((at + number_size(tag)) as usize)
        } else {
            Scan::Rejected
        }
    } else if tag == 7 || tag == 11 || tag == 12 {
        if at + 4 > data.len() {
            Scan::Rejected
        } else if unsound_length(be_u32_at(data, at), data.len() - (at + 4)) {
            Scan::Unsound
        } else if at + 4 + be_u32_at(data, at) * item_size(tag) > data.len() {
            Scan::Rejected
        } else {
            Scan::Ends((at + 4 + be_u32_at(data, at) * item_size(tag)) as usize)
        }
    } else if tag == 8 {
        match string_end(data, at) {
            Some(end) => Scan::Ends(end as usize),
            None => Scan::Rejected,
        }
    } else if tag == 9 {
        if at + 5 > data.len() {
            Scan::Rejected
        } else if unsound_length(be_u32_at(data, at + 1), data.len() - (at + 5)) {
            Scan::Unsound
        } else if be_u32_at(data, at + 1) == 0 {
            Scan::Ends((at + 5) as usize)
        } else if budget == 0 {
            Scan::Unsound
        } else {
            scan_items(
                data,
                at + 5,
                data[at],
                be_u32_at(data, at + 1) as nat,
                (budget - 1) as nat,
            )
        }
    } else if tag == 10 {
        if budget == 0 {
            Scan::Unsound
        } else {
            scan_members(data, at, (budget - 1) as nat)
        }
    } else {
        Scan::Rejected
    }
}

/// The scan of `count` values with tag `tag`, one after the other from `at`:
/// the items of a list.
pub open spec fn scan_items(data: Seq<u8>, at: int, tag: u8, count: nat, budget: nat) -> Scan
    decreases budget, count + 1,
{
    if count == 0 {
        Scan::Ends(at as usize)
    } else {
        match scan_value(data, at, tag, budget) {
            Scan::Ends(next) => scan_items(data, next as int, tag, (count - 1) as nat, budget),
            other => other,
        }
    }
}

/// The scan of the members of a compound from `at`: each is a tag byte, a
/// name and a value, and a zero tag byte ends the compound.
pub open spec fn scan_members(data: Seq<u8>, at: int, budget: nat) -> Scan
    decreases budget, data.len() - at + 1,
{
    if at < 0 || at >= data.len() {
        Scan::Rejected
    } else if data[at] == 0 {
        Scan::Ends((at + 1) as usize)
    } else {
        match string_end(data, at + 1) {
            None => Scan::Rejected,
            Some(named) => match scan_value(data, named, data[at], budget) {
                Scan::Ends(next) => if at < next <= data.len() {
                    scan_members(data, next as int, budget)
                } else {
                    Scan::Rejected
                },
                other => other,
            },
        }
    }
}

/// The scan of a whole document: the tag byte of a compound, its name, and
/// its members. Bytes after the root compound are not looked at.
pub open spec fn scan_document(data: Seq<u8>) -> Scan {
    if data.len() == 0 || data[0] != 10 {
        Scan::Rejected
    } else {
        match string_end(data, 1) {
            None => Scan::Rejected,
            Some(named) => scan_members(data, named, 512),
        }
    }
}

/// Whether a document is sound: on the way on which it is read, up to the
/// end of its root compound or to the first error, no declared length is
/// negative or larger than the bytes that follow it, and no list or compound
/// lies deeper than `MAX_DEPTH`.
pub open spec fn sound_document(data: Seq<u8>) -> bool {
    scan_document(data) != Scan::Unsound
}

/// Finds the end of the string at `at`.
fn string_end_at(data: &[u8], at: usize) -> (r: Option<usize>)
    requires
        at <= data@.len(),
    ensures
        match r {
            Some(end) => string_end(data@, at as int) == Some(end as int) && at + 2 <= end
                <= data@.len(),
            None => string_end(data@, at as int) is None,
        },
{
    let left: usize = data.len() - at;
    if left < 2 {
        return None;
    }
    let length: usize = data[at] as usize * 256 + data[at + 1] as usize;
    if left - 2 < length {
        None
    } else {
        Some(at + 2 + length)
    }
}

/// Scans the value with tag `tag` whose payload starts at `at`.
fn scan_value_at(data: &[u8], at: usize, tag: u8, budget: u32) -> (r: Scan)
    requires
        at <= data@.len(),
    ensures
        r == scan_value(data@, at as int, tag, budget as nat),
        r matches Scan::Ends(next) ==> at <= next <= data@.len(),
    decreases budget, 0nat,
{
    let left: usize = data.len() - at;
    if 1 <= tag && tag <= 6 {
        let size: usize = if tag == 1 {
            1
        } else if tag == 2 {
            2
        } else if tag == 3 || tag == 5 {
            4
        } else {
            8
        };
        if left >= size {
            Scan::Ends(at + size)
        } else {
            Scan::Rejected
        }
    } else if tag == 7 || tag == 11 || tag == 12 {
        if left < 4 {
            return Scan::Rejected;
        }
        let declared: u32 = be_u32(slice_subrange(data, at, at + 4));
        assert(declared == be_u32_at(data@, at as int));
        let rest: usize = left - 4;
        if declared >= 0x8000_0000 || declared as u64 > rest as u64 {
            return Scan::Unsound;
        }
        let count: usize = declared as usize;
        if tag == 7 {
            Scan::Ends(at + 4 + count)
        } else if tag == 11 {
            if count > rest / 4 {
                Scan::Rejected
            } else {
                Scan::Ends(at + 4 + count * 4)
            }
        } else {
            if count > rest / 8 {
                Scan::Rejected
            } else {
                Scan::Ends(at + 4 + count * 8)
            }
        }
    } else if tag == 8 {
        match string_end_at(data, at) {
            Some(end) => Scan::Ends(end),
            None => Scan::Rejected,
        }
    } else if tag == 9 {
        if left < 5 {
            return Scan::Rejected;
        }
        let item_tag: u8 = data[at];
        let declared: u32 = be_u32(slice_subrange(data, at + 1, at + 5));
        assert(declared == be_u32_at(data@, at + 1));
        let rest: usize = left - 5;
        if declared >= 0x8000_0000 || declared as u64 > rest as u64 {
            return Scan::Unsound;
        }
        if declared == 0 {
            return Scan::Ends(at + 5);
        }
        if budget == 0 {
            return Scan::Unsound;
        }
        scan_items_at(data, at + 5, item_tag, declared as usize, budget - 1)
    } else if tag == 10 {
        if budget == 0 {
            Scan::Unsound
        } else {
            scan_members_at(data, at, budget - 1)
        }
    } else {
        Scan::Rejected
    }
}

/// Scans the `count` items of a list from `at`.
fn scan_items_at(data: &[u8], at: usize, tag: u8, count: usize, budget: u32) -> (r: Scan)
    requires
        at <= data@.len(),
    ensures
        r == scan_items(data@, at as int, tag, count as nat, budget as nat),
        r matches Scan::Ends(next) ==> at <= next <= data@.len(),
    decreases budget, 1nat,
{
    let mut pos: usize = at;
    let mut left: usize = count;
    while left > 0
        invariant
            at <= pos <= data@.len(),
            scan_items(data@, pos as int, tag, left as nat, budget as nat) == scan_items(
                data@,
                at as int,
                tag,
                count as nat,
                budget as nat,
            ),
        decreases left,
    {
        match scan_value_at(data, pos, tag, budget) {
            Scan::Ends(next) => {
                pos = next;
                left = left - 1;
            },
            Scan::Rejected => {
                return Scan::Rejected;
            },
            Scan::Unsound => {
                return Scan::Unsound;
            },
        }
    }
    Scan::Ends(pos)
}

/// Scans the members of a compound from `at`.
fn scan_members_at(data: &[u8], at: usize, budget: u32) -> (r: Scan)
    requires
        at <= data@.len(),
    ensures
        r == scan_members(data@, at as int, budget as nat),
        r matches Scan::Ends(next) ==> at <= next <= data@.len(),
    decreases budget, 1nat,
{
    let mut pos: usize = at;
    while pos < data.len()
        invariant
            at <= pos <= data@.len(),
            scan_members(data@, pos as int, budget as nat) == scan_members(
                data@,
                at as int,
                budget as nat,
            ),
        decreases data@.len() - pos,
    {
        let tag: u8 = data[pos];
        if tag == 0 {
            return Scan::Ends(pos + 1);
        }
        let named: usize = match string_end_at(data, pos + 1) {
            Some(end) => end,
            None => {
                return Scan::Rejected;
            },
        };
        match scan_value_at(data, named, tag, budget) {
            Scan::Ends(next) => {
                pos = next;
            },
            Scan::Rejected => {
                return Scan::Rejected;
            },
            Scan::Unsound => {
                return Scan::Unsound;
            },
        }
    }
    Scan::Rejected
}

/// Scans a whole document.
pub fn scan_document_at(data: &[u8]) -> (r: Scan)
    ensures
        r == scan_document(data@),
        r matches Scan::Ends(next) ==> next <= data@.len(),
{
    if data.len() == 0 || data[0] != 10 {
        return Scan::Rejected;
    }
    match string_end_at(data, 1) {
        None => Scan::Rejected,
        Some(named) => scan_members_at(data, named, MAX_DEPTH),
    }
}

/// Tells whether a document is sound.
pub fn document_is_sound(data: &[u8]) -> (b: bool)
    ensures
        b == sound_document(data@),
{
    match scan_document_at(data) {
        Scan::Unsound => false,
        _ => true,
    }
}

} // verus!
