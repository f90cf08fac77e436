//! Chunk descriptors: where a chunk lies in its container, and what its
//! header says once it has been read.

use crate::region_file::codec::{decode_location, spec_decode_location, Coords, SECTOR_SIZE};
use crate::region_file::decode::{
    decode_document, document_decodes, document_unsound, CompressionType,
};
use crate::region_file::error::RegionError;
use crate::region_file::source::{be_u32_at, ByteSource, SourceView};
use crate::decimal::{push_decimal, spec_decimal};
use vstd::prelude::*;
use vstd::string::StringExecFns;

verus! {

/// What the five bytes at the start of a chunk's data say.
#[derive(Clone, Copy, Debug, PartialEq, Eq)]
pub struct ChunkHeader {
    /// Exact length of the payload in bytes.
    pub byte_count: u32,
    /// Compression of the payload; none when the discriminator is not known.
    pub compression_type: Option<CompressionType>,
}

/// A chunk descriptor as a plain value.
pub struct ChunkView {
    /// Position of the chunk in the grid.
    pub location: Coords,
    /// Sector at which the chunk's data starts.
    pub offset: u32,
    /// Number of sectors set aside for the chunk.
    pub sector_count: u8,
    /// The parsed header; none until a header read succeeds.
    pub header: Option<ChunkHeader>,
}

impl ChunkView {
    /// The descriptor for the cell at `(x, z)` with location word `word`:
    /// none for the zero word, else one whose header is not yet known.
    pub open spec fn fresh(x: u32, z: u32, word: u32) -> Option<ChunkView> {
        match spec_decode_location(word) {
            None => None,
            Some(loc) => Some(
                ChunkView {
                    location: Coords { x, z },
                    offset: loc.offset,
                    sector_count: loc.count,
                    header: None,
                },
            ),
        }
    }

    /// Byte at which the chunk's data, and so its header, starts.
    pub open spec fn data_start(self) -> nat {
        self.offset as nat * 4096
    }

    /// Byte at which the chunk's payload starts: past the four bytes of the
    /// length and the discriminator byte.
    pub open spec fn payload_start(self) -> nat {
        self.data_start() + 5
    }

    /// The payload length, once known.
    pub open spec fn byte_count(self) -> Option<u32> {
        match self.header {
            Some(h) => Some(h.byte_count),
            None => None,
        }
    }

    /// The compression kind, once known.
    pub open spec fn compression_type(self) -> Option<CompressionType> {
        match self.header {
            Some(h) => h.compression_type,
            None => None,
        }
    }

    /// The header that `data` holds for this chunk; none when `data` ends
    /// before the header does.
    pub open spec fn header_in(self, data: Seq<u8>) -> Option<ChunkHeader> {
        let at = self.data_start() as int;
        if at + 5 <= data.len() {
            Some(
                ChunkHeader {
                    byte_count: be_u32_at(data, at),
                    compression_type: CompressionType::spec_from_discriminator(data[at + 4]),
                },
            )
        } else {
            None
        }
    }

    /// The descriptor after a header read on `data`: with the header found
    /// there, or unchanged when there is none.
    pub open spec fn after_header_read(self, data: Seq<u8>) -> ChunkView {
        match self.header_in(data) {
            Some(h) => ChunkView { header: Some(h), ..self },
            None => self,
        }
    }

    /// The source over `data` after a header read: past whatever part of the
    /// header could be read.
    pub open spec fn source_after_header_read(self, data: Seq<u8>) -> SourceView {
        let at = self.data_start();
        let read: nat = if at + 5 <= data.len() {
            5
        } else if at + 4 <= data.len() {
            4
        } else {
            0
        };
        SourceView { bytes: data, position: at + read }
    }

    /// The bytes of `data` from the start of the payload to the end.
    pub open spec fn payload(self, data: Seq<u8>) -> Seq<u8> {
        SourceView { bytes: data, position: self.payload_start() }.remaining()
    }

    /// The descriptor after its payload length was asked for: a header read
    /// is made only when the length is not known and there is a source.
    pub open spec fn after_byte_count(self, src: Option<SourceView>) -> ChunkView {
        if self.header is None && src is Some {
            self.after_header_read(src->0.bytes)
        } else {
            self
        }
    }

    /// The source `src` after it was handed over with a request for the
    /// payload length: untouched when the length was known.
    pub open spec fn source_after_byte_count(self, src: SourceView) -> SourceView {
        if self.header is None {
            self.source_after_header_read(src.bytes)
        } else {
            src
        }
    }

    /// The error with which a load is refused before any byte is decoded;
    /// none when the header names a known compression.
    pub open spec fn load_refusal(self) -> Option<RegionError> {
        match self.header {
            None => Some(RegionError::HeaderNotParsed),
            Some(h) => match h.compression_type {
                None => Some(RegionError::UnknownCompression),
                Some(_) => None,
            },
        }
    }

    /// What the header says, as text. The name of a compression that is not
    /// known is left empty.
    pub open spec fn header_text(self) -> Seq<char> {
        match self.header {
            Some(h) => "Has "@ + spec_decimal(h.byte_count as nat) + " bytes of "@ + (
            match h.compression_type {
                Some(kind) => kind.spec_name(),
                None => Seq::empty(),
            }) + " compressed data"@,
            None => "Hasn't been processed"@,
        }
    }

    /// The descriptor as text, on three lines.
    pub open spec fn text(self) -> Seq<char> {
        "Chunk at: "@ + self.location.text() + "\n Uses: "@ + spec_decimal(
            self.sector_count as nat,
        ) + " sectors at: "@ + spec_decimal(self.offset as nat) + "\n "@ + self.header_text()
    }
}

/// One present cell of a container's grid.
#[derive(Debug)]
pub struct Chunk {
    // Chunk coordinates, relative to the region.
    location: Coords,
    // Offset in sectors of the chunk's data in the region file.
    offset: u32,
    // Length of the chunk's data in sectors.
    sector_count: u8,
    // Length and compression of the payload, read from the chunk's header.
    header: Option<ChunkHeader>,
}

impl View for Chunk {
    type V = ChunkView;

    closed spec fn view(&self) -> ChunkView {
        ChunkView {
            location: self.location,
            offset: self.offset,
            sector_count: self.sector_count,
            header: self.header,
        }
    }
}

impl Chunk {
    /// The descriptor for the cell at `(x, z)` whose location word is `val`.
    /// The zero word means that the cell is empty, and gives no descriptor.
    pub fn new(x: u32, z: u32, val: u32) -> (r: Option<Chunk>)
        ensures
            val == 0 <==> r is None,
            match r {
                Some(c) => ChunkView::fresh(x, z, val) == Some(c@),
                None => ChunkView::fresh(x, z, val) is None,
            },
    {
        match decode_location(val) {
            None => None,
            Some(loc) => Some(
                Chunk {
                    location: Coords { x, z },
                    offset: loc.offset,
                    sector_count: loc.count,
                    header: None,
                },
            ),
        }
    }

    /// Byte at which the chunk's data starts.
    fn data_start(&self) -> (at: u64)
        ensures
            at == self@.data_start(),
            at <= 0xFFFF_FFFF * 4096,
    {
        let sector: u64 = SECTOR_SIZE as u64;
        assert(sector == 4096);
        self.offset as u64 * sector
    }

    /// Reads the chunk's header: seeks to the start of its data, then reads
    /// the payload length and the discriminator byte. When the source ends
    /// before both are read, the call fails and the descriptor stays as it
    /// was; otherwise the header just read replaces whatever was known.
    pub fn parse_chunk_header(&mut self, src: &mut ByteSource) -> (r: Result<(), RegionError>)
        ensures
            r is Ok <==> old(self)@.header_in(old(src)@.bytes) is Some,
            r is Err ==> r == Err::<(), RegionError>(RegionError::Io),
            final(self)@ == old(self)@.after_header_read(old(src)@.bytes),
            final(src)@ == old(self)@.source_after_header_read(old(src)@.bytes),
    {
        src.seek(self.data_start());
        let byte_count: u32 = match src.read_u32() {
            Ok(n) => n,
            Err(e) => {
                return Err(e);
            },
        };
        let discriminator: u8 = match src.read_u8() {
            Ok(d) => d,
            Err(e) => {
                return Err(e);
            },
        };
        self.header = Some(
            ChunkHeader {
                byte_count,
                compression_type: CompressionType::from_discriminator(discriminator),
            },
        );
        Ok(())
    }

    /// The payload length in bytes. A length that is already known is
    /// returned without touching the source. Otherwise, given a source, the
    /// header is read from it, and the length is what that read found.
    pub fn get_byte_count(&mut self, src: Option<&mut ByteSource>) -> (r: Option<u32>)
        ensures
            final(self)@ == old(self)@.after_byte_count(
                match src {
                    Some(s) => Some(s@),
                    None => None,
                },
            ),
            src matches Some(s) ==> final(s)@ == old(self)@.source_after_byte_count(s@),
            r == final(self)@.byte_count(),
    {
        match self.header {
            Some(h) => Some(h.byte_count),
            None => match src {
                Some(s) => {
                    if self.parse_chunk_header(s).is_err() {
                        return None;
                    }
                    match self.header {
                        Some(h) => Some(h.byte_count),
                        None => None,
                    }
                },
                None => None,
            },
        }
    }

    /// Loads the chunk's document. The header must have been read: before
    /// that the call fails at once and leaves the source alone. Otherwise it
    /// seeks to the start of the payload and hands the bytes from there to
    /// the end of the source to the transform that the compression kind
    /// selects. The payload has to inflate whole; a document in it that is
    /// not sound is refused, and any other is decoded. The position stays at
    /// the start of the payload.
    pub fn parse_nbt(&self, src: &mut ByteSource) -> (r: Result<nbt::Blob, RegionError>)
        ensures
            self@.load_refusal() matches Some(e) ==> r == Err::<nbt::Blob, RegionError>(e),
            self@.header is None ==> final(src)@ == old(src)@,
            self@.header is Some ==> final(src)@ == old(src)@.at(self@.payload_start()),
            self@.compression_type() matches Some(kind) ==> {
                &&& r is Ok <==> document_decodes(kind, self@.payload(old(src)@.bytes))
                &&& document_unsound(kind, self@.payload(old(src)@.bytes)) ==> r == Err::<
                    nbt::Blob,
                    RegionError,
                >(RegionError::UnsoundDocument)
                &&& !document_unsound(kind, self@.payload(old(src)@.bytes)) ==> (r matches Err(e)
                    ==> e is Decode)
            },
    {
        match self.header {
            None => Err(RegionError::HeaderNotParsed),
            Some(h) => {
                // Chunk data starts at the sector offset times the sector
                // size, after the four byte length and the compression byte.
                src.seek(self.data_start() + 5);
                decode_document(h.compression_type, src.remaining())
            },
        }
    }

    /// The descriptor as text: where it is, the sectors it uses, and what
    /// its header says or that it was not read.
    pub fn to_text(&self) -> (s: String)
        ensures
            s@ == self@.text(),
    {
        let mut s: String = String::from_str("Chunk at: ");
        self.location.push_text(&mut s);
        s.append("\n Uses: ");
        push_decimal(&mut s, self.sector_count as u64);
        s.append(" sectors at: ");
        push_decimal(&mut s, self.offset as u64);
        s.append("\n ");
        match self.header {
            Some(h) => {
                s.append("Has ");
                push_decimal(&mut s, h.byte_count as u64);
                s.append(" bytes of ");
                match h.compression_type {
                    Some(kind) => {
                        s.append(kind.name());
                    },
                    None => {},
                }
                s.append(" compressed data");
            },
            None => {
                s.append("Hasn't been processed");
            },
        }
        assert(s@ =~= self@.text());
        s
    }

    /// Position of the chunk in the grid.
    pub fn coords(&self) -> (c: Coords)
        ensures
            c == self@.location,
    {
        self.location
    }

    /// Sector at which the chunk's data starts.
    pub fn offset(&self) -> (offset: u32)
        ensures
            offset == self@.offset,
    {
        self.offset
    }

    /// Number of sectors set aside for the chunk.
    pub fn sector_count(&self) -> (count: u8)
        ensures
            count == self@.sector_count,
    {
        self.sector_count
    }

    /// The payload length, once the header has been read.
    pub fn byte_count(&self) -> (count: Option<u32>)
        ensures
            count == self@.byte_count(),
    {
        match self.header {
            Some(h) => Some(h.byte_count),
            None => None,
        }
    }

    /// The compression kind, once the header has been read and if its
    /// discriminator is known.
    pub fn compression_type(&self) -> (kind: Option<CompressionType>)
        ensures
            kind == self@.compression_type(),
    {
        match self.header {
            Some(h) => h.compression_type,
            None => None,
        }
    }
}

/// A descriptor made from a nonzero location word knows neither its payload
/// length nor its compression, and refuses a load as made too early.
pub proof fn lemma_fresh_chunk_knows_no_header(x: u32, z: u32, word: u32)
    requires
        word != 0,
    ensures
        ChunkView::fresh(x, z, word) matches Some(c) && c.byte_count() is None
            && c.compression_type() is None && c.load_refusal() == Some(
            RegionError::HeaderNotParsed,
        ),
{
}

/// The payload length and the compression become known by a header read
/// that succeeds and by no other: a read that fails leaves them unknown, and
/// the compression is never known without the length.
pub proof fn lemma_header_known_by_successful_read_only(c: ChunkView, data: Seq<u8>)
    requires
        c.header is None,
    ensures
        c.after_header_read(data).byte_count() is Some <==> c.header_in(data) is Some,
        c.after_header_read(data).compression_type() is Some ==> c.header_in(data) is Some,
        c.header_in(data) is None ==> c.after_header_read(data) == c,
{
}

/// Of two requests for the payload length in a row, the second makes no
/// header read when the first has found the length: it leaves the descriptor
/// and its own source as they are, and returns the same length.
pub proof fn lemma_byte_count_read_at_most_once(
    c: ChunkView,
    first: SourceView,
    second: SourceView,
)
    requires
        c.after_byte_count(Some(first)).byte_count() is Some,
    ensures
        ({
            let known = c.after_byte_count(Some(first));
            &&& known.after_byte_count(Some(second)) == known
            &&& known.source_after_byte_count(second) == second
        }),
{
}

/// The discriminator byte of a header selects the compression: 1 is gzip, 2
/// is zlib. After a read that finds any other byte the compression is not
/// known, and a load is refused for that reason.
pub proof fn lemma_discriminator_selects_compression(c: ChunkView, data: Seq<u8>)
    requires
        c.header_in(data) is Some,
    ensures
        ({
            let byte = data[c.data_start() as int + 4];
            let read = c.after_header_read(data);
            &&& byte == 1 ==> read.compression_type() == Some(CompressionType::Gzip)
            &&& byte == 2 ==> read.compression_type() == Some(CompressionType::Zlib)
            &&& byte != 1 && byte != 2 ==> read.compression_type() is None && read.load_refusal()
                == Some(RegionError::UnknownCompression)
            &&& read.byte_count() == Some(be_u32_at(data, c.data_start() as int))
        }),
{
}

} // verus!
