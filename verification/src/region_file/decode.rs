//! Decompression dispatch: from a compression kind and a payload to a
//! document. The payload is inflated under the framing that the kind selects,
//! the plain bytes are scanned, and a sound document goes to the document
//! decoder.

use crate::region_file::error::RegionError;
use crate::region_file::scan::{document_is_sound, sound_document};
use std::io::Read;
use vstd::prelude::*;

verus! {

#[verifier::external_type_specification]
#[verifier::external_body]
pub struct ExDocument(nbt::Blob);

/// How a chunk's payload is compressed.
#[derive(Clone, Copy, Debug, PartialEq, Eq, Structural)]
pub enum CompressionType {
    Gzip,
    Zlib,
}

impl CompressionType {
    /// The kind that a header's discriminator byte selects: 1 is gzip, 2 is
    /// zlib, and no other byte selects any.
    pub open spec fn spec_from_discriminator(byte: u8) -> Option<CompressionType> {
        if byte == 1 {
            Some(CompressionType::Gzip)
        } else if byte == 2 {
            Some(CompressionType::Zlib)
        } else {
            None
        }
    }

    /// Reads a header's discriminator byte.
    pub fn from_discriminator(byte: u8) -> (kind: Option<CompressionType>)
        ensures
            kind == Self::spec_from_discriminator(byte),
    {
        if byte == 1 {
            Some(CompressionType::Gzip)
        } else if byte == 2 {
            Some(CompressionType::Zlib)
        } else {
            None
        }
    }

    /// The discriminator byte that selects this kind.
    pub fn discriminator(&self) -> (byte: u8)
        ensures
            Self::spec_from_discriminator(byte) == Some(*self),
    {
        match self {
            CompressionType::Gzip => 1,
            CompressionType::Zlib => 2,
        }
    }

    /// The kind's name in upper case.
    pub open spec fn spec_name(self) -> Seq<char> {
        match self {
            CompressionType::Gzip => "GZIP"@,
            CompressionType::Zlib => "ZLIB"@,
        }
    }

    /// The kind's name in upper case: `GZIP` or `ZLIB`.
    pub fn name(&self) -> (s: &'static str)
        ensures
            s@ == self.spec_name(),
    {
        match self {
            CompressionType::Gzip => "GZIP",
            CompressionType::Zlib => "ZLIB",
        }
    }
}

/// The bytes that the gzip stream `bytes` inflates to; none when `bytes` is
/// no whole gzip stream.
pub uninterp spec fn gzip_inflated(bytes: Seq<u8>) -> Option<Seq<u8>>;

/// The bytes that the zlib stream `bytes` inflates to; none when `bytes` is
/// no whole zlib stream.
pub uninterp spec fn zlib_inflated(bytes: Seq<u8>) -> Option<Seq<u8>>;

/// Whether the document decoder finds a document in the plain bytes `raw`.
pub uninterp spec fn plain_document_decodes(raw: Seq<u8>) -> bool;

/// The bytes that `bytes` inflates to under the framing of `kind`.
pub open spec fn inflated(kind: CompressionType, bytes: Seq<u8>) -> Option<Seq<u8>> {
    match kind {
        CompressionType::Gzip => gzip_inflated(bytes),
        CompressionType::Zlib => zlib_inflated(bytes),
    }
}

/// Whether `bytes` inflates, under the framing of `kind`, to a document
/// that is not sound.
pub open spec fn document_unsound(kind: CompressionType, bytes: Seq<u8>) -> bool {
    inflated(kind, bytes) matches Some(raw) && !sound_document(raw)
}

/// Whether `bytes` holds a document under the framing of `kind`: it
/// inflates to a sound document that the decoder accepts.
pub open spec fn document_decodes(kind: CompressionType, bytes: Seq<u8>) -> bool {
    inflated(kind, bytes) matches Some(raw) && sound_document(raw) && plain_document_decodes(raw)
}

/// `flate2::read::GzDecoder` over `bytes`, read to its end. What comes out
/// depends on the bytes alone. An error of the stream is turned into the
/// document decoder's error by `nbt::Error::from`, as the decoder does with
/// the errors of its reader.
#[verifier::external_body]
fn inflate_gzip(bytes: &[u8]) -> (r: Result<Vec<u8>, nbt::Error>)
    ensures
        r matches Ok(raw) ==> gzip_inflated(bytes@) == Some(raw@),
        r is Err ==> gzip_inflated(bytes@) is None,
{
    let mut raw: Vec<u8> = Vec::new();
    match flate2::read::GzDecoder::new(bytes).read_to_end(&mut raw) {
        Ok(_) => Ok(raw),
        Err(e) => Err(nbt::Error::from(e)),
    }
}

/// `flate2::read::ZlibDecoder` over `bytes`, read to its end. What comes out
/// depends on the bytes alone. An error of the stream is turned into the
/// document decoder's error by `nbt::Error::from`, as the decoder does with
/// the errors of its reader.
#[verifier::external_body]
fn inflate_zlib(bytes: &[u8]) -> (r: Result<Vec<u8>, nbt::Error>)
    ensures
        r matches Ok(raw) ==> zlib_inflated(bytes@) == Some(raw@),
        r is Err ==> zlib_inflated(bytes@) is None,
{
    let mut raw: Vec<u8> = Vec::new();
    match flate2::read::ZlibDecoder::new(bytes).read_to_end(&mut raw) {
        Ok(_) => Ok(raw),
        Err(e) => Err(nbt::Error::from(e)),
    }
}

/// `nbt::Blob::from_reader` on a reader over `raw`. Nothing is claimed of
/// the document that comes back, only that whether one comes back depends
/// on the bytes alone. The decoder reserves room for as many items as an
/// array or a list declares and calls itself for each list and compound: it
/// is called on sound documents only, where no such length is negative or
/// larger than the document and the nesting is bounded.
#[verifier::external_body]
fn blob_from_plain(raw: &[u8]) -> (r: Result<nbt::Blob, nbt::Error>)
    requires
        sound_document(raw@),
    ensures
        r is Ok <==> plain_document_decodes(raw@),
{
    let mut reader = raw;
    nbt::Blob::from_reader(&mut reader)
}

/// What a load returns for what the decoder returned: the document as it is,
/// or the decoder's error, kept whole, as a decode failure.
pub fn document_outcome(decoded: Result<nbt::Blob, nbt::Error>) -> (r: Result<
    nbt::Blob,
    RegionError,
>)
    ensures
        decoded matches Ok(blob) ==> r == Ok::<nbt::Blob, RegionError>(blob),
        decoded matches Err(e) ==> r == Err::<nbt::Blob, RegionError>(RegionError::Decode(e)),
{
    match decoded {
        Ok(blob) => Ok(blob),
        Err(e) => Err(RegionError::Decode(e)),
    }
}

/// Decodes the plain bytes of a document. A document that is not sound is
/// refused without being handed to the decoder.
pub fn decode_plain_document(raw: &[u8]) -> (r: Result<nbt::Blob, RegionError>)
    ensures
        !sound_document(raw@) ==> r == Err::<nbt::Blob, RegionError>(RegionError::UnsoundDocument),
        sound_document(raw@) ==> {
            &&& r is Ok <==> plain_document_decodes(raw@)
            &&& r matches Err(e) ==> e is Decode
        },
{
    if document_is_sound(raw) {
        document_outcome(blob_from_plain(raw))
    } else {
        Err(RegionError::UnsoundDocument)
    }
}

/// Decodes `bytes` with the transform that `kind` selects: the bytes are
/// inflated under that framing, and what comes out is decoded as a plain
/// document. Without a kind there is no transform to select, and the bytes
/// are not looked at.
pub fn decode_document(kind: Option<CompressionType>, bytes: &[u8]) -> (r: Result<
    nbt::Blob,
    RegionError,
>)
    ensures
        kind is None ==> r == Err::<nbt::Blob, RegionError>(RegionError::UnknownCompression),
        kind matches Some(k) ==> {
            &&& r is Ok <==> document_decodes(k, bytes@)
            &&& document_unsound(k, bytes@) ==> r == Err::<nbt::Blob, RegionError>(
                RegionError::UnsoundDocument,
            )
            &&& !document_unsound(k, bytes@) ==> (r matches Err(e) ==> e is Decode)
        },
{
    let plain: Result<Vec<u8>, nbt::Error> = match kind {
        None => {
            return Err(RegionError::UnknownCompression);
        },
        Some(CompressionType::Gzip) => inflate_gzip(bytes),
        Some(CompressionType::Zlib) => inflate_zlib(bytes),
    };
    match plain {
        Ok(raw) => decode_plain_document(raw.as_slice()),
        Err(e) => Err(RegionError::Decode(e)),
    }
}

} // verus!
