//! Failures of the container reader.

use vstd::prelude::*;
use vstd::string::StringExecFns;

verus! {

#[verifier::external_type_specification]
#[verifier::external_body]
pub struct ExDocumentError(nbt::Error);

/// Why an operation on a container failed.
#[derive(Debug, PartialEq)]
pub enum RegionError {
    /// The source ended before the bytes that were asked for.
    Io,
    /// A document was asked for before the chunk's header was read.
    HeaderNotParsed,
    /// The chunk's header names a compression that this reader does not know.
    UnknownCompression,
    /// The payload inflates to a document that declares a length that is
    /// negative or larger than the document, or that nests too deep.
    UnsoundDocument,
    /// The payload does not inflate, or the document decoder rejected what
    /// it inflates to; the decoder's own error is inside.
    Decode(nbt::Error),
}

/// `nbt::Error` as text, by its own `Display`. Nothing is claimed of the text.
#[verifier::external_body]
fn document_error_text(e: &nbt::Error) -> String {
    e.to_string()
}

impl RegionError {
    /// What the failure is, in words, for all but a decode failure, whose
    /// words are the decoder's.
    pub open spec fn spec_message(self) -> Seq<char> {
        match self {
            RegionError::Io => "failed to fill whole buffer"@,
            RegionError::HeaderNotParsed =>
                "Need to parse chunk header before trying to parse NBT"@,
            RegionError::UnknownCompression => "Unknown chunk compression type"@,
            RegionError::UnsoundDocument => "Chunk document declares an unsound length or depth"@,
            RegionError::Decode(_) => Seq::empty(),
        }
    }

    /// What the failure is, in words.
    pub fn message(&self) -> (s: String)
        ensures
            !(self is Decode) ==> s@ == self.spec_message(),
    {
        match self {
            RegionError::Io => String::from_str("failed to fill whole buffer"),
            RegionError::HeaderNotParsed => String::from_str(
                "Need to parse chunk header before trying to parse NBT",
            ),
            RegionError::UnknownCompression => String::from_str("Unknown chunk compression type"),
            RegionError::UnsoundDocument => String::from_str(
                "Chunk document declares an unsound length or depth",
            ),
            RegionError::Decode(e) => document_error_text(e),
        }
    }
}

} // verus!
