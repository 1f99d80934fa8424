//! What becomes of an entry's bytes on their way into the output folder.

use vstd::prelude::*;
use crate::error::UnpackError;

verus! {

/// The error type of the readers and writers that the decoders work on.
#[verifier::external_type_specification]
#[verifier::external_body]
pub struct ExIoError(std::io::Error);

/// What a gzip decoder reads out of `data`: the content of the gzip member
/// that `data` begins with, or nothing if the decoder reports an error.
pub uninterp spec fn gzip_content(data: Seq<u8>) -> Option<Seq<u8>>;

/// What the JSON formatter writes for `data` with an indentation of two
/// spaces, or nothing if it reports an error.
pub uninterp spec fn json_two_space(data: Seq<u8>) -> Option<Seq<u8>>;

/// Reads `data` to its end through `flate2::read::GzDecoder`.
///
/// The decoder works on nothing but the bytes it is given, so what it yields
/// is a function of them: the contract gives that function the name
/// `gzip_content` and claims nothing else of it.
#[verifier::external_body]
fn gunzip(data: &[u8]) -> (outcome: Result<Vec<u8>, std::io::Error>)
    ensures
        outcome matches Ok(content) ==> gzip_content(data@) == Some(content@),
        outcome is Err ==> gzip_content(data@) is None,
{
    let mut content = Vec::new();
    let mut decoder = flate2::read::GzDecoder::new(data);
    match std::io::Read::read_to_end(&mut decoder, &mut content) {
        Ok(_) => Ok(content),
        Err(error) => Err(error),
    }
}

/// Runs `data` through `jsonformat::format_reader_writer` with
/// `jsonformat::Indentation::TwoSpace`, writing into memory.
///
/// The formatter works on nothing but the bytes it is given, so what it
/// writes is a function of them: the contract gives that function the name
/// `json_two_space` and claims nothing else of it.
#[verifier::external_body]
fn format_json(data: &[u8]) -> (outcome: Result<Vec<u8>, std::io::Error>)
    ensures
        outcome matches Ok(text) ==> json_two_space(data@) == Some(text@),
        outcome is Err ==> json_two_space(data@) is None,
{
    let mut text = Vec::new();
    match jsonformat::format_reader_writer(data, &mut text, jsonformat::Indentation::TwoSpace) {
        Ok(()) => Ok(text),
        Err(error) => Err(error),
    }
}

/// What is done to an entry's bytes before they are written.
#[derive(Debug, Clone, Copy, PartialEq, Eq, Structural)]
pub enum Treatment {
    /// The bytes are written as they are.
    Copy,
    /// The bytes are a gzip member; its content is written.
    Decompress,
    /// The bytes are a gzip member that holds JSON; its content is written
    /// indented by two spaces.
    DecompressJson,
}

/// The bytes of a decoding step, read as a sequence.
pub open spec fn bytes_of(result: Result<Vec<u8>, UnpackError>) -> Result<Seq<u8>, UnpackError> {
    match result {
        Ok(bytes) => Ok(bytes@),
        Err(error) => Err(error),
    }
}

/// What is written for an entry that holds `data`, given what the gzip
/// decoder reads out of `data` and what the formatter writes for that.
pub open spec fn rendered_from(
    treatment: Treatment,
    data: Seq<u8>,
    unzipped: Option<Seq<u8>>,
    formatted: Option<Seq<u8>>,
) -> Result<Seq<u8>, UnpackError> {
    match treatment {
        Treatment::Copy => Ok(data),
        Treatment::Decompress => match unzipped {
            Some(content) => Ok(content),
            None => Err(UnpackError::Decompression),
        },
        Treatment::DecompressJson => match unzipped {
            Some(_) => match formatted {
                Some(text) => Ok(text),
                None => Err(UnpackError::Formatting),
            },
            None => Err(UnpackError::Decompression),
        },
    }
}

/// What is written for an entry that holds `data`.
pub open spec fn rendered(treatment: Treatment, data: Seq<u8>) -> Result<Seq<u8>, UnpackError> {
    rendered_from(
        treatment,
        data,
        gzip_content(data),
        match gzip_content(data) {
            Some(content) => json_two_space(content),
            None => None,
        },
    )
}

/// Settles a decoding step: its bytes if it succeeded, else `failure`.
pub fn settle(outcome: Result<Vec<u8>, std::io::Error>, failure: UnpackError) -> (settled: Result<
    Vec<u8>,
    UnpackError,
>)
    ensures
        outcome matches Ok(bytes) ==> settled == Ok::<Vec<u8>, UnpackError>(bytes),
        outcome is Err ==> settled == Err::<Vec<u8>, UnpackError>(failure),
{
    match outcome {
        Ok(bytes) => Ok(bytes),
        Err(_) => Err(failure),
    }
}

/// Decompresses the gzip member that `data` begins with.
pub fn decompress(data: &[u8]) -> (content: Result<Vec<u8>, UnpackError>)
    ensures
        bytes_of(content) == rendered(Treatment::Decompress, data@),
{
    settle(gunzip(data), UnpackError::Decompression)
}

/// Indents the JSON text `data` by two spaces.
pub fn indent_json(data: &[u8]) -> (text: Result<Vec<u8>, UnpackError>)
    ensures
        bytes_of(text) == match json_two_space(data@) {
            Some(text) => Ok::<Seq<u8>, UnpackError>(text),
            None => Err(UnpackError::Formatting),
        },
{
    settle(format_json(data), UnpackError::Formatting)
}

/// Turns the bytes of an entry into the bytes that are written for it.
pub fn render(treatment: Treatment, data: Vec<u8>) -> (content: Result<Vec<u8>, UnpackError>)
    ensures
        bytes_of(content) == rendered(treatment, data@),
{
    match treatment {
        Treatment::Copy => Ok(data),
        Treatment::Decompress => decompress(data.as_slice()),
        Treatment::DecompressJson => match decompress(data.as_slice()) {
            Ok(content) => indent_json(content.as_slice()),
            Err(error) => Err(error),
        },
    }
}

} // verus!
