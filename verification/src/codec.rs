use crate::format::StreamFormat;
use crate::layout::{sz_chunks_fit, sz_scan};
use vstd::prelude::*;

verus! {

/// What `flate2::read::GzDecoder` reads out of a gzip stream, or the text of
/// the error that it reports.
pub uninterp spec fn gz_decoded(input: Seq<u8>) -> Result<Seq<u8>, Seq<char>>;

/// What `lz4::Decoder` reads out of an LZ4 frame that ends within the input,
/// or the text of the error that it reports.
pub uninterp spec fn lz4_decoded(input: Seq<u8>) -> Result<Seq<u8>, Seq<char>>;

/// What `snap::Reader` reads out of a framed Snappy stream, or the text of
/// the error that it reports. It is spoken of only for a stream whose data
/// chunks all have room for their checksum.
pub uninterp spec fn sz_decoded(input: Seq<u8>) -> Result<Seq<u8>, Seq<char>>;

/// The gzip stream that `flate2::write::GzEncoder` writes for an input at the
/// default level, or the text of the error that it reports.
pub uninterp spec fn gz_encoded(input: Seq<u8>) -> Result<Seq<u8>, Seq<char>>;

/// The LZ4 frame that an encoder built by `lz4::EncoderBuilder::new()` writes
/// for an input, or the text of the error that it reports.
pub uninterp spec fn lz4_encoded(input: Seq<u8>) -> Result<Seq<u8>, Seq<char>>;

/// The framed Snappy stream that `snap::Writer` writes for an input, or the
/// text of the error that it reports.
pub uninterp spec fn sz_encoded(input: Seq<u8>) -> Result<Seq<u8>, Seq<char>>;

/// The bytes that a codec produced, or the text of its error.
pub open spec fn produced(r: Result<Vec<u8>, String>) -> Result<Seq<u8>, Seq<char>> {
    match r {
        Ok(bytes) => Ok(bytes@),
        Err(text) => Err(text@),
    }
}

/// Reads a whole gzip stream with `flate2::read::GzDecoder`. The contract
/// gives the outcome its name, `gz_decoded`, and claims nothing else; an error
/// comes back as the text that its `Display` impl makes.
#[verifier::external_body]
fn gz_decode(input: &[u8]) -> (r: Result<Vec<u8>, String>)
    ensures
        produced(r) == gz_decoded(input@),
{
    let mut out: Vec<u8> = Vec::new();
    let mut decoder = flate2::read::GzDecoder::new(input);
    match std::io::Read::read_to_end(&mut decoder, &mut out) {
        Ok(_) => Ok(out),
        Err(e) => Err(e.to_string()),
    }
}

/// Reads a whole LZ4 frame with `lz4::Decoder`, and asks its `finish` whether
/// the frame ended. The contract gives the outcome its name, `lz4_decoded`,
/// and claims nothing else; an error
/// comes back as the text that its `Display` impl makes.
#[verifier::external_body]
fn lz4_decode(input: &[u8]) -> (r: Result<Vec<u8>, String>)
    ensures
        produced(r) == lz4_decoded(input@),
{
    let text = |e: std::io::Error| e.to_string();
    let mut out: Vec<u8> = Vec::new();
    let mut decoder = lz4::Decoder::new(input).map_err(text)?;
    std::io::Read::read_to_end(&mut decoder, &mut out).map_err(text)?;
    decoder.finish().1.map_err(text)?;
    Ok(out)
}

/// Reads a whole framed Snappy stream with `snap::Reader`. The reader takes
/// the four bytes of the checksum from the declared length of a data chunk
/// without looking whether the length reaches four, so a stream with a
/// shorter data chunk is left out. For the others the contract gives the
/// outcome its name, `sz_decoded`, and claims nothing else; an error
/// comes back as the text that its `Display` impl makes.
#[verifier::external_body]
fn sz_decode(input: &[u8]) -> (r: Result<Vec<u8>, String>)
    requires
        sz_chunks_fit(input@, 0),
    ensures
        produced(r) == sz_decoded(input@),
{
    let mut out: Vec<u8> = Vec::new();
    let mut decoder = snap::Reader::new(input);
    match std::io::Read::read_to_end(&mut decoder, &mut out) {
        Ok(_) => Ok(out),
        Err(e) => Err(e.to_string()),
    }
}

/// Writes an input through `flate2::write::GzEncoder` at the default level.
/// The contract gives the outcome its name, `gz_encoded`, and claims nothing
/// else.
#[verifier::external_body]
fn gz_encode(input: &[u8]) -> (r: Result<Vec<u8>, String>)
    ensures
        produced(r) == gz_encoded(input@),
{
    let text = |e: std::io::Error| e.to_string();
    let mut out: Vec<u8> = Vec::new();
    let mut encoder = flate2::write::GzEncoder::new(&mut out, flate2::Compression::default());
    std::io::Write::write_all(&mut encoder, input).map_err(text)?;
    encoder.finish().map_err(text)?;
    Ok(out)
}

/// Writes an input through an encoder built by `lz4::EncoderBuilder::new()`.
/// The contract gives the outcome its name, `lz4_encoded`, and claims nothing
/// else.
#[verifier::external_body]
fn lz4_encode(input: &[u8]) -> (r: Result<Vec<u8>, String>)
    ensures
        produced(r) == lz4_encoded(input@),
{
    let text = |e: std::io::Error| e.to_string();
    let mut out: Vec<u8> = Vec::new();
    let mut encoder = lz4::EncoderBuilder::new().build(&mut out).map_err(text)?;
    std::io::Write::write_all(&mut encoder, input).map_err(text)?;
    encoder.finish().1.map_err(text)?;
    Ok(out)
}

/// Writes an input through `snap::Writer`. The contract gives the outcome its
/// name, `sz_encoded`, and claims nothing else; an error
/// comes back as the text that its `Display` impl makes.
#[verifier::external_body]
fn sz_encode(input: &[u8]) -> (r: Result<Vec<u8>, String>)
    ensures
        produced(r) == sz_encoded(input@),
{
    let text = |e: std::io::Error| e.to_string();
    let mut out: Vec<u8> = Vec::new();
    let mut encoder = snap::Writer::new(&mut out);
    std::io::Write::write_all(&mut encoder, input).map_err(text)?;
    std::io::Write::flush(&mut encoder).map_err(text)?;
    drop(encoder);
    Ok(out)
}

/// A stream that its codec could not decode: malformed, cut short or
/// corrupt.
#[derive(Clone, Debug, PartialEq, Eq)]
pub struct DecodeError {
    /// The format that the input was taken for.
    pub format: StreamFormat,
    /// What the codec said.
    pub cause: String,
}

/// An input that its codec could not encode.
#[derive(Clone, Debug, PartialEq, Eq)]
pub struct EncodeError {
    /// The format that was asked for.
    pub format: StreamFormat,
    /// What the codec said.
    pub cause: String,
}

/// What `decode` says of a framed Snappy stream that it refuses itself.
pub open spec fn short_chunk_cause() -> Seq<char> {
    "a data chunk is too short for its checksum"@
}

/// The mathematical value of the result of `decode`: the bytes, or the
/// cause of the error.
pub open spec fn decoded_view(r: Result<Vec<u8>, DecodeError>) -> Result<Seq<u8>, Seq<char>> {
    match r {
        Ok(bytes) => Ok(bytes@),
        Err(e) => Err(e.cause@),
    }
}

/// The mathematical value of the result of `encode`: the bytes, or the
/// cause of the error.
pub open spec fn encoded_view(r: Result<Vec<u8>, EncodeError>) -> Result<Seq<u8>, Seq<char>> {
    match r {
        Ok(bytes) => Ok(bytes@),
        Err(e) => Err(e.cause@),
    }
}

impl StreamFormat {
    /// The content of a stream in this format, or why the stream is not a
    /// valid one. A framed Snappy stream with a data chunk too short for its
    /// checksum is not valid, whatever else it holds.
    pub open spec fn spec_decoded(self, input: Seq<u8>) -> Result<Seq<u8>, Seq<char>> {
        match self {
            StreamFormat::Gz => gz_decoded(input),
            StreamFormat::Lz4 => lz4_decoded(input),
            StreamFormat::Sz => if sz_chunks_fit(input, 0) {
                sz_decoded(input)
            } else {
                Err(short_chunk_cause())
            },
        }
    }

    /// The stream that this format's encoder makes of an input.
    pub open spec fn spec_encoded(self, input: Seq<u8>) -> Result<Seq<u8>, Seq<char>> {
        match self {
            StreamFormat::Gz => gz_encoded(input),
            StreamFormat::Lz4 => lz4_encoded(input),
            StreamFormat::Sz => sz_encoded(input),
        }
    }

    /// Decodes a whole stream held in memory. Either all of the content
    /// comes back or an error does: there is no partial output. A framed
    /// Snappy stream with a data chunk too short for its checksum is refused
    /// here, before the codec sees it; any other error carries what the
    /// codec said.
    pub fn decode(&self, input: &[u8]) -> (r: Result<Vec<u8>, DecodeError>)
        ensures
            decoded_view(r) == self.spec_decoded(input@),
            r matches Err(e) ==> e.format == *self,
    {
        let decoded = match self {
            StreamFormat::Gz => gz_decode(input),
            StreamFormat::Lz4 => lz4_decode(input),
            StreamFormat::Sz => {
                if !sz_scan(input) {
                    return Err(
                        DecodeError {
                            format: *self,
                            cause: String::from_str("a data chunk is too short for its checksum"),
                        },
                    );
                }
                sz_decode(input)
            },
        };
        match decoded {
            Ok(bytes) => Ok(bytes),
            Err(cause) => Err(DecodeError { format: *self, cause }),
        }
    }

    /// Encodes a whole input held in memory.
    pub fn encode(&self, input: &[u8]) -> (r: Result<Vec<u8>, EncodeError>)
        ensures
            encoded_view(r) == self.spec_encoded(input@),
            r matches Err(e) ==> e.format == *self,
    {
        let encoded = match self {
            StreamFormat::Gz => gz_encode(input),
            StreamFormat::Lz4 => lz4_encode(input),
            StreamFormat::Sz => sz_encode(input),
        };
        match encoded {
            Ok(bytes) => Ok(bytes),
            Err(cause) => Err(EncodeError { format: *self, cause }),
        }
    }
}

} // verus!
