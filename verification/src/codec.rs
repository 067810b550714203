//! The encoding pipeline: the one-byte format-version marker, then standard
//! base64 of the zlib-compressed canonical JSON. Compression and base64 are
//! outside work; their results are named, and the pipeline around them is
//! verified exactly.
use vstd::prelude::*;
use vstd::string::StringExecFns;
use vstd::string::StringSliceAdditionalSpecFns;
use vstd::utf8::encode_utf8;

use crate::bp::builder::{BlueprintBuilder, BookBuilder};
use crate::bp::serial::{
    json_wrapped_blueprint, json_wrapped_book, push_wrapped_blueprint, push_wrapped_book,
};

use std::io::Write;

verus! {

/// What flate2's zlib encoder at the chosen level produces for these bytes.
pub uninterp spec fn deflate_of(data: Seq<u8>) -> Seq<u8>;

/// What zlib decompression gives back for a compressed stream.
pub uninterp spec fn inflate_of(data: Seq<u8>) -> Seq<u8>;

/// What the standard base64 alphabet with padding encodes these bytes to.
pub uninterp spec fn base64_of(data: Seq<u8>) -> Seq<char>;

/// What base64 decoding gives back for such text.
pub uninterp spec fn base64_decode_of(text: Seq<char>) -> Seq<u8>;

/// Relies on flate2's ZlibEncoder at Compression::best: the compressed
/// stream is a function of the input bytes alone, and the zlib format is
/// lossless, so decompressing the stream yields the input again. Writing
/// into an in-memory buffer cannot fail.
#[verifier::external_body]
fn zlib_deflate(data: &[u8]) -> (r: Vec<u8>)
    ensures
        r@ == deflate_of(data@),
        inflate_of(r@) == data@,
{
    let mut enc = flate2::write::ZlibEncoder::new(Vec::new(), flate2::Compression::best());
    enc.write_all(data).expect("write to a Vec cannot fail");
    enc.finish().expect("finish to a Vec cannot fail")
}

/// Relies on the base64 crate's standard engine (the RFC 4648 alphabet, with
/// padding): encoding is a function of the input bytes alone, the text has
/// four characters for every three input bytes rounded up, and decoding it
/// yields the input again.
#[verifier::external_body]
fn base64_encode(data: &[u8]) -> (r: String)
    ensures
        r@ == base64_of(data@),
        base64_decode_of(r@) == data@,
        r@.len() == 4 * ((data@.len() + 2) / 3),
{
    base64::Engine::encode(&base64::engine::general_purpose::STANDARD, data)
}

/// The transport encoding of a canonical JSON document: the ASCII `0`
/// format-version marker, then base64 of the zlib-compressed UTF-8 bytes.
pub open spec fn encoded_output(json: Seq<char>) -> Seq<char> {
    "0"@ + base64_of(deflate_of(encode_utf8(json)))
}

/// Encodes an already-serialized document, and carries the round-trip fact:
/// base64-decoding then inflating everything after the marker is exactly the
/// document's UTF-8 bytes.
fn pack(json: &str) -> (r: String)
    ensures
        r@ == encoded_output(json@),
        r@.len() >= 1 && r@[0] == '0',
        inflate_of(base64_decode_of(r@.skip(1))) == encode_utf8(json@),
{
    let compressed = zlib_deflate(json.as_bytes());
    let b64 = base64_encode(compressed.as_slice());
    let mut out = "0".to_owned();
    out.append(b64.as_str());
    proof {
        reveal_strlit("0");
        assert(out@.skip(1) =~= b64@);
    }
    out
}

/// Rendering a document to the portable string. The output is deterministic:
/// it is exactly the encoding of the document's canonical JSON.
pub trait Render {
    /// The canonical JSON text of the wrapped document.
    spec fn document_json(&self) -> Seq<char>;

    /// The exact text `render` returns.
    spec fn rendered(&self) -> Seq<char>;

    /// Produces the encoded document: the format-version marker, then base64
    /// of the compressed canonical JSON. Decoding reverses it: inflating the
    /// base64-decoded remainder gives the canonical JSON bytes back.
    fn render(&self) -> (r: String)
        ensures
            r@ == self.rendered(),
            r@ == encoded_output(self.document_json()),
            r@.len() >= 1 && r@[0] == '0',
            inflate_of(base64_decode_of(r@.skip(1))) == encode_utf8(self.document_json()),
    ;
}

impl Render for BlueprintBuilder {
    open spec fn document_json(&self) -> Seq<char> {
        json_wrapped_blueprint(*self)
    }

    open spec fn rendered(&self) -> Seq<char> {
        encoded_output(json_wrapped_blueprint(*self))
    }

    fn render(&self) -> (r: String) {
        let mut json = String::new();
        push_wrapped_blueprint(&mut json, self);
        pack(json.as_str())
    }
}

impl Render for BookBuilder {
    open spec fn document_json(&self) -> Seq<char> {
        json_wrapped_book(*self)
    }

    open spec fn rendered(&self) -> Seq<char> {
        encoded_output(json_wrapped_book(*self))
    }

    fn render(&self) -> (r: String) {
        let mut json = String::new();
        push_wrapped_book(&mut json, self);
        pack(json.as_str())
    }
}

/// Rendering is deterministic: with no mutation between the calls, two
/// renderings of one document are identical, character for character.
pub proof fn lemma_render_deterministic<T: Render>(doc: &T, r1: Seq<char>, r2: Seq<char>)
    requires
        r1 == doc.rendered(),
        r2 == doc.rendered(),
    ensures
        r1 == r2,
{
}

} // verus!
