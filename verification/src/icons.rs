//! Icon payload handling: the embedded vector glyphs travel as base64 data
//! URIs, built once at startup and decoded back into image bytes. The
//! encoding itself comes from the base64 crate; extracting the payload from
//! the URI and the fallback on a failed decode are verified here.
use crate::text::find_byte_before;
use crate::text::find_last_byte_before;
use vstd::prelude::*;
use vstd::string::StringSliceAdditionalSpecFns;

verus! {

/// What the standard base64 encoding of a byte string is. A fixed alphabet
/// and padding make it a function of the bytes alone.
pub uninterp spec fn base64_standard_encoding(data: Seq<u8>) -> Seq<char>;

/// What the standard base64 decoding of a text yields: the decoded bytes,
/// or nothing when the text is not valid base64. A function of the bytes
/// alone.
pub uninterp spec fn base64_standard_decoding(data: Seq<u8>) -> Option<Seq<u8>>;

/// Relies on base64's STANDARD engine `encode`: a pure function of the input
/// bytes. It panics only when the encoded length overflows `usize`, which the
/// length bound rules out.
#[verifier::external_body]
fn encode_base64(data: &[u8]) -> (r: String)
    requires
        data@.len() <= usize::MAX / 4,
    ensures
        r@ == base64_standard_encoding(data@),
{
    base64::Engine::encode(&base64::engine::general_purpose::STANDARD, data)
}

/// Relies on base64's STANDARD engine `decode`: a pure function of the input
/// bytes; input that is not valid base64 yields an error, mapped to `None`.
#[verifier::external_body]
fn decode_base64(data: &[u8]) -> (r: Option<Vec<u8>>)
    ensures
        r matches Some(v) ==> base64_standard_decoding(data@) == Some(v@),
        r is None ==> base64_standard_decoding(data@) is None,
{
    match base64::Engine::decode(&base64::engine::general_purpose::STANDARD, data) {
        Ok(v) => Some(v),
        Err(_) => None,
    }
}

/// Builds the data URI that carries an embedded vector glyph: the fixed
/// prefix, then the base64 encoding of the graphic's source text.
pub fn svg_data_uri(svg: &str) -> (r: String)
    requires
        svg.spec_bytes().len() <= usize::MAX / 4,
    ensures
        r@ == "data:image/svg+xml;base64,"@ + base64_standard_encoding(svg.spec_bytes()),
{
    let mut out = String::from_str("data:image/svg+xml;base64,");
    let encoded = encode_base64(svg.as_bytes());
    out.append(encoded.as_str());
    out
}

/// The start of a data URI's payload: right after the last comma, or the
/// whole text when it has none.
pub open spec fn spec_payload_start(s: Seq<u8>) -> int {
    match find_byte_before(s, 44, s.len() as int) {
        Some(i) => i + 1,
        None => 0,
    }
}

/// The glyph bytes a data URI yields: its payload decoded; a payload that is
/// not valid base64 yields no bytes at all, and the caller falls back to the
/// plain-text label.
pub open spec fn spec_svg_payload(s: Seq<u8>) -> Seq<u8> {
    match base64_standard_decoding(s.subrange(spec_payload_start(s), s.len() as int)) {
        Some(v) => v,
        None => Seq::empty(),
    }
}

/// Decodes the payload of an icon data URI back into image bytes.
pub fn svg_bytes_from_data_uri(uri: &str) -> (r: Vec<u8>)
    ensures
        r@ == spec_svg_payload(uri.spec_bytes()),
{
    let bytes = uri.as_bytes();
    let start = match find_last_byte_before(bytes, 44, bytes.len()) {
        Some(i) => i + 1,
        None => 0,
    };
    let payload = &bytes[start..bytes.len()];
    proof {
        assert(payload@ =~= uri.spec_bytes().subrange(
            spec_payload_start(uri.spec_bytes()),
            uri.spec_bytes().len() as int,
        ));
    }
    match decode_base64(payload) {
        Some(v) => v,
        None => Vec::new(),
    }
}

} // verus!
