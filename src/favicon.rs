use vstd::prelude::*;

use base64::prelude::BASE64_STANDARD;
use base64::Engine;

verus! {

/// The standard base64 encoding (with padding) of some bytes.
pub uninterp spec fn base64_standard(b: Seq<u8>) -> Seq<char>;

/// Relies on `base64::Engine::encode` with the `STANDARD` engine: padded base64, four
/// characters for every started group of three bytes. It panics only where that length
/// overflows `usize`.
#[verifier::external_body]
fn encode_base64(b: &Vec<u8>) -> (r: String)
    requires
        b@.len() <= usize::MAX / 2,
    ensures
        r@ == base64_standard(b@),
        r@.len() == 4 * ((b@.len() + 2) / 3),
{
    BASE64_STANDARD.encode(b)
}

/// The prefix of a PNG data URI with base64 content.
pub open spec fn png_data_uri_prefix() -> Seq<char> {
    "data:image/png;base64,"@
}

/// The icon's bytes as a `data:image/png;base64,...` URI.
pub fn favicon_data_uri(bytes: &Vec<u8>) -> (r: String)
    requires
        bytes@.len() <= usize::MAX / 2,
    ensures
        r@ == png_data_uri_prefix() + base64_standard(bytes@),
{
    let encoded = encode_base64(bytes);
    let mut uri = String::from_str("data:image/png;base64,");
    uri.append(encoded.as_str());
    uri
}

} // verus!
