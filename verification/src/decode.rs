//! Decoding of raw text and attribute bytes from the document's byte
//! encoding (UTF-8) into character data.

use vstd::prelude::*;

verus! {

/// The result of decoding a byte sequence as UTF-8 without BOM handling and
/// without replacement: the decoded characters, or `None` when the bytes are
/// malformed.  The result depends on the bytes alone.
pub uninterp spec fn utf8_decoded(b: Seq<u8>) -> Option<Seq<char>>;

/// Relies on `quick_xml::encoding::decode` with `encoding_rs::UTF_8`, which
/// is encoding_rs's "UTF-8 decode without BOM or fail": `Some` of the decoded
/// characters exactly when the bytes are valid UTF-8, `None` otherwise, a
/// function of the input bytes alone.
#[verifier::external_body]
pub(crate) fn decode_utf8(b: &Vec<u8>) -> (r: Option<String>)
    ensures
        match r {
            Some(s) => utf8_decoded(b@) == Some(s@),
            None => utf8_decoded(b@) is None,
        },
{
    match quick_xml::encoding::decode(b, encoding_rs::UTF_8) {
        Ok(c) => Some(c.into_owned()),
        Err(_) => None,
    }
}

} // verus!
