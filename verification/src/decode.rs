use vstd::prelude::*;

verus! {

/// What the JPEG decoder yields on a given byte stream: the decoded raw pixel
/// bytes and the dimensions the stream's header carries, or the decoder's
/// error message. Decoding is a function of the bytes alone, so the result
/// carries a name rather than a restatement of the format; the verified
/// callers check everything they rely on against the named value.
pub uninterp spec fn jpeg_decode_of(bytes: Seq<u8>) -> Result<
    (Seq<u8>, Option<(u16, u16)>),
    Seq<char>,
>;

/// Relies on jpeg_decoder::Decoder: `decode` parses a JPEG byte stream into
/// raw pixel bytes, and `info` reports the image's width and height once the
/// header has been read. The call returns exactly the named decode result of
/// the input bytes.
#[verifier::external_body]
pub(crate) fn decode_jpeg(data: &[u8]) -> (res: Result<(Vec<u8>, Option<(u16, u16)>), String>)
    ensures
        res matches Ok(out) ==> (jpeg_decode_of(data@) matches Ok(d) && out.0@ == d.0 && out.1
            == d.1),
        res matches Err(m) ==> (jpeg_decode_of(data@) matches Err(e) && m@ == e),
{
    let mut decoder = jpeg_decoder::Decoder::new(data);
    match decoder.decode() {
        Ok(raw) => {
            let dims = decoder.info().map(|m| (m.width, m.height));
            Ok((raw, dims))
        },
        Err(e) => Err(e.to_string()),
    }
}

} // verus!
