//! Images embedded in a diagram: their bytes as standard Base64 text, in a
//! `data:` address.

use base64::Engine;
use vstd::prelude::*;
use vstd::string::StringExecFns;

verus! {

/// The character of a six-bit value in the standard Base64 alphabet.
pub open spec fn base64_digit(v: int) -> char {
    if v < 26 {
        (65 + v) as char
    } else if v < 52 {
        (97 + v - 26) as char
    } else if v < 62 {
        (48 + v - 52) as char
    } else if v == 62 {
        '+'
    } else {
        '/'
    }
}

/// Standard Base64 (RFC 4648, with `=` padding): each group of three bytes
/// becomes four characters; a last group of one or two bytes is padded.
pub open spec fn base64_of(b: Seq<u8>) -> Seq<char>
    decreases b.len(),
{
    if b.len() == 0 {
        Seq::empty()
    } else if b.len() == 1 {
        seq![base64_digit((b[0] as int) / 4), base64_digit(((b[0] as int) % 4) * 16), '=', '=']
    } else if b.len() == 2 {
        seq![
            base64_digit((b[0] as int) / 4),
            base64_digit(((b[0] as int) % 4) * 16 + (b[1] as int) / 16),
            base64_digit(((b[1] as int) % 16) * 4),
            '=',
        ]
    } else {
        seq![
            base64_digit((b[0] as int) / 4),
            base64_digit(((b[0] as int) % 4) * 16 + (b[1] as int) / 16),
            base64_digit(((b[1] as int) % 16) * 4 + (b[2] as int) / 64),
            base64_digit((b[2] as int) % 64),
        ] + base64_of(b.subrange(3, b.len() as int))
    }
}

/// Appends the standard Base64 encoding of `bytes` with the `base64`
/// crate's `Engine::encode_string` on `BASE64_STANDARD`.
#[verifier::external_body]
fn base64_encode_into(bytes: &[u8], out: &mut String)
    ensures
        final(out)@ == old(out)@ + base64_of(bytes@),
{
    base64::prelude::BASE64_STANDARD.encode_string(bytes, out)
}

/// The standard Base64 text of an image file's bytes.
pub fn encode_image(bytes: &[u8]) -> (res: String)
    ensures
        res@ == base64_of(bytes@),
{
    let mut out = String::new();
    base64_encode_into(bytes, &mut out);
    proof {
        assert(Seq::<char>::empty() + base64_of(bytes@) =~= base64_of(bytes@));
    }
    out
}

/// The `data:` address of a JPEG image given as Base64 text.
pub fn jpeg_href(encoded: &str) -> (res: String)
    ensures
        res@ == "data:image/jpeg;base64,"@ + encoded@,
{
    let mut href = String::from_str("data:image/jpeg;base64,");
    href.append(encoded);
    href
}

/// Base64 text is four characters for every three bytes, rounded up.
pub proof fn lemma_base64_length(b: Seq<u8>)
    ensures
        base64_of(b).len() == 4 * ((b.len() + 2) / 3),
    decreases b.len(),
{
    if b.len() > 2 {
        lemma_base64_length(b.subrange(3, b.len() as int));
    }
}

} // verus!
