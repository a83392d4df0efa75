//! Rendering a winning candidate for persistence.
//!
//! The candidate bytes go to disk twice: raw, and as a PEM block — the
//! standard base64 encoding broken into 64-character lines between a
//! fixed header and footer.  The base64 encoding itself comes from the
//! base64 crate behind a single trusted wrapper; the framing and line
//! wrapping are verified here.

use vstd::prelude::*;
use base64::Engine;

verus! {

/// The standard base64 rendering (with padding) of a byte sequence.
/// The encoding is a function of the input bytes alone, so the result
/// bears a name; its length is four characters for every started group
/// of three bytes.
pub uninterp spec fn base64_of(b: Seq<u8>) -> Seq<char>;

/// Relies on base64's `Engine::encode` with the `STANDARD` engine: the
/// standard-alphabet, padded base64 encoding of the input, a function
/// of the input bytes alone, four characters for every started group of
/// three bytes.
#[verifier::external_body]
fn base64_standard(data: &Vec<u8>) -> (r: String)
    requires
        4 * data@.len() <= usize::MAX,
    ensures
        r@ == base64_of(data@),
        r@.len() == 4 * ((data@.len() + 2) / 3),
{
    base64::engine::general_purpose::STANDARD.encode(data.as_slice())
}

/// A character sequence broken into 64-character lines: a newline after
/// every full 64 characters except the last chunk.
pub open spec fn wrap_lines(s: Seq<char>) -> Seq<char>
    decreases s.len(),
{
    if s.len() <= 64 {
        s
    } else {
        s.take(64) + seq!['\n'] + wrap_lines(s.skip(64))
    }
}

/// The PEM text for a key: header line, the base64 encoding broken into
/// 64-character lines, footer line.
pub open spec fn pem_text(key: Seq<u8>) -> Seq<char> {
    "-----BEGIN PUBLIC KEY-----\n"@ + wrap_lines(base64_of(key)) + "\n-----END PUBLIC KEY-----\n"@
}

/// Builds the PEM rendering of the candidate bytes.
pub fn pem_of_key(key_data: &Vec<u8>) -> (r: String)
    requires
        4 * key_data@.len() <= usize::MAX,
    ensures
        r@ == pem_text(key_data@),
{
    let encoded = base64_standard(key_data);
    let total = encoded.as_str().unicode_len();
    let mut out = String::from_str("-----BEGIN PUBLIC KEY-----\n");
    let mut pos: usize = 0;
    proof {
        assert(encoded@.skip(0) =~= encoded@);
    }
    while total - pos > 64
        invariant
            pos <= total,
            total == encoded@.len(),
            out@ + wrap_lines(encoded@.skip(pos as int)) == "-----BEGIN PUBLIC KEY-----\n"@
                + wrap_lines(encoded@),
        decreases total - pos,
    {
        let ghost prev = out@;
        let ghost rest = encoded@.skip(pos as int);
        let chunk = encoded.as_str().substring_char(pos, pos + 64);
        out.append(chunk);
        out.append("\n");
        proof {
            reveal_strlit("\n");
            assert(chunk@ =~= rest.take(64));
            assert("\n"@ =~= seq!['\n']);
            assert(rest.skip(64) =~= encoded@.skip(pos as int + 64));
            assert(wrap_lines(rest) == rest.take(64) + seq!['\n'] + wrap_lines(rest.skip(64)));
            assert(out@ + wrap_lines(encoded@.skip(pos as int + 64)) =~= prev + wrap_lines(rest));
        }
        pos = pos + 64;
    }
    let tail = encoded.as_str().substring_char(pos, total);
    out.append(tail);
    proof {
        assert(encoded@.skip(pos as int).len() <= 64);
        assert(wrap_lines(encoded@.skip(pos as int)) == encoded@.skip(pos as int));
        assert(tail@ =~= encoded@.skip(pos as int));
    }
    out.append("\n-----END PUBLIC KEY-----\n");
    proof {
        assert(out@ =~= pem_text(key_data@));
    }
    out
}

} // verus!
