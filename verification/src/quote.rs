//! Quoting of byte strings for a POSIX shell.

use vstd::pervasive::unreached;
use vstd::prelude::*;
use crate::text::{take_until_null, until_nul};

verus! {

/// `shlex::QuoteError`, the reason why a byte string cannot be quoted. It is
/// carried through as it is.
#[verifier::external_type_specification]
#[verifier::external_body]
pub struct ExQuoteError(shlex::QuoteError);

/// The shell word that stands for `bytes`: what `shlex` makes of a byte
/// string without zero bytes, with its default settings.
pub uninterp spec fn shell_quoted(bytes: Seq<u8>) -> Seq<u8>;

/// Quotes `bytes` as one shell word, by `shlex::bytes::Quoter::quote` with
/// the default settings.
///
/// Believed of `shlex`: the call fails exactly on input that holds a zero
/// byte, the result depends on the input alone, and the empty input gives
/// two single quotes.
#[verifier::external_body]
fn quote(bytes: &[u8]) -> (r: Result<Vec<u8>, shlex::QuoteError>)
    ensures
        r is Ok <==> !bytes@.contains(0u8),
        r matches Ok(quoted) ==> quoted@ == shell_quoted(bytes@),
        r matches Ok(quoted) ==> bytes@.len() == 0 ==> quoted@ == seq![39u8, 39u8],
{
    match shlex::bytes::Quoter::new().quote(bytes) {
        Ok(quoted) => Ok(quoted.into_owned()),
        Err(e) => Err(e),
    }
}

/// Reads `input` as a NUL-terminated byte string and quotes it as one shell
/// word.
pub fn quote_null_bytestring(input: &[u8]) -> (r: Vec<u8>)
    ensures
        r@ == shell_quoted(until_nul(input@)),
{
    match quote(take_until_null(input)) {
        Ok(quoted) => quoted,
        // no zero byte is left, so the quoting cannot fail
        Err(_) => unreached(),
    }
}

} // verus!
