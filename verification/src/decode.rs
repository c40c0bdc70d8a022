//! Strict decoding of form-encoded text.
//!
//! The text is first held to two demands: every `%` opens a complete escape,
//! and the bytes that the escapes stand for are UTF-8.  Text that meets both
//! is split into pairs of name and value by the `form_urlencoded` crate.

use crate::error::DecodeError;
use crate::error::DecodeFailure;
use crate::escape::first_malformed;
use crate::escape::malformed_at;
use crate::escape::percent_decode;
use crate::escape::unescape;
use crate::escape::well_escaped;
use crate::pairs::grouped;
use crate::pairs::no_empty_list;
use crate::pairs::Pair;
use crate::pairs::Params;
use crate::params::QueryMap;
use vstd::prelude::*;
use vstd::string::StringSliceAdditionalSpecFns;
use vstd::utf8::valid_utf8;

verus! {

/// The error of [`core::str::from_utf8`], of which nothing is read here.
#[verifier::external_type_specification]
#[verifier::external_body]
pub struct ExUtf8Error(core::str::Utf8Error);

/// [`core::str::from_utf8`] accepts exactly the byte strings that are UTF-8,
/// and hands back those bytes as text.  Believed of the standard library,
/// not proved.
pub assume_specification[ core::str::from_utf8 ](v: &[u8]) -> (r: Result<
    &str,
    core::str::Utf8Error,
>)
    ensures
        r is Ok <==> valid_utf8(v@),
        r matches Ok(s) ==> s.spec_bytes() == v@,
;

/// The pairs of name and value that `form_urlencoded::parse` reads from
/// `input`, in the order in which it yields them.
pub uninterp spec fn form_pairs(input: Seq<u8>) -> Seq<Pair>;

/// Collects what `form_urlencoded::parse` yields for `input`.  The parser
/// cuts the input at each `&`, passes over empty pieces, cuts each piece at
/// its first `=`, and decodes both halves; its result depends on the bytes
/// alone.  From empty input it yields nothing.  Believed of the crate, not
/// proved.
#[verifier::external_body]
fn parse_pairs(input: &[u8]) -> (pairs: Vec<(String, String)>)
    ensures
        pairs.deep_view() == form_pairs(input@),
        input@.len() == 0 ==> pairs@.len() == 0,
{
    form_urlencoded::parse(input).into_owned().collect()
}

/// Whether `input` can be decoded: its escapes are complete, and with them
/// replaced the bytes are UTF-8.
pub open spec fn decodes(input: Seq<u8>) -> bool {
    well_escaped(input) && valid_utf8(unescape(input))
}

/// Whether `cause` is what refuses `input`.  An incomplete escape is
/// reported first, at the place of the first one.
pub open spec fn refused_with(input: Seq<u8>, cause: DecodeError) -> bool {
    match cause {
        DecodeError::InvalidEscape { offset } => first_malformed(input, offset as int),
        DecodeError::InvalidUtf8 => well_escaped(input) && !valid_utf8(unescape(input)),
    }
}

/// Input that is refused does not decode.
pub proof fn lemma_refused_never_decodes(input: Seq<u8>, cause: DecodeError)
    requires
        refused_with(input, cause),
    ensures
        !decodes(input),
{
}

/// An input is refused for one cause only.
pub proof fn lemma_one_cause(input: Seq<u8>, a: DecodeError, b: DecodeError)
    requires
        refused_with(input, a),
        refused_with(input, b),
    ensures
        a == b,
{
}

/// Input with a `%` that opens no complete escape does not decode.
pub proof fn lemma_malformed_never_decodes(input: Seq<u8>, at: int)
    requires
        malformed_at(input, at),
    ensures
        !decodes(input),
{
}

/// Holds `input` to the two demands, and names the first that it fails.
pub fn validate(input: &[u8]) -> (r: Result<(), DecodeError>)
    ensures
        match r {
            Ok(_) => decodes(input@),
            Err(cause) => refused_with(input@, cause),
        },
{
    match percent_decode(input) {
        Err(offset) => Err(DecodeError::InvalidEscape { offset }),
        Ok(bytes) => match core::str::from_utf8(bytes.as_slice()) {
            Ok(_) => Ok(()),
            Err(_) => Err(DecodeError::InvalidUtf8),
        },
    }
}

/// Decodes `input` into its pairs of name and value, or refuses it whole.
pub fn decode_pairs(input: &[u8]) -> (r: Result<Vec<(String, String)>, DecodeError>)
    ensures
        match r {
            Ok(pairs) => decodes(input@) && pairs.deep_view() == form_pairs(input@),
            Err(cause) => refused_with(input@, cause),
        },
        input@.len() == 0 ==> r is Ok && r->Ok_0@.len() == 0,
{
    match validate(input) {
        Err(cause) => Err(cause),
        Ok(_) => Ok(parse_pairs(input)),
    }
}

/// Decodes `input` into a map of its parameters.  A value that comes later
/// under a name that was seen joins the list of that name.  Refused input
/// gives no map.
pub fn decode(input: &[u8]) -> (r: Result<QueryMap, DecodeFailure>)
    ensures
        match r {
            Ok(map) => decodes(input@) && map@ == grouped(form_pairs(input@)) && no_empty_list(
                map@,
            ),
            Err(failure) => refused_with(input@, failure.cause),
        },
        input@.len() == 0 ==> r is Ok && r->Ok_0@ == Params::empty(),
{
    match decode_pairs(input) {
        Err(cause) => Err(DecodeFailure::new(cause)),
        Ok(pairs) => Ok(QueryMap::from_pairs(pairs.as_slice())),
    }
}

} // verus!
