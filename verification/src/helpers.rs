//! One call for each common need of a handler: the parameters of the body,
//! the parameters of the query, and one parameter that must be there.

use crate::decode::decode;
use crate::decode::decodes;
use crate::decode::form_pairs;
use crate::decode::refused_with;
use crate::error::DecodeFailure;
pub use crate::error::MissingParamError;
use crate::pairs::grouped;
use crate::pairs::lemma_first_value;
use crate::pairs::lemma_values_of_present;
use crate::pairs::names;
use crate::pairs::no_empty_list;
use crate::pairs::Pair;
use crate::pairs::Params;
use crate::params::QueryMap;
use vstd::prelude::*;
use vstd::utf8::encode_utf8;

verus! {

/// What asking `params` for `name` gives: the first value of the name, or
/// the name itself where it is absent.
pub open spec fn required(params: Params, name: Seq<char>) -> Result<Seq<char>, Seq<char>> {
    if params.contains_key(name) {
        Ok(params[name][0])
    } else {
        Err(name)
    }
}

/// The parameters of a form-encoded request body.  A body that does not
/// decode is refused whole, with the cause; an empty body has no
/// parameters.
pub fn require_body_params(raw_body: &[u8]) -> (r: Result<QueryMap, DecodeFailure>)
    ensures
        match r {
            Ok(map) => decodes(raw_body@) && map@ == grouped(form_pairs(raw_body@))
                && no_empty_list(map@),
            Err(failure) => refused_with(raw_body@, failure.cause),
        },
        raw_body@.len() == 0 ==> r is Ok && r->Ok_0@ == Params::empty(),
{
    decode(raw_body)
}

/// The parameters of a query string.  A query that does not decode is
/// refused whole, with the cause; an empty query has no parameters.
pub fn require_query_params(raw_query: &str) -> (r: Result<QueryMap, DecodeFailure>)
    ensures
        match r {
            Ok(map) => decodes(encode_utf8(raw_query@)) && map@ == grouped(
                form_pairs(encode_utf8(raw_query@)),
            ) && no_empty_list(map@),
            Err(failure) => refused_with(encode_utf8(raw_query@), failure.cause),
        },
        raw_query@.len() == 0 ==> r is Ok && r->Ok_0@ == Params::empty(),
{
    decode(raw_query.as_bytes())
}

/// The first value of `name`, however many were supplied, or the error that
/// names the parameter where none was.  The value is lent from the map.
pub fn require_parameter<'a>(map: &'a QueryMap, name: &str) -> (r: Result<
    &'a String,
    MissingParamError,
>)
    ensures
        match r {
            Ok(value) => required(map@, name@) == Ok::<Seq<char>, Seq<char>>(value@),
            Err(missing) => required(map@, name@) == Err::<Seq<char>, Seq<char>>(missing@),
        },
{
    match map.get(name) {
        Some(list) => Ok(&list[0]),
        None => Err(MissingParamError::new(name.to_owned())),
    }
}

/// A name that is absent is reported missing under exactly that name, in a
/// map that holds other names as in one that holds none.
pub proof fn lemma_absent_is_missing(params: Params, name: Seq<char>)
    requires
        !params.contains_key(name),
    ensures
        required(params, name) == Err::<Seq<char>, Seq<char>>(name),
{
}

/// A name that is present is never reported missing.
pub proof fn lemma_present_is_found(params: Params, name: Seq<char>)
    requires
        params.contains_key(name),
    ensures
        required(params, name) is Ok,
{
}

/// In a map without parameters every name is missing.
pub proof fn lemma_empty_map_misses_all(name: Seq<char>)
    ensures
        required(Params::empty(), name) == Err::<Seq<char>, Seq<char>>(name),
{
}

/// A name that some decoded pair carries is found, and what is found is the
/// value of the first pair that carries it: of `a=1&a=2` it is `1`.
pub proof fn lemma_first_pair_wins(pairs: Seq<Pair>, i: int)
    requires
        0 <= i < pairs.len(),
        forall|j: int| 0 <= j < i ==> (#[trigger] pairs[j]).0 != pairs[i].0,
    ensures
        required(grouped(pairs), pairs[i].0) == Ok::<Seq<char>, Seq<char>>(pairs[i].1),
{
    lemma_first_value(pairs, i);
}

/// A name that no decoded pair carries is missing after grouping.
pub proof fn lemma_unnamed_is_missing(pairs: Seq<Pair>, name: Seq<char>)
    requires
        !names(pairs, name),
    ensures
        required(grouped(pairs), name) == Err::<Seq<char>, Seq<char>>(name),
{
}

/// Grouping never yields an empty list.
pub proof fn lemma_grouped_lists(pairs: Seq<Pair>)
    ensures
        no_empty_list(grouped(pairs)),
{
    assert forall|name: Seq<char>| grouped(pairs).contains_key(name) implies (
    #[trigger] grouped(pairs)[name]).len() > 0 by {
        lemma_values_of_present(pairs, name);
    }
}

} // verus!
