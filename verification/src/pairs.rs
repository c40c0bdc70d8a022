//! Decoded pairs of name and value, and the mapping that they describe.

use vstd::prelude::*;

verus! {

/// A decoded name with its decoded value.
pub type Pair = (Seq<char>, Seq<char>);

/// What a parameter map stands for: each name with its values in order.
pub type Params = Map<Seq<char>, Seq<Seq<char>>>;

/// Whether some pair of `pairs` carries `name`.
pub open spec fn names(pairs: Seq<Pair>, name: Seq<char>) -> bool {
    exists|i: int| 0 <= i < pairs.len() && (#[trigger] pairs[i]).0 == name
}

/// The test that a pair carries `name`.
pub open spec fn carries(name: Seq<char>) -> spec_fn(Pair) -> bool {
    |p: Pair| p.0 == name
}

/// The values that `pairs` gives to `name`, in the order of `pairs`.
pub open spec fn values_of(pairs: Seq<Pair>, name: Seq<char>) -> Seq<Seq<char>> {
    pairs.filter(carries(name)).map_values(|p: Pair| p.1)
}

/// The mapping that `pairs` describes: a name is present when a pair carries
/// it, and its list holds the values of all such pairs in their order.
pub open spec fn grouped(pairs: Seq<Pair>) -> Params {
    Map::new(|name: Seq<char>| names(pairs, name), |name: Seq<char>| values_of(pairs, name))
}

/// The values listed under `name`, none where the name is absent.
pub open spec fn listed(params: Params, name: Seq<char>) -> Seq<Seq<char>> {
    if params.contains_key(name) {
        params[name]
    } else {
        Seq::empty()
    }
}

/// No list of `params` is empty: an absent name, never an empty list, says
/// that a parameter was not supplied.
pub open spec fn no_empty_list(params: Params) -> bool {
    forall|name: Seq<char>| params.contains_key(name) ==> (#[trigger] params[name]).len() > 0
}

/// A name that occurs in no pair has no values.
pub proof fn lemma_values_of_absent(pairs: Seq<Pair>, name: Seq<char>)
    requires
        !names(pairs, name),
    ensures
        values_of(pairs, name) == Seq::<Seq<char>>::empty(),
{
    let carried = carries(name);
    assert(pairs.all(|p: Pair| !carried(p)));
    pairs.lemma_all_neg_filter_empty(carried);
}

/// A name that some pair carries has a value.
pub proof fn lemma_values_of_present(pairs: Seq<Pair>, name: Seq<char>)
    requires
        names(pairs, name),
    ensures
        values_of(pairs, name).len() > 0,
{
    let i = choose|i: int| 0 <= i < pairs.len() && (#[trigger] pairs[i]).0 == name;
    pairs.lemma_filter_contains(carries(name), i);
}

/// One more pair adds its value to the end of the list of its name, and
/// leaves every other name as it was.
pub proof fn lemma_grouped_push(pairs: Seq<Pair>, pair: Pair)
    ensures
        grouped(pairs.push(pair)) == grouped(pairs).insert(
            pair.0,
            listed(grouped(pairs), pair.0).push(pair.1),
        ),
{
    let more = pairs.push(pair);
    let want = grouped(pairs).insert(pair.0, listed(grouped(pairs), pair.0).push(pair.1));
    assert forall|name: Seq<char>| names(more, name) <==> want.contains_key(name) by {
        if names(pairs, name) {
            let i = choose|i: int| 0 <= i < pairs.len() && (#[trigger] pairs[i]).0 == name;
            assert(more[i].0 == name);
        }
        if name == pair.0 {
            assert(more[pairs.len() as int].0 == name);
        }
    }
    assert forall|name: Seq<char>| names(more, name) implies values_of(more, name)
        == want[name] by {
        pairs.lemma_filter_push(pair, carries(name));
        if !names(pairs, name) {
            lemma_values_of_absent(pairs, name);
        }
    }
}

/// The first pair that carries a name gives that name its first value.
pub proof fn lemma_first_value(pairs: Seq<Pair>, i: int)
    requires
        0 <= i < pairs.len(),
        forall|j: int| 0 <= j < i ==> (#[trigger] pairs[j]).0 != pairs[i].0,
    ensures
        values_of(pairs, pairs[i].0).len() > 0,
        values_of(pairs, pairs[i].0)[0] == pairs[i].1,
    decreases pairs.len(),
{
    let name = pairs[i].0;
    let front = pairs.drop_last();
    assert(pairs == front.push(pairs.last()));
    front.lemma_filter_push(pairs.last(), carries(name));
    if i == pairs.len() - 1 {
        lemma_values_of_absent(front, name);
        assert(values_of(pairs, name) =~= seq![pairs[i].1]);
    } else {
        lemma_first_value(front, i);
    }
}

} // verus!
