//! What a query says: the last value of each name counts.

use vstd::prelude::*;

use crate::params::{Pair, QueryParams};

verus! {

/// Behind the last pair of its name, a value stays.
pub(crate) proof fn lemma_last_value(pairs: Seq<Pair>, i: int)
    requires
        0 <= i < pairs.len(),
        forall|j: int| i < j < pairs.len() ==> (#[trigger] pairs[j]).0 != pairs[i].0,
    ensures
        crate::params::collected(pairs).contains_key(pairs[i].0),
        crate::params::collected(pairs)[pairs[i].0] == pairs[i].1,
    decreases pairs.len(),
{
    let end = pairs.len() - 1;
    if i < end {
        let init = pairs.drop_last();
        assert(pairs[end].0 != pairs[i].0);
        assert forall|j: int| i < j < init.len() implies (#[trigger] init[j]).0 != init[i].0 by {
            assert(pairs[j].0 != pairs[i].0);
        }
        lemma_last_value(init, i);
    }
}

/// A name that has a value is that of some pair, and the last such pair gives
/// the value.
pub(crate) proof fn lemma_name_occurs(pairs: Seq<Pair>, name: Seq<char>) -> (i: int)
    requires
        crate::params::collected(pairs).contains_key(name),
    ensures
        0 <= i < pairs.len(),
        pairs[i].0 == name,
        forall|j: int| i < j < pairs.len() ==> (#[trigger] pairs[j]).0 != name,
    decreases pairs.len(),
{
    let end = pairs.len() - 1;
    if pairs[end].0 == name {
        end
    } else {
        let init = pairs.drop_last();
        let i = lemma_name_occurs(init, name);
        assert(pairs[i] == init[i]);
        assert forall|j: int| i < j < pairs.len() implies (#[trigger] pairs[j]).0 != name by {
            if j < end {
                assert(init[j].0 != name);
            }
        }
        i
    }
}

/// A name that some pair has is that of a last such pair.
pub(crate) proof fn lemma_last_place(pairs: Seq<Pair>, i: int) -> (last: int)
    requires
        0 <= i < pairs.len(),
    ensures
        i <= last < pairs.len(),
        pairs[last].0 == pairs[i].0,
        forall|j: int| last < j < pairs.len() ==> (#[trigger] pairs[j]).0 != pairs[i].0,
    decreases pairs.len() - i,
{
    if exists|j: int| i < j < pairs.len() && (#[trigger] pairs[j]).0 == pairs[i].0 {
        let j = choose|j: int| i < j < pairs.len() && (#[trigger] pairs[j]).0 == pairs[i].0;
        lemma_last_place(pairs, j)
    } else {
        i
    }
}

/// A name has a value exactly if some pair gives it one, and that is the whole
/// value of the last pair with this name.
pub proof fn law_the_last_value_counts(
    pairs: Vec<(String, String)>,
    params: QueryParams,
    name: &str,
    value: Option<&String>,
)
    requires
        call_ensures(QueryParams::from_pairs, (pairs,), params),
        call_ensures(QueryParams::get, (&params, name), value),
    ensures
        value is Some <==> exists|i: int| 0 <= i < pairs@.len() && #[trigger] pairs@[i].0@ == name@,
        forall|i: int|
            0 <= i < pairs@.len() && #[trigger] pairs@[i].0@ == name@ && (forall|j: int|
                i < j < pairs@.len() ==> (#[trigger] pairs@[j]).0@ != name@) ==> (
            value matches Some(v) && v@ == pairs@[i].1@),
{
    let texts = crate::params::pair_texts(pairs@);
    assert forall|i: int| 0 <= i < pairs@.len() implies #[trigger] texts[i] == (
        pairs@[i].0@,
        pairs@[i].1@,
    ) by {}
    if value is Some {
        let i = lemma_name_occurs(texts, name@);
        assert(pairs@[i].0@ == name@);
    }
    if exists|i: int| 0 <= i < pairs@.len() && #[trigger] pairs@[i].0@ == name@ {
        let i = choose|i: int| 0 <= i < pairs@.len() && #[trigger] pairs@[i].0@ == name@;
        assert(texts[i].0 == name@);
        let last = lemma_last_place(texts, i);
        lemma_last_value(texts, last);
    }
    assert forall|i: int|
        0 <= i < pairs@.len() && #[trigger] pairs@[i].0@ == name@ && (forall|j: int|
            i < j < pairs@.len() ==> (#[trigger] pairs@[j]).0@ != name@) implies (
    value matches Some(v) && v@ == pairs@[i].1@) by {
        assert(texts[i].0 == name@);
        assert forall|j: int| i < j < texts.len() implies (#[trigger] texts[j]).0
            != texts[i].0 by {
            assert(pairs@[j].0@ != name@);
        }
        lemma_last_value(texts, i);
    }
}

/// Pairs of distinct names are kept as they are.
proof fn lemma_distinct_names_stay(pairs: Seq<Pair>)
    requires
        forall|i: int, j: int|
            0 <= i < j < pairs.len() ==> (#[trigger] pairs[i]).0 != (#[trigger] pairs[j]).0,
    ensures
        crate::params::settled(pairs) == pairs,
    decreases pairs.len(),
{
    if pairs.len() > 0 {
        let init = pairs.drop_last();
        assert forall|i: int, j: int| 0 <= i < j < init.len() implies (#[trigger] init[i]).0 != (
        #[trigger] init[j]).0 by {
            assert(pairs[i].0 != pairs[j].0);
        }
        lemma_distinct_names_stay(init);
        let names = crate::params::pair_names(init);
        names.index_of_first_ensures(pairs.last().0);
        if let Some(i) = names.index_of_first(pairs.last().0) {
            assert(names[i] == init[i].0);
            assert(pairs[i].0 != pairs[pairs.len() - 1].0);
        }
        assert(init.push(pairs.last()) =~= pairs);
    }
}

/// A query without parameters is described by nothing, one with a single
/// parameter by its name and its value, and every further name adds its own
/// behind a dash.
pub proof fn law_parameters_are_described(
    pairs: Vec<(String, String)>,
    params: QueryParams,
    text: String,
    fewer: Vec<(String, String)>,
    fewer_params: QueryParams,
    shorter: String,
)
    requires
        call_ensures(QueryParams::from_pairs, (pairs,), params),
        call_ensures(QueryParams::describe, (&params,), text),
        call_ensures(QueryParams::from_pairs, (fewer,), fewer_params),
        call_ensures(QueryParams::describe, (&fewer_params,), shorter),
        pairs@.len() > 0,
        fewer@ == pairs@.drop_last(),
        forall|i: int, j: int|
            0 <= i < j < pairs@.len() ==> (#[trigger] pairs@[i]).0@ != (#[trigger] pairs@[j]).0@,
    ensures
        pairs@.len() == 1 ==> shorter@.len() == 0 && text@ == pairs@[0].0@ + " -> "@
            + pairs@[0].1@,
        pairs@.len() > 1 ==> text@ == shorter@ + " -- "@ + (pairs@.last().0@ + " -> "@
            + pairs@.last().1@),
{
    let texts = crate::params::pair_texts(pairs@);
    let fewer_texts = crate::params::pair_texts(fewer@);
    assert(fewer_texts =~= texts.drop_last());
    assert forall|i: int, j: int| 0 <= i < j < texts.len() implies (#[trigger] texts[i]).0 != (
    #[trigger] texts[j]).0 by {
        assert(pairs@[i].0@ != pairs@[j].0@);
    }
    assert forall|i: int, j: int| 0 <= i < j < fewer_texts.len() implies (
    #[trigger] fewer_texts[i]).0 != (#[trigger] fewer_texts[j]).0 by {
        assert(pairs@[i].0@ != pairs@[j].0@);
    }
    lemma_distinct_names_stay(texts);
    lemma_distinct_names_stay(fewer_texts);
}

/// A second value for a name changes the description as if it had been given
/// in the first place.
pub proof fn law_a_value_is_described_in_place(
    pairs: Vec<(String, String)>,
    params: QueryParams,
    text: String,
    i: int,
    merged: Vec<(String, String)>,
    merged_params: QueryParams,
    merged_text: String,
)
    requires
        call_ensures(QueryParams::from_pairs, (pairs,), params),
        call_ensures(QueryParams::describe, (&params,), text),
        call_ensures(QueryParams::from_pairs, (merged,), merged_params),
        call_ensures(QueryParams::describe, (&merged_params,), merged_text),
        0 <= i < pairs@.len() - 1,
        pairs@[i].0@ == pairs@.last().0@,
        forall|j: int, k: int|
            0 <= j < k < pairs@.len() - 1 ==> (#[trigger] pairs@[j]).0@ != (
            #[trigger] pairs@[k]).0@,
        merged@ == pairs@.drop_last().update(i, pairs@.last()),
    ensures
        text@ == merged_text@,
{
    let texts = crate::params::pair_texts(pairs@);
    let init = texts.drop_last();
    let merged_texts = crate::params::pair_texts(merged@);
    assert forall|j: int, k: int| 0 <= j < k < init.len() implies (#[trigger] init[j]).0 != (
    #[trigger] init[k]).0 by {
        assert(pairs@[j].0@ != pairs@[k].0@);
    }
    lemma_distinct_names_stay(init);
    let names = crate::params::pair_names(init);
    names.index_of_first_ensures(texts.last().0);
    assert(names[i] == texts.last().0);
    assert(names.contains(texts.last().0));
    let first = names.index_of_first(texts.last().0)->0;
    assert(init[first].0 == init[i].0);
    assert(first == i);
    assert(merged_texts =~= init.update(i, texts.last()));
    assert forall|j: int, k: int| 0 <= j < k < merged_texts.len() implies (
    #[trigger] merged_texts[j]).0 != (#[trigger] merged_texts[k]).0 by {
        assert(init[j].0 != init[k].0);
    }
    lemma_distinct_names_stay(merged_texts);
}

} // verus!
