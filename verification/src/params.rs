//! The parameters of a query, each of which has one value.

use vstd::prelude::*;

use crate::text::same_text;

verus! {

/// A name and its value.
pub type Pair = (Seq<char>, Seq<char>);

/// Pairs of strings as pairs of character sequences.
pub open spec fn pair_texts(pairs: Seq<(String, String)>) -> Seq<Pair> {
    pairs.map_values(|pair: (String, String)| (pair.0@, pair.1@))
}

/// The names of pairs, in their order.
pub open spec fn pair_names(pairs: Seq<Pair>) -> Seq<Seq<char>> {
    pairs.map_values(|pair: Pair| pair.0)
}

/// What pairs say when they are read in order and a later value replaces an
/// earlier one of the same name.
pub open spec fn collected(pairs: Seq<Pair>) -> Map<Seq<char>, Seq<char>>
    decreases pairs.len(),
{
    if pairs.len() == 0 {
        Map::empty()
    } else {
        collected(pairs.drop_last()).insert(pairs.last().0, pairs.last().1)
    }
}

/// The pairs with one more: it replaces the pair of its name, or comes last.
pub open spec fn with_pair(pairs: Seq<Pair>, pair: Pair) -> Seq<Pair> {
    match pair_names(pairs).index_of_first(pair.0) {
        Some(i) => pairs.update(i, pair),
        None => pairs.push(pair),
    }
}

/// The pairs with each name at its first place, under its last value.
pub open spec fn settled(pairs: Seq<Pair>) -> Seq<Pair>
    decreases pairs.len(),
{
    if pairs.len() == 0 {
        Seq::empty()
    } else {
        with_pair(settled(pairs.drop_last()), pairs.last())
    }
}

/// Query parameters.
pub struct QueryParams {
    entries: Vec<(String, String)>,
}

impl View for QueryParams {
    type V = Map<Seq<char>, Seq<char>>;

    open spec fn view(&self) -> Map<Seq<char>, Seq<char>> {
        collected(self.entries())
    }
}

/// The text of one parameter in a description.
pub open spec fn described_pair(pair: Pair) -> Seq<char> {
    pair.0 + " -> "@ + pair.1
}

/// Parameters written one after the other.
pub open spec fn described(pairs: Seq<Pair>) -> Seq<char>
    decreases pairs.len(),
{
    if pairs.len() == 0 {
        Seq::empty()
    } else if pairs.len() == 1 {
        described_pair(pairs[0])
    } else {
        described(pairs.drop_last()) + " -- "@ + described_pair(pairs.last())
    }
}

/// Where the pair named `name` is, the first one if there are more.
pub(crate) fn find(entries: &Vec<(String, String)>, name: &str) -> (found: Option<usize>)
    ensures
        match found {
            Some(i) => i < entries.len() && pair_names(pair_texts(entries@)).index_of_first(name@)
                == Some(i as int),
            None => pair_names(pair_texts(entries@)).index_of_first(name@) is None,
        },
{
    let ghost names = pair_names(pair_texts(entries@));
    proof {
        names.index_of_first_ensures(name@);
    }
    for i in 0..entries.len()
        invariant
            names == pair_names(pair_texts(entries@)),
            forall|j: int| 0 <= j < i ==> #[trigger] names[j] != name@,
            match names.index_of_first(name@) {
                Some(k) => 0 <= k < names.len() && names[k] == name@ && forall|j: int|
                    0 <= j < k ==> names[j] != name@,
                None => !names.contains(name@),
            },
    {
        assert(names[i as int] == entries@[i as int].0@);
        if same_text(entries[i].0.as_str(), name) {
            assert(names.contains(names[i as int]));
            return Some(i);
        }
    }
    None
}

/// In pairs of distinct names, what a name stands for is what its pair says.
proof fn lemma_lookup(pairs: Seq<Pair>, name: Seq<char>)
    requires
        pair_names(pairs).no_duplicates(),
    ensures
        match pair_names(pairs).index_of_first(name) {
            Some(i) => 0 <= i < pairs.len() && collected(pairs).contains_key(name)
                && collected(pairs)[name] == pairs[i].1,
            None => !collected(pairs).contains_key(name),
        },
    decreases pairs.len(),
{
    let names = pair_names(pairs);
    names.index_of_first_ensures(name);
    if pairs.len() > 0 {
        let init = pairs.drop_last();
        assert(pair_names(init) =~= names.drop_last());
        pair_names(init).index_of_first_ensures(name);
        lemma_lookup(init, name);
        assert(names[pairs.len() - 1] == pairs.last().0);
        if let Some(i) = names.index_of_first(name) {
            if i < init.len() {
                assert(pair_names(init)[i] == name);
                let k = pair_names(init).index_of_first(name)->0;
                assert(names[k] == name);
            }
        } else if let Some(k) = pair_names(init).index_of_first(name) {
            assert(names[k] == name);
        }
    }
}

/// Adding a pair keeps names distinct and sets what its name stands for.
proof fn lemma_with_pair(pairs: Seq<Pair>, pair: Pair)
    requires
        pair_names(pairs).no_duplicates(),
    ensures
        pair_names(with_pair(pairs, pair)).no_duplicates(),
        collected(with_pair(pairs, pair)) == collected(pairs).insert(pair.0, pair.1),
    decreases pairs.len(),
{
    let names = pair_names(pairs);
    names.index_of_first_ensures(pair.0);
    match names.index_of_first(pair.0) {
        None => {
            assert(pair_names(pairs.push(pair)) =~= names.push(pair.0));
            assert forall|i: int, j: int|
                0 <= i < names.len() + 1 && 0 <= j < names.len() + 1 && i
                    != j implies names.push(pair.0)[i] != names.push(pair.0)[j] by {
                if i < names.len() {
                    assert(names.contains(names[i]));
                }
                if j < names.len() {
                    assert(names.contains(names[j]));
                }
            }
            assert(pairs.push(pair).drop_last() =~= pairs);
        },
        Some(i) => {
            let updated = pairs.update(i, pair);
            assert(pair_names(updated) =~= names);
            let now = collected(updated);
            let want = collected(pairs).insert(pair.0, pair.1);
            assert forall|name: Seq<char>| #[trigger]
                now.dom().contains(name) <==> want.dom().contains(name) by {
                lemma_lookup(pairs, name);
                lemma_lookup(updated, name);
            }
            assert forall|name: Seq<char>| #[trigger] now.dom().contains(name) implies now[name]
                == want[name] by {
                lemma_lookup(pairs, name);
                lemma_lookup(updated, name);
                names.index_of_first_ensures(name);
            }
            assert(now =~= want);
        },
    }
}

impl QueryParams {
    /// The parameters in the order in which their names first came.
    pub closed spec fn entries(&self) -> Seq<Pair> {
        pair_texts(self.entries@)
    }

    #[verifier::type_invariant]
    spec fn names_are_distinct(self) -> bool {
        pair_names(self.entries()).no_duplicates()
    }

    /// Takes the pairs of a query; a later value of a name replaces an
    /// earlier one.
    pub fn from_pairs(pairs: Vec<(String, String)>) -> (params: QueryParams)
        ensures
            params@ == collected(pair_texts(pairs@)),
            params.entries() == settled(pair_texts(pairs@)),
    {
        let mut entries: Vec<(String, String)> = Vec::new();
        let ghost given = pair_texts(pairs@);
        assert(pair_texts(entries@) =~= settled(given.take(0)));
        assert(collected(given.take(0)) =~= collected(pair_texts(entries@)));
        for i in 0..pairs.len()
            invariant
                given == pair_texts(pairs@),
                pair_names(pair_texts(entries@)).no_duplicates(),
                pair_texts(entries@) == settled(given.take(i as int)),
                collected(pair_texts(entries@)) == collected(given.take(i as int)),
        {
            let ghost before = pair_texts(entries@);
            let ghost pair = given[i as int];
            proof {
                lemma_with_pair(before, pair);
                assert(given.take(i + 1).drop_last() =~= given.take(i as int));
            }
            let name = pairs[i].0.clone();
            let value = pairs[i].1.clone();
            match find(&entries, name.as_str()) {
                Some(k) => {
                    entries.set(k, (name, value));
                    assert(pair_texts(entries@) =~= before.update(k as int, pair));
                },
                None => {
                    entries.push((name, value));
                    assert(pair_texts(entries@) =~= before.push(pair));
                },
            }
        }
        assert(given.take(given.len() as int) =~= given);
        QueryParams { entries }
    }

    /// The value of a parameter.
    pub fn get(&self, name: &str) -> (value: Option<&String>)
        ensures
            match value {
                Some(v) => self@.contains_key(name@) && v@ == self@[name@],
                None => !self@.contains_key(name@),
            },
    {
        proof {
            use_type_invariant(self);
            lemma_lookup(self.entries(), name@);
        }
        match find(&self.entries, name) {
            Some(i) => Some(&self.entries[i].1),
            None => None,
        }
    }

    /// Writes the parameters for a log.
    pub fn describe(&self) -> (text: String)
        ensures
            text@ == described(self.entries()),
    {
        let mut text = String::new();
        let ghost pairs = self.entries();
        assert(described(pairs.take(0)) =~= Seq::<char>::empty());
        for i in 0..self.entries.len()
            invariant
                pairs == pair_texts(self.entries@),
                text@ == described(pairs.take(i as int)),
        {
            assert(pairs.take(i + 1).drop_last() =~= pairs.take(i as int));
            assert(pairs[i as int] == (self.entries@[i as int].0@, self.entries@[i as int].1@));
            if i > 0 {
                text.append(" -- ");
            }
            text.append(self.entries[i].0.as_str());
            text.append(" -> ");
            text.append(self.entries[i].1.as_str());
            assert(text@ =~= described(pairs.take(i + 1)));
        }
        assert(pairs.take(pairs.len() as int) =~= pairs);
        text
    }
}

} // verus!
