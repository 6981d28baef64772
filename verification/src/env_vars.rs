//! A set of named values, such as environment variables.

use vstd::prelude::*;

verus! {

/// A name and its value.
pub type Pair = (Seq<char>, Seq<char>);

/// What a pair of strings holds.
pub open spec fn pair_view(pair: (String, String)) -> Pair {
    (pair.0@, pair.1@)
}

/// What a sequence of pairs of strings holds.
pub open spec fn pairs_view(pairs: Seq<(String, String)>) -> Seq<Pair> {
    pairs.map_values(|pair: (String, String)| pair_view(pair))
}

/// The map that results from inserting `pairs` into `map` one after the
/// other: a later pair replaces an earlier one of the same name.
pub open spec fn insert_all(map: Map<Seq<char>, Seq<char>>, pairs: Seq<Pair>) -> Map<
    Seq<char>,
    Seq<char>,
>
    decreases pairs.len(),
{
    if pairs.len() == 0 {
        map
    } else {
        insert_all(map, pairs.drop_last()).insert(pairs.last().0, pairs.last().1)
    }
}

/// Whether no name occurs twice.
pub open spec fn distinct_names(pairs: Seq<Pair>) -> bool {
    forall|i: int, j: int| 0 <= i < j < pairs.len() ==> pairs[i].0 != pairs[j].0
}

/// Whether `name` is the name of one of `pairs`.
pub open spec fn has_name(pairs: Seq<Pair>, name: Seq<char>) -> bool {
    exists|i: int| 0 <= i < pairs.len() && #[trigger] pairs[i].0 == name
}

/// The names in a map built from pairs are the names it had before and the
/// names of the pairs.
pub proof fn lemma_insert_all_names(map: Map<Seq<char>, Seq<char>>, pairs: Seq<Pair>, name: Seq<char>)
    ensures
        insert_all(map, pairs).contains_key(name) <==> map.contains_key(name) || has_name(
            pairs,
            name,
        ),
    decreases pairs.len(),
{
    if pairs.len() > 0 {
        let rest = pairs.drop_last();
        lemma_insert_all_names(map, rest, name);
        if has_name(pairs, name) {
            let i = choose|i: int| 0 <= i < pairs.len() && #[trigger] pairs[i].0 == name;
            if i < rest.len() {
                assert(rest[i].0 == name);
            }
        }
        if has_name(rest, name) {
            let i = choose|i: int| 0 <= i < rest.len() && #[trigger] rest[i].0 == name;
            assert(pairs[i].0 == name);
        }
        if pairs.last().0 == name {
            assert(pairs[pairs.len() - 1].0 == name);
        }
    }
}

/// Where no name occurs twice, the map gives each name the value that stands
/// beside it.
pub proof fn lemma_insert_all_value(map: Map<Seq<char>, Seq<char>>, pairs: Seq<Pair>, i: int)
    requires
        distinct_names(pairs),
        0 <= i < pairs.len(),
    ensures
        insert_all(map, pairs).contains_key(pairs[i].0),
        insert_all(map, pairs)[pairs[i].0] == pairs[i].1,
    decreases pairs.len(),
{
    let rest = pairs.drop_last();
    if i < rest.len() {
        assert(distinct_names(rest)) by {
            assert forall|a: int, b: int| 0 <= a < b < rest.len() implies rest[a].0 != rest[b].0 by {
                assert(pairs[a].0 != pairs[b].0);
            }
        }
        lemma_insert_all_value(map, rest, i);
        assert(rest[i] == pairs[i]);
        assert(pairs[i].0 != pairs[pairs.len() - 1].0);
    }
}

/// Where no name occurs twice, giving the `i`-th pair a new value is the same
/// as inserting its name with that value.
pub proof fn lemma_insert_all_update(
    map: Map<Seq<char>, Seq<char>>,
    pairs: Seq<Pair>,
    i: int,
    value: Seq<char>,
)
    requires
        distinct_names(pairs),
        0 <= i < pairs.len(),
    ensures
        insert_all(map, pairs.update(i, (pairs[i].0, value))) == insert_all(map, pairs).insert(
            pairs[i].0,
            value,
        ),
    decreases pairs.len(),
{
    let name = pairs[i].0;
    let updated = pairs.update(i, (name, value));
    let rest = pairs.drop_last();
    if i == pairs.len() - 1 {
        assert(updated.drop_last() =~= rest);
        assert(insert_all(map, updated) =~= insert_all(map, pairs).insert(name, value));
    } else {
        assert(distinct_names(rest)) by {
            assert forall|a: int, b: int| 0 <= a < b < rest.len() implies rest[a].0 != rest[b].0 by {
                assert(pairs[a].0 != pairs[b].0);
            }
        }
        lemma_insert_all_update(map, rest, i, value);
        assert(updated.drop_last() =~= rest.update(i, (name, value)));
        assert(updated.last() == pairs.last());
        assert(pairs[i].0 != pairs[pairs.len() - 1].0);
        assert(insert_all(map, updated) =~= insert_all(map, pairs).insert(name, value));
    }
}

/// Where no name occurs twice, the map has as many names as there are pairs.
pub proof fn lemma_insert_all_len(pairs: Seq<Pair>)
    requires
        distinct_names(pairs),
    ensures
        insert_all(Map::empty(), pairs).dom().finite(),
        insert_all(Map::empty(), pairs).len() == pairs.len(),
    decreases pairs.len(),
{
    if pairs.len() > 0 {
        let rest = pairs.drop_last();
        assert(distinct_names(rest)) by {
            assert forall|a: int, b: int| 0 <= a < b < rest.len() implies rest[a].0 != rest[b].0 by {
                assert(pairs[a].0 != pairs[b].0);
            }
        }
        lemma_insert_all_len(rest);
        lemma_insert_all_names(Map::empty(), rest, pairs.last().0);
        if has_name(rest, pairs.last().0) {
            let i = choose|i: int| 0 <= i < rest.len() && #[trigger] rest[i].0 == pairs.last().0;
            assert(pairs[i].0 != pairs[pairs.len() - 1].0);
        }
    }
}

/// Named values in which every name occurs once.
#[derive(Debug)]
pub struct EnvVars {
    entries: Vec<(String, String)>,
}

impl View for EnvVars {
    type V = Map<Seq<char>, Seq<char>>;

    closed spec fn view(&self) -> Map<Seq<char>, Seq<char>> {
        insert_all(Map::empty(), pairs_view(self.entries@))
    }
}

impl EnvVars {
    #[verifier::type_invariant]
    spec fn inv(self) -> bool {
        distinct_names(pairs_view(self.entries@))
    }

    /// No values at all.
    pub fn new() -> (vars: EnvVars)
        ensures
            vars@ == Map::<Seq<char>, Seq<char>>::empty(),
    {
        let vars = EnvVars { entries: Vec::new() };
        assert(pairs_view(vars.entries@) =~= Seq::<Pair>::empty());
        vars
    }

    /// Where `name` stands among the entries, if it does.
    fn position(&self, name: &String) -> (at: Option<usize>)
        ensures
            match at {
                Some(i) => i < self.entries@.len() && self.entries@[i as int].0@ == name@,
                None => !has_name(pairs_view(self.entries@), name@),
            },
    {
        let mut i: usize = 0;
        while i < self.entries.len()
            invariant
                i <= self.entries@.len(),
                forall|j: int| 0 <= j < i ==> self.entries@[j].0@ != name@,
            decreases self.entries@.len() - i,
        {
            if self.entries[i].0 == *name {
                return Some(i);
            }
            i = i + 1;
        }
        proof {
            let pairs = pairs_view(self.entries@);
            assert forall|j: int| 0 <= j < pairs.len() implies #[trigger] pairs[j].0 != name@ by {
                assert(pairs[j] == pair_view(self.entries@[j]));
            }
        }
        None
    }

    /// Gives `name` the value `value`, replacing the value it had.
    pub fn insert(&mut self, name: String, value: String)
        ensures
            final(self)@ == old(self)@.insert(name@, value@),
    {
        proof {
            use_type_invariant(&*self);
        }
        let ghost before = pairs_view(self.entries@);
        match self.position(&name) {
            Some(i) => {
                proof {
                    lemma_insert_all_update(Map::empty(), before, i as int, value@);
                }
                let mut entries: Vec<(String, String)> = Vec::new();
                assert(pairs_view(entries@) =~= Seq::<Pair>::empty());
                core::mem::swap(&mut self.entries, &mut entries);
                entries[i] = (name, value);
                proof {
                    let after = pairs_view(entries@);
                    assert(after =~= before.update(i as int, (before[i as int].0, value@)));
                    assert forall|a: int, b: int| 0 <= a < b < after.len() implies after[a].0
                        != after[b].0 by {
                        assert(before[a].0 != before[b].0);
                    }
                }
                core::mem::swap(&mut self.entries, &mut entries);
            },
            None => {
                let mut entries: Vec<(String, String)> = Vec::new();
                assert(pairs_view(entries@) =~= Seq::<Pair>::empty());
                core::mem::swap(&mut self.entries, &mut entries);
                entries.push((name, value));
                proof {
                    let after = pairs_view(entries@);
                    assert forall|a: int, b: int| 0 <= a < b < after.len() implies after[a].0
                        != after[b].0 by {
                        if b < before.len() {
                            assert(before[a].0 != before[b].0);
                        } else {
                            assert(before[a].0 == after[a].0);
                        }
                    }
                }
                core::mem::swap(&mut self.entries, &mut entries);
                proof {
                    let after = pairs_view(self.entries@);
                    assert(after.drop_last() =~= before);
                    assert(after.last() == (name@, value@));
                    assert forall|a: int, b: int| 0 <= a < b < after.len() implies after[a].0
                        != after[b].0 by {
                        if b < before.len() {
                            assert(before[a].0 != before[b].0);
                        } else {
                            assert(before[a].0 == after[a].0);
                        }
                    }
                }
            },
        }
    }

    /// The value of `name`, if it has one.
    pub fn get(&self, name: &str) -> (value: Option<&String>)
        ensures
            match value {
                Some(v) => self@.contains_key(name@) && self@[name@] == v@,
                None => !self@.contains_key(name@),
            },
    {
        proof {
            use_type_invariant(self);
        }
        let owned = name.to_owned();
        let ghost pairs = pairs_view(self.entries@);
        proof {
            lemma_insert_all_names(Map::empty(), pairs, name@);
        }
        match self.position(&owned) {
            Some(i) => {
                proof {
                    lemma_insert_all_value(Map::empty(), pairs, i as int);
                }
                Some(&self.entries[i].1)
            },
            None => None,
        }
    }

    /// Whether `name` has a value.
    pub fn contains_key(&self, name: &str) -> (found: bool)
        ensures
            found == self@.contains_key(name@),
    {
        self.get(name).is_some()
    }

    /// Whether there are no values.
    pub fn is_empty(&self) -> (empty: bool)
        ensures
            empty == (self@ == Map::<Seq<char>, Seq<char>>::empty()),
    {
        proof {
            let pairs = pairs_view(self.entries@);
            if pairs.len() > 0 {
                lemma_insert_all_names(Map::empty(), pairs, pairs[0].0);
                assert(has_name(pairs, pairs[0].0));
            }
        }
        self.entries.len() == 0
    }

    /// Inserts every value of `other`, which replaces values of the same
    /// name.
    pub fn extend(&mut self, other: &EnvVars)
        ensures
            final(self)@ == old(self)@.union_prefer_right(other@),
    {
        let mut i: usize = 0;
        let ghost pairs = pairs_view(other.entries@);
        assert(pairs.take(0) =~= Seq::<Pair>::empty());
        assert(self@.union_prefer_right(Map::empty()) =~= self@);
        while i < other.entries.len()
            invariant
                i <= other.entries@.len(),
                pairs == pairs_view(other.entries@),
                self@ == old(self)@.union_prefer_right(insert_all(Map::empty(), pairs.take(i as int))),
            decreases other.entries@.len() - i,
        {
            let ghost done = insert_all(Map::empty(), pairs.take(i as int));
            let name = other.entries[i].0.clone();
            let value = other.entries[i].1.clone();
            self.insert(name, value);
            proof {
                assert(pairs.take(i + 1).drop_last() =~= pairs.take(i as int));
                assert(pairs.take(i + 1).last() == (name@, value@));
                assert(old(self)@.union_prefer_right(done).insert(name@, value@) =~= old(
                    self,
                )@.union_prefer_right(done.insert(name@, value@)));
            }
            i = i + 1;
        }
        assert(pairs.take(i as int) =~= pairs);
    }

    /// The names and their values, in the order in which the names were
    /// first inserted.
    pub closed spec fn pairs(&self) -> Seq<Pair> {
        pairs_view(self.entries@)
    }

    /// The number of names. No name is counted twice: the pairs hold every
    /// name of the map once.
    pub fn len(&self) -> (n: usize)
        ensures
            n == self.pairs().len(),
            n == self@.len(),
            distinct_names(self.pairs()),
            self@ == insert_all(Map::empty(), self.pairs()),
    {
        proof {
            use_type_invariant(self);
            lemma_insert_all_len(pairs_view(self.entries@));
        }
        self.entries.len()
    }

    /// The `i`-th name and value, in the order in which the names were first
    /// inserted.
    pub fn pair(&self, i: usize) -> (pair: (&String, &String))
        requires
            i < self.pairs().len(),
        ensures
            (pair.0@, pair.1@) == self.pairs()[i as int],
            self@.contains_key(pair.0@),
            self@[pair.0@] == pair.1@,
    {
        proof {
            use_type_invariant(self);
            lemma_insert_all_value(Map::empty(), pairs_view(self.entries@), i as int);
        }
        (&self.entries[i].0, &self.entries[i].1)
    }
}

/// What `merge` gives: when `cumulative`, the values of both sources with
/// those of the file winning; otherwise the values of the vault if it gave
/// any, else those of the file.
pub open spec fn spec_merge(
    vault: Map<Seq<char>, Seq<char>>,
    file: Map<Seq<char>, Seq<char>>,
    cumulative: bool,
) -> Map<Seq<char>, Seq<char>> {
    if cumulative {
        vault.union_prefer_right(file)
    } else if vault != Map::<Seq<char>, Seq<char>>::empty() {
        vault
    } else {
        file
    }
}

/// Chooses between the values that the vault gave and those of a file, or
/// puts them together.
pub fn merge(vault: EnvVars, file: EnvVars, cumulative: bool) -> (vars: EnvVars)
    ensures
        vars@ == spec_merge(vault@, file@, cumulative),
{
    if cumulative {
        let mut res = EnvVars::new();
        res.extend(&vault);
        res.extend(&file);
        assert(Map::<Seq<char>, Seq<char>>::empty().union_prefer_right(vault@) =~= vault@);
        res
    } else if !vault.is_empty() {
        vault
    } else {
        file
    }
}

} // verus!
