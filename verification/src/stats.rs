//! Per-prompt counters of past successes and misses.

use vstd::prelude::*;

verus! {

/// The map that a list of `(key, count)` pairs spells, later pairs winning.
pub open spec fn as_map(pairs: Seq<(Seq<char>, u32)>) -> Map<Seq<char>, u32>
    decreases pairs.len(),
{
    if pairs.len() == 0 {
        Map::empty()
    } else {
        as_map(pairs.drop_last()).insert(pairs.last().0, pairs.last().1)
    }
}

/// Whether no key occurs twice in `pairs`.
pub open spec fn distinct_keys(pairs: Seq<(Seq<char>, u32)>) -> bool {
    forall|i: int, j: int|
        0 <= i < j < pairs.len() ==> (#[trigger] pairs[i]).0 != (#[trigger] pairs[j]).0
}

/// The count that `counts` holds for `key`: zero for a key it does not hold.
pub open spec fn count_in(counts: Map<Seq<char>, u32>, key: Seq<char>) -> u32 {
    if counts.contains_key(key) {
        counts[key]
    } else {
        0
    }
}

/// One more than `n`, as far as a `u32` goes.
pub open spec fn bumped(n: u32) -> u32 {
    if n == u32::MAX {
        n
    } else {
        (n + 1) as u32
    }
}

/// The map of a list holds exactly the keys of the list.
pub proof fn lemma_as_map_keys(pairs: Seq<(Seq<char>, u32)>, key: Seq<char>)
    ensures
        as_map(pairs).contains_key(key) <==> exists|i: int|
            0 <= i < pairs.len() && (#[trigger] pairs[i]).0 == key,
    decreases pairs.len(),
{
    if pairs.len() > 0 {
        let p = pairs.drop_last();
        lemma_as_map_keys(p, key);
        if as_map(pairs).contains_key(key) {
            if pairs.last().0 != key {
                let i = choose|i: int| 0 <= i < p.len() && (#[trigger] p[i]).0 == key;
                assert(pairs[i].0 == key);
            }
        } else {
            assert forall|i: int| 0 <= i < pairs.len() implies (#[trigger] pairs[i]).0 != key by {
                if i < p.len() {
                    assert(p[i].0 == pairs[i].0);
                }
            }
        }
    }
}

/// Where no key occurs twice, the map of a list gives each key the count
/// that stands beside it.
pub proof fn lemma_as_map_at(pairs: Seq<(Seq<char>, u32)>, i: int)
    requires
        distinct_keys(pairs),
        0 <= i < pairs.len(),
    ensures
        as_map(pairs).contains_key(pairs[i].0),
        as_map(pairs)[pairs[i].0] == pairs[i].1,
    decreases pairs.len(),
{
    let p = pairs.drop_last();
    if i < pairs.len() - 1 {
        lemma_as_map_at(p, i);
    }
}

/// Where no key occurs twice, a new count beside a key is a new count for
/// that key in the map.
pub proof fn lemma_as_map_update(pairs: Seq<(Seq<char>, u32)>, i: int, count: u32)
    requires
        distinct_keys(pairs),
        0 <= i < pairs.len(),
    ensures
        as_map(pairs.update(i, (pairs[i].0, count))) == as_map(pairs).insert(pairs[i].0, count),
        distinct_keys(pairs.update(i, (pairs[i].0, count))),
    decreases pairs.len(),
{
    let key = pairs[i].0;
    let changed = pairs.update(i, (key, count));
    let p = pairs.drop_last();
    if i == pairs.len() - 1 {
        assert(changed.drop_last() =~= p);
    } else {
        lemma_as_map_update(p, i, count);
        assert(changed.drop_last() =~= p.update(i, (key, count)));
    }
}

/// Counts by prompt. A prompt that was never counted stands at zero.
pub struct Tally {
    entries: Vec<(String, u32)>,
}

impl View for Tally {
    type V = Map<Seq<char>, u32>;

    closed spec fn view(&self) -> Map<Seq<char>, u32> {
        as_map(self.entries.deep_view())
    }
}

impl Tally {
    /// No prompt is listed twice.
    #[verifier::type_invariant]
    spec fn inv(&self) -> bool {
        distinct_keys(self.entries.deep_view())
    }

    /// A tally without counts.
    pub fn new() -> (out: Self)
        ensures
            out@ == Map::<Seq<char>, u32>::empty(),
    {
        let entries: Vec<(String, u32)> = Vec::new();
        Tally { entries }
    }

    /// Where `key` is listed, if it is.
    fn position(&self, key: &String) -> (found: Option<usize>)
        ensures
            match found {
                Some(i) => i < self.entries.len() && self.entries.deep_view()[i as int].0 == key@,
                None => !self@.contains_key(key@),
            },
    {
        let mut i: usize = 0;
        while i < self.entries.len()
            invariant
                i <= self.entries.len(),
                forall|j: int| 0 <= j < i ==> (#[trigger] self.entries.deep_view()[j]).0 != key@,
            decreases self.entries.len() - i,
        {
            if self.entries[i].0 == *key {
                return Some(i);
            }
            i += 1;
        }
        proof {
            lemma_as_map_keys(self.entries.deep_view(), key@);
        }
        None
    }

    /// The count of `key`.
    pub fn get(&self, key: &String) -> (count: u32)
        ensures
            count == count_in(self@, key@),
    {
        proof {
            use_type_invariant(self);
        }
        match self.position(key) {
            Some(i) => {
                proof {
                    lemma_as_map_at(self.entries.deep_view(), i as int);
                }
                self.entries[i].1
            },
            None => 0,
        }
    }

    /// Counts `key` once more. A count that has reached `u32::MAX` stays.
    pub fn bump(&mut self, key: &String)
        ensures
            final(self)@ == old(self)@.insert(key@, bumped(count_in(old(self)@, key@))),
    {
        proof {
            use_type_invariant(&*self);
        }
        let ghost before = self.entries.deep_view();
        let found = self.position(key);
        let mut entries: Vec<(String, u32)> = Vec::new();
        core::mem::swap(&mut entries, &mut self.entries);
        match found {
            Some(i) => {
                let count = entries[i].1;
                let next = if count == u32::MAX {
                    count
                } else {
                    count + 1
                };
                proof {
                    lemma_as_map_at(before, i as int);
                    lemma_as_map_update(before, i as int, next);
                }
                entries.set(i, (key.clone(), next));
                assert(entries.deep_view() =~= before.update(i as int, (key@, next)));
            },
            None => {
                proof {
                    lemma_as_map_keys(before, key@);
                }
                entries.push((key.clone(), 1));
                assert(entries.deep_view() =~= before.push((key@, 1u32)));
                assert(entries.deep_view().drop_last() =~= before);
            },
        }
        self.entries = entries;
    }

    /// A copy of the list.
    fn copy_entries(&self) -> (out: Vec<(String, u32)>)
        ensures
            out.deep_view() == self.entries.deep_view(),
    {
        let ghost all = self.entries.deep_view();
        let mut out: Vec<(String, u32)> = Vec::new();
        let mut i: usize = 0;
        while i < self.entries.len()
            invariant
                i <= self.entries.len(),
                all == self.entries.deep_view(),
                out.deep_view() == all.take(i as int),
            decreases self.entries.len() - i,
        {
            let ghost prior = out.deep_view();
            let key = self.entries[i].0.clone();
            let count = self.entries[i].1;
            out.push((key, count));
            assert(out.deep_view() =~= prior.push((key@, count)));
            i += 1;
        }
        out
    }

    /// Every counted prompt with its count, in the order of first counting.
    pub fn pairs(&self) -> (out: Vec<(String, u32)>)
        ensures
            distinct_keys(out.deep_view()),
            as_map(out.deep_view()) == self@,
    {
        proof {
            use_type_invariant(self);
        }
        self.copy_entries()
    }
}

impl Clone for Tally {
    fn clone(&self) -> (out: Self)
        ensures
            out@ == self@,
    {
        proof {
            use_type_invariant(self);
        }
        Tally { entries: self.copy_entries() }
    }
}

/// The statistics of a vocabulary: for each prompt, how often a card of it
/// was solved and how often one reached the floor.
pub struct CardStats {
    /// Successes by prompt.
    pub successes: Tally,
    /// Misses by prompt.
    pub misses: Tally,
}

impl CardStats {
    /// Statistics without counts.
    pub fn new() -> (out: Self)
        ensures
            out.successes@ == Map::<Seq<char>, u32>::empty(),
            out.misses@ == Map::<Seq<char>, u32>::empty(),
    {
        CardStats { successes: Tally::new(), misses: Tally::new() }
    }

    /// Counts a success for `prompt`.
    pub fn record_success(&mut self, prompt: &String)
        ensures
            final(self).successes@ == old(self).successes@.insert(
                prompt@,
                bumped(count_in(old(self).successes@, prompt@)),
            ),
            final(self).misses@ == old(self).misses@,
    {
        self.successes.bump(prompt);
    }

    /// Counts a miss for `prompt`.
    pub fn record_miss(&mut self, prompt: &String)
        ensures
            final(self).misses@ == old(self).misses@.insert(
                prompt@,
                bumped(count_in(old(self).misses@, prompt@)),
            ),
            final(self).successes@ == old(self).successes@,
    {
        self.misses.bump(prompt);
    }

    /// The successes and the misses of `prompt`, zero where there were none.
    pub fn lookup(&self, prompt: &String) -> (counts: (u32, u32))
        ensures
            counts.0 == count_in(self.successes@, prompt@),
            counts.1 == count_in(self.misses@, prompt@),
    {
        (self.successes.get(prompt), self.misses.get(prompt))
    }
}

} // verus!
