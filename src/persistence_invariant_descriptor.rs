use std::collections::HashMap;
use vstd::prelude::*;

verus! {

broadcast use vstd::std_specs::hash::group_hash_axioms;

/// The list stored under `k`, or the empty list where `k` is absent.
pub open spec fn list_at<U>(m: Map<u32, Vec<U>>, k: u32) -> Seq<U> {
    if m.contains_key(k) {
        m[k]@
    } else {
        Seq::empty()
    }
}

/// Appends `v` to the list stored under `k`, creating that list if needed.
fn push_to_list<U>(k: u32, v: U, map: &mut HashMap<u32, Vec<U>>)
    ensures
        final(map)@.dom() == old(map)@.dom().insert(k),
        list_at(final(map)@, k) == list_at(old(map)@, k).push(v),
        forall|d: u32| d != k ==> list_at(final(map)@, d) == list_at(old(map)@, d),
{
    let mut list = match map.remove(&k) {
        Some(l) => l,
        None => Vec::new(),
    };
    list.push(v);
    map.insert(k, list);
}

/// Takes the list stored under `k` out of `map`, or an empty list.
fn take_list<U>(k: u32, map: &mut HashMap<u32, Vec<U>>) -> (r: Vec<U>)
    ensures
        r@ == list_at(old(map)@, k),
{
    match map.remove(&k) {
        Some(l) => l,
        None => Vec::new(),
    }
}

/// Removes from `map` every key at or above `max_dim`.
fn remove_keys_from<U>(keys: &Vec<u32>, max_dim: u32, map: &mut HashMap<u32, Vec<U>>)
    ensures
        forall|d: u32|
            #![trigger final(map)@.contains_key(d)]
            final(map)@.contains_key(d) <==> (old(map)@.contains_key(d) && (d < max_dim
                || !keys@.contains(d))),
        forall|d: u32|
            #[trigger] final(map)@.contains_key(d) ==> final(map)@[d] == old(map)@[d],
{
    let ghost m0 = map@;
    let mut i: usize = 0;
    while i < keys.len()
        invariant
            i <= keys.len(),
            forall|d: u32|
                #![trigger map@.contains_key(d)]
                map@.contains_key(d) <==> (m0.contains_key(d) && (d < max_dim
                    || !keys@.take(i as int).contains(d))),
            forall|d: u32| #[trigger] map@.contains_key(d) ==> map@[d] == m0[d],
        decreases keys.len() - i,
    {
        let d = keys[i];
        if d >= max_dim {
            map.remove(&d);
        }
        proof {
            assert(keys@.take(i as int + 1) == keys@.take(i as int).push(d));
            assert forall|x: u32| keys@.take(i as int + 1).contains(x) <==> (keys@.take(
                i as int,
            ).contains(x) || x == d) by {
                if keys@.take(i as int).contains(x) {
                    let j = choose|j: int|
                        0 <= j < i && #[trigger] keys@.take(i as int)[j] == x;
                    assert(keys@.take(i as int + 1)[j] == x);
                }
                if x == d {
                    assert(keys@.take(i as int + 1)[i as int] == x);
                }
            }
        }
        i = i + 1;
    }
    proof {
        assert(keys@.take(keys@.len() as int) == keys@);
    }
}

/// Per dimension, three lists kept in step: the intervals, their generators,
/// and the (interval, generator) pairs, in the order they were added.
#[derive(Debug, PartialEq)]
pub struct PersistenceInvariantDescriptor<I, G> {
    pub intervals: HashMap<u32, Vec<I>>,
    pub generators: HashMap<u32, Vec<G>>,
    pub interval_generator_pairs: HashMap<u32, Vec<(I, G)>>,
}

impl<I: Clone, G: Clone> Clone for PersistenceInvariantDescriptor<I, G> {
    /// A copy holding the very same lists.
    fn clone(&self) -> (r: Self)
        ensures
            r.intervals@ == self.intervals@,
            r.generators@ == self.generators@,
            r.interval_generator_pairs@ == self.interval_generator_pairs@,
    {
        PersistenceInvariantDescriptor {
            intervals: self.intervals.clone(),
            generators: self.generators.clone(),
            interval_generator_pairs: self.interval_generator_pairs.clone(),
        }
    }
}

impl<I: Clone, G: Clone> PersistenceInvariantDescriptor<I, G> {
    pub open spec fn intervals_at(&self, d: u32) -> Seq<I> {
        list_at(self.intervals@, d)
    }

    pub open spec fn generators_at(&self, d: u32) -> Seq<G> {
        list_at(self.generators@, d)
    }

    pub open spec fn pairs_at(&self, d: u32) -> Seq<(I, G)> {
        list_at(self.interval_generator_pairs@, d)
    }

    /// The dimensions that hold at least one entry.
    pub open spec fn dimensions(&self) -> Set<u32> {
        self.intervals@.dom()
    }

    /// The three maps record the same dimensions, none of them with an empty
    /// list, and at each dimension the three lists have one length; entry `i`
    /// of the interval and generator lists is a clone of the parts of pair `i`.
    pub open spec fn wf(&self) -> bool {
        &&& self.generators@.dom() == self.intervals@.dom()
        &&& self.interval_generator_pairs@.dom() == self.intervals@.dom()
        &&& forall|d: u32| #[trigger]
            self.intervals@.contains_key(d) ==> self.intervals_at(d).len() > 0
        &&& forall|d: u32|
            {
                &&& #[trigger] self.intervals_at(d).len() == self.pairs_at(d).len()
                &&& self.generators_at(d).len() == self.pairs_at(d).len()
            }
        &&& forall|d: u32, i: int|
            0 <= i < self.pairs_at(d).len() ==> {
                &&& cloned(#[trigger] self.pairs_at(d)[i].0, self.intervals_at(d)[i])
                &&& cloned(self.pairs_at(d)[i].1, self.generators_at(d)[i])
            }
    }

    pub fn new() -> (r: Self)
        ensures
            r.wf(),
            r.dimensions().is_empty(),
            forall|d: u32| #[trigger] r.pairs_at(d).len() == 0,
    {
        PersistenceInvariantDescriptor {
            intervals: HashMap::new(),
            generators: HashMap::new(),
            interval_generator_pairs: HashMap::new(),
        }
    }

    /// Appends one entry at `dimension` to all three lists.
    pub fn add_interval(&mut self, dimension: u32, interval: I, generator: G)
        ensures
            old(self).wf() ==> final(self).wf(),
            final(self).dimensions() == old(self).dimensions().insert(dimension),
            final(self).pairs_at(dimension) == old(self).pairs_at(dimension).push(
                (interval, generator),
            ),
            final(self).intervals_at(dimension).len() == old(self).intervals_at(dimension).len()
                + 1,
            final(self).intervals_at(dimension).drop_last() == old(self).intervals_at(dimension),
            cloned(interval, final(self).intervals_at(dimension).last()),
            final(self).generators_at(dimension).len() == old(self).generators_at(
                dimension,
            ).len() + 1,
            final(self).generators_at(dimension).drop_last() == old(self).generators_at(
                dimension,
            ),
            cloned(generator, final(self).generators_at(dimension).last()),
            forall|d: u32| d != dimension ==> #[trigger] final(self).pairs_at(d) == old(self).pairs_at(d),
            forall|d: u32|
                d != dimension ==> #[trigger] final(self).intervals_at(d) == old(self).intervals_at(
                    d,
                ),
            forall|d: u32|
                d != dimension ==> #[trigger] final(self).generators_at(d) == old(
                    self,
                ).generators_at(d),
    {
        let interval_copy = interval.clone();
        let generator_copy = generator.clone();
        push_to_list(dimension, interval_copy, &mut self.intervals);
        push_to_list(dimension, generator_copy, &mut self.generators);
        push_to_list(dimension, (interval, generator), &mut self.interval_generator_pairs);
        proof {
            assert(self.intervals_at(dimension).drop_last() =~= old(self).intervals_at(dimension));
            assert(self.generators_at(dimension).drop_last() =~= old(self).generators_at(
                dimension,
            ));
            assert(cloned(interval, interval_copy));
            assert(cloned(generator, generator_copy));
            let o = *old(self);
            if o.wf() {
                assert forall|d: u32, i: int| 0 <= i < self.pairs_at(d).len() implies {
                    &&& cloned(#[trigger] self.pairs_at(d)[i].0, self.intervals_at(d)[i])
                    &&& cloned(self.pairs_at(d)[i].1, self.generators_at(d)[i])
                } by {
                    if d != dimension || i < o.pairs_at(d).len() {
                        assert(self.pairs_at(d)[i] == o.pairs_at(d)[i]);
                    }
                }
            }
        }
    }

    /// The dimensions that have an entry, each once, in no particular order.
    pub fn get_dimensions(self) -> (r: Vec<u32>)
        ensures
            r@.no_duplicates(),
            r@.to_set() == self.dimensions(),
    {
        self.dimension_list()
    }

    pub(crate) fn dimension_list(&self) -> (r: Vec<u32>)
        ensures
            r@.no_duplicates(),
            r@.to_set() == self.dimensions(),
    {
        let mut dims: Vec<u32> = Vec::new();
        for k in it: self.intervals.keys()
            invariant
                dims@.len() == it.index(),
                forall|j: int| 0 <= j < it.index() ==> dims@[j] == *it.seq()[j],
                it.seq().unref().to_set() == self.intervals@.dom(),
                it.index() == it.seq().len() ==> dims@ =~= it.seq().unref(),
        {
            dims.push(*k);
        }
        dims
    }

    pub fn get_intervals_at_dimension(self, dimension: u32) -> (r: Vec<I>)
        ensures
            r@ == self.intervals_at(dimension),
    {
        let mut owned = self;
        take_list(dimension, &mut owned.intervals)
    }

    pub fn get_generators_at_dimension(self, dimension: u32) -> (r: Vec<G>)
        ensures
            r@ == self.generators_at(dimension),
    {
        let mut owned = self;
        take_list(dimension, &mut owned.generators)
    }

    pub fn get_interval_generator_pairs_at_dimension(self, dimension: u32) -> (r: Vec<(I, G)>)
        ensures
            r@ == self.pairs_at(dimension),
    {
        let mut owned = self;
        take_list(dimension, &mut owned.interval_generator_pairs)
    }

    /// Drops every dimension at or above `max_dim` from all three maps.
    pub(crate) fn retain_below(&mut self, max_dim: u32)
        requires
            old(self).wf(),
        ensures
            final(self).wf(),
            final(self).dimensions() == old(self).dimensions().filter(|d: u32| d < max_dim),
            forall|d: u32|
                #![trigger final(self).pairs_at(d)]
                final(self).pairs_at(d) == if d < max_dim {
                    old(self).pairs_at(d)
                } else {
                    Seq::empty()
                },
    {
        let keys = self.dimension_list();
        remove_keys_from(&keys, max_dim, &mut self.intervals);
        remove_keys_from(&keys, max_dim, &mut self.generators);
        remove_keys_from(&keys, max_dim, &mut self.interval_generator_pairs);
        proof {
            let o = *old(self);
            assert forall|d: u32| o.intervals@.contains_key(d) implies keys@.contains(d) by {
                assert(keys@.to_set().contains(d));
            }
            assert(self.intervals@.dom() =~= o.dimensions().filter(|d: u32| d < max_dim));
            assert(self.generators@.dom() =~= self.intervals@.dom());
            assert(self.interval_generator_pairs@.dom() =~= self.intervals@.dom());
            assert forall|d: u32| #[trigger] self.pairs_at(d) == if d < max_dim {
                o.pairs_at(d)
            } else {
                Seq::empty()
            } by {
                if d >= max_dim && o.intervals@.contains_key(d) {
                    assert(keys@.contains(d));
                }
            }
            assert forall|d: u32|
                {
                    &&& #[trigger] self.intervals_at(d).len() == self.pairs_at(d).len()
                    &&& self.generators_at(d).len() == self.pairs_at(d).len()
                } by {
                if d >= max_dim && o.intervals@.contains_key(d) {
                    assert(keys@.contains(d));
                }
            }
            assert forall|d: u32, i: int| 0 <= i < self.pairs_at(d).len() implies {
                &&& cloned(#[trigger] self.pairs_at(d)[i].0, self.intervals_at(d)[i])
                &&& cloned(self.pairs_at(d)[i].1, self.generators_at(d)[i])
            } by {
                if d >= max_dim && o.intervals@.contains_key(d) {
                    assert(keys@.contains(d));
                }
            }
        }
    }
}

} // verus!
