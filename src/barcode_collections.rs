use crate::intervals::{Interval, IntervalEndpoint};
use crate::persistence_invariant_descriptor::PersistenceInvariantDescriptor;
use vstd::prelude::*;

verus! {

pub open spec fn is_infinite_entry<T: IntervalEndpoint, G>(e: (Interval<T>, G)) -> bool {
    e.0.infinite()
}

/// The entries of `s` whose interval is infinite, in their order.
pub open spec fn infinite_entries<T: IntervalEndpoint, G>(s: Seq<(Interval<T>, G)>) -> Seq<
    (Interval<T>, G),
> {
    s.filter(|e: (Interval<T>, G)| is_infinite_entry(e))
}

/// `b` holds the entries of `a`, in order, with the same intervals and with
/// clones of their generators.
pub open spec fn copies_entries<T: IntervalEndpoint, G: Clone>(
    a: Seq<(Interval<T>, G)>,
    b: Seq<(Interval<T>, G)>,
) -> bool {
    &&& a.len() == b.len()
    &&& forall|i: int|
        0 <= i < a.len() ==> #[trigger] b[i].0 == a[i].0 && cloned(a[i].1, b[i].1)
}

proof fn lemma_infinite_entries_step<T: IntervalEndpoint, G>(s: Seq<(Interval<T>, G)>, i: int)
    requires
        0 <= i < s.len(),
    ensures
        infinite_entries(s.take(i + 1)) == if s[i].0.infinite() {
            infinite_entries(s.take(i)).push(s[i])
        } else {
            infinite_entries(s.take(i))
        },
{
    reveal(Seq::filter);
    assert(s.take(i + 1).drop_last() =~= s.take(i));
}

/// Barcodes by dimension, each interval with its generator, and the closure
/// that intervals given by their endpoints alone receive.
pub struct AnnotatedBarcodeCollection<T, G> {
    use_left_closed_default: bool,
    use_right_closed_default: bool,
    persistence_invariant_descriptor: PersistenceInvariantDescriptor<Interval<T>, G>,
}

impl<T: IntervalEndpoint, G: Clone + Default> Clone for AnnotatedBarcodeCollection<T, G> {
    /// A copy with the same defaults and the very same lists.
    fn clone(&self) -> (r: Self)
        ensures
            r.left_closed_default() == self.left_closed_default(),
            r.right_closed_default() == self.right_closed_default(),
            r.descriptor().intervals@ == self.descriptor().intervals@,
            r.descriptor().generators@ == self.descriptor().generators@,
            r.descriptor().interval_generator_pairs@
                == self.descriptor().interval_generator_pairs@,
    {
        AnnotatedBarcodeCollection {
            use_left_closed_default: self.use_left_closed_default,
            use_right_closed_default: self.use_right_closed_default,
            persistence_invariant_descriptor: self.persistence_invariant_descriptor.clone(),
        }
    }
}

impl<T: IntervalEndpoint, G: Clone + Default> AnnotatedBarcodeCollection<T, G> {
    pub closed spec fn left_closed_default(&self) -> bool {
        self.use_left_closed_default
    }

    pub closed spec fn right_closed_default(&self) -> bool {
        self.use_right_closed_default
    }

    pub closed spec fn descriptor(&self) -> PersistenceInvariantDescriptor<Interval<T>, G> {
        self.persistence_invariant_descriptor
    }

    pub open spec fn wf(&self) -> bool {
        self.descriptor().wf()
    }

    pub open spec fn entries_at(&self, d: u32) -> Seq<(Interval<T>, G)> {
        self.descriptor().pairs_at(d)
    }

    /// The generator that an entry receives: the one given, or else a default
    /// value of `G`.
    pub open spec fn generator_for(given: Option<G>, g: G) -> bool {
        match given {
            Some(x) => g == x,
            None => call_ensures(G::default, (), g),
        }
    }

    pub fn new(
        use_left_closed_default: bool,
        use_right_closed_default: bool,
        persistence_invariant_descriptor: PersistenceInvariantDescriptor<Interval<T>, G>,
    ) -> (r: Self)
        requires
            persistence_invariant_descriptor.wf(),
        ensures
            r.wf(),
            r.left_closed_default() == use_left_closed_default,
            r.right_closed_default() == use_right_closed_default,
            r.descriptor() == persistence_invariant_descriptor,
    {
        AnnotatedBarcodeCollection {
            use_left_closed_default,
            use_right_closed_default,
            persistence_invariant_descriptor,
        }
    }

    /// The store of this collection's entries.
    pub fn get_descriptor(&self) -> (r: &PersistenceInvariantDescriptor<Interval<T>, G>)
        ensures
            *r == self.descriptor(),
    {
        &self.persistence_invariant_descriptor
    }

    fn resolve_generator(generating_cycle: Option<G>) -> (g: G)
        ensures
            Self::generator_for(generating_cycle, g),
    {
        match generating_cycle {
            Some(g) => g,
            None => G::default(),
        }
    }

    /// A collection with the default configuration that holds every entry of
    /// this one whose interval is infinite, at its dimension and in its order.
    pub fn get_infinite_intervals(&mut self) -> (r: Self)
        requires
            old(self).wf(),
        ensures
            *final(self) == *old(self),
            r.wf(),
            r.left_closed_default(),
            !r.right_closed_default(),
            forall|d: u32|
                copies_entries(
                    infinite_entries(old(self).entries_at(d)),
                    #[trigger] r.entries_at(d),
                ),
    {
        let mut result: AnnotatedBarcodeCollection<T, G> = AnnotatedBarcodeCollection::default();
        let dims = self.persistence_invariant_descriptor.dimension_list();
        let ghost src = self.persistence_invariant_descriptor;
        let mut k: usize = 0;
        while k < dims.len()
            invariant
                self.persistence_invariant_descriptor == src,
                src.wf(),
                dims@.no_duplicates(),
                dims@.to_set() == src.dimensions(),
                k <= dims.len(),
                result.wf(),
                result.left_closed_default(),
                !result.right_closed_default(),
                forall|d: u32|
                    #[trigger] result.entries_at(d).len() > 0 ==> dims@.take(k as int).contains(
                        d,
                    ),
                forall|d: u32|
                    dims@.take(k as int).contains(d) ==> copies_entries(
                        infinite_entries(src.pairs_at(d)),
                        #[trigger] result.entries_at(d),
                    ),
            decreases dims.len() - k,
        {
            let d = dims[k];
            let ghost before = result;
            assert(!dims@.take(k as int).contains(d)) by {
                if dims@.take(k as int).contains(d) {
                    let j = choose|j: int| 0 <= j < k && #[trigger] dims@.take(k as int)[j] == d;
                    assert(dims@[j] == dims@[k as int]);
                }
            }
            assert(result.entries_at(d).len() == 0);
            assert(src.pairs_at(d).len() > 0) by {
                assert(dims@.to_set().contains(d));
            }
            let list = self.persistence_invariant_descriptor.interval_generator_pairs.get(
                &d,
            ).unwrap();
            let mut i: usize = 0;
            while i < list.len()
                invariant
                    self.persistence_invariant_descriptor == src,
                    list@ == src.pairs_at(d),
                    i <= list.len(),
                    result.wf(),
                    result.left_closed_default(),
                    !result.right_closed_default(),
                    copies_entries(infinite_entries(list@.take(i as int)), result.entries_at(d)),
                    forall|e: u32| e != d ==> #[trigger] result.entries_at(e) == before.entries_at(e),
                decreases list.len() - i,
            {
                let interval = list[i].0;
                proof {
                    lemma_infinite_entries_step(list@, i as int);
                }
                if interval.is_infinite() {
                    let generator = list[i].1.clone();
                    let ghost prev_c = result;
                    let ghost prev = result.persistence_invariant_descriptor;
                    result.persistence_invariant_descriptor.add_interval(d, interval, generator);
                    assert forall|e: u32| e != d implies #[trigger] result.entries_at(e)
                        == before.entries_at(e) by {
                        assert(prev_c.entries_at(e) == before.entries_at(e));
                        assert(result.persistence_invariant_descriptor.pairs_at(e) == prev.pairs_at(
                            e,
                        ));
                    }
                }
                i = i + 1;
            }
            proof {
                assert(list@.take(list.len() as int) =~= list@);
                assert(dims@.take(k as int + 1) =~= dims@.take(k as int).push(d));
                assert forall|x: u32|
                    #[trigger] result.entries_at(x).len() > 0 implies dims@.take(
                        k as int + 1,
                    ).contains(x) by {
                    if x != d {
                        assert(dims@.take(k as int).contains(x));
                        let j = choose|j: int| 0 <= j < k && #[trigger] dims@.take(k as int)[j] == x;
                        assert(dims@.take(k as int + 1)[j] == x);
                    } else {
                        assert(dims@.take(k as int + 1)[k as int] == x);
                    }
                }
                assert forall|x: u32|
                    dims@.take(k as int + 1).contains(x) implies copies_entries(
                        infinite_entries(src.pairs_at(x)),
                        #[trigger] result.entries_at(x),
                    ) by {
                    if x != d {
                        let j = choose|j: int|
                            0 <= j < k + 1 && #[trigger] dims@.take(k as int + 1)[j] == x;
                        assert(dims@.take(k as int)[j] == x);
                    }
                }
            }
            k = k + 1;
        }
        proof {
            assert(dims@.take(dims.len() as int) =~= dims@);
            assert forall|d: u32|
                copies_entries(
                    infinite_entries(old(self).entries_at(d)),
                    #[trigger] result.entries_at(d),
                ) by {
                if !dims@.contains(d) {
                    assert(!dims@.to_set().contains(d));
                    assert(src.pairs_at(d).len() == 0);
                    reveal(Seq::filter);
                    assert(result.entries_at(d).len() == 0);
                }
            }
        }
        result
    }

    /// The entries that a filter to dimensions below `max_dim` keeps at `d`:
    /// the infinite ones, and only where `d < max_dim`.
    pub open spec fn entries_below(&self, max_dim: u32, d: u32) -> Seq<(Interval<T>, G)> {
        if d < max_dim {
            infinite_entries(self.entries_at(d))
        } else {
            Seq::empty()
        }
    }

    /// Keeps the infinite intervals of the dimensions below `max_dim`. Finite
    /// intervals are dropped at every dimension.
    pub fn filter_by_max_dimension(self, max_dim: u32) -> (r: Self)
        requires
            self.wf(),
        ensures
            r.wf(),
            r.left_closed_default(),
            !r.right_closed_default(),
            forall|d: u32|
                copies_entries(self.entries_below(max_dim, d), #[trigger] r.entries_at(d)),
            forall|d: u32, i: int|
                0 <= i < r.entries_at(d).len() ==> d < max_dim && (
                #[trigger] r.entries_at(d)[i]).0.infinite(),
            forall|d: u32, i: int|
                0 <= i < r.descriptor().intervals_at(d).len() ==> d < max_dim
                    && #[trigger] r.descriptor().intervals_at(d)[i].infinite(),
    {
        let mut this = self;
        let mut result = this.get_infinite_intervals();
        let ghost mid = result;
        result.persistence_invariant_descriptor.retain_below(max_dim);
        proof {
            assert forall|d: u32|
                copies_entries(
                    self.entries_below(max_dim, d),
                    #[trigger] result.entries_at(d),
                ) by {
                assert(copies_entries(infinite_entries(self.entries_at(d)), mid.entries_at(d)));
            }
            assert forall|d: u32, i: int| 0 <= i < result.entries_at(d).len() implies d < max_dim
                && (#[trigger] result.entries_at(d)[i]).0.infinite() by {
                assert(copies_entries(self.entries_below(max_dim, d), result.entries_at(d)));
                let src = self.entries_at(d);
                src.lemma_filter_pred(|e: (Interval<T>, G)| is_infinite_entry(e), i);
                assert(result.entries_at(d)[i].0 == self.entries_below(max_dim, d)[i].0);
            }
            assert forall|d: u32, i: int|
                0 <= i < result.descriptor().intervals_at(d).len() implies d < max_dim
                && #[trigger] result.descriptor().intervals_at(d)[i].infinite() by {
                assert(result.entries_at(d)[i].0.infinite());
                assert(cloned(result.entries_at(d)[i].0, result.descriptor().intervals_at(d)[i]));
            }
        }
        result
    }

    /// The interval that endpoints alone receive: the collection's closure
    /// defaults, with the given infinity flags.
    pub open spec fn with_defaults(
        &self,
        start: Option<T>,
        end: Option<T>,
        left_infinite: bool,
        right_infinite: bool,
    ) -> Interval<T> {
        Interval {
            start,
            end,
            is_left_closed: self.left_closed_default(),
            is_right_closed: self.right_closed_default(),
            is_left_infinite: left_infinite,
            is_right_infinite: right_infinite,
        }
    }

    /// `new` is `old` with one entry for `interval` appended at `dimension`, its
    /// generator being the one given or else a default one.
    pub open spec fn appended(
        old: &Self,
        new: &Self,
        dimension: u32,
        interval: Interval<T>,
        generating_cycle: Option<G>,
    ) -> bool {
        &&& old.wf() ==> new.wf()
        &&& new.left_closed_default() == old.left_closed_default()
        &&& new.right_closed_default() == old.right_closed_default()
        &&& new.entries_at(dimension).len() == old.entries_at(dimension).len() + 1
        &&& new.entries_at(dimension).drop_last() == old.entries_at(dimension)
        &&& new.entries_at(dimension).last().0 == interval
        &&& Self::generator_for(generating_cycle, new.entries_at(dimension).last().1)
        &&& forall|d: u32| d != dimension ==> #[trigger] new.entries_at(d) == old.entries_at(d)
        &&& new.descriptor().intervals_at(dimension) == old.descriptor().intervals_at(
            dimension,
        ).push(interval)
        &&& new.descriptor().generators_at(dimension).drop_last()
            == old.descriptor().generators_at(dimension)
        &&& new.descriptor().generators_at(dimension).len() == old.descriptor().generators_at(
            dimension,
        ).len() + 1
        &&& cloned(
            new.entries_at(dimension).last().1,
            new.descriptor().generators_at(dimension).last(),
        )
        &&& forall|d: u32|
            d != dimension ==> #[trigger] new.descriptor().intervals_at(d)
                == old.descriptor().intervals_at(d)
        &&& forall|d: u32|
            d != dimension ==> #[trigger] new.descriptor().generators_at(d)
                == old.descriptor().generators_at(d)
    }

    fn append(&mut self, dimension: u32, interval: Interval<T>, generating_cycle: Option<G>)
        ensures
            Self::appended(old(self), final(self), dimension, interval, generating_cycle),
    {
        let generator = Self::resolve_generator(generating_cycle);
        self.persistence_invariant_descriptor.add_interval(dimension, interval, generator);
        proof {
            assert(self.entries_at(dimension).drop_last() =~= old(self).entries_at(dimension));
            let v = self.descriptor().intervals_at(dimension);
            assert(cloned(interval, v.last()));
            assert(v =~= old(self).descriptor().intervals_at(dimension).push(interval));
            assert(self.entries_at(dimension).last().1 == generator);
            assert(cloned(
                self.entries_at(dimension).last().1,
                self.descriptor().generators_at(dimension).last(),
            ));
            assert forall|d: u32| d != dimension implies {
                &&& #[trigger] self.descriptor().intervals_at(d) == old(
                    self,
                ).descriptor().intervals_at(d)
                &&& #[trigger] self.descriptor().generators_at(d) == old(
                    self,
                ).descriptor().generators_at(d)
            } by {
                assert(self.persistence_invariant_descriptor.pairs_at(d) == old(
                    self,
                ).persistence_invariant_descriptor.pairs_at(d));
            }
        }
    }

    /// Records the finite interval from `start` to `end` with the default closure.
    pub fn add_interval(&mut self, dimension: u32, start: T, end: T, generating_cycle: Option<G>)
        ensures
            Self::appended(
                old(self),
                final(self),
                dimension,
                old(self).with_defaults(Some(start), Some(end), false, false),
                generating_cycle,
            ),
    {
        let interval = Interval::new(
            Some(start),
            Some(end),
            self.use_left_closed_default,
            self.use_right_closed_default,
            false,
            false,
        );
        self.append(dimension, interval, generating_cycle);
    }

    /// Records the interval from `start` to infinity with the default closure.
    pub fn add_right_infinite_interval(
        &mut self,
        dimension: u32,
        start: T,
        generating_cycle: Option<G>,
    )
        ensures
            Self::appended(
                old(self),
                final(self),
                dimension,
                old(self).with_defaults(Some(start), None, false, true),
                generating_cycle,
            ),
    {
        let interval = Interval::new(
            Some(start),
            None,
            self.use_left_closed_default,
            self.use_right_closed_default,
            false,
            true,
        );
        self.append(dimension, interval, generating_cycle);
    }

    /// Records the interval from minus infinity to `end` with the default
    /// closure.
    pub fn add_left_infinite_interval(
        &mut self,
        dimension: u32,
        end: T,
        generating_cycle: Option<G>,
    )
        ensures
            Self::appended(
                old(self),
                final(self),
                dimension,
                old(self).with_defaults(None, Some(end), true, false),
                generating_cycle,
            ),
    {
        let interval = Interval::new(
            None,
            Some(end),
            self.use_left_closed_default,
            self.use_right_closed_default,
            true,
            false,
        );
        self.append(dimension, interval, generating_cycle);
    }
}

impl<T: IntervalEndpoint, G: Clone + Default> Default for AnnotatedBarcodeCollection<T, G> {
    /// An empty collection with left-closed, right-open defaults.
    fn default() -> (r: Self)
        ensures
            r.wf(),
            r.left_closed_default(),
            !r.right_closed_default(),
            forall|d: u32| #[trigger] r.entries_at(d).len() == 0,
            r.descriptor().dimensions().is_empty(),
    {
        AnnotatedBarcodeCollection {
            use_left_closed_default: true,
            use_right_closed_default: false,
            persistence_invariant_descriptor: PersistenceInvariantDescriptor::new(),
        }
    }

}

/// A barcode collection whose entries all carry the default generator.
pub struct BarcodeCollection<T, G> {
    annotated_collection: AnnotatedBarcodeCollection<T, G>,
}

impl<T: IntervalEndpoint, G: Clone + Default> BarcodeCollection<T, G> {
    pub closed spec fn annotated(&self) -> AnnotatedBarcodeCollection<T, G> {
        self.annotated_collection
    }

    pub fn new(annotated_collection: AnnotatedBarcodeCollection<T, G>) -> (r: Self)
        ensures
            r.annotated() == annotated_collection,
    {
        BarcodeCollection { annotated_collection }
    }

    /// The collection that this one adds to.
    pub fn get_annotated_collection(&self) -> (r: &AnnotatedBarcodeCollection<T, G>)
        ensures
            *r == self.annotated(),
    {
        &self.annotated_collection
    }

    /// Records the finite interval from `start` to `end` with the default
    /// closure and generator.
    pub fn add_interval(&mut self, dimension: u32, start: T, end: T)
        ensures
            AnnotatedBarcodeCollection::appended(
                &old(self).annotated(),
                &final(self).annotated(),
                dimension,
                old(self).annotated().with_defaults(Some(start), Some(end), false, false),
                None,
            ),
    {
        self.annotated_collection.add_interval(dimension, start, end, None);
    }

    /// Records the interval from `start` to infinity with the default closure
    /// and generator.
    pub fn add_right_infinite_interval(&mut self, dimension: u32, start: T)
        ensures
            AnnotatedBarcodeCollection::appended(
                &old(self).annotated(),
                &final(self).annotated(),
                dimension,
                old(self).annotated().with_defaults(Some(start), None, false, true),
                None,
            ),
    {
        self.annotated_collection.add_right_infinite_interval(dimension, start, None);
    }

    /// Records the interval from minus infinity to `end` with the default
    /// closure and generator.
    pub fn add_left_infinite_interval(&mut self, dimension: u32, end: T)
        ensures
            AnnotatedBarcodeCollection::appended(
                &old(self).annotated(),
                &final(self).annotated(),
                dimension,
                old(self).annotated().with_defaults(None, Some(end), true, false),
                None,
            ),
    {
        self.annotated_collection.add_left_infinite_interval(dimension, end, None);
    }

    /// Records the endpoints of `direct_interval` as a finite interval with
    /// this collection's default closure; the interval's own closure and
    /// infinity flags are not kept.
    pub fn add_direct_interval(&mut self, dimension: u32, direct_interval: Interval<T>)
        requires
            direct_interval.start is Some,
            direct_interval.end is Some,
        ensures
            AnnotatedBarcodeCollection::appended(
                &old(self).annotated(),
                &final(self).annotated(),
                dimension,
                old(self).annotated().with_defaults(
                    direct_interval.start,
                    direct_interval.end,
                    false,
                    false,
                ),
                None,
            ),
    {
        let start = direct_interval.get_start().unwrap();
        let end = direct_interval.get_end().unwrap();
        self.add_interval(dimension, start, end);
    }
}

impl<T: IntervalEndpoint, G: Clone + Default> Default for BarcodeCollection<T, G> {
    fn default() -> (r: Self)
        ensures
            r.annotated().wf(),
            r.annotated().left_closed_default(),
            !r.annotated().right_closed_default(),
            forall|d: u32| #[trigger] r.annotated().entries_at(d).len() == 0,
    {
        BarcodeCollection { annotated_collection: AnnotatedBarcodeCollection::default() }
    }
}

} // verus!
