use vstd::prelude::*;

verus! {

/// How many sequence lengths the table precomputes: lengths `0` to `9`.
pub const DEFAULT_COEFFICIENT_CACHE_SIZE: u32 = 10;

/// The boundary coefficients of length `n`: `+1` at even positions, `-1` at odd
/// ones.
pub open spec fn alternating(n: nat) -> Seq<i32> {
    Seq::new(n, |j: int| if j % 2 == 0 { 1i32 } else { -1i32 })
}

/// The alternating coefficients of every length agree on their common prefix
/// and start with `+1`, so lengths below and above the precomputed range give
/// one and the same pattern.
pub proof fn lemma_alternating_prefix(n: nat, m: nat)
    requires
        n <= m,
    ensures
        alternating(m).take(n as int) == alternating(n),
        m > 0 ==> alternating(m)[0] == 1,
{
    assert(alternating(m).take(n as int) =~= alternating(n));
}

/// A memo of alternating coefficient sequences for the lengths below the
/// cache size, filled on first use.
pub struct HomologyUtility {
    default_boundary_coefficients: Vec<Vec<i32>>,
    default_coefficient_cache_size: u32,
}

impl HomologyUtility {
    /// The table is either not yet filled, or holds the alternating sequence of
    /// length `i` at index `i` for each length below the cache size.
    pub closed spec fn wf(&self) -> bool {
        &&& self.default_coefficient_cache_size == DEFAULT_COEFFICIENT_CACHE_SIZE
        &&& self.default_boundary_coefficients.len() == 0
            || self.default_boundary_coefficients.len() == DEFAULT_COEFFICIENT_CACHE_SIZE
        &&& forall|i: int|
            0 <= i < self.default_boundary_coefficients.len()
                ==> #[trigger] self.default_boundary_coefficients[i]@ == alternating(i as nat)
    }

    /// Whether the table of precomputed sequences has been built.
    pub closed spec fn is_filled(&self) -> bool {
        self.default_boundary_coefficients.len() != 0
    }

    /// The number of lengths that the table precomputes.
    pub closed spec fn cache_size(&self) -> nat {
        self.default_coefficient_cache_size as nat
    }

    /// A utility whose table is still empty: it is built on first lookup.
    pub fn new() -> (r: Self)
        ensures
            r.wf(),
            !r.is_filled(),
            r.cache_size() == DEFAULT_COEFFICIENT_CACHE_SIZE,
    {
        HomologyUtility {
            default_boundary_coefficients: Vec::new(),
            default_coefficient_cache_size: DEFAULT_COEFFICIENT_CACHE_SIZE,
        }
    }

    fn initialize_default_boundary_coefficients(&mut self)
        requires
            old(self).default_boundary_coefficients.len() == 0,
            old(self).default_coefficient_cache_size == DEFAULT_COEFFICIENT_CACHE_SIZE,
        ensures
            final(self).wf(),
            final(self).default_boundary_coefficients.len() == DEFAULT_COEFFICIENT_CACHE_SIZE,
    {
        let mut i: u32 = 0;
        while i < self.default_coefficient_cache_size
            invariant
                self.default_coefficient_cache_size == DEFAULT_COEFFICIENT_CACHE_SIZE,
                i <= DEFAULT_COEFFICIENT_CACHE_SIZE,
                self.default_boundary_coefficients.len() == i,
                forall|k: int|
                    0 <= k < i ==> #[trigger] self.default_boundary_coefficients[k]@
                        == alternating(k as nat),
            decreases DEFAULT_COEFFICIENT_CACHE_SIZE - i,
        {
            let row = alternating_coefficients(i);
            self.default_boundary_coefficients.push(row);
            i = i + 1;
        }
    }

    /// The alternating coefficients of the given length, from the table where
    /// the length is below the cache size.
    pub fn get_default_boundary_coefficients(&mut self, length: u32) -> (r: Vec<i32>)
        requires
            old(self).wf(),
        ensures
            final(self).wf(),
            final(self).is_filled(),
            final(self).cache_size() == old(self).cache_size(),
            r@ == alternating(length as nat),
    {
        if self.default_boundary_coefficients.len() == 0 {
            self.initialize_default_boundary_coefficients();
        }
        if length < self.default_coefficient_cache_size {
            return self.default_boundary_coefficients[length as usize].clone();
        }
        alternating_coefficients(length)
    }

    /// `arr` without the element at `index`; `arr` itself where `index` is past
    /// its end.
    pub fn remove_index(arr: Vec<i32>, index: u32) -> (r: Vec<i32>)
        ensures
            r@ == if (index as int) < arr@.len() {
                arr@.remove(index as int)
            } else {
                arr@
            },
    {
        let mut res: Vec<i32> = Vec::new();
        let mut old_index: usize = 0;
        while old_index < arr.len()
            invariant
                old_index <= arr.len(),
                res@ == if old_index <= index as int {
                    arr@.take(old_index as int)
                } else {
                    arr@.take(old_index as int).remove(index as int)
                },
            decreases arr.len() - old_index,
        {
            if old_index as u64 != index as u64 {
                res.push(arr[old_index]);
            }
            old_index = old_index + 1;
            proof {
                if old_index <= index as int {
                    assert(res@ =~= arr@.take(old_index as int));
                } else {
                    assert(res@ =~= arr@.take(old_index as int).remove(index as int));
                }
            }
        }
        proof {
            assert(arr@.take(arr.len() as int) =~= arr@);
        }
        res
    }
}

/// Computes the alternating coefficients of the given length directly.
fn alternating_coefficients(length: u32) -> (r: Vec<i32>)
    ensures
        r@ == alternating(length as nat),
{
    let mut out: Vec<i32> = Vec::new();
    let mut j: u32 = 0;
    while j < length
        invariant
            j <= length,
            out@ == alternating(j as nat),
        decreases length - j,
    {
        out.push(if j % 2 == 0 { 1 } else { -1 });
        j = j + 1;
        proof {
            assert(out@ =~= alternating(j as nat));
        }
    }
    out
}

} // verus!
