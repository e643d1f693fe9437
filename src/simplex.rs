use crate::homology_utility::{alternating, HomologyUtility};
use crate::primitive_basis::PrimitiveBasisElement;
use std::ops::Range;
use vstd::prelude::*;

verus! {

broadcast use vstd::seq_lib::group_to_multiset_ensures;

pub open spec fn sorted(s: Seq<i32>) -> bool {
    forall|i: int, j: int| 0 <= i < j < s.len() ==> s[i] <= s[j]
}

/// The same vertices in ascending order.
fn sort_vertices(v: &Vec<i32>) -> (r: Vec<i32>)
    ensures
        sorted(r@),
        r@.len() == v@.len(),
        r@.to_multiset() == v@.to_multiset(),
{
    let mut out: Vec<i32> = Vec::new();
    let mut k: usize = 0;
    while k < v.len()
        invariant
            k <= v.len(),
            sorted(out@),
            out@.len() == k,
            out@.to_multiset() == v@.take(k as int).to_multiset(),
        decreases v.len() - k,
    {
        let x = v[k];
        let mut p: usize = 0;
        while p < out.len() && out[p] <= x
            invariant
                p <= out.len(),
                forall|i: int| 0 <= i < p ==> out@[i] <= x,
            decreases out.len() - p,
        {
            p = p + 1;
        }
        let ghost before = out@;
        out.insert(p, x);
        proof {
            assert(v@.take(k as int + 1) =~= v@.take(k as int).push(x));
            assert forall|i: int, j: int| 0 <= i < j < out@.len() implies out@[i] <= out@[j] by {
                if p < before.len() {
                    assert(x < before[p as int]);
                }
            }
        }
        k = k + 1;
    }
    proof {
        assert(v@.take(v.len() as int) =~= v@);
    }
    out
}

/// A cell of a simplicial complex, given by its vertex labels in ascending
/// order.
pub struct Simplex {
    vertices: Vec<i32>,
}

impl Clone for Simplex {
    fn clone(&self) -> (r: Self)
        ensures
            r@ == self@,
    {
        Simplex { vertices: self.vertices.clone() }
    }
}

impl View for Simplex {
    type V = Seq<i32>;

    closed spec fn view(&self) -> Seq<i32> {
        self.vertices@
    }
}

impl Simplex {
    /// The simplex on the given vertices; they are sorted, and repeated labels
    /// are kept.
    pub fn new(vertices: Vec<i32>) -> (r: Self)
        ensures
            sorted(r@),
            r@.len() == vertices@.len(),
            r@.to_multiset() == vertices@.to_multiset(),
    {
        Simplex { vertices: sort_vertices(&vertices) }
    }

    /// The simplex on the labels `ran.start` up to but excluding `ran.end`.
    pub fn from_ran(ran: Range<i32>) -> (r: Self)
        ensures
            sorted(r@),
            r@ == Seq::new(
                if ran.start < ran.end {
                    (ran.end - ran.start) as nat
                } else {
                    0
                },
                |i: int| (ran.start + i) as i32,
            ),
    {
        let mut vertices: Vec<i32> = Vec::new();
        if ran.start >= ran.end {
            let r = Simplex { vertices };
            proof {
                assert(r@ =~= Seq::new(0, |i: int| (ran.start + i) as i32));
            }
            return r;
        }
        let mut x: i32 = ran.start;
        while x < ran.end
            invariant
                ran.start <= x <= ran.end,
                vertices@ == Seq::new((x - ran.start) as nat, |i: int| (ran.start + i) as i32),
            decreases ran.end - x,
        {
            vertices.push(x);
            x = x + 1;
            proof {
                assert(vertices@ =~= Seq::new(
                    (x - ran.start) as nat,
                    |i: int| (ran.start + i) as i32,
                ));
            }
        }
        let r = Simplex { vertices };
        r
    }

    /// The vertex labels, in ascending order.
    pub fn get_vertices(&self) -> (r: &Vec<i32>)
        ensures
            r@ == self@,
    {
        &self.vertices
    }

    /// The boundary coefficients, looked up in `cache`.
    pub fn get_boundary_coefficients_with(self, cache: &mut HomologyUtility) -> (r: Vec<i32>)
        requires
            old(cache).wf(),
            self@.len() <= u32::MAX,
        ensures
            final(cache).wf(),
            r@ == alternating(self@.len()),
    {
        cache.get_default_boundary_coefficients(self.vertices.len() as u32)
    }
}

impl PrimitiveBasisElement for Simplex {
    /// Any number of vertices that an `i32` dimension can count. The simplex
    /// without vertices has dimension `-1`, no faces and no coefficients.
    open spec fn valid(&self) -> bool {
        self@.len() <= i32::MAX
    }

    /// The number of vertices less one.
    open spec fn dimension(&self) -> int {
        self@.len() - 1
    }

    /// A single vertex has the empty simplex as its one face; otherwise face
    /// `i` leaves out vertex `i`.
    open spec fn is_boundary(&self, faces: Seq<Simplex>) -> bool {
        if self@.len() == 1 {
            faces.len() == 1 && faces[0]@.len() == 0
        } else {
            &&& faces.len() == self@.len()
            &&& forall|i: int| 0 <= i < faces.len() ==> #[trigger] faces[i]@ == self@.remove(i)
        }
    }

    /// `+1` and `-1` in turn, one for each vertex.
    open spec fn boundary_coefficients(&self) -> Seq<i32> {
        alternating(self@.len())
    }

    fn get_dimension(self) -> (r: i32) {
        self.vertices.len() as i32 - 1
    }

    fn get_boundary_array(self) -> (r: Vec<Simplex>) {
        if self.vertices.len() == 1 {
            return vec![Simplex { vertices: Vec::new() }];
        }
        let mut boundary_array: Vec<Simplex> = Vec::new();
        let mut i: usize = 0;
        while i < self.vertices.len()
            invariant
                i <= self.vertices.len(),
                self.vertices.len() <= i32::MAX,
                boundary_array@.len() == i,
                forall|k: int| 0 <= k < i ==> #[trigger] boundary_array@[k]@ == self@.remove(k),
            decreases self.vertices.len() - i,
        {
            let face = HomologyUtility::remove_index(self.vertices.clone(), i as u32);
            boundary_array.push(Simplex { vertices: face });
            i = i + 1;
        }
        boundary_array
    }

    fn get_boundary_coefficients(self) -> (r: Vec<i32>) {
        let mut cache = HomologyUtility::new();
        self.get_boundary_coefficients_with(&mut cache)
    }
}

} // verus!
