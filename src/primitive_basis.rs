use vstd::prelude::*;

verus! {

/// A basis element of a chain complex: it has a dimension, an ordered list of
/// boundary faces, and a signed coefficient for each face.
pub trait PrimitiveBasisElement: Sized {
    /// What the element's operations may assume of it.
    spec fn valid(&self) -> bool;

    spec fn dimension(&self) -> int;

    /// Whether `faces` is the element's boundary, face by face in order.
    spec fn is_boundary(&self, faces: Seq<Self>) -> bool;

    spec fn boundary_coefficients(&self) -> Seq<i32>;

    fn get_dimension(self) -> (r: i32)
        requires
            self.valid(),
        ensures
            r as int == self.dimension(),
    ;

    fn get_boundary_array(self) -> (r: Vec<Self>)
        requires
            self.valid(),
        ensures
            self.is_boundary(r@),
    ;

    fn get_boundary_coefficients(self) -> (r: Vec<i32>)
        requires
            self.valid(),
        ensures
            r@ == self.boundary_coefficients(),
    ;
}

} // verus!
