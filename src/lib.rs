pub mod barcode_collections;
pub mod homology_utility;
pub mod intervals;
pub mod persistence_invariant_descriptor;
pub mod primitive_basis;
pub mod simplex;

pub use barcode_collections::{AnnotatedBarcodeCollection, BarcodeCollection};
pub use homology_utility::HomologyUtility;
pub use intervals::{Interval, IntervalEndpoint};
pub use persistence_invariant_descriptor::PersistenceInvariantDescriptor;
pub use primitive_basis::PrimitiveBasisElement;
pub use simplex::Simplex;
