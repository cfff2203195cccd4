//! An array-backed binary heap whose priority is decided by a caller's
//! comparator, with its behaviour stated over sequences and proved.
pub mod heap;
pub mod history;
pub mod laws;
pub mod model;
pub mod order;

pub use heap::Heap;
pub use heap::MaxHeap;
pub use heap::MinHeap;
