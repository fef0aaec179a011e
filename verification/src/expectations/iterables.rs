//! Expectations on collections of items.
pub mod count;
pub mod equality;

pub use count::IterableCountExpectations;
pub use equality::IterableItemEqualityExpectations;
