//! The expectations that come with the library, by the kind of value they are
//! about.
pub mod boolean;
pub mod equality;
pub mod iterables;
pub mod option;
pub mod order;
pub mod predicate;
pub mod result;
pub mod string;

pub use boolean::BooleanExpectations;
pub use equality::EqualityExpectations;
pub use iterables::{IterableCountExpectations, IterableItemEqualityExpectations};
pub use option::{OptionExpectations, ProjectedOptionExpectations};
pub use order::OrderExpectations;
pub use predicate::PredicateExpectation;
pub use result::{ProjectedResultExpectations, ResultExpectations};
pub use string::{StringExpectations, Text};
