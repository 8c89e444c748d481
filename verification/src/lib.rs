//! A fixed-capacity, last-in-first-out stack whose maximum size `N` is part
//! of the type and whose storage is never grown past that bound.
//!
//! Every operation is specified against the stack's mathematical view, a
//! `Seq` of the live elements in push order: pushing appends to the view,
//! popping removes and returns its last element, and the length never
//! exceeds the capacity `N`.
//!
//! The container is not safe for concurrent mutation from several threads
//! without external synchronization.

pub mod debug;
pub mod iterators;
pub mod laws;
pub mod serialization;
pub mod stack;

pub use iterators::IntoIter;
pub use iterators::Iter;
pub use stack::Stack;
pub use stack::StackError;
