//! Traversal of a mutable buffer in an order chosen by an index capability.
//!
//! An index capability is a generator of positions into a buffer that
//! promises never to hand out the same position twice during one traversal.
//! A driver pairs such a capability with a buffer it holds exclusively and
//! turns each produced position into access to a single element, so that the
//! elements reached across one traversal never overlap. In ordinary Rust the
//! non-repetition promise would be an unchecked assertion by whoever
//! implements the capability; here it is a contract that every
//! implementation proves.

mod capability;
mod driver;

pub use capability::AscendingRange;
pub use capability::FixedOrder;
pub use capability::NonOverlappingMapIterator;
pub use capability::lemma_ascending_uniqueness;
pub use driver::NonOverlappingMapIteratorDriver;
pub use driver::lemma_aliasing_freedom;
