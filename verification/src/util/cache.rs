//! Collection helpers: an LRU cache, and the last-in-first-out stack type.

pub use lru::LruCache;
use vstd::prelude::*;

verus! {

/// A last-in-first-out stack: push with `push_front`, pop with `pop_front`,
/// peek with `front`.
pub type Stack<T> = std::collections::VecDeque<T>;

} // verus!
