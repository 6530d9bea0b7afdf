//! Layout-described memory allocation: validated layouts, a pluggable raw
//! allocator boundary, the fallible allocator capability, and the hooks that
//! place single-owner values on the heap and release them.
pub mod bounded;
pub mod global;
pub mod heap;
pub mod layout;
pub mod owned;
pub mod raw;
