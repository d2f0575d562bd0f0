//! Typed pages of virtual memory: the permission lattice, the geometry of page
//! regions and the bookkeeping of a growable sequence kept in such a region.
pub mod perm;
pub mod region;
pub mod paged_vec;
pub mod slots;
