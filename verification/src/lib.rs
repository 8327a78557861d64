//! A compute context: the owner, across a set of heterogeneous compute
//! devices, of the backing memory for host-visible buffers and images, and
//! of an address-interval index that resolves arbitrary host pointers back
//! to their owning shared-virtual-memory allocation.
//!
//! The context provisions one logical buffer or image as N independent
//! per-device resources with consistent contents, decides per device
//! whether a resource may alias host memory directly (zero-copy import) or
//! must be a private copy, and synchronizes an initial data upload to every
//! device that could not alias.

pub mod context;
pub mod device;
pub mod image;
pub mod provision;
pub mod svm;
