//! The device-facing model: what the context reads from, and asks of, each
//! participating compute device, and the per-device resource it gets back.

use vstd::prelude::*;

verus! {

/// The usage class a private device resource is allocated under.
#[derive(Clone, Copy, PartialEq, Eq, Structural, Debug)]
pub enum ResourceType {
    Normal,
    Staging,
}

/// One participating compute device, reduced to the capabilities the
/// context consults.
///
/// The resource-creation backend itself is modelled by two capability
/// flags: `can_import` says whether wrapping user-owned host memory as a
/// resource (zero-copy import) succeeds on this device, and `can_alloc`
/// says whether allocating a private resource currently succeeds (a device
/// out of memory reports `false`). Both are fixed per device for the
/// duration of one provisioning call.
#[derive(Clone, Copy, PartialEq, Eq, Structural, Debug)]
pub struct Device {
    /// The largest single allocation this device accepts, in bytes.
    pub max_mem_alloc: u64,
    /// Whether this device supports shared virtual memory.
    pub svm_supported: bool,
    /// Whether zero-copy import of host memory succeeds on this device.
    pub can_import: bool,
    /// Whether allocating a private resource succeeds on this device.
    pub can_alloc: bool,
}

/// The failure conditions of a provisioning call.
#[derive(Clone, Copy, PartialEq, Eq, Structural, Debug)]
pub enum ProvisionError {
    /// A size or dimension cannot be represented in the device-facing
    /// width. Surfaced before any device is contacted; maps to the
    /// caller-facing out-of-host-memory condition.
    SizeOverflow,
    /// Every creation strategy failed on some device. Maps to the
    /// caller-facing out-of-resources condition.
    ResourceExhausted,
}

/// One per-device resource backing a logical buffer or image.
///
/// `data` holds the bytes the device sees: the host bytes when the
/// resource aliases host memory or has received an upload, and nothing
/// otherwise (a fresh private resource has no defined contents).
#[derive(Debug)]
pub struct Resource {
    /// True when the resource aliases user-owned host memory (zero-copy
    /// import) instead of holding a private copy.
    pub is_user: bool,
    /// True when an upload command was issued to, and completed on, this
    /// resource.
    pub uploaded: bool,
    /// The usage class the resource was created under.
    pub res_type: ResourceType,
    /// The pixel format a texture resource was created with; `None` for a
    /// buffer.
    pub format: Option<crate::image::PixelFormat>,
    /// The region transfer this resource received; `Some` exactly for a
    /// texture resource that was uploaded to.
    pub transfer: Option<crate::image::TextureTransfer>,
    /// The bytes visible to the device, when defined.
    pub data: Vec<u8>,
}

/// One call made on a device's resource-creation backend, in the order the
/// calls were made. A provisioning run records its calls so that callers
/// can observe which devices were contacted and in what order uploads were
/// issued and awaited.
#[derive(Clone, Copy, PartialEq, Eq, Structural, Debug)]
pub enum BackendCall {
    /// Attempted zero-copy import of host memory as a buffer on device `i`.
    BufferFromUser { dev: usize },
    /// Allocated (or attempted to allocate) a private buffer on device `i`.
    BufferAlloc { dev: usize },
    /// Attempted zero-copy import of host memory as a texture on device `i`.
    TextureFromUser { dev: usize },
    /// Allocated (or attempted to allocate) a private texture on device `i`.
    TextureAlloc { dev: usize },
    /// Issued an upload command to device `i`'s resource.
    UploadIssue { dev: usize },
    /// Waited for the upload issued to device `i` to complete.
    UploadWait { dev: usize },
}

impl BackendCall {
    /// Whether this call issues an upload command.
    pub open spec fn is_issue(self) -> bool {
        self is UploadIssue
    }

    /// Whether this call waits on an upload command.
    pub open spec fn is_wait(self) -> bool {
        self is UploadWait
    }
}

} // verus!
