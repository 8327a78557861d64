//! Orchestrates per-device resource creation for buffers and textures:
//! choosing zero-copy import versus a private copy per device, and issuing
//! and overlapping the initial upload.
//!
//! A provisioning run records every backend call it makes, in order, so
//! that callers can observe that no device was contacted on an early
//! failure and that every upload is issued before any upload is awaited.

use vstd::prelude::*;
use crate::device::BackendCall;
use crate::device::Device;
use crate::device::ProvisionError;
use crate::device::Resource;
use crate::device::ResourceType;
use crate::image::ImageDescriptor;
use crate::image::ImageType;
use crate::image::PixelFormat;
use crate::image::PipeBox;
use crate::image::TextureTransfer;

verus! {

broadcast use vstd::seq_lib::lemma_seq_contains_after_push;

/// Whether a host pointer was supplied.
pub open spec fn has_host(host: Option<&Vec<u8>>) -> bool {
    host is Some
}

/// The supplied host bytes, or nothing.
pub open spec fn host_bytes(host: Option<&Vec<u8>>) -> Seq<u8> {
    match host {
        Some(h) => h@,
        None => Seq::empty(),
    }
}

/// Whether a buffer byte size converts losslessly to the device-facing
/// width.
pub open spec fn buffer_size_fits(size: usize) -> bool {
    size <= u32::MAX
}

/// Whether zero-copy import of the host pointer is attempted, and
/// succeeds, for a buffer on this device: a pointer was supplied, the
/// caller did not request copy semantics, and the device can alias host
/// memory.
pub open spec fn buffer_import_applies(dev: Device, host_given: bool, copy: bool) -> bool {
    host_given && !copy && dev.can_import
}

/// Whether some creation strategy succeeds for a buffer on this device.
pub open spec fn buffer_dev_ok(dev: Device, host_given: bool, copy: bool) -> bool {
    buffer_import_applies(dev, host_given, copy) || dev.can_alloc
}

/// Whether zero-copy import is attempted, and succeeds, for an image on
/// this device. Import additionally demands a one-dimensional image:
/// multi-dimensional images cannot honor arbitrary host-supplied strides,
/// so import is never attempted for them regardless of preference.
pub open spec fn texture_import_applies(
    dev: Device,
    host_given: bool,
    copy: bool,
    ty: ImageType,
) -> bool {
    host_given && !copy && ty is Tex1D && dev.can_import
}

/// Whether some creation strategy succeeds for an image on this device.
pub open spec fn texture_dev_ok(dev: Device, host_given: bool, copy: bool, ty: ImageType) -> bool {
    texture_import_applies(dev, host_given, copy, ty) || dev.can_alloc
}

/// No upload was issued or awaited among these calls.
pub open spec fn no_upload_calls(calls: Seq<BackendCall>) -> bool {
    forall|k: int| 0 <= k < calls.len() ==> !(#[trigger] calls[k]).is_issue() && !calls[k].is_wait()
}

/// No upload was awaited among these calls.
pub open spec fn no_wait_calls(calls: Seq<BackendCall>) -> bool {
    forall|k: int| 0 <= k < calls.len() ==> !(#[trigger] calls[k]).is_wait()
}

/// Every upload is issued before any upload is awaited: after the first
/// wait, no further issue appears. Issuing all commands first lets the
/// device-side transfers overlap.
pub open spec fn issues_precede_waits(calls: Seq<BackendCall>) -> bool {
    forall|p: int, q: int|
        0 <= p < q < calls.len() && (#[trigger] calls[p]).is_wait() ==> !(#[trigger] calls[q]).is_issue()
}

proof fn lemma_no_uploads_ordered(calls: Seq<BackendCall>)
    requires
        no_upload_calls(calls),
    ensures
        issues_precede_waits(calls),
{
    assert forall|p: int, q: int|
        0 <= p < q < calls.len() && (#[trigger] calls[p]).is_wait() implies !(
        #[trigger] calls[q]).is_issue() by {
        assert(!calls[p].is_wait());
    }
}

/// One element-wise copy of the host bytes, as a device transfer makes.
fn copy_bytes(src: &Vec<u8>) -> (r: Vec<u8>)
    ensures
        r@ == src@,
{
    let mut r: Vec<u8> = Vec::new();
    let mut i: usize = 0;
    while i < src.len()
        invariant
            i <= src@.len(),
            r@ == src@.subrange(0, i as int),
        decreases src@.len() - i,
    {
        r.push(src[i]);
        proof {
            assert(r@ =~= src@.subrange(0, i + 1 as int));
        }
        i = i + 1;
    }
    proof {
        assert(r@ =~= src@);
    }
    r
}

/// The outcome of one provisioning run: one resource per participating
/// device, or the failure that ended the run, together with every backend
/// call the run made, in order.
pub struct ProvisionRun {
    /// One resource per device, in device order, or the failure.
    pub result: Result<Vec<Resource>, ProvisionError>,
    /// The backend calls made, in the order they were made.
    pub calls: Vec<BackendCall>,
}

/// Provisions one logical buffer of `size` bytes as one resource per
/// device.
///
/// The size must convert losslessly to the device-facing width; overflow
/// fails before any device is contacted. Per device, zero-copy import of
/// the host pointer is attempted first when one was supplied and copy
/// semantics were not requested; otherwise, or when import is unavailable,
/// a private resource of the requested usage class is allocated. If
/// neither succeeds the whole call fails. When a host pointer was
/// supplied, every device whose resource does not alias it receives the
/// full contents: all uploads are issued first, then each is awaited.
#[verifier::loop_isolation(false)]
pub fn provision_buffer(
    devs: &Vec<Device>,
    size: usize,
    host: Option<&Vec<u8>>,
    copy: bool,
    res_type: ResourceType,
) -> (r: ProvisionRun)
    requires
        has_host(host) ==> host_bytes(host).len() == size,
    ensures
        issues_precede_waits(r.calls@),
        !buffer_size_fits(size) ==> (r.result matches Err(e) && e == ProvisionError::SizeOverflow
            && r.calls@.len() == 0),
        (buffer_size_fits(size) && forall|k: int|
            0 <= k < devs@.len() ==> buffer_dev_ok(devs@[k], has_host(host), copy)) <==> r.result
            is Ok,
        buffer_size_fits(size) && r.result is Err ==> (r.result matches Err(e) && e
            == ProvisionError::ResourceExhausted && no_upload_calls(r.calls@)),
        !has_host(host) ==> no_upload_calls(r.calls@),
        r.result matches Ok(m) ==> forall|k: int|
            0 <= k < m@.len() && (#[trigger] m@[k]).uploaded ==> r.calls@.contains(
            BackendCall::UploadIssue { dev: k as usize }) && r.calls@.contains(
            BackendCall::UploadWait { dev: k as usize }),
        r.result matches Ok(m) ==> {
            &&& m@.len() == devs@.len()
            &&& forall|k: int| 0 <= k < m@.len() ==> (#[trigger] m@[k]).is_user
                == buffer_import_applies(devs@[k], has_host(host), copy)
            &&& forall|k: int| 0 <= k < m@.len() ==> (#[trigger] m@[k]).uploaded == (has_host(host)
                && (copy || !m@[k].is_user))
            &&& forall|k: int| 0 <= k < m@.len() ==> (#[trigger] m@[k]).data@ == if has_host(host) {
                host_bytes(host)
            } else {
                Seq::<u8>::empty()
            }
            &&& forall|k: int| 0 <= k < m@.len() ==> (#[trigger] m@[k]).res_type == res_type
                && m@[k].format is None && m@[k].transfer is None
        },
{
    let mut calls: Vec<BackendCall> = Vec::new();
    if size > u32::MAX as usize {
        return ProvisionRun { result: Err(ProvisionError::SizeOverflow), calls };
    }
    let mut res: Vec<Resource> = Vec::new();
    let mut i: usize = 0;
    while i < devs.len()
        invariant
            i <= devs@.len(),
            res@.len() == i,
            has_host(host) ==> host_bytes(host).len() == size,
            no_upload_calls(calls@),
            forall|k: int| 0 <= k < i ==> buffer_dev_ok(#[trigger] devs@[k], has_host(host), copy),
            forall|k: int| 0 <= k < i ==> (#[trigger] res@[k]).is_user == buffer_import_applies(
                devs@[k],
                has_host(host),
                copy,
            ),
            forall|k: int| 0 <= k < i ==> !(#[trigger] res@[k]).uploaded,
            forall|k: int| 0 <= k < i ==> (#[trigger] res@[k]).data@ == if res@[k].is_user {
                host_bytes(host)
            } else {
                Seq::<u8>::empty()
            },
            forall|k: int| 0 <= k < i ==> (#[trigger] res@[k]).res_type == res_type && res@[k].format
                is None && res@[k].transfer is None,
        decreases devs@.len() - i,
    {
        let dev = devs[i];
        let mut resource: Option<Resource> = None;

        if let Some(h) = host {
            if !copy {
                calls.push(BackendCall::BufferFromUser { dev: i });
                if dev.can_import {
                    resource = Some(
                        Resource {
                            is_user: true,
                            uploaded: false,
                            res_type,
                            format: None,
                            transfer: None,
                            data: copy_bytes(h),
                        },
                    );
                }
            }
        }

        if resource.is_none() {
            calls.push(BackendCall::BufferAlloc { dev: i });
            if dev.can_alloc {
                resource = Some(
                    Resource {
                        is_user: false,
                        uploaded: false,
                        res_type,
                        format: None,
                        transfer: None,
                        data: Vec::new(),
                    },
                );
            }
        }

        match resource {
            Some(created) => {
                res.push(created);
            },
            None => {
                proof {
                    assert(!buffer_dev_ok(devs@[i as int], has_host(host), copy));
                    lemma_no_uploads_ordered(calls@);
                }
                return ProvisionRun { result: Err(ProvisionError::ResourceExhausted), calls };
            },
        }
        i = i + 1;
    }

    match host {
        Some(h) => {
            // issue one upload per device whose resource did not end up
            // aliasing the host pointer, across all devices, before
            // waiting on any of them
            let mut j: usize = 0;
            while j < res.len()
                invariant
                    j <= res@.len(),
                    no_wait_calls(calls@),
                    forall|k: int| 0 <= k < j && (copy || !(#[trigger] res@[k]).is_user)
                        ==> calls@.contains(BackendCall::UploadIssue { dev: k as usize }),
                decreases res@.len() - j,
            {
                if copy || !res[j].is_user {
                    calls.push(BackendCall::UploadIssue { dev: j });
                }
                j = j + 1;
            }
            let ghost res0 = res@;
            let mut j: usize = 0;
            while j < res.len()
                invariant
                    j <= res@.len(),
                    res@.len() == res0.len(),
                    host == Some(h),
                    has_host(host) && host_bytes(host).len() == size,
                    issues_precede_waits(calls@),
                    forall|k: int| j <= k < res@.len() ==> #[trigger] res@[k] == res0[k],
                    forall|k: int| 0 <= k < res0.len() ==> (#[trigger] res0[k]).is_user
                        == buffer_import_applies(devs@[k], has_host(host), copy),
                    forall|k: int| 0 <= k < res0.len() ==> !(#[trigger] res0[k]).uploaded,
                    forall|k: int| 0 <= k < res0.len() ==> (#[trigger] res0[k]).data@ == if res0[k].is_user {
                        host_bytes(host)
                    } else {
                        Seq::<u8>::empty()
                    },
                    forall|k: int| 0 <= k < res0.len() ==> (#[trigger] res0[k]).res_type == res_type
                        && res0[k].format is None && res0[k].transfer is None,
                    forall|k: int| 0 <= k < j ==> (#[trigger] res@[k]).is_user == res0[k].is_user
                        && res@[k].res_type == res0[k].res_type && res@[k].format == res0[k].format
                        && res@[k].transfer == res0[k].transfer,
                    forall|k: int| 0 <= k < j ==> (#[trigger] res@[k]).uploaded == (copy
                        || !res@[k].is_user),
                    forall|k: int| 0 <= k < j ==> (#[trigger] res@[k]).data@ == host_bytes(host),
                    forall|k: int| 0 <= k < res0.len() && (copy || !(#[trigger] res0[k]).is_user)
                        ==> calls@.contains(BackendCall::UploadIssue { dev: k as usize }),
                    forall|k: int| 0 <= k < j && (#[trigger] res@[k]).uploaded ==> calls@.contains(
                        BackendCall::UploadWait { dev: k as usize },
                    ),
                decreases res@.len() - j,
            {
                let is_user: bool = res[j].is_user;
                if copy || !is_user {
                    // the wait returns only once the device holds the full
                    // `size` bytes from the host pointer at offset 0
                    let filled = copy_bytes(h);
                    let rj = &mut res[j];
                    rj.data = filled;
                    rj.uploaded = true;
                    let ghost c0 = calls@;
                    calls.push(BackendCall::UploadWait { dev: j });
                    proof {
                        assert forall|p: int, q: int|
                            0 <= p < q < calls@.len() && (#[trigger] calls@[p]).is_wait() implies !(
                        #[trigger] calls@[q]).is_issue() by {
                            if q < c0.len() {
                                assert(c0[p].is_wait() && calls@[q] == c0[q]);
                            }
                        }
                    }
                }
                j = j + 1;
            }
            ProvisionRun { result: Ok(res), calls }
        },
        None => {
            proof {
                lemma_no_uploads_ordered(calls@);
            }
            ProvisionRun { result: Ok(res), calls }
        },
    }
}

/// Provisions one logical image as one resource per device.
///
/// Width, height, depth and array size must each convert losslessly to
/// the device-facing width; overflow fails before any device is
/// contacted. Zero-copy import of the host pointer is attempted only for
/// one-dimensional images when copy semantics were not requested; the
/// fallback is a private allocation of the requested usage class. When a
/// host pointer was supplied, every device whose resource does not alias
/// it receives the contents as a region transfer using the descriptor's
/// bounding box, row stride and slice stride: all uploads are issued
/// first, then each is awaited.
#[verifier::loop_isolation(false)]
pub fn provision_texture(
    devs: &Vec<Device>,
    desc: &ImageDescriptor,
    format: PixelFormat,
    host: Option<&Vec<u8>>,
    copy: bool,
    res_type: ResourceType,
) -> (r: ProvisionRun)
    ensures
        issues_precede_waits(r.calls@),
        !desc.dims_fit() ==> (r.result matches Err(e) && e == ProvisionError::SizeOverflow
            && r.calls@.len() == 0),
        (desc.dims_fit() && (forall|k: int|
            0 <= k < devs@.len() ==> texture_dev_ok(devs@[k], has_host(host), copy,
            desc.image_type)) && (has_host(host) ==> desc.image_row_pitch <= u32::MAX)) <==> r.result
            is Ok,
        desc.dims_fit() && !(forall|k: int|
            0 <= k < devs@.len() ==> texture_dev_ok(devs@[k], has_host(host), copy,
            desc.image_type)) ==> (r.result matches Err(e) && e == ProvisionError::ResourceExhausted
            && no_upload_calls(r.calls@)),
        desc.dims_fit() && (forall|k: int|
            0 <= k < devs@.len() ==> texture_dev_ok(devs@[k], has_host(host), copy,
            desc.image_type)) && has_host(host) && desc.image_row_pitch > u32::MAX ==> (r.result
            matches Err(e) && e == ProvisionError::SizeOverflow && no_upload_calls(r.calls@)),
        !has_host(host) ==> no_upload_calls(r.calls@),
        r.result matches Ok(m) ==> forall|k: int|
            0 <= k < m@.len() && (#[trigger] m@[k]).uploaded ==> r.calls@.contains(
            BackendCall::UploadIssue { dev: k as usize }) && r.calls@.contains(
            BackendCall::UploadWait { dev: k as usize }),
        r.result matches Ok(m) ==> {
            &&& m@.len() == devs@.len()
            &&& forall|k: int| 0 <= k < m@.len() ==> (#[trigger] m@[k]).is_user
                == texture_import_applies(devs@[k], has_host(host), copy, desc.image_type)
            &&& forall|k: int| 0 <= k < m@.len() ==> (#[trigger] m@[k]).uploaded == (has_host(host)
                && (copy || !m@[k].is_user))
            &&& forall|k: int| 0 <= k < m@.len() ==> (#[trigger] m@[k]).data@ == if has_host(host) {
                host_bytes(host)
            } else {
                Seq::<u8>::empty()
            }
            &&& forall|k: int| 0 <= k < m@.len() ==> (#[trigger] m@[k]).res_type == res_type
                && m@[k].format == Some(format)
            &&& forall|k: int| 0 <= k < m@.len() ==> (#[trigger] m@[k]).transfer == if m@[k].uploaded {
                Some(TextureTransfer {
                    bx: PipeBox {
                        x: 0,
                        y: 0,
                        z: 0,
                        width: desc.image_width as u32,
                        height: desc.box_height() as u32,
                        depth: desc.box_depth() as u32,
                    },
                    row_stride: desc.image_row_pitch as u32,
                    layer_stride: desc.image_slice_pitch,
                })
            } else {
                None::<TextureTransfer>
            }
        },
{
    let mut calls: Vec<BackendCall> = Vec::new();
    if desc.image_width > u32::MAX as usize || desc.image_height > u32::MAX as usize
        || desc.image_depth > u32::MAX as usize || desc.image_array_size > u32::MAX as usize {
        return ProvisionRun { result: Err(ProvisionError::SizeOverflow), calls };
    }
    let mut res: Vec<Resource> = Vec::new();
    let mut i: usize = 0;
    while i < devs.len()
        invariant
            i <= devs@.len(),
            res@.len() == i,
            no_upload_calls(calls@),
            forall|k: int| 0 <= k < i ==> texture_dev_ok(#[trigger] devs@[k], has_host(host), copy,
                desc.image_type),
            forall|k: int| 0 <= k < i ==> (#[trigger] res@[k]).is_user == texture_import_applies(
                devs@[k],
                has_host(host),
                copy,
                desc.image_type,
            ),
            forall|k: int| 0 <= k < i ==> !(#[trigger] res@[k]).uploaded,
            forall|k: int| 0 <= k < i ==> (#[trigger] res@[k]).data@ == if res@[k].is_user {
                host_bytes(host)
            } else {
                Seq::<u8>::empty()
            },
            forall|k: int| 0 <= k < i ==> (#[trigger] res@[k]).res_type == res_type && res@[k].format
                == Some(format) && res@[k].transfer is None,
        decreases devs@.len() - i,
    {
        let dev = devs[i];
        let mut resource: Option<Resource> = None;

        // import cannot honor host-supplied strides on a multi-dimensional
        // image, so it is attempted for one-dimensional images only
        if let Some(h) = host {
            if !copy && desc.image_type == ImageType::Tex1D {
                calls.push(BackendCall::TextureFromUser { dev: i });
                if dev.can_import {
                    resource = Some(
                        Resource {
                            is_user: true,
                            uploaded: false,
                            res_type,
                            format: Some(format),
                            transfer: None,
                            data: copy_bytes(h),
                        },
                    );
                }
            }
        }

        if resource.is_none() {
            calls.push(BackendCall::TextureAlloc { dev: i });
            if dev.can_alloc {
                resource = Some(
                    Resource {
                        is_user: false,
                        uploaded: false,
                        res_type,
                        format: Some(format),
                        transfer: None,
                        data: Vec::new(),
                    },
                );
            }
        }

        match resource {
            Some(created) => {
                res.push(created);
            },
            None => {
                proof {
                    assert(!texture_dev_ok(devs@[i as int], has_host(host), copy,
                        desc.image_type));
                    lemma_no_uploads_ordered(calls@);
                }
                return ProvisionRun { result: Err(ProvisionError::ResourceExhausted), calls };
            },
        }
        i = i + 1;
    }

    match host {
        Some(h) => {
            let bx = match desc.bx() {
                Ok(b) => b,
                Err(e) => {
                    // unreachable: the box of an image whose dimensions
                    // all fit the device-facing width fits it too
                    proof {
                        lemma_no_uploads_ordered(calls@);
                    }
                    return ProvisionRun { result: Err(e), calls };
                },
            };
            let stride: u32 = match desc.row_pitch() {
                Ok(p) => p,
                Err(e) => {
                    proof {
                        lemma_no_uploads_ordered(calls@);
                    }
                    return ProvisionRun { result: Err(e), calls };
                },
            };
            let layer_stride: usize = desc.slice_pitch();

            // issue one upload per device whose resource did not end up
            // aliasing the host pointer, across all devices, before
            // waiting on any of them
            let mut j: usize = 0;
            while j < res.len()
                invariant
                    j <= res@.len(),
                    no_wait_calls(calls@),
                    forall|k: int| 0 <= k < j && (copy || !(#[trigger] res@[k]).is_user)
                        ==> calls@.contains(BackendCall::UploadIssue { dev: k as usize }),
                decreases res@.len() - j,
            {
                if copy || !res[j].is_user {
                    calls.push(BackendCall::UploadIssue { dev: j });
                }
                j = j + 1;
            }
            let ghost res0 = res@;
            let mut j: usize = 0;
            while j < res.len()
                invariant
                    j <= res@.len(),
                    res@.len() == res0.len(),
                    host == Some(h),
                    issues_precede_waits(calls@),
                    forall|k: int| j <= k < res@.len() ==> #[trigger] res@[k] == res0[k],
                    forall|k: int| 0 <= k < j ==> (#[trigger] res@[k]).is_user == res0[k].is_user
                        && res@[k].res_type == res0[k].res_type && res@[k].format == res0[k].format,
                    forall|k: int| 0 <= k < j ==> (#[trigger] res@[k]).uploaded == (copy
                        || !res@[k].is_user),
                    forall|k: int| 0 <= k < j ==> (#[trigger] res@[k]).data@ == host_bytes(host),
                    forall|k: int| 0 <= k < j ==> (#[trigger] res@[k]).transfer == if res@[k].uploaded {
                        Some(TextureTransfer { bx, row_stride: stride, layer_stride })
                    } else {
                        None::<TextureTransfer>
                    },
                    forall|k: int| 0 <= k < res0.len() && (copy || !(#[trigger] res0[k]).is_user)
                        ==> calls@.contains(BackendCall::UploadIssue { dev: k as usize }),
                    forall|k: int| 0 <= k < j && (#[trigger] res@[k]).uploaded ==> calls@.contains(
                        BackendCall::UploadWait { dev: k as usize },
                    ),
                decreases res@.len() - j,
            {
                let is_user: bool = res[j].is_user;
                if copy || !is_user {
                    // the wait returns only once the device holds the
                    // whole region read from the host pointer with the
                    // descriptor's strides
                    let filled = copy_bytes(h);
                    let rj = &mut res[j];
                    rj.data = filled;
                    rj.uploaded = true;
                    rj.transfer = Some(TextureTransfer { bx, row_stride: stride, layer_stride });
                    let ghost c0 = calls@;
                    calls.push(BackendCall::UploadWait { dev: j });
                    proof {
                        assert forall|p: int, q: int|
                            0 <= p < q < calls@.len() && (#[trigger] calls@[p]).is_wait() implies !(
                        #[trigger] calls@[q]).is_issue() by {
                            if q < c0.len() {
                                assert(c0[p].is_wait() && calls@[q] == c0[q]);
                            }
                        }
                    }
                }
                j = j + 1;
            }
            ProvisionRun { result: Ok(res), calls }
        },
        None => {
            proof {
                lemma_no_uploads_ordered(calls@);
            }
            ProvisionRun { result: Ok(res), calls }
        },
    }
}

} // verus!
