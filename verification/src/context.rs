//! The compute context: the unit of ownership for the participating
//! device set, the resource provisioner, the shared-virtual-memory
//! allocation table and the teardown-callback list.

use vstd::prelude::*;
use crate::device::Device;
use crate::device::ProvisionError;
use crate::device::Resource;
use crate::device::ResourceType;
use crate::image::ImageDescriptor;
use crate::image::PipeBox;
use crate::image::PixelFormat;
use crate::image::TextureTransfer;
use crate::provision::buffer_dev_ok;
use crate::provision::buffer_import_applies;
use crate::provision::buffer_size_fits;
use crate::provision::has_host;
use crate::provision::host_bytes;
use crate::provision::provision_buffer;
use crate::provision::provision_texture;
use crate::provision::texture_dev_ok;
use crate::provision::texture_import_applies;
use crate::svm::SvmAllocationTable;
use crate::svm::SvmLayout;

verus! {

/// A compute context over a fixed, ordered set of devices.
///
/// The device set and the creation properties are immutable after
/// construction. The teardown list and the allocation table are mutable;
/// the embedding layer guards the context with its locks and serializes
/// the individual operations, so the methods that mutate take the context
/// exclusively.
pub struct Context {
    /// The participating devices, fixed at construction, in order.
    pub devs: Vec<Device>,
    /// The opaque creation properties the context was made with.
    pub properties: Vec<u64>,
    /// Teardown callbacks in registration order, as opaque handles that
    /// the embedding layer maps to real closures.
    pub dtors: Vec<u64>,
    /// The live shared-virtual-memory allocations.
    pub svm_ptrs: SvmAllocationTable,
}

impl Context {
    /// A fresh context over these devices and properties, with no
    /// teardown callback registered and no allocation tracked.
    pub fn new(devs: Vec<Device>, properties: Vec<u64>) -> (ctx: Context)
        ensures
            ctx.devs == devs,
            ctx.properties == properties,
            ctx.dtors@ == Seq::<u64>::empty(),
            ctx.svm_ptrs@ == Map::<usize, SvmLayout>::empty(),
    {
        Context { devs, properties, dtors: Vec::new(), svm_ptrs: SvmAllocationTable::new() }
    }

    /// Provisions one logical buffer of `size` bytes as one resource per
    /// participating device, or fails: with `SizeOverflow` before any
    /// device is contacted when the size does not fit the device-facing
    /// width, or with `ResourceExhausted` when neither import nor private
    /// allocation succeeds on some device. On failure the caller receives
    /// no resource at all; resources already created for earlier devices
    /// are released by ownership teardown.
    pub fn create_buffer(
        &self,
        size: usize,
        host: Option<&Vec<u8>>,
        copy: bool,
        res_type: ResourceType,
    ) -> (r: Result<Vec<Resource>, ProvisionError>)
        requires
            has_host(host) ==> host_bytes(host).len() == size,
        ensures
            (buffer_size_fits(size) && forall|k: int|
                0 <= k < self.devs@.len() ==> buffer_dev_ok(self.devs@[k], has_host(host), copy))
                <==> r is Ok,
            !buffer_size_fits(size) ==> (r matches Err(e) && e == ProvisionError::SizeOverflow),
            buffer_size_fits(size) && r is Err ==> (r matches Err(e) && e
                == ProvisionError::ResourceExhausted),
            r matches Ok(m) ==> {
                &&& m@.len() == self.devs@.len()
                &&& forall|k: int| 0 <= k < m@.len() ==> (#[trigger] m@[k]).is_user
                    == buffer_import_applies(self.devs@[k], has_host(host), copy)
                &&& forall|k: int| 0 <= k < m@.len() ==> (#[trigger] m@[k]).uploaded == (has_host(
                    host,
                ) && (copy || !m@[k].is_user))
                &&& forall|k: int| 0 <= k < m@.len() ==> (#[trigger] m@[k]).data@ == if has_host(
                    host,
                ) {
                    host_bytes(host)
                } else {
                    Seq::<u8>::empty()
                }
                &&& forall|k: int| 0 <= k < m@.len() ==> (#[trigger] m@[k]).res_type == res_type
                    && m@[k].format is None && m@[k].transfer is None
            },
    {
        let run = provision_buffer(&self.devs, size, host, copy, res_type);
        run.result
    }

    /// Provisions one logical image as one resource per participating
    /// device, or fails; import is attempted only for one-dimensional
    /// images, and an upload, when owed, is a region transfer using the
    /// descriptor's bounding box, row stride and slice stride.
    pub fn create_texture(
        &self,
        desc: &ImageDescriptor,
        format: PixelFormat,
        host: Option<&Vec<u8>>,
        copy: bool,
        res_type: ResourceType,
    ) -> (r: Result<Vec<Resource>, ProvisionError>)
        ensures
            (desc.dims_fit() && (forall|k: int|
                0 <= k < self.devs@.len() ==> texture_dev_ok(self.devs@[k], has_host(host), copy,
                desc.image_type)) && (has_host(host) ==> desc.image_row_pitch <= u32::MAX)) <==> r
                is Ok,
            r is Err ==> (r matches Err(e) && (e == ProvisionError::ResourceExhausted <==> (
            desc.dims_fit() && !(forall|k: int|
                0 <= k < self.devs@.len() ==> texture_dev_ok(self.devs@[k], has_host(host), copy,
                desc.image_type))))),
            r matches Ok(m) ==> {
                &&& m@.len() == self.devs@.len()
                &&& forall|k: int| 0 <= k < m@.len() ==> (#[trigger] m@[k]).is_user
                    == texture_import_applies(self.devs@[k], has_host(host), copy, desc.image_type)
                &&& forall|k: int| 0 <= k < m@.len() ==> (#[trigger] m@[k]).uploaded == (has_host(
                    host,
                ) && (copy || !m@[k].is_user))
                &&& forall|k: int| 0 <= k < m@.len() ==> (#[trigger] m@[k]).data@ == if has_host(
                    host,
                ) {
                    host_bytes(host)
                } else {
                    Seq::<u8>::empty()
                }
                &&& forall|k: int| 0 <= k < m@.len() ==> (#[trigger] m@[k]).res_type == res_type
                    && m@[k].format == Some(format)
                &&& forall|k: int| 0 <= k < m@.len() ==> (#[trigger] m@[k]).transfer == if m@[k].uploaded {
                    Some(TextureTransfer {
                        bx: PipeBox {
                            x: 0,
                            y: 0,
                            z: 0,
                            width: desc.image_width as u32,
                            height: desc.box_height() as u32,
                            depth: desc.box_depth() as u32,
                        },
                        row_stride: desc.image_row_pitch as u32,
                        layer_stride: desc.image_slice_pitch,
                    })
                } else {
                    None::<TextureTransfer>
                }
            },
    {
        let run = provision_texture(&self.devs, desc, format, host, copy, res_type);
        run.result
    }

    /// The maximum allocation size every participating device supports:
    /// the minimum over the devices' limits, and so the effective ceiling
    /// for any single resource the context can provision.
    #[verifier::loop_isolation(false)]
    pub fn max_mem_alloc(&self) -> (r: u64)
        requires
            self.devs@.len() > 0,
        ensures
            exists|i: int| 0 <= i < self.devs@.len() && r == (#[trigger] self.devs@[i]).max_mem_alloc,
            forall|i: int| 0 <= i < self.devs@.len() ==> r <= (#[trigger] self.devs@[i]).max_mem_alloc,
    {
        let mut r: u64 = self.devs[0].max_mem_alloc;
        let mut i: usize = 1;
        while i < self.devs.len()
            invariant
                1 <= i <= self.devs@.len(),
                exists|k: int| 0 <= k < i && r == (#[trigger] self.devs@[k]).max_mem_alloc,
                forall|k: int| 0 <= k < i ==> r <= (#[trigger] self.devs@[k]).max_mem_alloc,
            decreases self.devs@.len() - i,
        {
            if self.devs[i].max_mem_alloc < r {
                r = self.devs[i].max_mem_alloc;
            }
            proof {
                if r == self.devs@[i as int].max_mem_alloc {
                    assert(0 <= i < i + 1 && r == self.devs@[i as int].max_mem_alloc);
                }
            }
            i = i + 1;
        }
        r
    }

    /// Whether at least one participating device supports shared virtual
    /// memory; otherwise the allocation-table calls are still accepted
    /// mechanically but meaningless.
    #[verifier::loop_isolation(false)]
    pub fn has_svm_devs(&self) -> (r: bool)
        ensures
            r <==> exists|i: int| 0 <= i < self.devs@.len() && (#[trigger] self.devs@[i]).svm_supported,
    {
        let mut i: usize = 0;
        while i < self.devs.len()
            invariant
                i <= self.devs@.len(),
                forall|k: int| 0 <= k < i ==> !(#[trigger] self.devs@[k]).svm_supported,
            decreases self.devs@.len() - i,
        {
            if self.devs[i].svm_supported {
                return true;
            }
            i = i + 1;
        }
        false
    }

    /// Records a new shared-virtual-memory allocation. The allocator that
    /// supplies addresses guarantees that the base is fresh and the range
    /// overlaps no live allocation.
    pub fn add_svm_ptr(&mut self, ptr: usize, layout: SvmLayout)
        requires
            !old(self).svm_ptrs@.dom().contains(ptr),
            forall|b: usize| #[trigger] old(self).svm_ptrs@.dom().contains(b) ==> b
                + old(self).svm_ptrs@[b].size <= ptr || ptr + layout.size <= b,
            ptr + layout.size <= usize::MAX,
        ensures
            final(self).svm_ptrs@ == old(self).svm_ptrs@.insert(ptr, layout),
            final(self).devs == old(self).devs,
            final(self).properties == old(self).properties,
            final(self).dtors == old(self).dtors,
    {
        self.svm_ptrs.add(ptr, layout);
    }

    /// Resolves an arbitrary pointer to the live allocation whose range
    /// contains it, as a `(base, layout)` pair, or reports that none does.
    pub fn find_svm_alloc(&self, ptr: usize) -> (r: Option<(usize, SvmLayout)>)
        ensures
            match r {
                Some(p) => self.svm_ptrs@.dom().contains(p.0) && self.svm_ptrs@[p.0] == p.1 && p.0
                    <= ptr < p.0 + p.1.size,
                None => forall|b: usize| #[trigger] self.svm_ptrs@.dom().contains(b) ==> !(b <= ptr
                    < b + self.svm_ptrs@[b].size),
            },
    {
        self.svm_ptrs.find(ptr)
    }

    /// Forgets the allocation with exactly this base, reporting the
    /// removed layout; removing a base that was never added, or was
    /// already removed, reports `None` and is not an error.
    pub fn remove_svm_ptr(&mut self, ptr: usize) -> (r: Option<SvmLayout>)
        ensures
            final(self).svm_ptrs@ == old(self).svm_ptrs@.remove(ptr),
            r == if old(self).svm_ptrs@.dom().contains(ptr) {
                Some(old(self).svm_ptrs@[ptr])
            } else {
                None::<SvmLayout>
            },
            final(self).devs == old(self).devs,
            final(self).properties == old(self).properties,
            final(self).dtors == old(self).dtors,
    {
        self.svm_ptrs.remove(ptr)
    }

    /// Registers a teardown callback, by its handle, after every callback
    /// registered so far.
    pub fn register_dtor(&mut self, dtor: u64)
        ensures
            final(self).dtors@ == old(self).dtors@.push(dtor),
            final(self).devs == old(self).devs,
            final(self).properties == old(self).properties,
            final(self).svm_ptrs == old(self).svm_ptrs,
    {
        self.dtors.push(dtor);
    }

    /// Drains the teardown list for destruction: every registered
    /// callback appears exactly once in the returned order, which is the
    /// reverse of registration order. The embedding layer invokes the
    /// callbacks in this order, each exactly once, before it releases any
    /// owned resource.
    #[verifier::loop_isolation(false)]
    pub fn destroy(&mut self) -> (order: Vec<u64>)
        ensures
            order@ == old(self).dtors@.reverse(),
            final(self).dtors@ == Seq::<u64>::empty(),
            final(self).devs == old(self).devs,
            final(self).properties == old(self).properties,
            final(self).svm_ptrs == old(self).svm_ptrs,
    {
        let ghost d0 = self.dtors@;
        let mut order: Vec<u64> = Vec::new();
        while self.dtors.len() > 0
            invariant
                order@.len() <= d0.len(),
                self.dtors@ == d0.subrange(0, d0.len() - order@.len()),
                forall|k: int| 0 <= k < order@.len() ==> #[trigger] order@[k] == d0[d0.len() - 1
                    - k],
                self.devs == old(self).devs,
                self.properties == old(self).properties,
                self.svm_ptrs == old(self).svm_ptrs,
            decreases self.dtors@.len(),
        {
            let cb: u64 = self.dtors.pop().unwrap();
            order.push(cb);
        }
        proof {
            assert(order@ =~= d0.reverse());
            assert(self.dtors@ =~= Seq::<u64>::empty());
        }
        order
    }
}

} // verus!
