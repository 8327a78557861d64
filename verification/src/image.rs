//! The logical shape of an image being provisioned: its dimensions, the
//! host-layout strides of its initial contents, and the derived bounding
//! box used when an initial upload is required.

use vstd::prelude::*;
use crate::device::ProvisionError;

verus! {

/// The shape class of an image.
#[derive(Clone, Copy, PartialEq, Eq, Structural, Debug)]
pub enum ImageType {
    Tex1D,
    Tex1DArray,
    Tex2D,
    Tex2DArray,
    Tex3D,
}

/// A pixel format, carried through to the device backend as an opaque
/// identifier; provisioning never interprets it.
#[derive(Clone, Copy, PartialEq, Eq, Structural, Debug)]
pub struct PixelFormat {
    pub id: u32,
}

/// The bounding box of a whole-image transfer, in the device-facing width.
#[derive(Clone, Copy, PartialEq, Eq, Structural, Debug)]
pub struct PipeBox {
    pub x: u32,
    pub y: u32,
    pub z: u32,
    pub width: u32,
    pub height: u32,
    pub depth: u32,
}

/// The shape of one texture upload: the bounding box the transfer covers
/// and the row and slice strides of the host data it reads.
#[derive(Clone, Copy, PartialEq, Eq, Structural, Debug)]
pub struct TextureTransfer {
    pub bx: PipeBox,
    pub row_stride: u32,
    pub layer_stride: usize,
}

/// The logical shape being provisioned for an image: dimensions and
/// array size as the caller gave them, plus the row and slice strides of
/// the host data, already validated and filled in by the caller layer.
#[derive(Clone, Copy, PartialEq, Eq, Structural, Debug)]
pub struct ImageDescriptor {
    pub image_type: ImageType,
    pub image_width: usize,
    pub image_height: usize,
    pub image_depth: usize,
    pub image_array_size: usize,
    pub image_row_pitch: usize,
    pub image_slice_pitch: usize,
}

impl ImageDescriptor {
    /// The height of the whole-image bounding box: rows for planar images,
    /// one slot per layer for one-dimensional arrays, and at least one.
    pub open spec fn box_height(self) -> int {
        if self.image_type is Tex1DArray {
            self.image_array_size as int
        } else if self.image_height == 0 {
            1
        } else {
            self.image_height as int
        }
    }

    /// The depth of the whole-image bounding box: slices for volumes, one
    /// slot per layer for two-dimensional arrays, and at least one.
    pub open spec fn box_depth(self) -> int {
        if self.image_type is Tex2DArray {
            self.image_array_size as int
        } else if self.image_depth == 0 {
            1
        } else {
            self.image_depth as int
        }
    }

    /// Whether every dimension of the descriptor converts losslessly to
    /// the device-facing width.
    pub open spec fn dims_fit(self) -> bool {
        self.image_width <= u32::MAX && self.image_height <= u32::MAX && self.image_depth
            <= u32::MAX && self.image_array_size <= u32::MAX
    }

    /// The bounding box of a transfer covering the whole image, or
    /// `SizeOverflow` when a box dimension does not fit the device-facing
    /// width. The box always fits once the descriptor's dimensions have
    /// been checked.
    pub fn bx(&self) -> (r: Result<PipeBox, ProvisionError>)
        ensures
            r is Ok <==> self.image_width <= u32::MAX && self.box_height() <= u32::MAX
                && self.box_depth() <= u32::MAX,
            r matches Ok(b) ==> b == (PipeBox {
                x: 0,
                y: 0,
                z: 0,
                width: self.image_width as u32,
                height: self.box_height() as u32,
                depth: self.box_depth() as u32,
            }),
    {
        if self.image_width > u32::MAX as usize {
            return Err(ProvisionError::SizeOverflow);
        }
        let height: usize = if matches!(self.image_type, ImageType::Tex1DArray) {
            self.image_array_size
        } else if self.image_height == 0 {
            1
        } else {
            self.image_height
        };
        let depth: usize = if matches!(self.image_type, ImageType::Tex2DArray) {
            self.image_array_size
        } else if self.image_depth == 0 {
            1
        } else {
            self.image_depth
        };
        if height > u32::MAX as usize || depth > u32::MAX as usize {
            return Err(ProvisionError::SizeOverflow);
        }
        Ok(PipeBox {
            x: 0,
            y: 0,
            z: 0,
            width: self.image_width as u32,
            height: height as u32,
            depth: depth as u32,
        })
    }

    /// The row stride of the host data in the device-facing width, or
    /// `SizeOverflow` when it does not fit.
    pub fn row_pitch(&self) -> (r: Result<u32, ProvisionError>)
        ensures
            r is Ok <==> self.image_row_pitch <= u32::MAX,
            r matches Ok(p) ==> p == self.image_row_pitch as u32,
            r is Err ==> r == Err::<u32, ProvisionError>(ProvisionError::SizeOverflow),
    {
        if self.image_row_pitch > u32::MAX as usize {
            Err(ProvisionError::SizeOverflow)
        } else {
            Ok(self.image_row_pitch as u32)
        }
    }

    /// The slice stride of the host data; used only to step between layers
    /// or depth slices of an upload, so it stays in the host width.
    pub fn slice_pitch(&self) -> (r: usize)
        ensures
            r == self.image_slice_pitch,
    {
        self.image_slice_pitch
    }
}

} // verus!
