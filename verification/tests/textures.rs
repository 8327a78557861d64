use rusticl_context::context::Context;
use rusticl_context::device::BackendCall;
use rusticl_context::device::Device;
use rusticl_context::device::ProvisionError;
use rusticl_context::device::ResourceType;
use rusticl_context::image::ImageDescriptor;
use rusticl_context::image::ImageType;
use rusticl_context::image::PipeBox;
use rusticl_context::image::PixelFormat;
use rusticl_context::image::TextureTransfer;
use rusticl_context::provision::provision_texture;

fn dev(can_import: bool, can_alloc: bool) -> Device {
    Device { max_mem_alloc: 1 << 30, svm_supported: false, can_import, can_alloc }
}

fn desc_1d(width: usize) -> ImageDescriptor {
    ImageDescriptor {
        image_type: ImageType::Tex1D,
        image_width: width,
        image_height: 0,
        image_depth: 0,
        image_array_size: 0,
        image_row_pitch: width,
        image_slice_pitch: 0,
    }
}

fn desc_2d(width: usize, height: usize) -> ImageDescriptor {
    ImageDescriptor {
        image_type: ImageType::Tex2D,
        image_width: width,
        image_height: height,
        image_depth: 0,
        image_array_size: 0,
        image_row_pitch: width,
        image_slice_pitch: width * height,
    }
}

fn rgba() -> PixelFormat {
    PixelFormat { id: 1 }
}

#[test]
fn texture_dimension_overflow_contacts_no_device() {
    let devs = vec![dev(true, true)];
    let mut d = desc_2d(4, 4);
    d.image_height = (u32::MAX as usize) + 1;
    let run = provision_texture(&devs, &d, rgba(), None, false, ResourceType::Normal);
    assert_eq!(run.result.err(), Some(ProvisionError::SizeOverflow));
    assert!(run.calls.is_empty());
}

#[test]
fn texture_array_size_overflow_contacts_no_device() {
    let devs = vec![dev(true, true)];
    let mut d = desc_1d(4);
    d.image_type = ImageType::Tex1DArray;
    d.image_array_size = (u32::MAX as usize) + 1;
    let run = provision_texture(&devs, &d, rgba(), None, false, ResourceType::Normal);
    assert_eq!(run.result.err(), Some(ProvisionError::SizeOverflow));
    assert!(run.calls.is_empty());
}

#[test]
fn texture_1d_import_aliases_host_memory() {
    let host: Vec<u8> = vec![1, 2, 3, 4];
    let devs = vec![dev(true, true)];
    let ctx = Context::new(devs, Vec::new());
    let map = ctx
        .create_texture(&desc_1d(4), rgba(), Some(&host), false, ResourceType::Normal)
        .unwrap();
    assert!(map[0].is_user);
    assert!(!map[0].uploaded);
    assert_eq!(map[0].data, host);
    assert_eq!(map[0].transfer, None);
}

#[test]
fn texture_2d_never_imports_even_without_copy_request() {
    let host: Vec<u8> = vec![7; 16];
    let devs = vec![dev(true, true)];
    let ctx = Context::new(devs, Vec::new());
    let map = ctx
        .create_texture(&desc_2d(4, 4), rgba(), Some(&host), false, ResourceType::Normal)
        .unwrap();
    assert!(!map[0].is_user);
    assert!(map[0].uploaded);
    assert_eq!(map[0].data, host);
}

#[test]
fn texture_copy_request_forces_upload_on_1d() {
    let host: Vec<u8> = vec![3; 8];
    let devs = vec![dev(true, true)];
    let ctx = Context::new(devs, Vec::new());
    let map = ctx
        .create_texture(&desc_1d(8), rgba(), Some(&host), true, ResourceType::Normal)
        .unwrap();
    assert!(!map[0].is_user);
    assert!(map[0].uploaded);
    assert_eq!(map[0].data, host);
}

#[test]
fn texture_upload_records_region_and_strides() {
    let host: Vec<u8> = vec![5; 24];
    let d = ImageDescriptor {
        image_type: ImageType::Tex2D,
        image_width: 2,
        image_height: 3,
        image_depth: 0,
        image_array_size: 0,
        image_row_pitch: 8,
        image_slice_pitch: 24,
    };
    let devs = vec![dev(false, true)];
    let ctx = Context::new(devs, Vec::new());
    let map = ctx.create_texture(&d, rgba(), Some(&host), false, ResourceType::Normal).unwrap();
    assert_eq!(
        map[0].transfer,
        Some(TextureTransfer {
            bx: PipeBox { x: 0, y: 0, z: 0, width: 2, height: 3, depth: 1 },
            row_stride: 8,
            layer_stride: 24,
        }),
    );
}

#[test]
fn texture_row_pitch_overflow_fails_after_creation() {
    let host: Vec<u8> = vec![1; 4];
    let mut d = desc_1d(4);
    d.image_row_pitch = (u32::MAX as usize) + 1;
    let devs = vec![dev(false, true)];
    let run = provision_texture(&devs, &d, rgba(), Some(&host), false, ResourceType::Normal);
    assert_eq!(run.result.err(), Some(ProvisionError::SizeOverflow));
    assert!(!run.calls.is_empty());
    for c in &run.calls {
        assert!(!matches!(c, BackendCall::UploadIssue { .. }));
        assert!(!matches!(c, BackendCall::UploadWait { .. }));
    }
}

#[test]
fn texture_exhaustion_fails_the_whole_call() {
    let devs = vec![dev(false, true), dev(false, false)];
    let ctx = Context::new(devs, Vec::new());
    let r = ctx.create_texture(&desc_2d(4, 4), rgba(), None, false, ResourceType::Normal);
    assert_eq!(r.err(), Some(ProvisionError::ResourceExhausted));
}

#[test]
fn texture_uploads_are_all_issued_before_any_wait() {
    let host: Vec<u8> = vec![2; 16];
    let devs = vec![dev(false, true), dev(false, true)];
    let run = provision_texture(&devs, &desc_2d(4, 4), rgba(), Some(&host), false,
        ResourceType::Normal);
    assert!(run.result.is_ok());
    assert_eq!(
        run.calls,
        vec![
            BackendCall::TextureAlloc { dev: 0 },
            BackendCall::TextureAlloc { dev: 1 },
            BackendCall::UploadIssue { dev: 0 },
            BackendCall::UploadIssue { dev: 1 },
            BackendCall::UploadWait { dev: 0 },
            BackendCall::UploadWait { dev: 1 },
        ],
    );
}

#[test]
fn image_box_covers_layers_of_a_1d_array() {
    let d = ImageDescriptor {
        image_type: ImageType::Tex1DArray,
        image_width: 16,
        image_height: 0,
        image_depth: 0,
        image_array_size: 6,
        image_row_pitch: 16,
        image_slice_pitch: 16,
    };
    assert_eq!(
        d.bx(),
        Ok(PipeBox { x: 0, y: 0, z: 0, width: 16, height: 6, depth: 1 }),
    );
}

#[test]
fn image_box_covers_layers_of_a_2d_array() {
    let d = ImageDescriptor {
        image_type: ImageType::Tex2DArray,
        image_width: 8,
        image_height: 4,
        image_depth: 0,
        image_array_size: 5,
        image_row_pitch: 8,
        image_slice_pitch: 32,
    };
    assert_eq!(
        d.bx(),
        Ok(PipeBox { x: 0, y: 0, z: 0, width: 8, height: 4, depth: 5 }),
    );
}

#[test]
fn image_pitch_conversion_guards_the_device_width() {
    let mut d = desc_1d(4);
    assert_eq!(d.row_pitch(), Ok(4));
    d.image_row_pitch = (u32::MAX as usize) + 1;
    assert_eq!(d.row_pitch(), Err(ProvisionError::SizeOverflow));
    d.image_slice_pitch = 99;
    assert_eq!(d.slice_pitch(), 99);
}
