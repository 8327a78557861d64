use rusticl_context::context::Context;
use rusticl_context::device::Device;
use rusticl_context::svm::SvmLayout;

fn dev_with_limit(max_mem_alloc: u64, svm_supported: bool) -> Device {
    Device { max_mem_alloc, svm_supported, can_import: false, can_alloc: true }
}

#[test]
fn max_mem_alloc_is_the_minimum_across_devices() {
    let devs = vec![
        dev_with_limit(4096, false),
        dev_with_limit(1024, false),
        dev_with_limit(2048, false),
    ];
    let ctx = Context::new(devs, Vec::new());
    assert_eq!(ctx.max_mem_alloc(), 1024);
}

#[test]
fn max_mem_alloc_of_a_single_device_is_its_limit() {
    let ctx = Context::new(vec![dev_with_limit(777, false)], Vec::new());
    assert_eq!(ctx.max_mem_alloc(), 777);
}

#[test]
fn has_svm_devs_is_true_iff_any_device_supports_svm() {
    let none = Context::new(
        vec![dev_with_limit(1, false), dev_with_limit(1, false)],
        Vec::new(),
    );
    assert!(!none.has_svm_devs());
    let one = Context::new(
        vec![dev_with_limit(1, false), dev_with_limit(1, true)],
        Vec::new(),
    );
    assert!(one.has_svm_devs());
}

#[test]
fn teardown_callbacks_drain_in_reverse_registration_order() {
    let mut ctx = Context::new(vec![dev_with_limit(1, false)], Vec::new());
    ctx.register_dtor(1);
    ctx.register_dtor(2);
    ctx.register_dtor(3);
    assert_eq!(ctx.destroy(), vec![3, 2, 1]);
}

#[test]
fn teardown_runs_each_callback_exactly_once() {
    let mut ctx = Context::new(Vec::new(), Vec::new());
    ctx.register_dtor(7);
    assert_eq!(ctx.destroy(), vec![7]);
    let empty: Vec<u64> = Vec::new();
    assert_eq!(ctx.destroy(), empty);
}

#[test]
fn context_keeps_its_creation_properties() {
    let props: Vec<u64> = vec![0x1001, 42, 0];
    let ctx = Context::new(vec![dev_with_limit(1, false)], props.clone());
    assert_eq!(ctx.properties, props);
    assert_eq!(ctx.devs.len(), 1);
    assert!(ctx.dtors.is_empty());
}

#[test]
fn context_tracks_svm_pointers_end_to_end() {
    let mut ctx = Context::new(vec![dev_with_limit(1, true)], Vec::new());
    let layout = SvmLayout { size: 64, align: 16 };
    ctx.add_svm_ptr(4096, layout);
    assert_eq!(ctx.find_svm_alloc(4096), Some((4096, layout)));
    assert_eq!(ctx.find_svm_alloc(4159), Some((4096, layout)));
    assert_eq!(ctx.find_svm_alloc(4160), None);
    assert_eq!(ctx.remove_svm_ptr(4096), Some(layout));
    assert_eq!(ctx.find_svm_alloc(4096), None);
    assert_eq!(ctx.remove_svm_ptr(4096), None);
}
