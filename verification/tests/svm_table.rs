use rusticl_context::svm::SvmAllocationTable;
use rusticl_context::svm::SvmLayout;

fn layout(size: usize) -> SvmLayout {
    SvmLayout { size, align: 8 }
}

#[test]
fn svm_find_hits_inside_range() {
    let mut t = SvmAllocationTable::new();
    t.add(100, layout(50));
    assert_eq!(t.find(100), Some((100, layout(50))));
    assert_eq!(t.find(149), Some((100, layout(50))));
    assert_eq!(t.find(120), Some((100, layout(50))));
}

#[test]
fn svm_find_misses_outside_range() {
    let mut t = SvmAllocationTable::new();
    t.add(100, layout(50));
    assert_eq!(t.find(150), None);
    assert_eq!(t.find(99), None);
    assert_eq!(t.find(0), None);
}

#[test]
fn svm_find_misses_in_gap_between_allocations() {
    let mut t = SvmAllocationTable::new();
    t.add(100, layout(50));
    t.add(200, layout(30));
    assert_eq!(t.find(170), None);
    assert_eq!(t.find(229), Some((200, layout(30))));
    assert_eq!(t.find(230), None);
}

#[test]
fn svm_remove_then_find_misses() {
    let mut t = SvmAllocationTable::new();
    t.add(100, layout(50));
    assert_eq!(t.remove(100), Some(layout(50)));
    assert_eq!(t.find(100), None);
}

#[test]
fn svm_second_remove_reports_none() {
    let mut t = SvmAllocationTable::new();
    t.add(100, layout(50));
    assert_eq!(t.remove(100), Some(layout(50)));
    assert_eq!(t.remove(100), None);
}

#[test]
fn svm_remove_of_unknown_base_is_a_noop() {
    let mut t = SvmAllocationTable::new();
    assert_eq!(t.remove(12345), None);
    t.add(100, layout(50));
    assert_eq!(t.remove(101), None);
    assert_eq!(t.find(101), Some((100, layout(50))));
}

#[test]
fn svm_empty_table_finds_nothing() {
    let t = SvmAllocationTable::new();
    assert_eq!(t.find(0), None);
    assert_eq!(t.find(usize::MAX), None);
    assert_eq!(t.len(), 0);
}

#[test]
fn svm_insertion_order_does_not_matter() {
    let mut t = SvmAllocationTable::new();
    t.add(300, layout(10));
    t.add(100, layout(10));
    t.add(200, layout(10));
    assert_eq!(t.len(), 3);
    assert_eq!(t.find(105), Some((100, layout(10))));
    assert_eq!(t.find(205), Some((200, layout(10))));
    assert_eq!(t.find(305), Some((300, layout(10))));
    assert_eq!(t.find(150), None);
}

#[test]
fn svm_adjacent_ranges_resolve_to_their_own_base() {
    let mut t = SvmAllocationTable::new();
    t.add(100, layout(50));
    t.add(150, layout(50));
    assert_eq!(t.find(149), Some((100, layout(50))));
    assert_eq!(t.find(150), Some((150, layout(50))));
    assert_eq!(t.find(199), Some((150, layout(50))));
    assert_eq!(t.find(200), None);
}
