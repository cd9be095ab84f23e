//! The address-space region manager: map, unmap, and their failure modes.

use task_core::mem::{AddressSpace, MapError};
use task_core::processor::{allocate_memory, free_memory, run_tasks, Processor};
use task_core::task::{TaskContext, TaskControlBlock};

fn processor_with_task() -> Processor {
    let mut p = Processor::new();
    let mut t = TaskControlBlock::new(TaskContext::zero_init());
    t.task_status = task_core::task::TaskStatus::Ready;
    run_tasks(&mut p, Some(t), 0);
    p
}

#[test]
fn overlapping_map_rejected_space_unchanged() {
    // Fresh space: map(0x1000, 0x1000, Read|Write) succeeds; then
    // map(0x1800, 0x1000, Read) fails with Overlap because
    // [0x1800, 0x2800) intersects [0x1000, 0x2000); nothing changes.
    let mut a = AddressSpace::new();
    assert_eq!(a.map(0x1000, 0x1000, 0b011), Ok(()));
    assert_eq!(a.regions.len(), 1);
    assert_eq!((a.regions[0].start, a.regions[0].end), (0x1000, 0x2000));

    assert_eq!(a.map(0x1800, 0x1000, 0b001), Err(MapError::Overlap));
    assert_eq!(a.regions.len(), 1);
    assert_eq!((a.regions[0].start, a.regions[0].end), (0x1000, 0x2000));

    // The identical overlapping request fails the same way again.
    assert_eq!(a.map(0x1800, 0x1000, 0b001), Err(MapError::Overlap));
    assert_eq!(a.regions.len(), 1);
}

#[test]
fn map_unmap_round_trip() {
    let mut a = AddressSpace::new();
    assert_eq!(a.map(0x3000, 0x800, 0b111), Ok(()));
    assert_eq!(a.map(0x1000, 0x1000, 0b011), Ok(()));
    assert_eq!(a.regions.len(), 2);

    // Unmapping what was just mapped restores the prior state exactly.
    assert_eq!(a.unmap(0x1000, 0x1000), Ok(()));
    assert_eq!(a.regions.len(), 1);
    assert_eq!((a.regions[0].start, a.regions[0].end), (0x3000, 0x3800));

    // A second unmap of the same range finds nothing.
    assert_eq!(a.unmap(0x1000, 0x1000), Err(MapError::NotMapped));
    assert_eq!(a.regions.len(), 1);
}

#[test]
fn map_validation_order_and_errors() {
    let mut a = AddressSpace::new();
    // Misaligned start.
    assert_eq!(a.map(0x1001, 0x1000, 0b011), Err(MapError::InvalidAlignment));
    // Permission bits: zero, and a bit outside read/write/execute.
    assert_eq!(a.map(0x1000, 0x1000, 0), Err(MapError::InvalidPermission));
    assert_eq!(a.map(0x1000, 0x1000, 0b1000), Err(MapError::InvalidPermission));
    // Alignment is checked before permissions.
    assert_eq!(a.map(0x1001, 0x1000, 0), Err(MapError::InvalidAlignment));
    assert_eq!(a.regions.len(), 0);
}

#[test]
fn map_rounds_length_up_to_whole_pages() {
    let mut a = AddressSpace::new();
    assert_eq!(a.map(0x1000, 0x900, 0b001), Ok(()));
    assert_eq!((a.regions[0].start, a.regions[0].end), (0x1000, 0x2000));
    // The rounded-up tail page is really occupied.
    assert_eq!(a.map(0x1800, 0x800, 0b001), Err(MapError::Overlap));
}

#[test]
fn unmap_validation() {
    let mut a = AddressSpace::new();
    assert_eq!(a.map(0x1000, 0x1000, 0b011), Ok(()));
    // Misaligned bounds.
    assert_eq!(a.unmap(0x1001, 0x800), Err(MapError::InvalidAlignment));
    assert_eq!(a.unmap(0x1000, 0x900), Err(MapError::InvalidAlignment));
    // A partially covered range is rejected, not truncated.
    assert_eq!(a.unmap(0x1000, 0x800), Err(MapError::NotMapped));
    assert_eq!(a.unmap(0x800, 0x1000), Err(MapError::NotMapped));
    assert_eq!(a.regions.len(), 1);
}

#[test]
fn unmap_removes_adjacent_regions_tiling_the_range() {
    let mut a = AddressSpace::new();
    assert_eq!(a.map(0x1000, 0x800, 0b001), Ok(()));
    assert_eq!(a.map(0x1800, 0x800, 0b010), Ok(()));
    assert_eq!(a.regions.len(), 2);
    assert_eq!(a.unmap(0x1000, 0x1000), Ok(()));
    assert_eq!(a.regions.len(), 0);
}

#[test]
fn zero_length_map_changes_nothing() {
    let mut a = AddressSpace::new();
    assert_eq!(a.map(0x1000, 0, 0b001), Ok(()));
    assert_eq!(a.regions.len(), 0);
}

#[test]
fn allocate_memory_on_current_task() {
    let mut p = processor_with_task();
    assert_eq!(allocate_memory(&mut p, 0x1000, 0x1000, 0b011), 0);
    assert_eq!(allocate_memory(&mut p, 0x1800, 0x1000, 0b001), -1); // overlap
    assert_eq!(allocate_memory(&mut p, 0x1001, 0x1000, 0b011), -1); // misaligned
    assert_eq!(allocate_memory(&mut p, 0x5000, 0x1000, 0), -1); // no permission
    assert_eq!(allocate_memory(&mut p, 0x5000, usize::MAX, 0b001), -1); // overflow
    let t = p.current().unwrap();
    assert_eq!(t.address_space.regions.len(), 1);
}

#[test]
fn free_memory_on_current_task() {
    let mut p = processor_with_task();
    assert_eq!(allocate_memory(&mut p, 0x1000, 0x1000, 0b011), 0);
    assert_eq!(free_memory(&mut p, 0x1000, 0x1000), 0);
    assert_eq!(free_memory(&mut p, 0x1000, 0x1000), -1); // nothing mapped now
    let t = p.current().unwrap();
    assert_eq!(t.address_space.regions.len(), 0);
}
