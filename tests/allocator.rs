use omage::{
    align_up, block_size, AllocError, Allocation, AllocationStep, Allocator, BlockRequest,
    MemoryRequirements, MIN_BLOCK_SIZE,
};

const DEVICE_LOCAL: u32 = 0x1;
const HOST_VISIBLE: u32 = 0x2;
const HOST_COHERENT: u32 = 0x4;

fn device_types() -> Vec<u32> {
    vec![DEVICE_LOCAL, HOST_VISIBLE | HOST_COHERENT]
}

fn req(size: u64, alignment: u64, bits: u32) -> MemoryRequirements {
    MemoryRequirements { size, alignment, memory_type_bits: bits }
}

/// Runs a request to the end against a device that grants every block,
/// handing out memory handles 100, 101, ...
fn allocate(a: &mut Allocator, r: MemoryRequirements, flags: u32, next: &mut u64) -> Result<Allocation, AllocError> {
    let mut step = a.create_allocation(r, flags);
    loop {
        match step {
            AllocationStep::Placed(x) => return Ok(x),
            AllocationStep::Failed(e) => return Err(e),
            AllocationStep::CreateBlock(b) => {
                let memory = 100 + *next;
                *next += 1;
                step = a.continue_allocation(r, flags, b.memory_type, Some(memory));
            }
        }
    }
}

#[test]
fn first_allocation_creates_block_one_at_offset_zero() {
    let mut a = Allocator::new(device_types());
    let step = a.create_allocation(req(1024, 256, 0b11), DEVICE_LOCAL);
    assert_eq!(step, AllocationStep::CreateBlock(BlockRequest { memory_type: 0, size: 32_000_000 }));
    assert_eq!(a.block_count(), 0);
    let step = a.continue_allocation(req(1024, 256, 0b11), DEVICE_LOCAL, 0, Some(7));
    assert_eq!(step, AllocationStep::Placed(Allocation { block: 1, region: 0 }));
    assert_eq!(a.block_count(), 1);
}

#[test]
fn second_allocation_goes_after_the_first() {
    let mut a = Allocator::new(device_types());
    let mut next = 0;
    let first = allocate(&mut a, req(1024, 256, 0b11), DEVICE_LOCAL, &mut next).unwrap();
    assert_eq!(first, Allocation { block: 1, region: 0 });
    let second = allocate(&mut a, req(2048, 256, 0b11), DEVICE_LOCAL, &mut next).unwrap();
    assert_eq!(second, Allocation { block: 1, region: 1024 });
    assert_eq!(a.block_count(), 1);
}

#[test]
fn freed_leading_gap_is_reused() {
    let mut a = Allocator::new(device_types());
    let mut next = 0;
    allocate(&mut a, req(1024, 256, 0b11), DEVICE_LOCAL, &mut next).unwrap();
    allocate(&mut a, req(2048, 256, 0b11), DEVICE_LOCAL, &mut next).unwrap();
    assert_eq!(a.destroy_allocation(&Allocation { block: 1, region: 0 }), Ok(None));
    let third = allocate(&mut a, req(512, 256, 0b11), DEVICE_LOCAL, &mut next).unwrap();
    assert_eq!(third, Allocation { block: 1, region: 0 });
    assert_eq!(a.block_count(), 1);
}

#[test]
fn no_matching_memory_type_is_incompatible() {
    let mut a = Allocator::new(device_types());
    let step = a.create_allocation(req(1024, 256, 0b11), DEVICE_LOCAL | HOST_VISIBLE);
    assert_eq!(step, AllocationStep::Failed(AllocError::IncompatibleMemoryRequest));
    // The filter rules out the only type with the flags.
    let step = a.create_allocation(req(1024, 256, 0b10), DEVICE_LOCAL);
    assert_eq!(step, AllocationStep::Failed(AllocError::IncompatibleMemoryRequest));
    assert_eq!(a.block_count(), 0);
}

#[test]
fn double_free_is_unknown_allocation() {
    let mut a = Allocator::new(device_types());
    let mut next = 0;
    let x = allocate(&mut a, req(1024, 256, 0b11), DEVICE_LOCAL, &mut next).unwrap();
    allocate(&mut a, req(1024, 256, 0b11), DEVICE_LOCAL, &mut next).unwrap();
    assert_eq!(a.destroy_allocation(&x), Ok(None));
    assert_eq!(a.destroy_allocation(&x), Err(AllocError::UnknownAllocation));
}

#[test]
fn free_of_unknown_block_or_offset_fails() {
    let mut a = Allocator::new(device_types());
    let mut next = 0;
    allocate(&mut a, req(1024, 256, 0b11), DEVICE_LOCAL, &mut next).unwrap();
    assert_eq!(a.destroy_allocation(&Allocation { block: 2, region: 0 }), Err(AllocError::UnknownAllocation));
    assert_eq!(a.destroy_allocation(&Allocation { block: 1, region: 256 }), Err(AllocError::UnknownAllocation));
    assert_eq!(a.block_count(), 1);
}

#[test]
fn block_is_released_with_its_last_region() {
    let mut a = Allocator::new(device_types());
    let mut next = 0;
    let x = allocate(&mut a, req(1024, 256, 0b11), DEVICE_LOCAL, &mut next).unwrap();
    let y = allocate(&mut a, req(1024, 256, 0b11), DEVICE_LOCAL, &mut next).unwrap();
    assert_eq!(a.destroy_allocation(&x), Ok(None));
    assert_eq!(a.block_count(), 1);
    assert_eq!(a.destroy_allocation(&y), Ok(Some(100)));
    assert_eq!(a.block_count(), 0);
    // A new block gets a new identifier.
    let z = allocate(&mut a, req(1024, 256, 0b11), DEVICE_LOCAL, &mut next).unwrap();
    assert_eq!(z, Allocation { block: 2, region: 0 });
}

#[test]
fn large_request_sizes_its_block() {
    let mut a = Allocator::new(device_types());
    let step = a.create_allocation(req(40_000_000, 256, 0b11), DEVICE_LOCAL);
    assert_eq!(step, AllocationStep::CreateBlock(BlockRequest { memory_type: 0, size: 40_000_000 }));
    assert_eq!(block_size(1024), MIN_BLOCK_SIZE);
    assert_eq!(block_size(MIN_BLOCK_SIZE + 1), MIN_BLOCK_SIZE + 1);
}

#[test]
fn full_block_leads_to_a_second_block() {
    let mut a = Allocator::new(device_types());
    let mut next = 0;
    let x = allocate(&mut a, req(40_000_000, 256, 0b11), DEVICE_LOCAL, &mut next).unwrap();
    assert_eq!(x, Allocation { block: 1, region: 0 });
    let y = allocate(&mut a, req(1024, 256, 0b11), DEVICE_LOCAL, &mut next).unwrap();
    assert_eq!(y, Allocation { block: 2, region: 0 });
    assert_eq!(a.block_count(), 2);
    // The next small request fits in the second block, after the first region.
    let z = allocate(&mut a, req(1024, 256, 0b11), DEVICE_LOCAL, &mut next).unwrap();
    assert_eq!(z, Allocation { block: 2, region: 1024 });
}

#[test]
fn offsets_meet_the_alignment() {
    let mut a = Allocator::new(device_types());
    let mut next = 0;
    allocate(&mut a, req(100, 4, 0b11), DEVICE_LOCAL, &mut next).unwrap();
    let x = allocate(&mut a, req(100, 4096, 0b11), DEVICE_LOCAL, &mut next).unwrap();
    assert_eq!(x.region, 4096);
    let y = allocate(&mut a, req(10, 64, 0b11), DEVICE_LOCAL, &mut next).unwrap();
    // Between the first region (ending at 100) and the second (at 4096).
    assert_eq!(y.region, 128);
    assert_eq!(y.region % 64, 0);
}

#[test]
fn interior_gap_is_found() {
    let mut a = Allocator::new(device_types());
    let mut next = 0;
    let r0 = allocate(&mut a, req(256, 256, 0b11), DEVICE_LOCAL, &mut next).unwrap();
    let r1 = allocate(&mut a, req(256, 256, 0b11), DEVICE_LOCAL, &mut next).unwrap();
    let r2 = allocate(&mut a, req(256, 256, 0b11), DEVICE_LOCAL, &mut next).unwrap();
    assert_eq!((r0.region, r1.region, r2.region), (0, 256, 512));
    assert_eq!(a.destroy_allocation(&r1), Ok(None));
    let again = allocate(&mut a, req(200, 256, 0b11), DEVICE_LOCAL, &mut next).unwrap();
    assert_eq!(again, Allocation { block: 1, region: 256 });
    assert_eq!(a.block_count(), 1);
}

#[test]
fn single_region_checks_the_trailing_gap() {
    let mut a = Allocator::new(device_types());
    let mut next = 0;
    let r0 = allocate(&mut a, req(64, 64, 0b11), DEVICE_LOCAL, &mut next).unwrap();
    let r1 = allocate(&mut a, req(64, 64, 0b11), DEVICE_LOCAL, &mut next).unwrap();
    assert_eq!(a.destroy_allocation(&r0), Ok(None));
    // One region at 64; the leading gap is too small for 1000 bytes.
    let x = allocate(&mut a, req(1000, 64, 0b11), DEVICE_LOCAL, &mut next).unwrap();
    assert_eq!(x, Allocation { block: 1, region: 128 });
    assert_eq!(r1.region, 64);
}

#[test]
fn live_regions_never_overlap() {
    let mut a = Allocator::new(device_types());
    let mut next = 0;
    let mut live: Vec<(Allocation, u64)> = Vec::new();
    let sizes = [300u64, 5000, 17, 1 << 20, 64, 999, 4096, 12];
    let aligns = [1u64, 256, 8, 4096, 64, 16, 512, 2];
    for round in 0..6 {
        for i in 0..sizes.len() {
            let x = allocate(&mut a, req(sizes[i] + round, aligns[i], 0b11), DEVICE_LOCAL, &mut next).unwrap();
            assert_eq!(x.region % aligns[i], 0);
            live.push((x, sizes[i] + round));
        }
        let mut k = 0;
        while k < live.len() {
            let (x, _) = live.remove(k);
            assert_eq!(a.destroy_allocation(&x).is_ok(), true);
            k += 2;
        }
        for i in 0..live.len() {
            for j in 0..live.len() {
                if i != j && live[i].0.block == live[j].0.block {
                    let (x, xs) = live[i];
                    let (y, ys) = live[j];
                    assert!(x.region + xs <= y.region || y.region + ys <= x.region);
                }
            }
        }
    }
}

#[test]
fn refused_block_tries_the_next_type_then_fails() {
    let types = vec![DEVICE_LOCAL, DEVICE_LOCAL | HOST_VISIBLE, HOST_VISIBLE];
    let mut a = Allocator::new(types);
    let r = req(1024, 256, 0b111);
    let step = a.create_allocation(r, DEVICE_LOCAL);
    assert_eq!(step, AllocationStep::CreateBlock(BlockRequest { memory_type: 0, size: MIN_BLOCK_SIZE }));
    let step = a.continue_allocation(r, DEVICE_LOCAL, 0, None);
    assert_eq!(step, AllocationStep::CreateBlock(BlockRequest { memory_type: 1, size: MIN_BLOCK_SIZE }));
    let step = a.continue_allocation(r, DEVICE_LOCAL, 1, None);
    assert_eq!(step, AllocationStep::Failed(AllocError::OutOfDeviceMemory));
    assert_eq!(a.block_count(), 0);
    let step = a.continue_allocation(r, DEVICE_LOCAL, 1, Some(55));
    assert_eq!(step, AllocationStep::Placed(Allocation { block: 1, region: 0 }));
}

#[test]
fn blocks_of_other_types_are_not_used() {
    let mut a = Allocator::new(device_types());
    let mut next = 0;
    let x = allocate(&mut a, req(1024, 256, 0b11), DEVICE_LOCAL, &mut next).unwrap();
    let y = allocate(&mut a, req(1024, 256, 0b11), HOST_VISIBLE, &mut next).unwrap();
    assert_eq!(x.block, 1);
    assert_eq!(y, Allocation { block: 2, region: 0 });
    // A filter without the first type skips block 1.
    let z = allocate(&mut a, req(1024, 256, 0b10), 0, &mut next).unwrap();
    assert_eq!(z, Allocation { block: 2, region: 1024 });
}

#[test]
fn compatible_memory_types_in_order() {
    let a = Allocator::new(vec![DEVICE_LOCAL, HOST_VISIBLE, DEVICE_LOCAL | HOST_VISIBLE, 0]);
    assert_eq!(a.get_compatible_memory_types(0b1111, DEVICE_LOCAL), vec![0, 2]);
    assert_eq!(a.get_compatible_memory_types(0b1011, DEVICE_LOCAL), vec![0]);
    assert_eq!(a.get_compatible_memory_types(0b1111, 0), vec![0, 1, 2, 3]);
    assert_eq!(a.get_compatible_memory_types(0, 0), Vec::<u32>::new());
    assert_eq!(a.next_compatible_type(0b1111, HOST_VISIBLE, 2), Some(2));
    assert_eq!(a.next_compatible_type(0b1111, HOST_VISIBLE, 3), None);
}

#[test]
fn destroy_returns_every_block() {
    let mut a = Allocator::new(device_types());
    let mut next = 0;
    allocate(&mut a, req(40_000_000, 256, 0b11), DEVICE_LOCAL, &mut next).unwrap();
    allocate(&mut a, req(40_000_000, 256, 0b11), DEVICE_LOCAL, &mut next).unwrap();
    allocate(&mut a, req(1, 1, 0b11), HOST_VISIBLE, &mut next).unwrap();
    assert_eq!(a.destroy(), vec![100, 101, 102]);
    assert_eq!(a.block_count(), 0);
}

#[test]
fn align_up_values() {
    assert_eq!(align_up(0, 256), Some(0));
    assert_eq!(align_up(1024, 256), Some(1024));
    assert_eq!(align_up(1025, 256), Some(1280));
    assert_eq!(align_up(1, 1), Some(1));
    assert_eq!(align_up(u64::MAX - 1, 2), Some(u64::MAX - 1));
    assert_eq!(align_up(u64::MAX, 2), None);
}

#[test]
fn block_memory_and_direct_placement() {
    let mut a = Allocator::new(device_types());
    assert!(a.can_register_block());
    let x = a.create_block(77, 1, req(100, 16, 0b10));
    assert_eq!(x, Allocation { block: 1, region: 0 });
    assert_eq!(a.memory_of(1), Some(77));
    assert_eq!(a.memory_of(2), None);
    assert_eq!(a.try_fit_in_block(0, 50, 32), Some(128));
    assert_eq!(a.try_fit_in_block(0, MIN_BLOCK_SIZE, 1), None);
    assert_eq!(a.destroy_block(0), 77);
    assert_eq!(a.block_count(), 0);
}

#[test]
fn block_first_fit_and_removal() {
    let mut b = omage::Block::new(3, 9, 1000, 0);
    assert_eq!(b.try_fit(400, 1), Some(0));
    assert_eq!(b.try_fit(400, 256), Some(512));
    assert_eq!(b.try_fit(100, 1), Some(400));
    assert_eq!(b.try_fit(100, 1), None);
    assert!(b.remove_region(400));
    assert!(!b.remove_region(400));
    assert_eq!(b.regions.len(), 2);
    assert_eq!(b.try_fit(112, 1), Some(400));
}
