use x64_backend::error::CodegenError;
use x64_backend::generation::stack_alloc::StackAllocator;

fn pack(alignment: usize, initial_offset: usize, sizes: &[u8]) -> (Vec<usize>, usize) {
    let mut allocator = StackAllocator::new(alignment, initial_offset);
    for (expected_id, size) in sizes.iter().enumerate() {
        assert_eq!(allocator.add_var(*size), expected_id);
    }
    let allocation = allocator.allocate().unwrap();
    (allocation.locations.clone(), allocation.stack_depth)
}

#[test]
fn packs_three_requests_into_two_units() {
    let (locations, depth) = pack(8, 0, &[8, 4, 4]);
    assert_eq!(locations, vec![0, 8, 12]);
    assert_eq!(depth, 16);
}

#[test]
fn empty_allocator_has_empty_frame() {
    let (locations, depth) = pack(8, 0, &[]);
    assert_eq!(locations, Vec::<usize>::new());
    assert_eq!(depth, 0);
}

#[test]
fn empty_allocator_rounds_the_initial_offset_up() {
    let (locations, depth) = pack(16, 4, &[]);
    assert_eq!(locations, Vec::<usize>::new());
    assert_eq!(depth, 16);
}

#[test]
fn later_requests_fill_the_gaps_of_the_first_bin() {
    let (locations, depth) = pack(8, 0, &[4, 8, 4]);
    assert_eq!(locations, vec![0, 8, 4]);
    assert_eq!(depth, 16);
}

#[test]
fn requests_that_do_not_share_a_bin_get_one_each() {
    let (locations, depth) = pack(8, 0, &[5, 5, 5]);
    assert_eq!(locations, vec![0, 8, 16]);
    assert_eq!(depth, 24);
}

#[test]
fn first_bin_is_shortened_by_the_initial_offset() {
    let (locations, depth) = pack(8, 6, &[4, 2, 1]);
    assert_eq!(locations, vec![8, 6, 12]);
    assert_eq!(depth, 16);
}

#[test]
fn full_first_bin_takes_only_empty_requests() {
    let (locations, depth) = pack(8, 8, &[1, 0, 8]);
    assert_eq!(locations, vec![8, 8, 16]);
    assert_eq!(depth, 24);
}

#[test]
fn single_small_request_rounds_up_to_alignment() {
    let (locations, depth) = pack(16, 0, &[4]);
    assert_eq!(locations, vec![0]);
    assert_eq!(depth, 16);
}

#[test]
fn slots_never_overlap_and_depth_is_aligned() {
    let cases: Vec<(usize, usize, Vec<u8>)> = vec![
        (8, 0, vec![1, 2, 4, 8, 1, 2, 4, 8]),
        (8, 3, vec![8, 1, 7, 2, 6, 3, 5, 4]),
        (16, 5, vec![16, 16, 1, 15, 2, 14, 9, 9, 9]),
        (4, 0, vec![3, 3, 3, 1, 1, 1, 2, 2]),
        (255, 17, vec![255, 254, 1, 100, 100, 100, 55]),
    ];
    for (alignment, initial_offset, sizes) in cases {
        let (locations, depth) = pack(alignment, initial_offset, &sizes);
        assert_eq!(locations.len(), sizes.len());
        assert_eq!(depth % alignment, 0);
        assert!(depth >= initial_offset);
        let total: usize = sizes.iter().map(|size| *size as usize).sum();
        assert!(depth >= initial_offset + total);
        for i in 0..sizes.len() {
            assert!(locations[i] >= initial_offset);
            assert!(locations[i] + sizes[i] as usize <= depth);
            for j in 0..i {
                let i_end = locations[i] + sizes[i] as usize;
                let j_end = locations[j] + sizes[j] as usize;
                assert!(i_end <= locations[j] || j_end <= locations[i]);
            }
        }
    }
}

#[test]
fn depth_is_least_multiple_when_little_is_wasted() {
    let (_, depth) = pack(8, 0, &[2, 8, 4, 8]);
    // 22 bytes requested, 2 wasted in the first bin
    assert_eq!(depth, 24);
    let (_, depth) = pack(8, 2, &[6, 8, 3]);
    // 2 + 17 bytes, the smallest multiple of 8 that holds them
    assert_eq!(depth, 24);
}

#[test]
fn arrays_are_not_implemented() {
    let mut allocator = StackAllocator::new(8, 0);
    assert_eq!(allocator.add_var(4), 0);
    assert_eq!(allocator.add_arr(4, 10), 0);
    assert_eq!(allocator.add_arr(1, 3), 1);
    assert_eq!(allocator.allocate().unwrap_err(), CodegenError::Unimplemented);
}

#[test]
fn request_larger_than_alignment_is_reported() {
    let mut allocator = StackAllocator::new(8, 0);
    allocator.add_var(4);
    allocator.add_var(9);
    assert_eq!(allocator.allocate().unwrap_err(), CodegenError::ResourceExhausted);
}

#[test]
fn frame_without_alignment_is_reported() {
    let allocator = StackAllocator::new(0, 0);
    assert_eq!(allocator.allocate().unwrap_err(), CodegenError::ResourceExhausted);
}

#[test]
fn initial_offset_beyond_alignment_is_reported() {
    let mut allocator = StackAllocator::new(8, 9);
    allocator.add_var(1);
    assert_eq!(allocator.allocate().unwrap_err(), CodegenError::ResourceExhausted);
}

#[test]
fn frame_deeper_than_the_address_space_is_reported() {
    let mut allocator = StackAllocator::new(usize::MAX, usize::MAX);
    allocator.add_var(1);
    assert_eq!(allocator.allocate().unwrap_err(), CodegenError::ResourceExhausted);
}

#[test]
fn arrays_win_over_oversized_requests() {
    let mut allocator = StackAllocator::new(8, 0);
    allocator.add_var(200);
    allocator.add_arr(1, 1);
    assert_eq!(allocator.allocate().unwrap_err(), CodegenError::Unimplemented);
}

#[test]
fn locations_can_be_read_back() {
    let mut allocator = StackAllocator::new(8, 0);
    allocator.add_var(8);
    allocator.add_var(4);
    allocator.add_var(4);
    let allocation = allocator.allocate().unwrap();
    assert_eq!(allocation.var_location(0), 0);
    assert_eq!(allocation.var_location(1), 8);
    assert_eq!(allocation.var_location(2), 12);
    assert_eq!(allocation.arr_location(1, 4, 3), 20);
    assert_eq!(allocation.arr_location(2, 2, 0), 12);
}
