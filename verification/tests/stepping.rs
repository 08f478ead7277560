use kaddr::mem::{PhysAddr, PhysRange, PAGE_SIZE_1G, PAGE_SIZE_2M, PAGE_SIZE_4K};

#[test]
fn page_sizes_have_their_values() {
    assert_eq!(PAGE_SIZE_4K, 4096);
    assert_eq!(PAGE_SIZE_2M, 2 * 1024 * 1024);
    assert_eq!(PAGE_SIZE_1G, 1024 * 1024 * 1024);
}

#[test]
fn steps_between_is_the_distance() {
    let a = PhysAddr::new(10);
    let b = PhysAddr::new(25);
    assert_eq!(PhysAddr::steps_between(&a, &b), (15, Some(15)));
    assert_eq!(PhysAddr::steps_between(&a, &a), (0, Some(0)));
    assert_eq!(
        PhysAddr::steps_between(&PhysAddr::new(0), &PhysAddr::new(u64::MAX)),
        (usize::MAX, Some(usize::MAX))
    );
}

#[test]
fn steps_between_backwards_has_no_upper_bound() {
    let a = PhysAddr::new(10);
    let b = PhysAddr::new(25);
    assert_eq!(PhysAddr::steps_between(&b, &a), (0, None));
    assert_eq!(PhysAddr::steps_between(&PhysAddr::new(1), &PhysAddr::new(0)), (0, None));
}

#[test]
fn forward_checked_moves_or_stops_at_the_top() {
    assert_eq!(PhysAddr::forward_checked(PhysAddr::new(7), 0), Some(PhysAddr::new(7)));
    assert_eq!(PhysAddr::forward_checked(PhysAddr::new(7), 9), Some(PhysAddr::new(16)));
    assert_eq!(
        PhysAddr::forward_checked(PhysAddr::new(u64::MAX - 1), 1),
        Some(PhysAddr::new(u64::MAX))
    );
    assert_eq!(PhysAddr::forward_checked(PhysAddr::new(u64::MAX), 1), None);
    assert_eq!(PhysAddr::forward_checked(PhysAddr::new(u64::MAX - 4095), 4096), None);
}

#[test]
fn backward_checked_moves_or_stops_at_zero() {
    assert_eq!(PhysAddr::backward_checked(PhysAddr::new(7), 0), Some(PhysAddr::new(7)));
    assert_eq!(PhysAddr::backward_checked(PhysAddr::new(16), 9), Some(PhysAddr::new(7)));
    assert_eq!(PhysAddr::backward_checked(PhysAddr::new(7), 7), Some(PhysAddr::new(0)));
    assert_eq!(PhysAddr::backward_checked(PhysAddr::new(7), 8), None);
    assert_eq!(PhysAddr::backward_checked(PhysAddr::new(0), 1), None);
}

#[test]
fn forward_then_backward_returns() {
    for &(start, count) in &[(0u64, 0usize), (0x1000, 0x234), (u64::MAX - 5, 5), (42, 1 << 20)] {
        let there = PhysAddr::forward_checked(PhysAddr::new(start), count).unwrap();
        assert_eq!(there.addr(), start + count as u64);
        assert_eq!(PhysAddr::backward_checked(there, count), Some(PhysAddr::new(start)));
        assert_eq!(
            PhysAddr::steps_between(&PhysAddr::new(start), &there),
            (count, Some(count))
        );
    }
}

#[test]
fn walk_hands_out_one_address_at_a_time() {
    let range = PhysRange(PhysAddr::new(4096)..PhysAddr::new(4096 * 3));
    let mut steps = range.step_by_rounded(PAGE_SIZE_4K);
    assert_eq!(steps.next(), Some(PhysAddr::new(4096)));
    assert_eq!(steps.next(), Some(PhysAddr::new(8192)));
    assert_eq!(steps.next(), None);
    assert_eq!(steps.next(), None);
}

#[test]
fn walk_can_be_collected_part_way() {
    let range = PhysRange(PhysAddr::new(0)..PhysAddr::new(4096 * 4));
    let mut steps = range.step_by_rounded(PAGE_SIZE_4K);
    assert_eq!(steps.next(), Some(PhysAddr::new(0)));
    assert_eq!(
        steps.collect(),
        [PhysAddr::new(4096), PhysAddr::new(8192), PhysAddr::new(12288)]
    );
}

#[test]
fn walk_starts_again_with_each_call() {
    let range = PhysRange(PhysAddr::new(9000)..PhysAddr::new(15000));
    let first = range.step_by_rounded(PAGE_SIZE_4K).collect();
    let second = range.step_by_rounded(PAGE_SIZE_4K).collect();
    assert_eq!(first, [PhysAddr::new(8192), PhysAddr::new(12288)]);
    assert_eq!(first, second);
    assert_eq!(range.start(), PhysAddr::new(9000));
    assert_eq!(range.end(), PhysAddr::new(15000));
}

#[test]
fn walk_of_one_byte_off_a_boundary_yields_its_unit() {
    let range = PhysRange(PhysAddr::new(4097)..PhysAddr::new(4098));
    assert_eq!(range.step_by_rounded(PAGE_SIZE_4K).collect(), [PhysAddr::new(4096)]);
    let last = PhysRange(PhysAddr::new(8191)..PhysAddr::new(8192));
    assert_eq!(last.step_by_rounded(PAGE_SIZE_4K).collect(), [PhysAddr::new(4096)]);
    let first = PhysRange(PhysAddr::new(4096)..PhysAddr::new(4097));
    assert_eq!(first.step_by_rounded(PAGE_SIZE_4K).collect(), [PhysAddr::new(4096)]);
}

#[test]
fn walk_of_a_range_across_a_boundary_yields_both_units() {
    let range = PhysRange(PhysAddr::new(8191)..PhysAddr::new(8193));
    assert_eq!(
        range.step_by_rounded(PAGE_SIZE_4K).collect(),
        [PhysAddr::new(4096), PhysAddr::new(8192)]
    );
}

#[test]
fn walk_of_an_empty_range_on_a_boundary_is_empty() {
    let range = PhysRange(PhysAddr::new(8192)..PhysAddr::new(8192));
    assert!(range.step_by_rounded(PAGE_SIZE_4K).collect().is_empty());
    let mut steps = range.step_by_rounded(PAGE_SIZE_4K);
    assert_eq!(steps.next(), None);
    let zero = PhysRange(PhysAddr::new(0)..PhysAddr::new(0));
    assert!(zero.step_by_rounded(PAGE_SIZE_4K).collect().is_empty());
}

#[test]
fn walk_of_an_empty_range_off_a_boundary_is_rounded_first() {
    let range = PhysRange(PhysAddr::new(5000)..PhysAddr::new(5000));
    assert_eq!(range.step_by_rounded(PAGE_SIZE_4K).collect(), [PhysAddr::new(4096)]);
}

#[test]
fn walk_by_single_bytes_yields_every_address() {
    let range = PhysRange(PhysAddr::new(7)..PhysAddr::new(11));
    assert_eq!(
        range.step_by_rounded(1).collect(),
        [PhysAddr::new(7), PhysAddr::new(8), PhysAddr::new(9), PhysAddr::new(10)]
    );
}

#[test]
fn walk_yields_multiples_of_the_step_only() {
    let range = PhysRange(PhysAddr::new(0x3f00_1234)..PhysAddr::new(0x3fa0_0001));
    let pas = range.step_by_rounded(PAGE_SIZE_2M).collect();
    assert_eq!(pas.len(), 6);
    assert_eq!(pas[0], PhysAddr::new(0x3f00_0000));
    assert_eq!(pas[5], PhysAddr::new(0x3fa0_0000));
    for pair in pas.windows(2) {
        assert_eq!(pair[1].addr() - pair[0].addr(), PAGE_SIZE_2M as u64);
    }
    for pa in &pas {
        assert!(pa.is_multiple_of(PAGE_SIZE_2M as u64));
    }
}

#[test]
fn walk_by_a_gigabyte() {
    let range = PhysRange(PhysAddr::new(0x1)..PhysAddr::new(0x8000_0001));
    assert_eq!(
        range.step_by_rounded(PAGE_SIZE_1G).collect(),
        [PhysAddr::new(0), PhysAddr::new(0x4000_0000), PhysAddr::new(0x8000_0000)]
    );
}

#[test]
fn walk_at_the_top_of_the_address_space() {
    let top = u64::MAX - 4095;
    let range = PhysRange(PhysAddr::new(top - 4096)..PhysAddr::new(top));
    let mut steps = range.step_by_rounded(PAGE_SIZE_4K);
    assert_eq!(steps.next(), Some(PhysAddr::new(top - 4096)));
    assert_eq!(steps.next(), None);
    assert_eq!(steps.next(), None);
}
