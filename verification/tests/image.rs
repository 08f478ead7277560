use kaddr::kmem::{
    base_addr, boottext_range, bss_range, data_range, early_pages_range,
    from_ptr_to_physaddr_offset_from_kzero, from_virt_to_physaddr,
    physaddr_as_ptr_mut_offset_from_kzero, rodata_range, text_range, total_kernel_range,
    ImageSymbols,
};
use kaddr::mem::{PhysAddr, VirtAddr};
use kaddr::param::KZERO;

fn sample_symbols() -> ImageSymbols {
    let base = KZERO as usize;
    ImageSymbols {
        eboottext: base + 0x1000,
        text: base + 0x1000,
        etext: base + 0x2_3000,
        rodata: base + 0x2_3000,
        erodata: base + 0x2_b000,
        data: base + 0x2_b000,
        edata: base + 0x2_d000,
        bss: base + 0x2_d000,
        ebss: base + 0x4_0000,
        end: base + 0x4_0000,
        early_pagetables: base + 0x3_0000,
        eearly_pagetables: base + 0x3_8000,
    }
}

#[test]
fn kzero_is_the_base_of_the_image() {
    assert_eq!(KZERO, 0xffff_8000_0000_0000);
    assert_eq!(base_addr() as u64, KZERO);
}

#[test]
fn kzero_maps_to_physical_zero() {
    assert_eq!(from_virt_to_physaddr(VirtAddr::new(KZERO as usize)), PhysAddr::new(0));
    assert_eq!(from_ptr_to_physaddr_offset_from_kzero(KZERO as usize), PhysAddr::new(0));
}

#[test]
fn mapping_subtracts_kzero() {
    let va = VirtAddr::new(0xffff_8000_0008_1234);
    assert_eq!(from_virt_to_physaddr(va), PhysAddr::new(0x8_1234));
    assert_eq!(from_ptr_to_physaddr_offset_from_kzero(0xffff_8000_4000_0000), PhysAddr::new(0x4000_0000));
    assert_eq!(
        from_virt_to_physaddr(VirtAddr::new(usize::MAX)),
        PhysAddr::new(0x7fff_ffff_ffff)
    );
}

#[test]
fn physical_address_is_reached_at_kzero_plus_it() {
    assert_eq!(physaddr_as_ptr_mut_offset_from_kzero(PhysAddr::new(0)) as u64, KZERO);
    assert_eq!(
        physaddr_as_ptr_mut_offset_from_kzero(PhysAddr::new(0x8_1234)),
        0xffff_8000_0008_1234
    );
    assert_eq!(
        physaddr_as_ptr_mut_offset_from_kzero(PhysAddr::new(0x7fff_ffff_ffff)),
        usize::MAX
    );
}

#[test]
fn physical_address_beyond_the_mapping_wraps() {
    assert_eq!(physaddr_as_ptr_mut_offset_from_kzero(PhysAddr::new(0x8000_0000_0000)), 0);
    assert_eq!(physaddr_as_ptr_mut_offset_from_kzero(PhysAddr::new(u64::MAX)) as u64, KZERO - 1);
}

#[test]
fn mapping_there_and_back_returns() {
    for &va in &[KZERO as usize, 0xffff_8000_0000_0001, 0xffff_8000_4000_0000, usize::MAX] {
        let pa = from_virt_to_physaddr(VirtAddr::new(va));
        assert_eq!(physaddr_as_ptr_mut_offset_from_kzero(pa), va);
    }
}

#[test]
fn sections_are_the_mapped_symbols() {
    let syms = sample_symbols();
    let text = text_range(&syms);
    assert_eq!(text.start(), PhysAddr::new(0x1000));
    assert_eq!(text.end(), PhysAddr::new(0x2_3000));
    let rodata = rodata_range(&syms);
    assert_eq!(rodata.start(), PhysAddr::new(0x2_3000));
    assert_eq!(rodata.end(), PhysAddr::new(0x2_b000));
    let data = data_range(&syms);
    assert_eq!(data.start(), PhysAddr::new(0x2_b000));
    assert_eq!(data.end(), PhysAddr::new(0x2_d000));
    let bss = bss_range(&syms);
    assert_eq!(bss.start(), PhysAddr::new(0x2_d000));
    assert_eq!(bss.end(), PhysAddr::new(0x4_0000));
    let early = early_pages_range(&syms);
    assert_eq!(early.start(), PhysAddr::new(0x3_0000));
    assert_eq!(early.end(), PhysAddr::new(0x3_8000));
    assert_eq!(early.size(), 0x8000);
}

#[test]
fn boot_text_and_image_start_at_physical_zero() {
    let syms = sample_symbols();
    let boottext = boottext_range(&syms);
    assert_eq!(boottext.start(), PhysAddr::new(0));
    assert_eq!(boottext.end(), PhysAddr::new(0x1000));
    let total = total_kernel_range(&syms);
    assert_eq!(total.start(), PhysAddr::new(0));
    assert_eq!(total.end(), PhysAddr::new(0x4_0000));
    assert_eq!(total.size(), 0x4_0000);
}

#[test]
fn sections_are_the_same_at_every_query() {
    let syms = sample_symbols();
    let first = text_range(&syms);
    let second = text_range(&syms);
    assert_eq!(first.start(), second.start());
    assert_eq!(first.end(), second.end());
}

#[test]
fn empty_section_is_an_empty_range() {
    let mut syms = sample_symbols();
    syms.erodata = syms.rodata;
    let rodata = rodata_range(&syms);
    assert_eq!(rodata.size(), 0);
    assert_eq!(rodata.offset_addr(0), None);
}
