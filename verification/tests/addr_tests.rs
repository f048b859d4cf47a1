use memory_addr::{MemoryAddr, VirtAddr, VirtAddrRange};
use user_ptr::addr::{Region, PAGE_SIZE};

const LIMIT: usize = usize::MAX - 0xfff;

#[test]
fn page_size_is_that_of_memory_addr() {
    assert_eq!(PAGE_SIZE, memory_addr::PAGE_SIZE_4K);
    assert_eq!(PAGE_SIZE, 4096);
}

#[test]
fn from_start_size_gives_bounds() {
    assert_eq!(
        Region::from_start_size(0x1000, 0x234),
        Some(Region { start: 0x1000, end: 0x1234 })
    );
    assert_eq!(Region::from_start_size(7, 0), Some(Region { start: 7, end: 7 }));
    assert_eq!(
        Region::from_start_size(0, usize::MAX),
        Some(Region { start: 0, end: usize::MAX })
    );
}

#[test]
fn from_start_size_refuses_overflow() {
    assert_eq!(Region::from_start_size(1, usize::MAX), None);
    assert_eq!(Region::from_start_size(usize::MAX, 1), None);
    assert_eq!(Region::from_start_size(0x1000, usize::MAX), None);
}

#[test]
fn from_start_size_agrees_with_memory_addr() {
    let range = VirtAddrRange::from_start_size(VirtAddr::from_usize(0x4000_0010), 0x2ff0);
    let region = Region::from_start_size(0x4000_0010, 0x2ff0).unwrap();
    assert_eq!(region.start, range.start.as_usize());
    assert_eq!(region.end, range.end.as_usize());
    assert_eq!(region.size(), range.size());
}

#[test]
fn size_is_the_number_of_bytes() {
    assert_eq!(Region { start: 0x1000, end: 0x1234 }.size(), 0x234);
    assert_eq!(Region { start: 5, end: 5 }.size(), 0);
    assert_eq!(Region { start: 0, end: usize::MAX }.size(), usize::MAX);
}

#[test]
fn size_of_an_ill_formed_region_is_zero() {
    assert_eq!(Region { start: 9, end: 3 }.size(), 0);
}

#[test]
fn page_span_rounds_outwards() {
    assert_eq!(
        Region { start: 0x1234_5678, end: 0x1234_5679 }.page_span(),
        Some(Region { start: 0x1234_5000, end: 0x1234_6000 })
    );
    assert_eq!(
        Region { start: 0x1fff, end: 0x2001 }.page_span(),
        Some(Region { start: 0x1000, end: 0x3000 })
    );
}

#[test]
fn page_span_keeps_aligned_bounds() {
    assert_eq!(
        Region { start: 0x2000, end: 0x4000 }.page_span(),
        Some(Region { start: 0x2000, end: 0x4000 })
    );
}

#[test]
fn page_span_of_empty_regions() {
    assert_eq!(
        Region { start: 0x3000, end: 0x3000 }.page_span(),
        Some(Region { start: 0x3000, end: 0x3000 })
    );
    assert_eq!(
        Region { start: 0x3001, end: 0x3001 }.page_span(),
        Some(Region { start: 0x3000, end: 0x4000 })
    );
}

#[test]
fn page_span_agrees_with_memory_addr() {
    let region = Region { start: 0x7_6543, end: 0x9_0001 };
    let span = region.page_span().unwrap();
    assert_eq!(span.start, VirtAddr::from_usize(region.start).align_down_4k().as_usize());
    assert_eq!(span.end, VirtAddr::from_usize(region.end).align_up_4k().as_usize());
    assert_eq!(span.start, memory_addr::align_down_4k(region.start));
    assert_eq!(span.end, memory_addr::align_up_4k(region.end));
}

#[test]
fn page_span_stops_at_the_last_page() {
    assert_eq!(
        Region { start: LIMIT - 1, end: LIMIT }.page_span(),
        Some(Region { start: LIMIT - 0x1000, end: LIMIT })
    );
    assert_eq!(Region { start: LIMIT - 1, end: LIMIT + 1 }.page_span(), None);
    assert_eq!(Region { start: 0, end: usize::MAX }.page_span(), None);
}

#[test]
fn page_span_of_an_ill_formed_region_is_none() {
    assert_eq!(Region { start: 0x2000, end: 0x1000 }.page_span(), None);
}
