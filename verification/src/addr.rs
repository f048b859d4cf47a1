//! Page arithmetic and address ranges.
use memory_addr::{MemoryAddr, VirtAddr, VirtAddrRange};
use vstd::prelude::*;

verus! {

/// The size in bytes of a page.
pub const PAGE_SIZE: usize = 0x1000;

/// The greatest page boundary that is not above `addr`.
pub open spec fn page_floor(addr: int) -> int {
    addr - addr % 0x1000
}

/// The least page boundary that is not below `addr`.
pub open spec fn page_ceil(addr: int) -> int {
    page_floor(addr + 0xfff)
}

/// The number of the page that holds `addr`, counted from address zero.
pub open spec fn page_index(addr: int) -> int {
    addr / 0x1000
}

/// The page with the given number.
pub open spec fn page_region(index: int) -> Region {
    Region { start: (index * 0x1000) as usize, end: (index * 0x1000 + 0x1000) as usize }
}

/// The base of the last page of the address space.
///
/// The end of a range that reaches into that page cannot be rounded up to a
/// page boundary, so no address at or above this limit is ever accepted.
pub open spec fn addr_limit() -> int {
    usize::MAX - 0xfff
}

/// A half-open range of addresses, from `start` up to but without `end`.
#[derive(Clone, Copy, Debug, PartialEq, Eq, Structural)]
pub struct Region {
    /// The first address of the range.
    pub start: usize,
    /// The address after the last one of the range.
    pub end: usize,
}

impl Region {
    /// A range is well formed when it does not end before it starts.
    pub open spec fn wf(self) -> bool {
        self.start <= self.end
    }

    /// The number of bytes in the range.
    pub open spec fn len(self) -> int {
        self.end - self.start
    }

    /// The range of `size` bytes from `start`, or `None` where its end lies
    /// beyond the address space.
    pub fn from_start_size(start: usize, size: usize) -> (r: Option<Region>)
        ensures
            r == if start + size <= usize::MAX {
                Some(Region { start, end: (start + size) as usize })
            } else {
                None::<Region>
            },
    {
        match range_bounds(start, size) {
            Some((lo, hi)) => Some(Region { start: lo, end: hi }),
            None => None,
        }
    }

    /// The number of bytes in the range; zero for a range that is not well
    /// formed.
    pub fn size(&self) -> (r: usize)
        ensures
            r == if self.wf() { self.len() } else { 0 },
    {
        if self.start <= self.end {
            self.end - self.start
        } else {
            0
        }
    }

    /// The smallest range of whole pages that covers this one, or `None`
    /// where the range is not well formed or reaches the last page of the
    /// address space.
    pub fn page_span(&self) -> (r: Option<Region>)
        ensures
            r == if self.wf() && self.end <= addr_limit() {
                Some(
                    Region {
                        start: page_floor(self.start as int) as usize,
                        end: page_ceil(self.end as int) as usize,
                    },
                )
            } else {
                None::<Region>
            },
            r matches Some(span) ==> span.wf() && span.start <= self.start && self.end <= span.end,
    {
        if self.start > self.end || self.end > usize::MAX - 0xfff {
            return None;
        }
        let start = align_down_4k(self.start);
        let end = if self.end % PAGE_SIZE == 0 {
            self.end
        } else {
            align_up_4k(self.end)
        };
        Some(Region { start, end })
    }
}

/// Calls `MemoryAddr::align_down_4k` on a `VirtAddr`, which clears the low
/// twelve bits of the address: the result is the page boundary at or below
/// `addr`.
#[verifier::external_body]
pub(crate) fn align_down_4k(addr: usize) -> (r: usize)
    ensures
        r == page_floor(addr as int),
{
    VirtAddr::from_usize(addr).align_down_4k().as_usize()
}

/// Calls `MemoryAddr::align_up_4k` on a `VirtAddr`, which adds 4096, takes
/// one off and then clears the low twelve bits: the result is the page
/// boundary at or above `addr`. The crate adds with the plain operator, so
/// the first sum, of `addr` and 4096, must fit.
#[verifier::external_body]
pub(crate) fn align_up_4k(addr: usize) -> (r: usize)
    requires
        addr + 0x1000 <= usize::MAX,
    ensures
        r == page_ceil(addr as int),
{
    VirtAddr::from_usize(addr).align_up_4k().as_usize()
}

/// Calls `AddrRange::try_from_start_size` on a `VirtAddr`, which adds `size`
/// to `start` with a check: the bounds of the range where the sum fits, and
/// `None` where it does not.
#[verifier::external_body]
pub(crate) fn range_bounds(start: usize, size: usize) -> (r: Option<(usize, usize)>)
    ensures
        r == if start + size <= usize::MAX {
            Some((start, (start + size) as usize))
        } else {
            None::<(usize, usize)>
        },
{
    match VirtAddrRange::try_from_start_size(VirtAddr::from_usize(start), size) {
        Some(range) => Some((range.start.as_usize(), range.end.as_usize())),
        None => None,
    }
}

} // verus!
