//! The check of an area whose size is known.
//!
//! The check asks the provider twice: whether the bytes of the area may be
//! accessed, and then to back the pages that hold them. What is asked is
//! fixed by a [`RegionPlan`], before the first answer is in.
use crate::addr::{addr_limit, page_ceil, page_floor, Region};
use crate::addrspace::{Fault, Layout};
use vstd::prelude::*;

verus! {

/// What the check of an area asks of the provider.
#[derive(Clone, Copy, Debug, PartialEq, Eq, Structural)]
pub struct RegionPlan {
    /// The bytes of the area, for which permission is asked.
    pub bytes: Region,
    /// The smallest range of whole pages that holds them, which is to be
    /// backed.
    pub pages: Region,
}

impl RegionPlan {
    /// The plan for the area that starts at `start` and has the given
    /// layout.
    ///
    /// There is none for a start that does not suit the layout, which is an
    /// alignment fault, nor for an area that reaches into the last page of
    /// the address space or beyond its end, which is an access fault.
    pub open spec fn of(start: usize, layout: Layout) -> Result<RegionPlan, Fault> {
        if !layout.admits(start) {
            Err(Fault::Alignment)
        } else if start + layout.size > addr_limit() {
            Err(Fault::Access)
        } else {
            Ok(
                RegionPlan {
                    bytes: Region { start, end: (start + layout.size) as usize },
                    pages: Region {
                        start: page_floor(start as int) as usize,
                        end: page_ceil(start + layout.size) as usize,
                    },
                },
            )
        }
    }

    /// Makes the plan for the area that starts at `start` and has the given
    /// layout.
    pub fn new(start: usize, layout: Layout) -> (r: Result<RegionPlan, Fault>)
        ensures
            r == RegionPlan::of(start, layout),
            r matches Ok(plan) ==> plan.bytes.wf() && plan.pages.wf(),
    {
        if !layout.is_aligned(start) {
            return Err(Fault::Alignment);
        }
        let bytes = match Region::from_start_size(start, layout.size) {
            Some(bytes) => bytes,
            None => { return Err(Fault::Access); },
        };
        match bytes.page_span() {
            Some(pages) => Ok(RegionPlan { bytes, pages }),
            None => Err(Fault::Access),
        }
    }

    /// The pages to back once the provider has said whether the bytes may
    /// be accessed: those of the plan where it granted the access, and an
    /// access fault where it did not.
    pub fn after_access(&self, granted: bool) -> (r: Result<Region, Fault>)
        ensures
            r == if granted {
                Ok::<Region, Fault>(self.pages)
            } else {
                Err::<Region, Fault>(Fault::Access)
            },
    {
        if granted {
            Ok(self.pages)
        } else {
            Err(Fault::Access)
        }
    }
}

/// How the check of an area ends, given the provider's answers: `granted`
/// to the question whether the bytes may be accessed, and `populated` to the
/// request to back the pages.
///
/// Without a plan the provider is not asked at all, and the pages are
/// backed only after the access has been granted.
pub open spec fn region_outcome(
    start: usize,
    layout: Layout,
    granted: bool,
    populated: Result<(), Fault>,
) -> Result<(), Fault> {
    match RegionPlan::of(start, layout) {
        Err(fault) => Err(fault),
        Ok(_) => if granted {
            populated
        } else {
            Err(Fault::Access)
        },
    }
}

/// A plan asks for permission over the very bytes of the area, and for
/// backing over the smallest range of whole pages that holds them.
pub proof fn lemma_plan_covers(start: usize, layout: Layout)
    requires
        RegionPlan::of(start, layout) is Ok,
    ensures
        ({
            let plan = RegionPlan::of(start, layout)->Ok_0;
            &&& plan.bytes.start == start
            &&& plan.bytes.end == start + layout.size
            &&& plan.pages.start % 0x1000 == 0
            &&& plan.pages.end % 0x1000 == 0
            &&& plan.pages.start <= start < plan.pages.start + 0x1000
            &&& plan.pages.end - 0x1000 < start + layout.size <= plan.pages.end
        }),
{
}

/// The check of an area below the last page of the address space succeeds
/// if and only if the start suits the layout, the provider grants the
/// access to the bytes, and it backs the pages.
pub proof fn lemma_region_succeeds_iff(
    start: usize,
    layout: Layout,
    granted: bool,
    populated: Result<(), Fault>,
)
    requires
        start + layout.size <= addr_limit(),
    ensures
        region_outcome(start, layout, granted, populated) is Ok <==> layout.admits(start)
            && granted && populated is Ok,
{
}

/// A start that does not suit the layout is an alignment fault, whatever
/// the provider would answer.
pub proof fn lemma_misaligned_region_fails(
    start: usize,
    layout: Layout,
    granted: bool,
    populated: Result<(), Fault>,
)
    requires
        !layout.admits(start),
    ensures
        region_outcome(start, layout, granted, populated) == Err::<(), Fault>(Fault::Alignment),
{
}

/// Checking an area again asks the provider the same questions, as the
/// plan depends on nothing but the area. Where a check has succeeded, and
/// the provider grants the access and backs the pages once more, the check
/// succeeds once more, and with the same result.
pub proof fn lemma_region_check_repeats(
    start: usize,
    layout: Layout,
    first: Result<(), Fault>,
    second: Result<(), Fault>,
)
    requires
        region_outcome(start, layout, true, first) is Ok,
        second is Ok,
    ensures
        region_outcome(start, layout, true, second) is Ok,
        region_outcome(start, layout, true, second) == region_outcome(start, layout, true, first),
{
    assert(first->Ok_0 == second->Ok_0);
}

} // verus!
