//! Pointers into the address space of a user program.
use crate::addr::{addr_limit, page_index, page_region};
use crate::addrspace::{bad_address, AccessFlags, AddrSpaceProvider, Fault, Layout};
use crate::region::{region_outcome, RegionPlan};
use crate::scan::{elem_addr, last_byte, Scan, ScanModel, Status, Step};
use core::marker::PhantomData;
use vstd::prelude::*;

verus! {

/// The mark of one execution context that says whether the kernel is
/// reading user memory there.
///
/// While the mark is raised, a page fault in kernel code is expected: the
/// page that was touched is permitted and may simply not be mapped yet. The
/// mark is raised by [`access_user_memory`] alone, for as long as its
/// argument runs.
pub struct ContextFlag {
    accessing: bool,
}

impl ContextFlag {
    /// Whether the mark is raised.
    pub closed spec fn is_raised(&self) -> bool {
        self.accessing
    }

    /// The mark while it is raised.
    pub closed spec fn raised() -> ContextFlag {
        ContextFlag { accessing: true }
    }

    /// There is one raised mark.
    pub proof fn lemma_raised(self)
        ensures
            self.is_raised() <==> self == ContextFlag::raised(),
    {
    }

    /// The mark of a context that is not reading user memory.
    pub fn new() -> (r: ContextFlag)
        ensures
            !r.is_raised(),
    {
        ContextFlag { accessing: false }
    }
}

/// Whether the context of `flag` is reading user memory.
///
/// A page fault handler lets a fault from kernel code pass when this is
/// true.
pub fn is_accessing_user_memory(flag: &ContextFlag) -> (r: bool)
    ensures
        r == flag.is_raised(),
{
    flag.accessing
}

/// Raises the mark, runs `f`, and lowers the mark when `f` has returned,
/// whatever it returned.
///
/// `f` is handed the raised mark, and so can show it to what it calls.
pub fn access_user_memory<R, F: FnOnce(&ContextFlag) -> R>(flag: &mut ContextFlag, f: F) -> (r: R)
    requires
        call_requires(f, (&ContextFlag::raised(),)),
    ensures
        call_ensures(f, (&ContextFlag::raised(),), r),
        !final(flag).is_raised(),
{
    flag.accessing = true;
    let result = f(&*flag);
    flag.accessing = false;
    result
}

/// The layout of one value of type `T`.
pub open spec fn layout_of<T>() -> Layout {
    Layout {
        size: vstd::layout::size_of::<T>() as usize,
        align: vstd::layout::align_of::<T>() as usize,
    }
}

/// A pointer to a `T` in the address space of a user program that the
/// provider `A` speaks for.
///
/// The pointer is an address and nothing more. Making one checks nothing,
/// and any address can be held, also zero.
pub struct UserPtr<A: AddrSpaceProvider, T> {
    addr: usize,
    _marker: PhantomData<(A, T)>,
}

impl<A: AddrSpaceProvider, T> View for UserPtr<A, T> {
    type V = usize;

    closed spec fn view(&self) -> usize {
        self.addr
    }
}

impl<A: AddrSpaceProvider, T> From<usize> for UserPtr<A, T> {
    /// The pointer to the address `value`.
    fn from(value: usize) -> (r: Self)
        ensures
            r@ == value,
    {
        UserPtr { addr: value, _marker: PhantomData }
    }
}

impl<A: AddrSpaceProvider, T> vstd::std_specs::convert::FromSpecImpl<usize> for UserPtr<A, T> {
    open spec fn obeys_from_spec() -> bool {
        true
    }

    closed spec fn from_spec(value: usize) -> Self {
        UserPtr { addr: value, _marker: PhantomData }
    }
}

impl<A: AddrSpaceProvider, T> UserPtr<A, T> {
    /// The pointer to `addr`.
    pub fn new(addr: usize) -> (r: Self)
        ensures
            r@ == addr,
    {
        UserPtr { addr, _marker: PhantomData }
    }

    /// The access rights that a check asks for unless told otherwise: to
    /// read and to write.
    pub fn access_flags() -> (r: AccessFlags)
        ensures
            r.bits == 3,
    {
        AccessFlags::read_write()
    }

    /// The address that the pointer holds.
    pub fn address(&self) -> (r: usize)
        ensures
            r == self@,
    {
        self.addr
    }

    /// The same address as a pointer to a `U`. Nothing is checked.
    pub fn cast<U>(self) -> (r: UserPtr<A, U>)
        ensures
            r@ == self@,
    {
        UserPtr { addr: self.addr, _marker: PhantomData }
    }

    /// Whether the address is zero.
    pub fn is_null(&self) -> (r: bool)
        ensures
            r == (self@ == 0),
    {
        self.addr == 0
    }

    /// The pointer itself, or `None` where its address is zero.
    pub fn nullable(self) -> (r: Option<Self>)
        ensures
            self@ == 0 ==> r is None,
            self@ != 0 ==> r == Some(self),
    {
        if self.is_null() {
            None
        } else {
            Some(self)
        }
    }

    /// Checks that the area from `start` with the given layout may be
    /// accessed with `access_flags`, and has its pages backed.
    ///
    /// Fails with an alignment fault where `start` does not suit the
    /// layout, and with an access fault where the area reaches into the
    /// last page of the address space: in both cases the provider is not
    /// asked. Else the provider decides: the check fails with an access
    /// fault where it refuses the bytes, and ends as the provider's backing
    /// of the pages ends. [`crate::region::region_outcome`] says so for each
    /// pair of answers. Every fault is reported as a bad address.
    pub fn check_region(start: usize, layout: Layout, access_flags: AccessFlags) -> (r: Result<
        (),
        Fault,
    >)
        ensures
            r matches Err(fault) ==> fault.errno() == bad_address(),
            !layout.admits(start) ==> r == Err::<(), Fault>(Fault::Alignment),
            RegionPlan::of(start, layout) matches Err(fault) ==> r == Err::<(), Fault>(fault),
            RegionPlan::of(start, layout) matches Ok(plan) ==> exists|granted: bool|
                {
                    &&& #[trigger] call_ensures(
                        A::check_region_access,
                        (plan.bytes, access_flags),
                        granted,
                    )
                    &&& granted ==> call_ensures(
                        A::populate_area,
                        (plan.pages.start, plan.pages.len() as usize),
                        r,
                    )
                    &&& r == region_outcome(start, layout, granted, r)
                },
    {
        let plan = match RegionPlan::new(start, layout) {
            Ok(plan) => plan,
            Err(fault) => { return Err(fault); },
        };
        let granted = A::check_region_access(plan.bytes, access_flags);
        let pages = match plan.after_access(granted) {
            Ok(pages) => pages,
            Err(fault) => { return Err(fault); },
        };
        A::populate_area(pages.start, pages.size())
    }

    /// Takes the steps of a scan until it has ended: asks the provider for
    /// each page, and `is_terminator` for each element.
    fn finish_scan<F: Fn(&ContextFlag, usize) -> bool>(
        begun: Scan,
        access_flags: AccessFlags,
        flag: &ContextFlag,
        is_terminator: &F,
    ) -> (r: Scan)
        requires
            *flag == ContextFlag::raised(),
            begun@.wf(),
            begun@.len == 0,
            begun@.pages == page_index(begun@.start),
            begun@.status is Running,
            forall|i: int| #[trigger]
                Self::may_read(begun@.start, begun@.size, access_flags, *is_terminator, i)
                    ==> call_requires(
                    *is_terminator,
                    (&ContextFlag::raised(), elem_addr(begun@.start, begun@.size, i) as usize),
                ),
        ensures
            Self::scan_ended(begun@.start, begun@.size, access_flags, *is_terminator, r@),
    {
        let mut scan = begun;
        loop
            invariant
                *flag == ContextFlag::raised(),
                begun@.status is Running,
                forall|i: int| #[trigger]
                    Self::may_read(begun@.start, begun@.size, access_flags, *is_terminator, i)
                        ==> call_requires(
                        *is_terminator,
                        (&ContextFlag::raised(), elem_addr(begun@.start, begun@.size, i) as usize),
                    ),
                Self::scan_met(begun@.start, begun@.size, access_flags, *is_terminator, scan@),
            decreases scan@.fuel(),
        {
            let ghost before = scan@;
            match scan.step() {
                Step::Validate(page) => {
                    let granted = A::check_region_access(page, access_flags);
                    proof {
                        crate::scan::lemma_advance(before, granted);
                    }
                    scan = scan.advance(granted);
                },
                Step::Read(addr) => {
                    assert(addr == elem_addr(begun@.start, begun@.size, before.len));
                    assert(Self::may_read(
                        begun@.start,
                        begun@.size,
                        access_flags,
                        *is_terminator,
                        before.len,
                    )) by {
                        assert forall|p: int|
                            page_index(begun@.start) <= p <= page_index(
                                last_byte(addr as int, begun@.size),
                            ) implies call_ensures(
                            A::check_region_access,
                            (#[trigger] page_region(p), access_flags),
                            true,
                        ) by {
                            assert(p < before.pages);
                        }
                    }
                    let terminator = is_terminator(flag, addr);
                    proof {
                        crate::scan::lemma_advance(before, terminator);
                    }
                    scan = scan.advance(terminator);
                },
                Step::Found(_, _) => { return scan; },
                Step::Failed(_) => { return scan; },
            }
        }
    }

    /// When element `i` of the buffer at `start` may be read: it ends below
    /// the last page of the address space, the provider has permitted every
    /// page from the first one of the buffer up to the one of its last byte,
    /// and `is_terminator` has read every element before it and found none
    /// to be the terminator.
    ///
    /// [`UserPtr::check_null_terminated`] reads an element only then.
    pub open spec fn may_read<F: Fn(&ContextFlag, usize) -> bool>(
        start: int,
        size: int,
        access_flags: AccessFlags,
        is_terminator: F,
        i: int,
    ) -> bool {
        &&& 0 <= i
        &&& last_byte(elem_addr(start, size, i), size) < addr_limit()
        &&& forall|p: int|
            page_index(start) <= p <= page_index(last_byte(elem_addr(start, size, i), size))
                ==> call_ensures(
                A::check_region_access,
                (#[trigger] page_region(p), access_flags),
                true,
            )
        &&& forall|j: int|
            0 <= j < i ==> call_ensures(
                is_terminator,
                (&ContextFlag::raised(), #[trigger] elem_addr(start, size, j) as usize),
                false,
            )
    }

    /// What is known of a scan on its way: it has been permitted every page
    /// up to the next one and has read no terminator before the next
    /// element, and where it has ended, the answer at which it did is known
    /// too.
    spec fn scan_met<F: Fn(&ContextFlag, usize) -> bool>(
        start: int,
        size: int,
        access_flags: AccessFlags,
        is_terminator: F,
        scan: ScanModel,
    ) -> bool {
        &&& scan.wf()
        &&& scan.start == start
        &&& scan.size == size
        &&& scan.status is Running || scan.status is Found || scan.status == Status::Failed(
            Fault::Access,
        )
        &&& forall|p: int|
            page_index(start) <= p < scan.pages ==> call_ensures(
                A::check_region_access,
                (#[trigger] page_region(p), access_flags),
                true,
            )
        &&& forall|i: int|
            0 <= i < scan.len ==> call_ensures(
                is_terminator,
                (&ContextFlag::raised(), #[trigger] elem_addr(start, size, i) as usize),
                false,
            )
        &&& scan.status is Found ==> call_ensures(
            is_terminator,
            (&ContextFlag::raised(), scan.cursor() as usize),
            true,
        )
        &&& scan.refused() ==> call_ensures(
            A::check_region_access,
            (page_region(scan.pages), access_flags),
            false,
        )
        &&& scan.status is Failed && !scan.at_page() ==> call_ensures(
            is_terminator,
            (&ContextFlag::raised(), scan.cursor() as usize),
            false,
        )
    }

    /// What is known of a scan that has ended.
    spec fn scan_ended<F: Fn(&ContextFlag, usize) -> bool>(
        start: int,
        size: int,
        access_flags: AccessFlags,
        is_terminator: F,
        scan: ScanModel,
    ) -> bool {
        !(scan.status is Running) && Self::scan_met(start, size, access_flags, is_terminator, scan)
    }

    /// Whether `permitted` and `terminators` are a world made of answers
    /// that the scan of the buffer at `start` may get: of the provider, for
    /// each page for which the scan asks in that world, and of
    /// `is_terminator`, for each element that it reads there.
    pub open spec fn answers<F: Fn(&ContextFlag, usize) -> bool>(
        start: usize,
        access_flags: AccessFlags,
        is_terminator: F,
        permitted: Set<int>,
        terminators: Set<int>,
    ) -> bool {
        let scan = ScanModel::begin(start, layout_of::<T>());
        &&& forall|p: int| #[trigger]
            scan.asks(permitted, terminators).contains(p) ==> call_ensures(
                A::check_region_access,
                (page_region(p), access_flags),
                permitted.contains(p),
            )
        &&& forall|i: int| #[trigger]
            scan.reads(permitted, terminators).contains(i) ==> call_ensures(
                is_terminator,
                (
                    &ContextFlag::raised(),
                    elem_addr(start as int, layout_of::<T>().size as int, i) as usize,
                ),
                terminators.contains(i),
            )
    }

    /// Where the provider answers for each page as `permitted` says, and
    /// `is_terminator` for each element as `terminators` says, a scan that
    /// has met their answers ends as a scan ends in that world.
    ///
    /// With this, what [`UserPtr::check_null_terminated`] returns is what
    /// [`ScanModel::run`] comes to in the world that the provider and
    /// `is_terminator` stand for.
    pub proof fn lemma_scan_in_world<F: Fn(&ContextFlag, usize) -> bool>(
        start: usize,
        access_flags: AccessFlags,
        is_terminator: F,
        permitted: Set<int>,
        terminators: Set<int>,
        met_permitted: Set<int>,
        met_terminators: Set<int>,
    )
        requires
            forall|p: int, granted: bool|
                page_index(start as int) <= p < page_index(usize::MAX as int)
                    && #[trigger] call_ensures(
                    A::check_region_access,
                    (page_region(p), access_flags),
                    granted,
                ) ==> granted == permitted.contains(p),
            forall|i: int, found: bool|
                0 <= i && elem_addr(start as int, layout_of::<T>().size as int, i) < addr_limit()
                    && #[trigger] call_ensures(
                    is_terminator,
                    (
                        &ContextFlag::raised(),
                        elem_addr(start as int, layout_of::<T>().size as int, i) as usize,
                    ),
                    found,
                ) ==> found == terminators.contains(i),
            Self::answers(start, access_flags, is_terminator, met_permitted, met_terminators),
        ensures
            ScanModel::begin(start, layout_of::<T>()).run(met_permitted, met_terminators)
                == ScanModel::begin(start, layout_of::<T>()).run(permitted, terminators),
    {
        let scan = ScanModel::begin(start, layout_of::<T>());
        assert forall|p: int| #[trigger]
            scan.asks(met_permitted, met_terminators).contains(p) implies (
        met_permitted.contains(p) <==> permitted.contains(p)) by {
            crate::scan_laws::lemma_asks_are_in_order(
                start,
                layout_of::<T>(),
                met_permitted,
                met_terminators,
                p,
            );
        }
        assert forall|i: int| #[trigger]
            scan.reads(met_permitted, met_terminators).contains(i) implies (
        met_terminators.contains(i) <==> terminators.contains(i)) by {
            crate::scan_laws::lemma_reads_are_checked(
                start,
                layout_of::<T>(),
                met_permitted,
                met_terminators,
                i,
            );
        }
        crate::scan_laws::lemma_same_answers_same_scan(
            start,
            layout_of::<T>(),
            met_permitted,
            met_terminators,
            permitted,
            terminators,
        );
    }

    /// Finds the length of the buffer of `T` that starts at `start` and ends
    /// with a terminator, and checks on the way that each page it reads
    /// from may be accessed with `access_flags`.
    ///
    /// `is_terminator` reads the element at an address and tells whether it
    /// is the terminator. It is called inside [`access_user_memory`] on
    /// `flag`, and is shown the raised mark each time. It is called for one
    /// element after the other, and for none before the provider has
    /// permitted every page on which the element has a byte: it need not
    /// accept an element that [`UserPtr::may_read`] does not hold of.
    ///
    /// Returns `start` and the number of elements before the terminator.
    /// Fails with an alignment fault where `start` does not suit `T`, and
    /// else with an access fault: where the provider refuses a page, and
    /// where an element of the buffer would reach into the last page of the
    /// address space. Every fault is reported as a bad address.
    ///
    /// What is returned is what [`ScanModel`] comes to in the world of the
    /// answers that the provider and `is_terminator` gave.
    pub fn check_null_terminated<F: Fn(&ContextFlag, usize) -> bool>(
        flag: &mut ContextFlag,
        start: usize,
        access_flags: AccessFlags,
        is_terminator: F,
    ) -> (r: Result<(usize, usize), Fault>)
        requires
            forall|i: int| #[trigger]
                Self::may_read(
                    start as int,
                    layout_of::<T>().size as int,
                    access_flags,
                    is_terminator,
                    i,
                ) ==> call_requires(
                    is_terminator,
                    (
                        &ContextFlag::raised(),
                        elem_addr(start as int, layout_of::<T>().size as int, i) as usize,
                    ),
                ),
        ensures
            exists|permitted: Set<int>, terminators: Set<int>|
                {
                    &&& #[trigger] Self::answers(
                        start,
                        access_flags,
                        is_terminator,
                        permitted,
                        terminators,
                    )
                    &&& r == ScanModel::begin(start, layout_of::<T>()).run(
                        permitted,
                        terminators,
                    ).result()
                },
            !layout_of::<T>().admits(start) <==> r == Err::<(usize, usize), Fault>(
                Fault::Alignment,
            ),
            r matches Err(fault) ==> fault == Fault::Alignment || fault == Fault::Access,
            r matches Err(fault) ==> fault.errno() == bad_address(),
            r matches Ok((first, _)) ==> first == start,
            final(flag).is_raised() == (old(flag).is_raised() && !(ScanModel::begin(
                start,
                layout_of::<T>(),
            ).status is Running)),
            !old(flag).is_raised() ==> !final(flag).is_raised(),
    {
        let scan = Scan::begin(start, Layout::new::<T>());
        let ghost first = scan@;
        assert(first == ScanModel::begin(start, layout_of::<T>()));
        let scan = match scan.step() {
            Step::Failed(fault) => {
                proof {
                    let none = Set::<int>::empty();
                    assert(first.run(none, none) == first);
                    assert(first.asks(none, none) == none);
                    assert(first.reads(none, none) == none);
                    assert(Self::answers(start, access_flags, is_terminator, none, none));
                }
                return Err(fault);
            },
            Step::Found(first, len) => { return Ok((first, len)); },
            _ => scan,
        };
        let run = |raised: &ContextFlag| -> (end: Scan)
            requires
                *raised == ContextFlag::raised(),
            ensures
                Self::scan_ended(first.start, first.size, access_flags, is_terminator, end@),
            { Self::finish_scan(scan, access_flags, raised, &is_terminator) };
        let end = access_user_memory(flag, run);
        proof {
            let permitted = end@.permitted_pages();
            let terminators = end@.met_terminators();
            crate::scan_laws::lemma_end_replays(start, layout_of::<T>(), end@);
            assert forall|p: int| #[trigger]
                first.asks(permitted, terminators).contains(p) implies call_ensures(
                A::check_region_access,
                (page_region(p), access_flags),
                permitted.contains(p),
            ) by {
                let _ = page_region(p);
            }
            assert forall|i: int| #[trigger]
                first.reads(permitted, terminators).contains(i) implies call_ensures(
                is_terminator,
                (&ContextFlag::raised(), elem_addr(first.start, first.size, i) as usize),
                terminators.contains(i),
            ) by {
                let _ = elem_addr(first.start, first.size, i);
            }
            assert(Self::answers(start, access_flags, is_terminator, permitted, terminators));
        }
        match end.step() {
            Step::Found(first, len) => Ok((first, len)),
            Step::Failed(fault) => Err(fault),
            _ => Err(Fault::Access),
        }
    }
}

} // verus!
