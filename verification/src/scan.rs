//! The scan for the end of a buffer that a user program has terminated with
//! a sentinel.
//!
//! The length of such a buffer is not known before it has been read, and its
//! pages need not be mapped yet. So the scan asks for the permission of one
//! page at a time, just before it reads the first element that has a byte on
//! it.
//!
//! The scan itself touches no memory and asks no provider. It is a machine
//! that names the next step, and is told how the step went. What it does is
//! defined on [`ScanModel`]; [`Scan`] is the machine at run time.
use crate::addr::{addr_limit, page_index, page_region, Region, PAGE_SIZE};
use crate::addrspace::{Fault, Layout};
use vstd::prelude::*;

verus! {

/// How far a scan has come.
#[derive(Clone, Copy, Debug, PartialEq, Eq, Structural)]
pub enum Status {
    /// The terminator has not been found yet.
    Running,
    /// The element last read is the terminator.
    Found,
    /// The scan has failed. No length is known.
    Failed(Fault),
}

/// What a scan does next.
#[derive(Clone, Copy, Debug, PartialEq, Eq, Structural)]
pub enum Step {
    /// Ask the provider whether this page may be accessed.
    Validate(Region),
    /// Read the element at this address and tell whether it is the
    /// terminator.
    Read(usize),
    /// Nothing: the buffer starts at the first address and has as many
    /// elements before its terminator as the second number says.
    Found(usize, usize),
    /// Nothing: the scan has failed.
    Failed(Fault),
}

/// The address of element `i` of a buffer that starts at `start` and whose
/// elements have `size` bytes each.
pub open spec fn elem_addr(start: int, size: int, i: int) -> int {
    start + i * size
}

/// The address of the last byte of an element of `size` bytes at `addr`. An
/// element without size has no byte; the address itself stands for it.
pub open spec fn last_byte(addr: int, size: int) -> int {
    if size > 0 {
        addr + size - 1
    } else {
        addr
    }
}

/// The state of a scan over the integers.
pub struct ScanModel {
    /// The address of the first element.
    pub start: int,
    /// The size in bytes of one element.
    pub size: int,
    /// The number of elements read that were not the terminator.
    pub len: int,
    /// The number of the first page that has not been validated. The pages
    /// from the one of `start` up to it have been.
    pub pages: int,
    /// How far the scan has come.
    pub status: Status,
}

impl ScanModel {
    /// The address of the element that is read next.
    pub open spec fn cursor(self) -> int {
        elem_addr(self.start, self.size, self.len)
    }

    /// The address of the last byte of the element that is read next.
    pub open spec fn reach(self) -> int {
        last_byte(self.cursor(), self.size)
    }

    /// Whether a page of the next element is still to be validated.
    pub open spec fn at_page(self) -> bool {
        page_index(self.reach()) >= self.pages
    }

    /// The states that a scan can be in.
    ///
    /// No page is validated before an element has a byte on it, and no
    /// element is read before the pages of all its bytes are validated. A
    /// scan that has moved on has elements with a size, and stays below the
    /// last page of the address space. A scan that has failed behind an
    /// element has no element left to move on to.
    pub open spec fn wf(self) -> bool {
        &&& 0 <= self.start
        &&& 0 <= self.size <= usize::MAX
        &&& 0 <= self.len <= usize::MAX
        &&& self.cursor() <= usize::MAX
        &&& page_index(self.start) <= self.pages <= page_index(self.reach()) + 1
        &&& self.status is Running ==> self.reach() < addr_limit()
        &&& self.len > 0 ==> self.size > 0 && self.reach() < addr_limit() && page_index(
            self.cursor() - 1,
        ) < self.pages
        &&& self.status is Found ==> self.reach() < addr_limit() && !self.at_page()
        &&& self.status is Failed && !self.at_page() ==> self.size == 0 || self.reach()
            + self.size >= addr_limit()
    }

    /// The state before the first step of a scan from `start` over elements
    /// of the given layout.
    ///
    /// A misaligned start fails the scan at once, and so does a first
    /// element that reaches into the last page of the address space.
    pub open spec fn begin(start: usize, layout: Layout) -> ScanModel {
        ScanModel {
            start: start as int,
            size: layout.size as int,
            len: 0,
            pages: page_index(start as int),
            status: if !layout.admits(start) {
                Status::Failed(Fault::Alignment)
            } else if last_byte(start as int, layout.size as int) >= addr_limit() {
                Status::Failed(Fault::Access)
            } else {
                Status::Running
            },
        }
    }

    /// The next step.
    pub open spec fn step(self) -> Step {
        match self.status {
            Status::Found => Step::Found(self.start as usize, self.len as usize),
            Status::Failed(fault) => Step::Failed(fault),
            Status::Running => if self.at_page() {
                Step::Validate(page_region(self.pages))
            } else {
                Step::Read(self.cursor() as usize)
            },
        }
    }

    /// What the scan returns once it has ended: the start and the length of
    /// the buffer, or the fault.
    pub open spec fn result(self) -> Result<(usize, usize), Fault> {
        match self.status {
            Status::Found => Ok((self.start as usize, self.len as usize)),
            Status::Failed(fault) => Err(fault),
            Status::Running => Err(Fault::Access),
        }
    }

    /// The state after the step has been taken. For a page, `answer` says
    /// whether it is permitted; for an element, whether it is the
    /// terminator.
    ///
    /// A page that is refused fails the scan. An element that is not the
    /// terminator moves the scan on by one element, unless the next one
    /// would reach the last page of the address space, or the elements have
    /// no size and so none of them can differ from the one just read.
    pub open spec fn advance(self, answer: bool) -> ScanModel {
        if !(self.status is Running) {
            self
        } else if self.at_page() {
            if answer {
                ScanModel { pages: self.pages + 1, ..self }
            } else {
                ScanModel { status: Status::Failed(Fault::Access), ..self }
            }
        } else if answer {
            ScanModel { status: Status::Found, ..self }
        } else if self.size == 0 || self.reach() + self.size >= addr_limit() {
            ScanModel { status: Status::Failed(Fault::Access), ..self }
        } else {
            ScanModel { len: self.len + 1, ..self }
        }
    }

    /// A bound on the number of steps that are left.
    pub open spec fn fuel(self) -> int {
        if self.status is Running {
            1 + 2 * (usize::MAX - self.cursor()) + (page_index(usize::MAX as int) + 1 - self.pages)
        } else {
            0
        }
    }

    /// How the next step goes in a world where `permitted` holds the numbers
    /// of the pages that may be accessed, and `terminators` the indices of
    /// the elements that are the terminator.
    pub open spec fn answer(self, permitted: Set<int>, terminators: Set<int>) -> bool {
        if self.at_page() {
            permitted.contains(self.pages)
        } else {
            terminators.contains(self.len)
        }
    }

    /// The state in which the scan ends in that world.
    pub open spec fn run(self, permitted: Set<int>, terminators: Set<int>) -> ScanModel
        decreases self.fuel(),
        via Self::run_ends
    {
        if self.wf() && self.status is Running {
            self.advance(self.answer(permitted, terminators)).run(permitted, terminators)
        } else {
            self
        }
    }

    #[via_fn]
    proof fn run_ends(self, permitted: Set<int>, terminators: Set<int>) {
        if self.wf() {
            lemma_advance(self, self.answer(permitted, terminators));
        }
    }

    /// The numbers of the pages for which the scan asks in that world before
    /// it ends.
    pub open spec fn asks(self, permitted: Set<int>, terminators: Set<int>) -> Set<int>
        decreases self.fuel(),
        via Self::asks_ends
    {
        if self.wf() && self.status is Running {
            let rest = self.advance(self.answer(permitted, terminators)).asks(
                permitted,
                terminators,
            );
            if self.at_page() {
                rest.insert(self.pages)
            } else {
                rest
            }
        } else {
            Set::empty()
        }
    }

    #[via_fn]
    proof fn asks_ends(self, permitted: Set<int>, terminators: Set<int>) {
        if self.wf() {
            lemma_advance(self, self.answer(permitted, terminators));
        }
    }

    /// The indices of the elements that the scan reads in that world before
    /// it ends.
    pub open spec fn reads(self, permitted: Set<int>, terminators: Set<int>) -> Set<int>
        decreases self.fuel(),
        via Self::reads_ends
    {
        if self.wf() && self.status is Running {
            let rest = self.advance(self.answer(permitted, terminators)).reads(
                permitted,
                terminators,
            );
            if self.at_page() {
                rest
            } else {
                rest.insert(self.len)
            }
        } else {
            Set::empty()
        }
    }

    #[via_fn]
    proof fn reads_ends(self, permitted: Set<int>, terminators: Set<int>) {
        if self.wf() {
            lemma_advance(self, self.answer(permitted, terminators));
        }
    }

    /// Whether the scan has failed because a page was refused, and not
    /// behind an element.
    pub open spec fn refused(self) -> bool {
        self.status is Failed && self.at_page()
    }

    /// The pages that were permitted on the way to this state: those from
    /// the first one up to the one that is validated next.
    pub open spec fn permitted_pages(self) -> Set<int> {
        Set::new(|p: int| page_index(self.start) <= p < self.pages)
    }

    /// The terminators that were met on the way to this state: the element
    /// last read where the scan has found one, and none else.
    pub open spec fn met_terminators(self) -> Set<int> {
        if self.status is Found {
            set![self.len]
        } else {
            Set::empty()
        }
    }
}

/// Elements lie one behind the other.
pub proof fn lemma_elem_addr_grows(start: int, size: int, i: int, j: int)
    requires
        0 <= size,
        i <= j,
    ensures
        elem_addr(start, size, i) <= elem_addr(start, size, j),
        i < j ==> elem_addr(start, size, i) + size <= elem_addr(start, size, j),
        elem_addr(start, size, i + 1) == elem_addr(start, size, i) + size,
{
    assert(i * size <= j * size) by (nonlinear_arith)
        requires
            0 <= size,
            i <= j,
    ;
    if i < j {
        assert((i + 1) * size <= j * size) by (nonlinear_arith)
            requires
                0 <= size,
                i + 1 <= j,
        ;
    }
    assert((i + 1) * size == i * size + size) by (nonlinear_arith);
}

/// A step leads from one state of a scan to another, and leaves fewer steps
/// to take.
pub proof fn lemma_advance(m: ScanModel, answer: bool)
    requires
        m.wf(),
    ensures
        m.advance(answer).wf(),
        m.advance(answer).start == m.start,
        m.advance(answer).size == m.size,
        m.fuel() >= 0,
        m.status is Running ==> m.advance(answer).fuel() < m.fuel(),
{
    let n = m.advance(answer);
    lemma_elem_addr_grows(m.start, m.size, m.len, m.len);
    if m.status is Running && !m.at_page() && !answer && n.status is Running {
        assert(m.len <= m.len * m.size) by (nonlinear_arith)
            requires
                m.size >= 1,
                m.len >= 0,
        ;
        assert(n.cursor() == m.cursor() + m.size);
    }
}

/// A scan at run time.
pub struct Scan {
    start: usize,
    size: usize,
    len: usize,
    cursor: usize,
    pages: usize,
    status: Status,
}

impl View for Scan {
    type V = ScanModel;

    closed spec fn view(&self) -> ScanModel {
        ScanModel {
            start: self.start as int,
            size: self.size as int,
            len: self.len as int,
            pages: self.pages as int,
            status: self.status,
        }
    }
}

impl Scan {
    #[verifier::type_invariant]
    spec fn inv(self) -> bool {
        self@.wf() && self.cursor == self@.cursor()
    }

    /// The distance from the first byte of an element to its last.
    fn span(size: usize) -> (r: usize)
        ensures
            forall|addr: int| #[trigger] last_byte(addr, size as int) == addr + r,
    {
        if size == 0 {
            0
        } else {
            size - 1
        }
    }

    /// Starts a scan from `start` over elements of the given layout.
    pub fn begin(start: usize, layout: Layout) -> (r: Scan)
        ensures
            r@ == ScanModel::begin(start, layout),
            r@.wf(),
    {
        let limit = usize::MAX - 0xfff;
        let status = if !layout.is_aligned(start) {
            Status::Failed(Fault::Alignment)
        } else if start >= limit || Self::span(layout.size) >= limit - start {
            Status::Failed(Fault::Access)
        } else {
            Status::Running
        };
        Scan { start, size: layout.size, len: 0, cursor: start, pages: start / PAGE_SIZE, status }
    }

    /// The next step.
    pub fn step(&self) -> (r: Step)
        ensures
            r == self@.step(),
            self@.wf(),
            r matches Step::Validate(page) ==> page.wf(),
    {
        proof {
            use_type_invariant(self);
        }
        match self.status {
            Status::Found => Step::Found(self.start, self.len),
            Status::Failed(fault) => Step::Failed(fault),
            Status::Running => if (self.cursor + Self::span(self.size)) / PAGE_SIZE >= self.pages {
                let base = self.pages * PAGE_SIZE;
                Step::Validate(Region { start: base, end: base + PAGE_SIZE })
            } else {
                Step::Read(self.cursor)
            },
        }
    }

    /// Takes the step: `answer` says whether the page is permitted, or
    /// whether the element is the terminator.
    pub fn advance(self, answer: bool) -> (r: Scan)
        ensures
            r@ == self@.advance(answer),
            r@.wf(),
    {
        proof {
            use_type_invariant(&self);
            lemma_advance(self@, answer);
            lemma_elem_addr_grows(self@.start, self@.size, self@.len, self@.len);
        }
        let Scan { start, size, len, cursor, pages, status } = self;
        match status {
            Status::Running => if (cursor + Self::span(size)) / PAGE_SIZE >= pages {
                if answer {
                    Scan { start, size, len, cursor, pages: pages + 1, status }
                } else {
                    Scan { start, size, len, cursor, pages, status: Status::Failed(Fault::Access) }
                }
            } else if answer {
                Scan { start, size, len, cursor, pages, status: Status::Found }
            } else if size == 0 || size >= (usize::MAX - 0xfff) - (cursor + Self::span(size)) {
                Scan { start, size, len, cursor, pages, status: Status::Failed(Fault::Access) }
            } else {
                assert(len <= len * size) by (nonlinear_arith)
                    requires
                        size >= 1,
                        len >= 0,
                ;
                Scan { start, size, len: len + 1, cursor: cursor + size, pages, status }
            },
            _ => Scan { start, size, len, cursor, pages, status },
        }
    }
}

} // verus!
