//! What holds of every scan.
//!
//! The laws are stated of [`ScanModel`], in a world that is given by two
//! sets: the numbers of the pages that may be accessed, and the indices of
//! the elements that are the terminator.
use crate::addr::{addr_limit, page_index};
use crate::addrspace::{Fault, Layout};
use crate::scan::{
    elem_addr, last_byte, lemma_advance, lemma_elem_addr_grows, ScanModel, Status,
};
use vstd::prelude::*;

verus! {

proof fn lemma_reads_checked_from(
    m: ScanModel,
    permitted: Set<int>,
    terminators: Set<int>,
    i: int,
)
    requires
        m.wf(),
        forall|p: int| page_index(m.start) <= p < m.pages ==> permitted.contains(p),
        forall|j: int| 0 <= j < m.len ==> !terminators.contains(j),
        m.reads(permitted, terminators).contains(i),
    ensures
        m.len <= i,
        last_byte(elem_addr(m.start, m.size, i), m.size) < addr_limit(),
        forall|j: int| 0 <= j < i ==> !terminators.contains(j),
        forall|p: int|
            page_index(m.start) <= p <= page_index(
                last_byte(elem_addr(m.start, m.size, i), m.size),
            ) ==> permitted.contains(p),
    decreases m.fuel(),
{
    let answer = m.answer(permitted, terminators);
    let next = m.advance(answer);
    lemma_advance(m, answer);
    if !m.at_page() && i == m.len {
    } else {
        assert(next.reads(permitted, terminators).contains(i));
        assert(next.status is Running);
        lemma_reads_checked_from(next, permitted, terminators, i);
    }
}

/// A scan reads no element behind the first terminator, and none before
/// every page from the first one of the buffer up to the page of the
/// element's last byte has been permitted.
pub proof fn lemma_reads_are_checked(
    start: usize,
    layout: Layout,
    permitted: Set<int>,
    terminators: Set<int>,
    i: int,
)
    requires
        ScanModel::begin(start, layout).reads(permitted, terminators).contains(i),
    ensures
        0 <= i,
        last_byte(elem_addr(start as int, layout.size as int, i), layout.size as int)
            < addr_limit(),
        forall|j: int| 0 <= j < i ==> !terminators.contains(j),
        forall|p: int|
            page_index(start as int) <= p <= page_index(
                last_byte(elem_addr(start as int, layout.size as int, i), layout.size as int),
            ) ==> permitted.contains(p),
{
    lemma_reads_checked_from(ScanModel::begin(start, layout), permitted, terminators, i);
}

/// A scan reads no byte from a page that has not been permitted: each
/// byte of each element that it reads lies on a permitted page.
pub proof fn lemma_reads_touch_permitted_pages(
    start: usize,
    layout: Layout,
    permitted: Set<int>,
    terminators: Set<int>,
    i: int,
    byte: int,
)
    requires
        ScanModel::begin(start, layout).reads(permitted, terminators).contains(i),
        elem_addr(start as int, layout.size as int, i) <= byte < elem_addr(
            start as int,
            layout.size as int,
            i,
        ) + layout.size,
    ensures
        permitted.contains(page_index(byte)),
{
    lemma_reads_are_checked(start, layout, permitted, terminators, i);
    lemma_elem_addr_grows(start as int, layout.size as int, 0, i);
}

proof fn lemma_asks_in_order_from(
    m: ScanModel,
    permitted: Set<int>,
    terminators: Set<int>,
    page: int,
)
    requires
        m.wf(),
        forall|p: int| page_index(m.start) <= p < m.pages ==> permitted.contains(p),
        m.asks(permitted, terminators).contains(page),
    ensures
        m.pages <= page < page_index(usize::MAX as int),
        forall|p: int| page_index(m.start) <= p < page ==> permitted.contains(p),
    decreases m.fuel(),
{
    let answer = m.answer(permitted, terminators);
    let next = m.advance(answer);
    lemma_advance(m, answer);
    if m.at_page() && page == m.pages {
    } else {
        assert(next.asks(permitted, terminators).contains(page));
        assert(next.status is Running);
        lemma_asks_in_order_from(next, permitted, terminators, page);
    }
}

/// A scan asks for the pages in their order, from the one on which the
/// buffer starts: for none before every page before it has been permitted,
/// and never for the last page of the address space.
pub proof fn lemma_asks_are_in_order(
    start: usize,
    layout: Layout,
    permitted: Set<int>,
    terminators: Set<int>,
    page: int,
)
    requires
        ScanModel::begin(start, layout).asks(permitted, terminators).contains(page),
    ensures
        page_index(start as int) <= page < page_index(usize::MAX as int),
        forall|p: int| page_index(start as int) <= p < page ==> permitted.contains(p),
{
    lemma_asks_in_order_from(ScanModel::begin(start, layout), permitted, terminators, page);
}

proof fn lemma_run_finds(m: ScanModel, permitted: Set<int>, terminators: Set<int>, k: int)
    requires
        m.wf(),
        m.status is Running,
        m.len <= k,
        m.size > 0 || m.len == k,
        forall|j: int| m.len <= j < k ==> !terminators.contains(j),
        terminators.contains(k),
        last_byte(elem_addr(m.start, m.size, k), m.size) < addr_limit(),
        forall|p: int|
            m.pages <= p <= page_index(last_byte(elem_addr(m.start, m.size, k), m.size))
                ==> permitted.contains(p),
    ensures
        m.run(permitted, terminators).result() == Ok::<(usize, usize), Fault>(
            (m.start as usize, k as usize),
        ),
        m.reads(permitted, terminators).contains(k),
    decreases m.fuel(),
{
    let answer = m.answer(permitted, terminators);
    let next = m.advance(answer);
    lemma_advance(m, answer);
    lemma_elem_addr_grows(m.start, m.size, m.len, k);
    if m.at_page() {
        lemma_run_finds(next, permitted, terminators, k);
    } else if m.len < k {
        lemma_run_finds(next, permitted, terminators, k);
    } else {
        assert(next.run(permitted, terminators) == next);
    }
}

/// Where the first terminator of a buffer is its element `k`, and every
/// page from the one of the buffer's start up to the one of the last byte of
/// element `k` is permitted, the scan returns the start and the length `k`.
///
/// The terminator must lie below the last page of the address space, and a
/// buffer of elements without size must start with its terminator.
pub proof fn lemma_scan_finds_terminator(
    start: usize,
    layout: Layout,
    permitted: Set<int>,
    terminators: Set<int>,
    k: int,
)
    requires
        layout.admits(start),
        0 <= k,
        layout.size > 0 || k == 0,
        forall|j: int| 0 <= j < k ==> !terminators.contains(j),
        terminators.contains(k),
        last_byte(elem_addr(start as int, layout.size as int, k), layout.size as int)
            < addr_limit(),
        forall|p: int|
            page_index(start as int) <= p <= page_index(
                last_byte(elem_addr(start as int, layout.size as int, k), layout.size as int),
            ) ==> permitted.contains(p),
    ensures
        k <= usize::MAX,
        ScanModel::begin(start, layout).run(permitted, terminators).result() == Ok::<
            (usize, usize),
            Fault,
        >((start, k as usize)),
{
    let m = ScanModel::begin(start, layout);
    lemma_elem_addr_grows(start as int, layout.size as int, 0, k);
    if layout.size > 0 {
        assert(k <= k * layout.size) by (nonlinear_arith)
            requires
                layout.size >= 1,
                k >= 0,
        ;
    }
    lemma_run_finds(m, permitted, terminators, k);
}

/// Where the first page of a buffer is not permitted, the scan fails with
/// an access fault and reads nothing.
pub proof fn lemma_first_page_refused(
    start: usize,
    layout: Layout,
    permitted: Set<int>,
    terminators: Set<int>,
)
    requires
        layout.admits(start),
        !permitted.contains(page_index(start as int)),
    ensures
        ScanModel::begin(start, layout).run(permitted, terminators).result() == Err::<
            (usize, usize),
            Fault,
        >(Fault::Access),
        ScanModel::begin(start, layout).reads(permitted, terminators) == Set::<int>::empty(),
{
    let m = ScanModel::begin(start, layout);
    if m.status is Running {
        let next = m.advance(false);
        assert(m.at_page());
        assert(m.answer(permitted, terminators) == false);
        assert(next.run(permitted, terminators) == next);
        assert(next.reads(permitted, terminators) == Set::<int>::empty());
        assert(m.reads(permitted, terminators) == next.reads(permitted, terminators));
    }
}

proof fn lemma_run_refused(
    m: ScanModel,
    permitted: Set<int>,
    terminators: Set<int>,
    i: int,
    refused: int,
)
    requires
        m.wf(),
        m.status is Running,
        m.size > 0,
        m.len <= i + 1,
        m.pages <= refused <= page_index(usize::MAX as int),
        forall|j: int| m.len <= j <= i ==> !terminators.contains(j),
        page_index(last_byte(elem_addr(m.start, m.size, i), m.size)) < refused <= page_index(
            last_byte(elem_addr(m.start, m.size, i + 1), m.size),
        ),
        forall|p: int| m.pages <= p < refused ==> permitted.contains(p),
        !permitted.contains(refused),
    ensures
        m.run(permitted, terminators).result() == Err::<(usize, usize), Fault>(Fault::Access),
        m.len <= i ==> m.reads(permitted, terminators).contains(i),
    decreases m.fuel(),
{
    let answer = m.answer(permitted, terminators);
    let next = m.advance(answer);
    lemma_advance(m, answer);
    if m.len <= i {
        lemma_elem_addr_grows(m.start, m.size, m.len, i);
    }
    if m.at_page() {
        if m.pages == refused {
            assert(next.run(permitted, terminators) == next);
        } else {
            lemma_run_refused(next, permitted, terminators, i, refused);
        }
    } else {
        assert(m.len <= i);
        lemma_elem_addr_grows(m.start, m.size, m.len, m.len);
        if m.len < i {
            lemma_elem_addr_grows(m.start, m.size, m.len + 1, i);
        }
        if next.status is Running {
            lemma_run_refused(next, permitted, terminators, i, refused);
        } else {
            assert(m.len == i);
            assert(next.run(permitted, terminators) == next);
        }
    }
}

/// Where the pages of a buffer are permitted up to a page that is refused,
/// and that page is crossed into behind element `i`, which ends before it
/// while element `i + 1` does not, and no element up to `i` is the
/// terminator: the scan reads element `i`, fails with an access fault, and
/// does not read element `i + 1`.
pub proof fn lemma_scan_stops_at_refused_page(
    start: usize,
    layout: Layout,
    permitted: Set<int>,
    terminators: Set<int>,
    i: int,
    refused: int,
)
    requires
        layout.admits(start),
        0 <= i,
        forall|j: int| 0 <= j <= i ==> !terminators.contains(j),
        page_index(
            last_byte(elem_addr(start as int, layout.size as int, i), layout.size as int),
        ) < refused <= page_index(
            last_byte(elem_addr(start as int, layout.size as int, i + 1), layout.size as int),
        ),
        refused <= page_index(usize::MAX as int),
        forall|p: int| page_index(start as int) <= p < refused ==> permitted.contains(p),
        !permitted.contains(refused),
    ensures
        ScanModel::begin(start, layout).run(permitted, terminators).result() == Err::<
            (usize, usize),
            Fault,
        >(Fault::Access),
        ScanModel::begin(start, layout).reads(permitted, terminators).contains(i),
        !ScanModel::begin(start, layout).reads(permitted, terminators).contains(i + 1),
{
    let m = ScanModel::begin(start, layout);
    let size = layout.size as int;
    lemma_elem_addr_grows(start as int, size, 0, i);
    lemma_elem_addr_grows(start as int, size, i, i);
    assert(size > 0);
    assert(m.status is Running);
    lemma_run_refused(m, permitted, terminators, i, refused);
    if m.reads(permitted, terminators).contains(i + 1) {
        lemma_reads_are_checked(start, layout, permitted, terminators, i + 1);
        lemma_elem_addr_grows(start as int, size, 0, i + 1);
        assert(permitted.contains(refused));
    }
}

proof fn lemma_same_answers_from(
    m: ScanModel,
    permitted: Set<int>,
    terminators: Set<int>,
    other_permitted: Set<int>,
    other_terminators: Set<int>,
)
    requires
        forall|p: int| #[trigger]
            m.asks(permitted, terminators).contains(p) ==> (permitted.contains(p)
                <==> other_permitted.contains(p)),
        forall|i: int| #[trigger]
            m.reads(permitted, terminators).contains(i) ==> (terminators.contains(i)
                <==> other_terminators.contains(i)),
    ensures
        m.run(other_permitted, other_terminators) == m.run(permitted, terminators),
        m.asks(other_permitted, other_terminators) == m.asks(permitted, terminators),
        m.reads(other_permitted, other_terminators) == m.reads(permitted, terminators),
    decreases m.fuel(),
{
    if m.wf() && m.status is Running {
        let answer = m.answer(permitted, terminators);
        let next = m.advance(answer);
        lemma_advance(m, answer);
        if m.at_page() {
            assert(m.asks(permitted, terminators).contains(m.pages));
        } else {
            assert(m.reads(permitted, terminators).contains(m.len));
        }
        assert(m.answer(other_permitted, other_terminators) == answer);
        assert forall|p: int| #[trigger]
            next.asks(permitted, terminators).contains(p) implies (permitted.contains(p)
            <==> other_permitted.contains(p)) by {
            assert(m.asks(permitted, terminators).contains(p));
        }
        assert forall|i: int| #[trigger]
            next.reads(permitted, terminators).contains(i) implies (terminators.contains(i)
            <==> other_terminators.contains(i)) by {
            assert(m.reads(permitted, terminators).contains(i));
        }
        lemma_same_answers_from(next, permitted, terminators, other_permitted, other_terminators);
    }
}

/// A scan depends on the world through the answers to its own questions
/// alone: in two worlds that agree on the pages for which it asks and on
/// the elements that it reads, it takes the same steps to the same end.
pub proof fn lemma_same_answers_same_scan(
    start: usize,
    layout: Layout,
    permitted: Set<int>,
    terminators: Set<int>,
    other_permitted: Set<int>,
    other_terminators: Set<int>,
)
    requires
        forall|p: int| #[trigger]
            ScanModel::begin(start, layout).asks(permitted, terminators).contains(p) ==> (
            permitted.contains(p) <==> other_permitted.contains(p)),
        forall|i: int| #[trigger]
            ScanModel::begin(start, layout).reads(permitted, terminators).contains(i) ==> (
            terminators.contains(i) <==> other_terminators.contains(i)),
    ensures
        ScanModel::begin(start, layout).run(other_permitted, other_terminators)
            == ScanModel::begin(start, layout).run(permitted, terminators),
        ScanModel::begin(start, layout).asks(other_permitted, other_terminators)
            == ScanModel::begin(start, layout).asks(permitted, terminators),
        ScanModel::begin(start, layout).reads(other_permitted, other_terminators)
            == ScanModel::begin(start, layout).reads(permitted, terminators),
{
    lemma_same_answers_from(
        ScanModel::begin(start, layout),
        permitted,
        terminators,
        other_permitted,
        other_terminators,
    );
}

proof fn lemma_replay(m: ScanModel, end: ScanModel)
    requires
        m.wf(),
        end.wf(),
        m.status is Running,
        end.status is Found || end.status == Status::Failed(Fault::Access),
        m.start == end.start,
        m.size == end.size,
        m.len <= end.len,
        m.pages <= end.pages,
    ensures
        m.run(end.permitted_pages(), end.met_terminators()) == end,
        m.asks(end.permitted_pages(), end.met_terminators()) == Set::new(
            |p: int| m.pages <= p < end.pages || (p == end.pages && end.refused()),
        ),
        m.reads(end.permitted_pages(), end.met_terminators()) == Set::new(
            |i: int| m.len <= i < end.len || (i == end.len && !end.refused()),
        ),
    decreases m.fuel(),
{
    let permitted = end.permitted_pages();
    let terminators = end.met_terminators();
    let answer = m.answer(permitted, terminators);
    let next = m.advance(answer);
    lemma_advance(m, answer);
    lemma_elem_addr_grows(m.start, m.size, m.len, end.len);
    lemma_elem_addr_grows(m.start, m.size, m.len, m.len);
    if m.len < end.len {
        lemma_elem_addr_grows(m.start, m.size, m.len, end.len - 1);
        lemma_elem_addr_grows(m.start, m.size, end.len - 1, end.len - 1);
        lemma_elem_addr_grows(m.start, m.size, m.len + 1, end.len);
    }
    if next.status is Running {
        lemma_replay(next, end);
    } else {
        assert(next == end);
        assert(next.run(permitted, terminators) == next);
        assert(next.asks(permitted, terminators) == Set::<int>::empty());
        assert(next.reads(permitted, terminators) == Set::<int>::empty());
    }
}

/// A scan that has ended after it had begun has gone the way that a scan
/// goes in the world of the answers that it has met: that world's pages are
/// the ones that were permitted, and its terminator, where the scan has
/// found one, is the element last read.
///
/// The scan has asked for each of those pages, and for the next one where
/// that was refused. It has read each element before the one at which it
/// has ended, and that one too unless it has ended at a refused page.
pub proof fn lemma_end_replays(start: usize, layout: Layout, end: ScanModel)
    requires
        ScanModel::begin(start, layout).status is Running,
        end.wf(),
        end.start == start,
        end.size == layout.size,
        end.status is Found || end.status == Status::Failed(Fault::Access),
    ensures
        ScanModel::begin(start, layout).run(end.permitted_pages(), end.met_terminators()) == end,
        ScanModel::begin(start, layout).asks(end.permitted_pages(), end.met_terminators())
            == Set::new(
            |p: int| page_index(start as int) <= p < end.pages || (p == end.pages && end.refused()),
        ),
        ScanModel::begin(start, layout).reads(end.permitted_pages(), end.met_terminators())
            == Set::new(|i: int| 0 <= i < end.len || (i == end.len && !end.refused())),
{
    lemma_replay(ScanModel::begin(start, layout), end);
}

} // verus!
