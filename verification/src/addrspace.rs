//! What the checks need from the address space that they speak for.
use crate::addr::Region;
use axerrno::LinuxError;
use page_table_multiarch::MappingFlags;
use vstd::prelude::*;

verus! {

/// Why a check of a user address failed.
///
/// The three kinds are kept apart for the kernel's own use. Towards a user
/// program they are one and the same "bad address" error: see
/// [`Fault::code`].
#[derive(Clone, Copy, Debug, PartialEq, Eq, Structural)]
pub enum Fault {
    /// The address does not have the alignment that the access requires.
    Alignment,
    /// A page of the area is not permitted, or the area does not lie in
    /// the part of the address space that can be checked at all.
    Access,
    /// The area could not be backed with memory. The number is the
    /// provider's own error code, kept for diagnosis.
    Population(i32),
}

/// The platform's error code for a bad address.
pub open spec fn bad_address() -> i32 {
    14
}

impl Fault {
    /// The error code of the fault: that of a bad address, whatever the
    /// kind.
    pub open spec fn errno(self) -> i32 {
        bad_address()
    }

    /// The platform error code under which the fault is reported. A
    /// misaligned address, a forbidden one and a failed backing are all
    /// reported as a bad address.
    pub fn code(&self) -> (r: i32)
        ensures
            r == self.errno(),
            r == bad_address(),
    {
        bad_address_code()
    }
}

/// A set of access rights, one bit for each right.
#[derive(Clone, Copy, Debug, PartialEq, Eq, Structural)]
pub struct AccessFlags {
    /// The rights as a bit set.
    pub bits: usize,
}

/// The bit of the right to read.
pub const READ: usize = 1;

/// The bit of the right to write.
pub const WRITE: usize = 2;

/// The bit of the right to execute.
pub const EXECUTE: usize = 4;

impl AccessFlags {
    /// The rights that a check asks for by default: to read and to write.
    pub fn read_write() -> (r: AccessFlags)
        ensures
            r.bits == 3,
    {
        AccessFlags { bits: read_write_bits() }
    }
}

/// The size and the alignment of an area of memory.
#[derive(Clone, Copy, Debug, PartialEq, Eq, Structural)]
pub struct Layout {
    /// The number of bytes of the area.
    pub size: usize,
    /// The number that the area's first address must be a multiple of.
    pub align: usize,
}

impl Layout {
    /// An address suits the layout when the alignment divides it. No address
    /// suits an alignment of zero.
    pub open spec fn admits(self, addr: usize) -> bool {
        self.align > 0 && addr % self.align == 0
    }

    /// The layout of one value of type `T`.
    pub fn new<T>() -> (r: Layout)
        ensures
            r.size == vstd::layout::size_of::<T>(),
            r.align == vstd::layout::align_of::<T>(),
            r.align > 0,
    {
        broadcast use vstd::layout::align_nonzero;

        Layout { size: core::mem::size_of::<T>(), align: core::mem::align_of::<T>() }
    }

    /// Whether `addr` suits the layout.
    pub fn is_aligned(&self, addr: usize) -> (r: bool)
        ensures
            r == self.admits(addr),
    {
        self.align != 0 && addr % self.align == 0
    }
}

/// The address space on whose behalf user addresses are checked.
///
/// Nothing is assumed of the answers: they may change from one call to the
/// next. What the callers in this crate hand over is stated as the methods'
/// preconditions.
pub trait AddrSpaceProvider {
    /// Whether every page of `range` permits `access_flags`.
    fn check_region_access(range: Region, access_flags: AccessFlags) -> bool
        requires
            range.wf(),
    ;

    /// Backs every page of the `size` bytes from `start` with memory.
    fn populate_area(start: usize, size: usize) -> Result<(), Fault>
        requires
            start % 0x1000 == 0,
            size % 0x1000 == 0,
            start + size <= usize::MAX,
    ;
}

/// Calls `LinuxError::code` on `LinuxError::EFAULT`, whose number is 14.
#[verifier::external_body]
fn bad_address_code() -> (r: i32)
    ensures
        r == bad_address(),
{
    LinuxError::EFAULT.code()
}

/// Calls `MappingFlags::union` on `MappingFlags::READ` and
/// `MappingFlags::WRITE`, the two lowest bits, and `MappingFlags::bits` on
/// the outcome.
#[verifier::external_body]
fn read_write_bits() -> (r: usize)
    ensures
        r == 3,
{
    MappingFlags::READ.union(MappingFlags::WRITE).bits()
}

} // verus!
