//! Checks of addresses that user programs hand to a kernel.
//!
//! A [`UserPtr`] holds an address that a user program has passed in, for
//! instance as the argument of a system call. Nothing is known of such an
//! address. Before the kernel reads or writes behind it, one of two checks is
//! made against an [`AddrSpaceProvider`], which knows what the program may
//! access and can back its pages with memory:
//!
//! - [`UserPtr::check_region`] checks an area whose size is known.
//! - [`UserPtr::check_null_terminated`] finds the end of a buffer that is
//!   terminated by a sentinel, and checks its pages one by one on the way.
//!
//! What the checks decide is defined on plain values, in [`region`] and
//! [`scan`], and what holds of every scan is proved in [`scan_laws`]. The two
//! functions ask the provider and read the memory; their contracts say that
//! they return what is defined there for the answers that they got.
pub mod addr;
pub mod addrspace;
pub mod ptr;
pub mod region;
pub mod scan;
pub mod scan_laws;

pub use addrspace::{AccessFlags, AddrSpaceProvider, Fault, Layout};
pub use ptr::{access_user_memory, is_accessing_user_memory, ContextFlag, UserPtr};
