use axerrno::LinuxError;
use page_table_multiarch::MappingFlags;
use user_ptr::addrspace::{EXECUTE, READ, WRITE};
use user_ptr::{AccessFlags, Fault, Layout};

#[test]
fn alignment_and_access_faults_are_bad_addresses() {
    assert_eq!(Fault::Alignment.code(), 14);
    assert_eq!(Fault::Access.code(), 14);
    assert_eq!(Fault::Alignment.code(), LinuxError::EFAULT.code());
}

#[test]
fn population_fault_is_a_bad_address_too() {
    assert_eq!(Fault::Population(12).code(), 14);
    assert_eq!(Fault::Population(LinuxError::ENOMEM.code()).code(), LinuxError::EFAULT.code());
    assert_eq!(Fault::Population(-3).code(), 14);
}

#[test]
fn population_fault_keeps_the_code_of_the_provider() {
    assert_eq!(Fault::Population(12), Fault::Population(LinuxError::ENOMEM.code()));
    assert_ne!(Fault::Population(12), Fault::Population(14));
    assert!(matches!(Fault::Population(12), Fault::Population(12)));
}

#[test]
fn default_rights_are_read_and_write() {
    assert_eq!(AccessFlags::read_write(), AccessFlags { bits: 3 });
    assert_eq!(AccessFlags::read_write().bits, READ | WRITE);
    assert_eq!(
        AccessFlags::read_write().bits,
        MappingFlags::READ.union(MappingFlags::WRITE).bits()
    );
}

#[test]
fn right_bits_are_those_of_the_page_table() {
    assert_eq!(READ, MappingFlags::READ.bits());
    assert_eq!(WRITE, MappingFlags::WRITE.bits());
    assert_eq!(EXECUTE, MappingFlags::EXECUTE.bits());
}

#[test]
fn layout_of_a_type() {
    assert_eq!(Layout::new::<u8>(), Layout { size: 1, align: 1 });
    assert_eq!(Layout::new::<u32>(), Layout { size: 4, align: 4 });
    assert_eq!(Layout::new::<[u16; 3]>(), Layout { size: 6, align: 2 });
    assert_eq!(Layout::new::<()>(), Layout { size: 0, align: 1 });
    let std_layout = core::alloc::Layout::new::<u64>();
    assert_eq!(
        Layout::new::<u64>(),
        Layout { size: std_layout.size(), align: std_layout.align() }
    );
}

#[test]
fn is_aligned_is_divisibility() {
    let layout = Layout { size: 16, align: 8 };
    assert!(layout.is_aligned(0));
    assert!(layout.is_aligned(0x1008));
    assert!(!layout.is_aligned(0x1004));
    assert!(!layout.is_aligned(0x1001));
    assert!(Layout { size: 3, align: 1 }.is_aligned(0x1001));
}

#[test]
fn nothing_suits_an_alignment_of_zero() {
    let layout = Layout { size: 4, align: 0 };
    assert!(!layout.is_aligned(0));
    assert!(!layout.is_aligned(0x1000));
}
