use user_ptr::addr::Region;
use user_ptr::{
    access_user_memory, is_accessing_user_memory, AccessFlags, AddrSpaceProvider, ContextFlag,
    Fault, UserPtr,
};

/// Must not be asked.
struct Untouched;

impl AddrSpaceProvider for Untouched {
    fn check_region_access(_range: Region, _access_flags: AccessFlags) -> bool {
        panic!("the provider is not to be asked")
    }

    fn populate_area(_start: usize, _size: usize) -> Result<(), Fault> {
        panic!("the provider is not to be asked")
    }
}

#[test]
fn new_flag_is_lowered() {
    let flag = ContextFlag::new();
    assert!(!is_accessing_user_memory(&flag));
}

#[test]
fn flag_is_raised_inside_the_scope_only() {
    let mut flag = ContextFlag::new();
    let seen = access_user_memory(&mut flag, |raised| is_accessing_user_memory(raised));
    assert!(seen);
    assert!(!is_accessing_user_memory(&flag));
}

#[test]
fn scope_returns_what_its_body_returns() {
    let mut flag = ContextFlag::new();
    let ok: Result<u32, Fault> = access_user_memory(&mut flag, |_| Ok(7));
    assert_eq!(ok, Ok(7));
    assert!(!is_accessing_user_memory(&flag));
    let failed: Result<u32, Fault> = access_user_memory(&mut flag, |_| Err(Fault::Access));
    assert_eq!(failed, Err(Fault::Access));
    assert!(!is_accessing_user_memory(&flag));
}

#[test]
fn pointer_holds_its_address() {
    let ptr = UserPtr::<Untouched, u32>::new(0x1234);
    assert_eq!(ptr.address(), 0x1234);
    let ptr: UserPtr<Untouched, u32> = UserPtr::from(0xdead_beef);
    assert_eq!(ptr.address(), 0xdead_beef);
    let ptr: UserPtr<Untouched, u8> = 0x42usize.into();
    assert_eq!(ptr.address(), 0x42);
}

#[test]
fn any_address_can_be_held() {
    assert_eq!(UserPtr::<Untouched, u64>::new(0).address(), 0);
    assert_eq!(UserPtr::<Untouched, u64>::new(usize::MAX).address(), usize::MAX);
    assert_eq!(UserPtr::<Untouched, u64>::new(3).address(), 3);
}

#[test]
fn null_is_the_address_zero() {
    assert!(UserPtr::<Untouched, u8>::new(0).is_null());
    assert!(!UserPtr::<Untouched, u8>::new(1).is_null());
    assert!(!UserPtr::<Untouched, u8>::new(usize::MAX).is_null());
}

#[test]
fn nullable_is_none_for_null_only() {
    assert!(UserPtr::<Untouched, u8>::new(0).nullable().is_none());
    let kept = UserPtr::<Untouched, u8>::new(0x8000).nullable();
    assert_eq!(kept.map(|ptr| ptr.address()), Some(0x8000));
}

#[test]
fn cast_keeps_the_address_and_asks_nothing() {
    let ptr = UserPtr::<Untouched, u8>::new(0x1003);
    let cast: UserPtr<Untouched, u64> = ptr.cast();
    assert_eq!(cast.address(), 0x1003);
    let null: UserPtr<Untouched, u16> = UserPtr::<Untouched, u8>::new(0).cast();
    assert!(null.is_null());
}

#[test]
fn default_access_flags_are_read_and_write() {
    assert_eq!(UserPtr::<Untouched, u8>::access_flags(), AccessFlags { bits: 3 });
}
