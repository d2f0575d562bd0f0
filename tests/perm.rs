use memory_pages::perm::{
    perm_of, posix_mask_of, AllowExec, AllowRead, AllowWrite, DenyExec, DenyRead, DenyWrite,
    ExecPremisionMarker, Perm, ReadPremisionMarker, Transition, WinProtect, WritePremisionMarker,
};

fn p(read: bool, write: bool, execute: bool) -> Perm {
    Perm { read, write, execute }
}

#[test]
fn posix_masks_are_bit_unions() {
    assert_eq!(p(false, false, false).posix_mask(), 0);
    assert_eq!(p(true, false, false).posix_mask(), 1);
    assert_eq!(p(false, true, false).posix_mask(), 2);
    assert_eq!(p(true, true, false).posix_mask(), 3);
    assert_eq!(p(false, false, true).posix_mask(), 4);
    assert_eq!(p(true, false, true).posix_mask(), 5);
    assert_eq!(p(true, true, true).posix_mask(), 7);
}

#[test]
fn windows_classes_promote_write_without_read() {
    assert_eq!(p(false, false, false).windows_protect(), WinProtect::NoAccess);
    assert_eq!(p(true, false, false).windows_protect(), WinProtect::ReadOnly);
    assert_eq!(p(false, true, false).windows_protect(), WinProtect::ReadWrite);
    assert_eq!(p(true, true, false).windows_protect(), WinProtect::ReadWrite);
    assert_eq!(p(false, false, true).windows_protect(), WinProtect::Execute);
    assert_eq!(p(true, false, true).windows_protect(), WinProtect::ExecuteRead);
    assert_eq!(p(false, true, true).windows_protect(), WinProtect::ExecuteReadWrite);
    assert_eq!(p(true, true, true).windows_protect(), WinProtect::ExecuteReadWrite);
}

#[test]
fn markers_give_their_triple() {
    assert_eq!(perm_of::<AllowRead, AllowWrite, DenyExec>(), p(true, true, false));
    assert_eq!(perm_of::<DenyRead, DenyWrite, AllowExec>(), p(false, false, true));
    assert_eq!(posix_mask_of::<AllowRead, AllowWrite, DenyExec>(), 3);
    assert_eq!(posix_mask_of::<AllowRead, DenyWrite, AllowExec>(), 5);
    assert_eq!(posix_mask_of::<DenyRead, DenyWrite, DenyExec>(), 0);
    assert!(AllowRead::allow_read());
    assert!(!DenyRead::allow_read());
    assert!(AllowWrite::allow_write());
    assert!(!DenyWrite::allow_write());
    assert!(AllowExec::allow_exec());
    assert!(!DenyExec::allow_exec());
    assert_eq!(<AllowWrite as WritePremisionMarker>::bitmask(), 2);
    assert_eq!(<AllowExec as ExecPremisionMarker>::bitmask(), 4);
    assert_eq!(<AllowRead as ReadPremisionMarker>::bitmask(), 1);
}

#[test]
fn transitions_set_their_axes() {
    let rw = p(true, true, false);
    assert_eq!(Transition::SetProtectedExec.target(rw), p(true, false, true));
    assert_eq!(Transition::DenyRead.target(rw), p(false, true, false));
    assert_eq!(Transition::AllowWriteNoExec.target(p(true, false, true)), rw);
    assert_eq!(Transition::AllowExec.target(p(false, false, false)), p(false, false, true));
    assert_eq!(Transition::DenyWrite.target(rw), p(true, false, false));
}

#[test]
fn write_and_exec_are_kept_apart() {
    assert!(!Transition::AllowExec.is_offered(p(true, true, false)));
    assert!(Transition::AllowExec.is_offered(p(true, false, false)));
    assert!(!Transition::AllowWrite.is_offered(p(true, false, true)));
    assert!(Transition::AllowWriteNoExec.is_offered(p(true, false, true)));
    assert!(p(true, true, true).is_write_exec());
    assert!(!p(true, false, true).is_write_exec());
}
