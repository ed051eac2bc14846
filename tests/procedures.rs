use io_redirect::{
    check_descriptor, check_flag, check_handle, Action, BridgeAction, Descriptable, Disposal, HandleBridge,
    OsError, PathRedirect, STDERR_DESCRIPTOR, STDOUT_DESCRIPTOR,
};

const EBADF: i32 = 9;
const ENOENT: i32 = 2;
const EISDIR: i32 = 21;

#[test]
fn negative_status_is_the_reported_error() {
    assert_eq!(check_descriptor(-1, EBADF), Err(OsError { code: EBADF }));
    assert_eq!(check_descriptor(-1, EBADF).unwrap_err().raw_os_error(), Some(EBADF));
}

#[test]
fn non_negative_status_is_the_descriptor() {
    assert_eq!(check_descriptor(0, EBADF), Ok(0));
    assert_eq!(check_descriptor(5, EBADF), Ok(5));
}

#[test]
fn handle_status() {
    assert_eq!(check_handle(-1, 6), Err(OsError { code: 6 }));
    assert_eq!(check_handle(0x1f4, 6), Ok(0x1f4));
}

#[test]
fn flag_status() {
    assert_eq!(check_flag(0, 6), Err(OsError { code: 6 }));
    assert_eq!(check_flag(1, 6), Ok(()));
}

#[test]
fn error_code_round_trip() {
    let e = OsError::from_raw_os_error(EISDIR);
    assert_eq!(e.code, EISDIR);
    assert_eq!(e.raw_os_error(), Some(EISDIR));
}

#[test]
fn descriptor_is_descriptable() {
    let fd: i32 = 7;
    assert_eq!(fd.raw_descriptor(), 7);
}

#[test]
fn open_action_carries_append_flag() {
    let p = PathRedirect::for_standard_streams(true);
    assert!(matches!(p.first_action(), Action::Open { append: true }));
    let fd: i32 = 4;
    let q = PathRedirect::for_source(&fd, false);
    assert!(matches!(q.first_action(), Action::Open { append: false }));
    assert!(!q.is_finished());
}

#[test]
fn standard_streams_share_one_opened_descriptor() {
    let mut p = PathRedirect::for_standard_streams(true);
    let a = p.step(Ok(7));
    assert!(matches!(a, Action::Duplicate { from: 7, onto: STDOUT_DESCRIPTOR }));
    let a = p.step(Ok(STDOUT_DESCRIPTOR));
    assert!(matches!(a, Action::Duplicate { from: 7, onto: STDERR_DESCRIPTOR }));
    let a = p.step(Ok(STDERR_DESCRIPTOR));
    assert!(matches!(a, Action::Finish { disposal: Disposal::Release(7), result: Ok(()) }));
    assert!(p.is_finished());
}

#[test]
fn single_source_released_after_success() {
    let fd: i32 = 3;
    let mut p = PathRedirect::for_source(&fd, false);
    assert!(matches!(p.step(Ok(5)), Action::Duplicate { from: 5, onto: 3 }));
    assert!(matches!(p.step(Ok(3)), Action::Finish { disposal: Disposal::Release(5), result: Ok(()) }));
}

#[test]
fn directory_destination_fails_untouched() {
    let fd: i32 = 3;
    let mut p = PathRedirect::for_source(&fd, true);
    let a = p.step(Err(OsError { code: EISDIR }));
    match a {
        Action::Finish { disposal, result } => {
            assert_eq!(disposal, Disposal::Untouched);
            assert_eq!(result.unwrap_err().raw_os_error(), Some(EISDIR));
        }
        _ => panic!("expected the procedure to end"),
    }
    assert!(p.is_finished());
}

#[test]
fn missing_parent_directory_fails_untouched() {
    let mut p = PathRedirect::new(vec![3, 4], false);
    let a = p.step(Err(OsError { code: ENOENT }));
    assert!(matches!(
        a,
        Action::Finish { disposal: Disposal::Untouched, result: Err(OsError { code: ENOENT }) }
    ));
}

#[test]
fn failed_duplication_closes_opened_descriptor() {
    let fd: i32 = 3;
    let mut p = PathRedirect::for_source(&fd, true);
    p.step(Ok(8));
    let a = p.step(Err(OsError { code: EBADF }));
    assert!(matches!(
        a,
        Action::Finish { disposal: Disposal::Close(8), result: Err(OsError { code: EBADF }) }
    ));
}

#[test]
fn standard_error_failure_keeps_standard_output_redirected() {
    let mut p = PathRedirect::for_standard_streams(false);
    assert!(matches!(p.step(Ok(6)), Action::Duplicate { from: 6, onto: 1 }));
    assert!(matches!(p.step(Ok(1)), Action::Duplicate { from: 6, onto: 2 }));
    let a = p.step(Err(OsError { code: EBADF }));
    assert!(matches!(
        a,
        Action::Finish { disposal: Disposal::Close(6), result: Err(OsError { code: EBADF }) }
    ));
    assert!(p.is_finished());
}

#[test]
fn bridge_patches_fetched_handle() {
    let mut b = HandleBridge::new(100, 200);
    assert!(matches!(b.first_action(), BridgeAction::Bridge { handle: 100 }));
    assert!(matches!(b.on_descriptor(Ok(3)), BridgeAction::Bridge { handle: 200 }));
    assert!(matches!(b.on_descriptor(Ok(4)), BridgeAction::Duplicate { from: 4, onto: 3 }));
    assert!(matches!(b.on_descriptor(Ok(3)), BridgeAction::Fetch { descriptor: 3 }));
    assert!(b.awaits_handle());
    assert!(matches!(b.on_handle(Ok(300)), BridgeAction::Finish { patch: Some(300), result: Ok(()) }));
    assert!(b.is_finished());
}

#[test]
fn bridge_failure_leaves_file_object_unpatched() {
    let mut b = HandleBridge::new(100, 200);
    assert!(matches!(
        b.on_descriptor(Err(OsError { code: EBADF })),
        BridgeAction::Finish { patch: None, result: Err(OsError { code: EBADF }) }
    ));
    assert!(b.is_finished());

    let mut c = HandleBridge::new(100, 200);
    c.on_descriptor(Ok(3));
    c.on_descriptor(Ok(4));
    assert!(matches!(
        c.on_descriptor(Err(OsError { code: EBADF })),
        BridgeAction::Finish { patch: None, result: Err(OsError { code: EBADF }) }
    ));

    let mut d = HandleBridge::new(100, 200);
    d.on_descriptor(Ok(3));
    d.on_descriptor(Ok(4));
    d.on_descriptor(Ok(3));
    assert!(matches!(
        d.on_handle(Err(OsError { code: 6 })),
        BridgeAction::Finish { patch: None, result: Err(OsError { code: 6 }) }
    ));
}
