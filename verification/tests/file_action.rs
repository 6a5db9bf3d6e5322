use shotlite::file_action::{
    open_command, post_capture_actions, post_capture_step, reveal_command, FileActionError, Platform,
    PostCaptureAction, PostCaptureStep,
};

#[test]
fn no_flags_have_no_post_capture_actions() {
    assert_eq!(post_capture_actions(false, false), []);
}

#[test]
fn open_flag_maps_to_open_action() {
    assert_eq!(post_capture_actions(true, false), [PostCaptureAction::Open]);
}

#[test]
fn reveal_flag_maps_to_reveal_action() {
    assert_eq!(post_capture_actions(false, true), [PostCaptureAction::Reveal]);
}

#[test]
fn open_and_reveal_keep_existing_order() {
    assert_eq!(post_capture_actions(true, true), [PostCaptureAction::Reveal, PostCaptureAction::Open]);
}

#[test]
fn open_commands_per_platform() {
    let windows = open_command(Platform::Windows, "shots\\a.png").unwrap();
    assert_eq!(windows.program, "cmd");
    assert_eq!(windows.args, ["/C", "start", "", "shots\\a.png"]);

    let mac = open_command(Platform::MacOs, "shots/a.png").unwrap();
    assert_eq!(mac.program, "open");
    assert_eq!(mac.args, ["shots/a.png"]);

    let unix = open_command(Platform::Unix, "shots/a.png").unwrap();
    assert_eq!(unix.program, "xdg-open");
    assert_eq!(unix.args, ["shots/a.png"]);

    let other = open_command(Platform::Other, "a.png").unwrap_err();
    assert_eq!(other.message(), "open is not supported on this platform");
}

#[test]
fn reveal_commands_per_platform() {
    let windows = reveal_command(Platform::Windows, "C:\\shots\\a.png").unwrap();
    assert_eq!(windows.program, "explorer");
    assert_eq!(windows.args, ["/select,C:\\shots\\a.png"]);

    let mac = reveal_command(Platform::MacOs, "shots/a.png").unwrap();
    assert_eq!(mac.program, "open");
    assert_eq!(mac.args, ["-R", "shots/a.png"]);

    let other = reveal_command(Platform::Other, "a.png").unwrap_err();
    assert_eq!(other.message(), "reveal is not supported on this platform");
}

#[test]
fn unix_reveal_opens_the_parent_folder() {
    let nested = reveal_command(Platform::Unix, "/home/me/shots/a.png").unwrap();
    assert_eq!(nested.program, "xdg-open");
    assert_eq!(nested.args, ["/home/me/shots"]);

    let bare = reveal_command(Platform::Unix, "a.png").unwrap();
    assert_eq!(bare.args, [""]);

    let top = reveal_command(Platform::Unix, "/a.png").unwrap();
    assert_eq!(top.args, ["/"]);

    let root = reveal_command(Platform::Unix, "/").unwrap();
    assert_eq!(root.args, ["."]);
}

#[test]
fn post_capture_steps_run_in_order() {
    let actions = post_capture_actions(true, true);

    match post_capture_step(Platform::MacOs, "a.png", &actions, 0, None) {
        PostCaptureStep::Launch(command) => assert_eq!(command.args, ["-R", "a.png"]),
        other => panic!("unexpected step {other:?}"),
    }
    match post_capture_step(Platform::MacOs, "a.png", &actions, 1, None) {
        PostCaptureStep::Launch(command) => assert_eq!(command.args, ["a.png"]),
        other => panic!("unexpected step {other:?}"),
    }
    assert!(matches!(
        post_capture_step(Platform::MacOs, "a.png", &actions, 2, None),
        PostCaptureStep::Done(Ok(()))
    ));
}

#[test]
fn post_capture_steps_stop_at_a_failed_launch() {
    let actions = post_capture_actions(true, true);

    match post_capture_step(Platform::Unix, "a.png", &actions, 1, Some("not found".to_string())) {
        PostCaptureStep::Done(Err(error)) => {
            assert!(matches!(error, FileActionError::Reveal { .. }));
            assert_eq!(error.message(), "failed to reveal a.png: not found");
        }
        other => panic!("unexpected step {other:?}"),
    }
    match post_capture_step(Platform::Unix, "a.png", &actions, 2, Some("denied".to_string())) {
        PostCaptureStep::Done(Err(error)) => assert_eq!(error.message(), "failed to open a.png: denied"),
        other => panic!("unexpected step {other:?}"),
    }
}

#[test]
fn post_capture_steps_report_unsupported_platforms() {
    let actions = post_capture_actions(true, false);

    match post_capture_step(Platform::Other, "a.png", &actions, 0, None) {
        PostCaptureStep::Done(Err(error)) => assert!(matches!(error, FileActionError::OpenUnsupported)),
        other => panic!("unexpected step {other:?}"),
    }
}
