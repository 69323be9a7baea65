use nvptx::driver::llvm_command;
use nvptx::error::{check_status, err_msg, CompileError, Logging, Step};

#[test]
fn resolution_prefers_six_zero() {
    // Present only as `foo-6.0` and `foo`: the 6.0 variant wins.
    let r = llvm_command("foo", true, false, true).unwrap();
    assert_eq!(r, "foo-6.0");
}

#[test]
fn resolution_falls_back_to_seven_zero() {
    // Present only as `foo-7.0` and `foo`: the 7.0 variant wins.
    let r = llvm_command("foo", false, true, true).unwrap();
    assert_eq!(r, "foo-7.0");
}

#[test]
fn resolution_takes_bare_name_last() {
    let r = llvm_command("llvm-link", false, false, true).unwrap();
    assert_eq!(r, "llvm-link");
}

#[test]
fn resolution_fails_when_absent() {
    let err = llvm_command("foo", false, false, false).unwrap_err();
    match err {
        CompileError::LLVMCommandNotFound { command } => assert_eq!(command, "foo"),
        other => panic!("unexpected error: {:?}", other),
    }
}

#[test]
fn exit_status_zero_is_success() {
    assert!(check_status(Step::Build, "cargo", Some(0)).is_ok());
}

#[test]
fn exit_status_nonzero_is_command_failure() {
    let err = check_status(Step::Link, "llvm-link", Some(2)).unwrap_err();
    match err {
        CompileError::CommandFailure {
            step,
            command,
            error_code,
        } => {
            assert_eq!(step, Step::Link);
            assert_eq!(command, "llvm-link");
            assert_eq!(error_code, 2);
        }
        other => panic!("unexpected error: {:?}", other),
    }
}

#[test]
fn exit_by_signal_is_not_a_command_failure() {
    assert!(check_status(Step::Build, "cargo", None).is_ok());
}

#[test]
fn err_msg_carries_stage_and_comment() {
    let e = err_msg(Step::Load, "kernel.ptx cannot open");
    match e {
        CompileError::OtherError { step, comment } => {
            assert_eq!(step, Step::Load);
            assert_eq!(comment, "kernel.ptx cannot open");
        }
        other => panic!("unexpected error: {:?}", other),
    }
}

#[test]
fn logging_tags_errors_and_keeps_values() {
    let ok: Result<u32, String> = Ok(7);
    assert_eq!(ok.log(Step::Ready, "boom").unwrap(), 7);
    let bad: Result<u32, String> = Err("disk gone".to_string());
    let e = bad.log(Step::Ready, "cannot create build directory").unwrap_err();
    match e {
        CompileError::OtherError { step, comment } => {
            assert_eq!(step, Step::Ready);
            assert_eq!(comment, "cannot create build directory");
        }
        other => panic!("unexpected error: {:?}", other),
    }
    let bad2: Result<u32, String> = Err("io".to_string());
    assert!(matches!(
        bad2.log_unwrap(Step::Link),
        Err(CompileError::OtherError { step: Step::Link, .. })
    ));
}
