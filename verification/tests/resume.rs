use ccpast::resume::{spawn_plan, spawn_result, ResumeError, SpawnOutcome};

#[test]
fn plan_needs_the_working_directory() {
    assert!(matches!(spawn_plan(false, "abc", false), Err(ResumeError::CwdMissing)));
    assert_eq!(spawn_plan(true, "abc", false).unwrap(), vec!["--resume", "abc"]);
    assert_eq!(
        spawn_plan(true, "abc", true).unwrap(),
        vec!["--resume", "abc", "--fork-session"]
    );
}

#[test]
fn outcomes_map_to_errors() {
    assert!(spawn_result(SpawnOutcome::Exited { success: true, code: Some(0) }).is_ok());
    assert!(matches!(
        spawn_result(SpawnOutcome::Exited { success: false, code: Some(3) }),
        Err(ResumeError::NonZeroExit(3))
    ));
    assert!(matches!(
        spawn_result(SpawnOutcome::Exited { success: false, code: None }),
        Err(ResumeError::NonZeroExit(-1))
    ));
    assert!(matches!(spawn_result(SpawnOutcome::NotFound), Err(ResumeError::ProgramNotFound)));
    match spawn_result(SpawnOutcome::Failed("denied".into())) {
        Err(ResumeError::SpawnFailed(s)) => assert_eq!(s, "denied"),
        _ => panic!("wrong error"),
    }
}

#[test]
fn messages_describe_each_error() {
    assert_eq!(
        ResumeError::CwdMissing.message("agent"),
        "the original working directory no longer exists"
    );
    assert_eq!(ResumeError::ProgramNotFound.message("agent"), "`agent` not found on PATH");
    assert_eq!(
        ResumeError::SpawnFailed("boom".into()).message("agent"),
        "failed to spawn `agent`: boom"
    );
    assert_eq!(ResumeError::NonZeroExit(-2).message("agent"), "`agent` exited with status -2");
    assert_eq!(ResumeError::NonZeroExit(130).message("agent"), "`agent` exited with status 130");
    assert_eq!(
        ResumeError::NonZeroExit(i32::MIN).message("x"),
        "`x` exited with status -2147483648"
    );
}
