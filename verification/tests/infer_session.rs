use emmylua_code_analysis::file_id::{FileId, InferFailReason};
use emmylua_code_analysis::infer_session::InferSession;

#[test]
fn test_zero_limit_disables_reentry_guard() {
    let mut session = InferSession::new(0);
    let _first = session.enter(FileId::new(1)).unwrap();
    let _second = session.enter(FileId::new(1)).unwrap();
    let _third = session.enter(FileId::new(1)).unwrap();
}

#[test]
fn test_scope_drop_restores_file_count() {
    let mut session = InferSession::new(1);

    {
        let scope = session.enter(FileId::new(1)).unwrap();
        session.exit_scope(scope);
    }

    assert!(session.enter(FileId::new(1)).is_ok());
}

#[test]
fn test_same_stack_top_reentry_does_not_increment_count() {
    let mut session = InferSession::new(1);
    let _first = session.enter(FileId::new(1)).unwrap();
    let _same_top = session.enter(FileId::new(1)).unwrap();

    let _other = session.enter(FileId::new(2)).unwrap();
    assert_eq!(
        session.enter(FileId::new(1)).unwrap_err(),
        InferFailReason::RecursiveInfer
    );
}

#[test]
fn test_cross_file_reentry_limit_two_allows_a_b_a_and_blocks_next_a() {
    let mut session = InferSession::new(2);
    let _a1 = session.enter(FileId::new(1)).unwrap();
    let _b1 = session.enter(FileId::new(2)).unwrap();
    let _a2 = session.enter(FileId::new(1)).unwrap();
    let _b2 = session.enter(FileId::new(2)).unwrap();

    assert_eq!(
        session.enter(FileId::new(1)).unwrap_err(),
        InferFailReason::RecursiveInfer
    );
}

#[test]
fn test_cross_file_reentry_limit_three_allows_one_more_roundtrip() {
    let mut session = InferSession::new(3);
    let _a1 = session.enter(FileId::new(1)).unwrap();
    let _b1 = session.enter(FileId::new(2)).unwrap();
    let _a2 = session.enter(FileId::new(1)).unwrap();
    let _b2 = session.enter(FileId::new(2)).unwrap();
    let _a3 = session.enter(FileId::new(1)).unwrap();
    let _b3 = session.enter(FileId::new(2)).unwrap();

    assert_eq!(
        session.enter(FileId::new(1)).unwrap_err(),
        InferFailReason::RecursiveInfer
    );
}

#[test]
fn scope_of_repeated_top_is_inactive() {
    let mut session = InferSession::new(2);
    let first = session.enter(FileId::new(7)).unwrap();
    assert!(first.active);
    assert_eq!(first.file_id, FileId::new(7));
    let again = session.enter(FileId::new(7)).unwrap();
    assert!(!again.active);
}

#[test]
fn zero_limit_scopes_are_inactive() {
    let mut session = InferSession::new(0);
    let scope = session.enter(FileId::new(1)).unwrap();
    assert!(!scope.active);
}

#[test]
fn enter_then_exit_restores_the_session() {
    // limit 1: after leaving file 1 it may be entered again from below file 2
    let mut session = InferSession::new(1);
    let a = session.enter(FileId::new(1)).unwrap();
    let b = session.enter(FileId::new(2)).unwrap();
    session.exit_scope(b);
    session.exit_scope(a);
    let _b = session.enter(FileId::new(2)).unwrap();
    let a2 = session.enter(FileId::new(1));
    assert!(a2.is_ok());
    assert!(a2.unwrap().active);
}

#[test]
fn exit_of_inner_file_out_of_order() {
    // leaving a file that is not on top removes its last occurrence
    let mut session = InferSession::new(1);
    let a = session.enter(FileId::new(1)).unwrap();
    let _b = session.enter(FileId::new(2)).unwrap();
    session.exit_scope(a);
    // file 1 is no longer on the stack, so it can be entered once more
    assert!(session.enter(FileId::new(1)).unwrap().active);
    // and now it is there once: the next enter from another top is refused
    let _c = session.enter(FileId::new(3)).unwrap();
    assert_eq!(
        session.enter(FileId::new(1)).unwrap_err(),
        InferFailReason::RecursiveInfer
    );
}

#[test]
fn clear_forgets_entered_files() {
    let mut session = InferSession::new(1);
    let _a = session.enter(FileId::new(1)).unwrap();
    let _b = session.enter(FileId::new(2)).unwrap();
    assert!(session.enter(FileId::new(1)).is_err());
    session.clear();
    assert!(session.enter(FileId::new(2)).unwrap().active);
    assert!(session.enter(FileId::new(1)).unwrap().active);
}

#[test]
fn limit_getter_and_zero_limit_keeps_stack_empty() {
    let mut session = InferSession::new(0);
    assert_eq!(session.reentry_limit(), 0);
    let s = session.enter(FileId::new(1)).unwrap();
    assert!(!s.active);
    // nothing was pushed: with the guard on, the same file enters freely again
    session.exit_scope(s);
    let mut guarded = InferSession::new(1);
    assert_eq!(guarded.reentry_limit(), 1);
    assert!(guarded.enter(FileId::new(1)).unwrap().active);
}
