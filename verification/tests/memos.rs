use token_input::memo::Memo;
use token_input::session::InputRef;

#[test]
fn memo_starts_empty() {
    let memo: Memo<&str> = Memo::new();
    assert_eq!(memo.lookup(0, 0), None);
    assert_eq!(memo.lookup(3, 7), None);
}

#[test]
fn memo_keeps_failures_by_offset_and_parser() {
    let mut memo = Memo::new();
    memo.fail(3, 7, "expected digit");
    memo.fail(3, 8, "expected letter");
    memo.fail(4, 7, "expected end");
    assert_eq!(memo.lookup(3, 7), Some(Some(&"expected digit")));
    assert_eq!(memo.lookup(3, 8), Some(Some(&"expected letter")));
    assert_eq!(memo.lookup(4, 7), Some(Some(&"expected end")));
    assert_eq!(memo.lookup(7, 3), None);
    assert_eq!(memo.lookup(4, 8), None);
}

#[test]
fn memo_marks_a_running_parser() {
    let mut memo: Memo<&str> = Memo::new();
    memo.begin(0, 1);
    assert_eq!(memo.lookup(0, 1), Some(None));
    memo.fail(0, 1, "failed");
    assert_eq!(memo.lookup(0, 1), Some(Some(&"failed")));
    memo.begin(0, 1);
    assert_eq!(memo.lookup(0, 1), Some(None));
}

#[test]
fn memo_later_failure_replaces_the_earlier() {
    let mut memo = Memo::new();
    memo.fail(0, 1, String::from("first"));
    memo.fail(0, 1, String::from("second"));
    assert_eq!(memo.lookup(0, 1), Some(Some(&String::from("second"))));
}

#[test]
fn session_without_cache_caches_nothing() {
    let mut session: InputRef<&str, &str, (), ()> = InputRef::new("abc", Err(()));
    session.memo_begin(1);
    assert_eq!(session.memo_lookup(1), None);
    session.memo_fail(1, "failed");
    assert_eq!(session.memo_lookup(1), None);
}

#[test]
fn session_cache_is_keyed_by_the_current_offset() {
    let mut session: InputRef<&str, &str, (), ()> = InputRef::new("abc", Err(()));
    session.enable_memoization();
    assert_eq!(session.memo_lookup(1), None);
    session.memo_fail(1, "at zero");
    session.skip();
    assert_eq!(session.memo_lookup(1), None);
    session.memo_begin(1);
    assert_eq!(session.memo_lookup(1), Some(None));
    let marker = session.save();
    session.skip();
    session.rewind(marker);
    assert_eq!(session.memo_lookup(1), Some(None));
    session.skip_bytes(0);
    assert_eq!(session.memo_lookup(2), None);
}

#[test]
fn session_cache_survives_rewind() {
    let mut session: InputRef<&str, &str, (), ()> = InputRef::new("abc", Err(()));
    session.enable_memoization();
    let marker = session.save();
    session.memo_fail(5, "cached");
    session.emit("raised");
    session.skip();
    session.rewind(marker);
    assert_eq!(session.memo_lookup(5), Some(Some(&"cached")));
    assert_eq!(session.into_errs(), Vec::<&str>::new());
}

#[test]
fn sub_session_has_a_cache_of_its_own() {
    let mut session: InputRef<&str, &str, (), ()> = InputRef::new("abc", Err(()));
    session.enable_memoization();
    session.memo_fail(1, "outer");
    session.with_ctx(0u8, |sub| {
        assert_eq!(sub.memo_lookup(1), None);
        sub.memo_fail(2, "inner");
        assert_eq!(sub.memo_lookup(2), Some(Some(&"inner")));
    });
    assert_eq!(session.memo_lookup(1), Some(Some(&"outer")));
    assert_eq!(session.memo_lookup(2), None);
}
