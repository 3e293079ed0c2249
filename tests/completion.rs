use zenith_task::{CompletionState, TaskId, WakerRegistry};

#[test]
fn result_is_delivered_once() {
    let mut s: CompletionState<i32> = CompletionState::new();
    assert!(!s.completed());
    assert_eq!(s.try_get(), None);
    s.set_result(84);
    assert!(s.completed());
    assert!(s.has_result());
    assert_eq!(s.get(), 84);
    assert!(!s.has_result());
    assert_eq!(s.try_get(), None);
    assert!(s.completed());
}

#[test]
fn try_get_takes_the_value() {
    let mut s: CompletionState<String> = CompletionState::new();
    s.set_result("done".to_string());
    assert_eq!(s.try_get(), Some("done".to_string()));
    assert_eq!(s.try_get(), None);
    assert!(!s.has_result());
}

#[test]
fn null_state_is_complete_without_value() {
    let mut s: CompletionState<u8> = CompletionState::null();
    assert!(s.completed());
    assert!(!s.has_result());
    assert_eq!(s.try_get(), None);
}

#[test]
fn wakers_are_handed_out_once_per_completion() {
    let mut r: WakerRegistry<&'static str> = WakerRegistry::new();
    r.register_waker(TaskId(1), "first");
    r.register_waker(TaskId(2), "other");
    r.register_waker(TaskId(1), "second");
    assert_eq!(r.wake(TaskId(1)), vec!["first", "second"]);
    assert!(r.wake(TaskId(1)).is_empty());
    r.clear_all();
    assert!(r.wake(TaskId(2)).is_empty());
}
