use pumpkin::data_result::{append_message_strings, apply_2_keep_second, DataResult, Lifecycle};
use Lifecycle::{Deprecated, Experimental, Stable};

#[test]
fn lifecycle_add() {
    assert_eq!(Stable.add(Stable), Stable);
    assert_eq!(Stable.add(Experimental), Experimental);
    assert_eq!(Deprecated { since: 3 }.add(Experimental), Experimental);
    assert_eq!(Deprecated { since: 3 }.add(Stable), Deprecated { since: 3 });
    assert_eq!(Stable.add(Deprecated { since: 5 }), Deprecated { since: 5 });
    assert_eq!(Deprecated { since: 5 }.add(Deprecated { since: 2 }), Deprecated { since: 2 });
    assert_eq!(Deprecated { since: 2 }.add(Deprecated { since: 5 }), Deprecated { since: 2 });
}

#[test]
fn result_queries() {
    let ok: DataResult<i32> = DataResult::success(3);
    assert!(ok.is_success() && ok.has_result_or_partial());
    assert_eq!(ok.get_message(), None);
    assert_eq!(ok.lifecycle(), Lifecycle::Stable);
    let err: DataResult<i32> = DataResult::new_error("bad".to_string());
    assert!(!err.is_success() && !err.has_result_or_partial());
    assert_eq!(err.get_message(), Some("bad".to_string()));
    assert_eq!(err.lifecycle(), Lifecycle::Experimental);
    let partial: DataResult<i32> = DataResult::new_partial_error("half".to_string(), 1);
    assert!(!partial.is_success() && partial.has_result_or_partial());
}

#[test]
fn apply_2_joins_errors() {
    let a: DataResult<i32> = DataResult::new_partial_error("first".to_string(), 1);
    let b: DataResult<i32> = DataResult::new_partial_error("second".to_string(), 2);
    match apply_2_keep_second(a, b) {
        DataResult::Error { partial_result, message, lifecycle } => {
            assert_eq!(partial_result, Some(2));
            assert_eq!(message, "first; second");
            assert_eq!(lifecycle, Lifecycle::Experimental);
        }
        _ => panic!("expected an error"),
    }
    let a: DataResult<i32> = DataResult::new_error("first".to_string());
    let b: DataResult<i32> = DataResult::new_partial_error("second".to_string(), 2);
    match apply_2_keep_second(a, b) {
        DataResult::Error { partial_result, .. } => assert_eq!(partial_result, None),
        _ => panic!("expected an error"),
    }
    let a: DataResult<i32> = DataResult::success(1);
    let b: DataResult<i32> = DataResult::success(2);
    match apply_2_keep_second(a, b) {
        DataResult::Success { result, lifecycle } => {
            assert_eq!(result, 2);
            assert_eq!(lifecycle, Lifecycle::Stable);
        }
        _ => panic!("expected a success"),
    }
    let a: DataResult<i32> = DataResult::success(1);
    let b: DataResult<i32> = DataResult::new_partial_error("second".to_string(), 2);
    match apply_2_keep_second(a, b) {
        DataResult::Error { partial_result, message, .. } => {
            assert_eq!(partial_result, Some(2));
            assert_eq!(message, "second");
        }
        _ => panic!("expected an error"),
    }
    assert_eq!(append_message_strings(&"x".to_string(), &"y".to_string()), "x; y");
}
