use cutlist_optimizer::models::calculation_submission_result::{
    is_error_status, is_success_status, CalculationSubmissionResult,
};
use std::collections::HashMap;

#[test]
fn test_new_with_both_parameters() {
    let result = CalculationSubmissionResult::new("SUCCESS".to_string(), Some("task_123".to_string()));
    assert_eq!(result.status_code(), "SUCCESS");
    assert_eq!(result.task_id(), Some("task_123"));
    assert!(result.has_task_id());
}

#[test]
fn test_new_with_status_code_only() {
    let result = CalculationSubmissionResult::with_status_code("ERROR".to_string());
    assert_eq!(result.status_code(), "ERROR");
    assert_eq!(result.task_id(), None);
    assert!(!result.has_task_id());
}

#[test]
fn test_setters() {
    let mut result = CalculationSubmissionResult::default();
    result.set_status_code("PENDING".to_string());
    result.set_task_id(Some("new_task".to_string()));
    assert_eq!(result.status_code(), "PENDING");
    assert_eq!(result.task_id(), Some("new_task"));
}

#[test]
fn test_is_success() {
    assert!(CalculationSubmissionResult::with_status_code("SUCCESS".to_string()).is_success());
    assert!(CalculationSubmissionResult::with_status_code("OK".to_string()).is_success());
    assert!(CalculationSubmissionResult::with_status_code("200".to_string()).is_success());
    assert!(CalculationSubmissionResult::with_status_code("201".to_string()).is_success());
    assert!(!CalculationSubmissionResult::with_status_code("ERROR".to_string()).is_success());
    assert!(!CalculationSubmissionResult::with_status_code("404".to_string()).is_success());
}

#[test]
fn test_is_error() {
    assert!(CalculationSubmissionResult::with_status_code("ERROR".to_string()).is_error());
    assert!(CalculationSubmissionResult::with_status_code("400".to_string()).is_error());
    assert!(CalculationSubmissionResult::with_status_code("404".to_string()).is_error());
    assert!(CalculationSubmissionResult::with_status_code("500".to_string()).is_error());
    assert!(!CalculationSubmissionResult::with_status_code("SUCCESS".to_string()).is_error());
    assert!(!CalculationSubmissionResult::with_status_code("200".to_string()).is_error());
}

#[test]
fn calculation_submission_result_test_into_task_id() {
    let result = CalculationSubmissionResult::new("SUCCESS".to_string(), Some("task_456".to_string()));
    let task_id = result.into_task_id();
    assert_eq!(task_id, Some("task_456".to_string()));
}

#[test]
fn calculation_submission_result_test_builder_pattern() {
    let result = CalculationSubmissionResult::builder()
        .status_code("PROCESSING")
        .task_id("builder_task")
        .build()
        .unwrap();
    assert_eq!(result.status_code(), "PROCESSING");
    assert_eq!(result.task_id(), Some("builder_task"));
}

#[test]
fn test_builder_without_task_id() {
    let result = CalculationSubmissionResult::builder().status_code("ERROR").no_task_id().build().unwrap();
    assert_eq!(result.status_code(), "ERROR");
    assert_eq!(result.task_id(), None);
}

#[test]
fn test_builder_missing_status_code() {
    let result = CalculationSubmissionResult::builder().task_id("some_task").build();
    assert!(result.is_err());
    assert_eq!(result.unwrap_err(), "status_code is required");
}

#[test]
fn calculation_submission_result_test_convenience_constructors() {
    let success = CalculationSubmissionResult::success("task_success".to_string());
    assert_eq!(success.status_code(), "SUCCESS");
    assert_eq!(success.task_id(), Some("task_success"));
    assert!(success.is_success());

    let success_no_task = CalculationSubmissionResult::success_no_task();
    assert_eq!(success_no_task.status_code(), "SUCCESS");
    assert_eq!(success_no_task.task_id(), None);
    assert!(success_no_task.is_success());

    let error = CalculationSubmissionResult::error("VALIDATION_ERROR".to_string());
    assert_eq!(error.status_code(), "VALIDATION_ERROR");
    assert_eq!(error.task_id(), None);

    let pending = CalculationSubmissionResult::pending("task_pending".to_string());
    assert_eq!(pending.status_code(), "PENDING");
    assert_eq!(pending.task_id(), Some("task_pending"));

    let rejected = CalculationSubmissionResult::rejected();
    assert_eq!(rejected.status_code(), "REJECTED");
    assert_eq!(rejected.task_id(), None);
}

#[test]
fn calculation_submission_result_test_display() {
    let with_task = CalculationSubmissionResult::new("SUCCESS".to_string(), Some("task_123".to_string()));
    assert_eq!(with_task.to_string(), "CalculationSubmissionResult { status: SUCCESS, task_id: task_123 }");
    let without_task = CalculationSubmissionResult::with_status_code("ERROR".to_string());
    assert_eq!(without_task.to_string(), "CalculationSubmissionResult { status: ERROR }");
}

#[test]
fn calculation_submission_result_test_default() {
    let default = CalculationSubmissionResult::default();
    assert_eq!(default.status_code(), "UNKNOWN");
    assert_eq!(default.task_id(), None);
}

#[test]
fn calculation_submission_result_test_clone_and_equality() {
    let original = CalculationSubmissionResult::new("SUCCESS".to_string(), Some("task_clone".to_string()));
    let cloned = original.clone();
    assert_eq!(original, cloned);
    assert_eq!(original.status_code(), cloned.status_code());
    assert_eq!(original.task_id(), cloned.task_id());
}

#[test]
fn test_new_constructor_with_both_parameters() {
    let status = "SUCCESS".to_string();
    let task_id = "task_12345".to_string();
    let result = CalculationSubmissionResult::new(status.clone(), Some(task_id.clone()));
    assert_eq!(result.status_code(), "SUCCESS");
    assert_eq!(result.task_id(), Some("task_12345"));
    assert!(result.has_task_id());
    assert!(result.is_success());
    assert!(!result.is_error());
}

#[test]
fn test_new_constructor_with_none_task_id() {
    let status = "ERROR".to_string();
    let result = CalculationSubmissionResult::new(status, None);
    assert_eq!(result.status_code(), "ERROR");
    assert_eq!(result.task_id(), None);
    assert!(!result.has_task_id());
    assert!(!result.is_success());
    assert!(result.is_error());
}

#[test]
fn test_with_status_code_constructor() {
    let status = "PENDING".to_string();
    let result = CalculationSubmissionResult::with_status_code(status);
    assert_eq!(result.status_code(), "PENDING");
    assert_eq!(result.task_id(), None);
    assert!(!result.has_task_id());
    assert!(!result.is_success());
    assert!(!result.is_error());
}

#[test]
fn test_getters_and_setters() {
    let mut result = CalculationSubmissionResult::default();
    assert_eq!(result.status_code(), "UNKNOWN");
    assert_eq!(result.task_id(), None);
    result.set_status_code("PROCESSING".to_string());
    result.set_task_id(Some("new_task_id".to_string()));
    assert_eq!(result.status_code(), "PROCESSING");
    assert_eq!(result.task_id(), Some("new_task_id"));
    assert!(result.has_task_id());
    result.set_task_id(None);
    assert_eq!(result.task_id(), None);
    assert!(!result.has_task_id());
}

#[test]
fn test_is_success_various_status_codes() {
    assert!(CalculationSubmissionResult::with_status_code("SUCCESS".to_string()).is_success());
    assert!(CalculationSubmissionResult::with_status_code("success".to_string()).is_success());
    assert!(CalculationSubmissionResult::with_status_code("OK".to_string()).is_success());
    assert!(CalculationSubmissionResult::with_status_code("ok".to_string()).is_success());
    assert!(CalculationSubmissionResult::with_status_code("200".to_string()).is_success());
    assert!(CalculationSubmissionResult::with_status_code("201".to_string()).is_success());
    assert!(CalculationSubmissionResult::with_status_code("202".to_string()).is_success());
    assert!(CalculationSubmissionResult::with_status_code("299".to_string()).is_success());
    assert!(!CalculationSubmissionResult::with_status_code("ERROR".to_string()).is_success());
    assert!(!CalculationSubmissionResult::with_status_code("PENDING".to_string()).is_success());
    assert!(!CalculationSubmissionResult::with_status_code("400".to_string()).is_success());
    assert!(!CalculationSubmissionResult::with_status_code("500".to_string()).is_success());
    assert!(!CalculationSubmissionResult::with_status_code("100".to_string()).is_success());
    assert!(!CalculationSubmissionResult::with_status_code("300".to_string()).is_success());
}

#[test]
fn test_is_error_various_status_codes() {
    assert!(CalculationSubmissionResult::with_status_code("ERROR".to_string()).is_error());
    assert!(CalculationSubmissionResult::with_status_code("error".to_string()).is_error());
    assert!(CalculationSubmissionResult::with_status_code("400".to_string()).is_error());
    assert!(CalculationSubmissionResult::with_status_code("404".to_string()).is_error());
    assert!(CalculationSubmissionResult::with_status_code("499".to_string()).is_error());
    assert!(CalculationSubmissionResult::with_status_code("500".to_string()).is_error());
    assert!(CalculationSubmissionResult::with_status_code("503".to_string()).is_error());
    assert!(CalculationSubmissionResult::with_status_code("599".to_string()).is_error());
    assert!(!CalculationSubmissionResult::with_status_code("SUCCESS".to_string()).is_error());
    assert!(!CalculationSubmissionResult::with_status_code("OK".to_string()).is_error());
    assert!(!CalculationSubmissionResult::with_status_code("200".to_string()).is_error());
    assert!(!CalculationSubmissionResult::with_status_code("PENDING".to_string()).is_error());
    assert!(!CalculationSubmissionResult::with_status_code("100".to_string()).is_error());
    assert!(!CalculationSubmissionResult::with_status_code("300".to_string()).is_error());
}

#[test]
fn calculation_submission_result_test_test_into_task_id() {
    let result_with_task = CalculationSubmissionResult::new("SUCCESS".to_string(), Some("consumed_task".to_string()));
    let task_id = result_with_task.into_task_id();
    assert_eq!(task_id, Some("consumed_task".to_string()));
    let result_without_task = CalculationSubmissionResult::with_status_code("ERROR".to_string());
    let no_task_id = result_without_task.into_task_id();
    assert_eq!(no_task_id, None);
}

#[test]
fn test_builder_pattern_complete() {
    let result = CalculationSubmissionResult::builder()
        .status_code("PROCESSING")
        .task_id("builder_task_123")
        .build()
        .unwrap();
    assert_eq!(result.status_code(), "PROCESSING");
    assert_eq!(result.task_id(), Some("builder_task_123"));
    assert!(result.has_task_id());
}

#[test]
fn test_builder_pattern_status_only() {
    let result = CalculationSubmissionResult::builder().status_code("ERROR").no_task_id().build().unwrap();
    assert_eq!(result.status_code(), "ERROR");
    assert_eq!(result.task_id(), None);
    assert!(!result.has_task_id());
}

#[test]
fn test_builder_pattern_missing_status_code() {
    let result = CalculationSubmissionResult::builder().task_id("orphan_task").build();
    assert!(result.is_err());
    assert_eq!(result.unwrap_err(), "status_code is required");
}

#[test]
fn test_builder_pattern_string_conversion() {
    let result = CalculationSubmissionResult::builder().status_code("SUCCESS").task_id("test_task").build().unwrap();
    assert_eq!(result.status_code(), "SUCCESS");
    assert_eq!(result.task_id(), Some("test_task"));
}

#[test]
fn calculation_submission_result_test_test_convenience_constructors() {
    let success = CalculationSubmissionResult::success("success_task".to_string());
    assert_eq!(success.status_code(), "SUCCESS");
    assert_eq!(success.task_id(), Some("success_task"));
    assert!(success.is_success());
    assert!(!success.is_error());
    assert!(success.has_task_id());

    let success_no_task = CalculationSubmissionResult::success_no_task();
    assert_eq!(success_no_task.status_code(), "SUCCESS");
    assert_eq!(success_no_task.task_id(), None);
    assert!(success_no_task.is_success());
    assert!(!success_no_task.is_error());
    assert!(!success_no_task.has_task_id());

    let error = CalculationSubmissionResult::error("VALIDATION_FAILED".to_string());
    assert_eq!(error.status_code(), "VALIDATION_FAILED");
    assert_eq!(error.task_id(), None);
    assert!(!error.is_success());
    assert!(!error.has_task_id());

    let pending = CalculationSubmissionResult::pending("pending_task".to_string());
    assert_eq!(pending.status_code(), "PENDING");
    assert_eq!(pending.task_id(), Some("pending_task"));
    assert!(!pending.is_success());
    assert!(!pending.is_error());
    assert!(pending.has_task_id());

    let rejected = CalculationSubmissionResult::rejected();
    assert_eq!(rejected.status_code(), "REJECTED");
    assert_eq!(rejected.task_id(), None);
    assert!(!rejected.is_success());
    assert!(!rejected.is_error());
    assert!(!rejected.has_task_id());
}

#[test]
fn calculation_submission_result_test_test_display_formatting() {
    let with_task = CalculationSubmissionResult::new("SUCCESS".to_string(), Some("display_task".to_string()));
    let display_with_task = with_task.to_string();
    assert_eq!(display_with_task, "CalculationSubmissionResult { status: SUCCESS, task_id: display_task }");
    let without_task = CalculationSubmissionResult::with_status_code("ERROR".to_string());
    let display_without_task = without_task.to_string();
    assert_eq!(display_without_task, "CalculationSubmissionResult { status: ERROR }");
}

#[test]
fn test_default_implementation() {
    let default = CalculationSubmissionResult::default();
    assert_eq!(default.status_code(), "UNKNOWN");
    assert_eq!(default.task_id(), None);
    assert!(!default.has_task_id());
    assert!(!default.is_success());
    assert!(!default.is_error());
}

#[test]
fn calculation_submission_result_test_test_clone_and_equality() {
    let original = CalculationSubmissionResult::new("SUCCESS".to_string(), Some("clone_test".to_string()));
    let cloned = original.clone();
    assert_eq!(original, cloned);
    assert_eq!(original.status_code(), cloned.status_code());
    assert_eq!(original.task_id(), cloned.task_id());
    assert_eq!(original.has_task_id(), cloned.has_task_id());
    assert_eq!(original.is_success(), cloned.is_success());
    assert_eq!(original.is_error(), cloned.is_error());
}

#[test]
fn calculation_submission_result_test_test_hash_consistency() {
    let result1 = CalculationSubmissionResult::new("SUCCESS".to_string(), Some("hash_test".to_string()));
    let result2 = CalculationSubmissionResult::new("SUCCESS".to_string(), Some("hash_test".to_string()));
    let mut map = HashMap::new();
    map.insert(result1.clone(), "value1");
    map.insert(result2.clone(), "value2");
    assert_eq!(map.len(), 1);
    assert_eq!(map.get(&result1), Some(&"value2"));
}

#[test]
fn calculation_submission_result_test_test_edge_cases() {
    let empty_status = CalculationSubmissionResult::with_status_code("".to_string());
    assert_eq!(empty_status.status_code(), "");
    assert!(!empty_status.is_success());
    assert!(!empty_status.is_error());

    let empty_task = CalculationSubmissionResult::new("SUCCESS".to_string(), Some("".to_string()));
    assert_eq!(empty_task.task_id(), Some(""));
    assert!(empty_task.has_task_id());

    let long_status = "A".repeat(1000);
    let long_task = "B".repeat(1000);
    let long_result = CalculationSubmissionResult::new(long_status.clone(), Some(long_task.clone()));
    assert_eq!(long_result.status_code(), long_status);
    assert_eq!(long_result.task_id(), Some(long_task.as_str()));
}

#[test]
fn test_builder_reuse() {
    let builder = CalculationSubmissionResult::builder();
    let result1 = builder.status_code("SUCCESS").task_id("task1").build().unwrap();
    let result2 = CalculationSubmissionResult::builder().status_code("ERROR").no_task_id().build().unwrap();
    assert_eq!(result1.status_code(), "SUCCESS");
    assert_eq!(result1.task_id(), Some("task1"));
    assert_eq!(result2.status_code(), "ERROR");
    assert_eq!(result2.task_id(), None);
}

#[test]
fn test_debug_formatting() {
    let result = CalculationSubmissionResult::new("DEBUG_TEST".to_string(), Some("debug_task".to_string()));
    let debug_output = format!("{:?}", result);
    assert!(debug_output.contains("DEBUG_TEST"));
    assert!(debug_output.contains("debug_task"));
    assert!(debug_output.contains("CalculationSubmissionResult"));
}

#[test]
fn test_mutability() {
    let mut result = CalculationSubmissionResult::default();
    result.set_status_code("STEP1".to_string());
    assert_eq!(result.status_code(), "STEP1");
    result.set_task_id(Some("task_step1".to_string()));
    assert_eq!(result.task_id(), Some("task_step1"));
    result.set_status_code("STEP2".to_string());
    assert_eq!(result.status_code(), "STEP2");
    result.set_task_id(Some("task_step2".to_string()));
    assert_eq!(result.task_id(), Some("task_step2"));
    result.set_task_id(None);
    assert_eq!(result.task_id(), None);
}

#[test]
fn test_java_compatibility_scenarios() {
    let style1 = CalculationSubmissionResult::new("SUCCESS".to_string(), Some("task123".to_string()));
    assert_eq!(style1.status_code(), "SUCCESS");
    assert_eq!(style1.task_id(), Some("task123"));
    let style2 = CalculationSubmissionResult::with_status_code("ERROR".to_string());
    assert_eq!(style2.status_code(), "ERROR");
    assert_eq!(style2.task_id(), None);
    let mut style3 = style1.clone();
    style3.set_status_code("UPDATED".to_string());
    assert_eq!(style3.status_code(), "UPDATED");
    style3.set_task_id(Some("new_task".to_string()));
    assert_eq!(style3.task_id(), Some("new_task"));
}

#[test]
fn status_deciders_on_raw_values() {
    assert!(is_success_status("OK", "ok"));
    assert!(is_success_status("2XX", "2xx"));
    assert!(!is_success_status("OKAY", "okay"));
    assert!(is_error_status("ERROR", "error"));
    assert!(is_error_status("5", "5"));
    assert!(!is_error_status("", ""));
}

#[test]
fn status_uppercasing_is_full_unicode() {
    // "ß" uppercases to "SS", so "succeß" reads as SUCCESS.
    assert!(CalculationSubmissionResult::with_status_code("succeß".to_string()).is_success());
    assert!(CalculationSubmissionResult::with_status_code("Ok".to_string()).is_success());
    assert!(CalculationSubmissionResult::with_status_code("eRRoR".to_string()).is_error());
}

#[test]
fn ascii_status_never_both_success_and_error() {
    for code in ["SUCCESS", "ok", "200", "2OK", "ERROR", "404", "5xx", "pending", "", "Error2"] {
        let r = CalculationSubmissionResult::with_status_code(code.to_string());
        assert!(!(r.is_success() && r.is_error()), "{}", code);
    }
}

#[test]
fn status_with_non_ascii_text_is_never_both() {
    let two = CalculationSubmissionResult::with_status_code("2ǿ".to_string());
    assert!(two.is_success());
    assert!(!two.is_error());
    let four = CalculationSubmissionResult::with_status_code("4ß".to_string());
    assert!(four.is_error());
    assert!(!four.is_success());
    let sharp = CalculationSubmissionResult::with_status_code("ßuccess".to_string());
    assert!(!sharp.is_success());
    assert!(!sharp.is_error());
    let ok = CalculationSubmissionResult::with_status_code("ok".to_string());
    assert!(ok.is_success());
    assert!(!ok.is_error());
}
