use instance_agent::pipeline::{get_jvmti_env_, get_objects_with_tags, TaggedObjectSet};
use instance_agent::utils::{
    append_decimal, failure_text, find_method, jvmti_error_message, result_or_jvmti_err, throw,
    unit_or_jvmti_err, MethodName,
};

#[test]
fn unit_status_of_success_is_ok() {
    assert_eq!(unit_or_jvmti_err(0), Ok(()));
}

#[test]
fn unit_status_of_failure_is_its_text() {
    assert_eq!(unit_or_jvmti_err(116), Err("Unexpected jvmti error: 116".to_string()));
    assert_eq!(unit_or_jvmti_err(1), Err("Unexpected jvmti error: 1".to_string()));
}

#[test]
fn unit_status_of_the_largest_code() {
    assert_eq!(unit_or_jvmti_err(u32::MAX), Err("Unexpected jvmti error: 4294967295".to_string()));
}

#[test]
fn result_status_of_success_hands_the_value_on() {
    assert_eq!(result_or_jvmti_err(42u8, 0), Ok(42u8));
    assert_eq!(result_or_jvmti_err("kept".to_string(), 0), Ok("kept".to_string()));
}

#[test]
fn result_status_of_failure_drops_the_value() {
    assert_eq!(result_or_jvmti_err(42u8, 99), Err("Unexpected jvmti error: 99".to_string()));
}

#[test]
fn error_message_matches_the_debug_rendering_of_the_code() {
    for code in [1u32, 9, 10, 11, 99, 100, 101, 1000, 65535, 4294967295] {
        assert_eq!(jvmti_error_message(code), format!("Unexpected jvmti error: {:?}", code));
    }
}

#[test]
fn decimal_of_small_and_round_numbers() {
    for (n, text) in [(0u32, "0"), (7, "7"), (10, "10"), (120, "120"), (9000, "9000")] {
        let mut out = String::new();
        append_decimal(&mut out, n);
        assert_eq!(out, text);
    }
}

#[test]
fn decimal_is_written_after_what_is_there() {
    let mut out = "n = ".to_string();
    append_decimal(&mut out, 305);
    assert_eq!(out, "n = 305");
}

#[test]
fn environment_is_had_on_success_with_an_address() {
    assert_eq!(get_jvmti_env_(0, 4096), Ok(4096));
}

#[test]
fn environment_is_missing_on_a_failure_status() {
    assert_eq!(get_jvmti_env_(-3, 4096), Err("No environment, err: -3".to_string()));
    assert_eq!(get_jvmti_env_(-1, 0), Err("No environment, err: -1".to_string()));
    assert_eq!(get_jvmti_env_(5, 4096), Err("No environment, err: 5".to_string()));
}

#[test]
fn environment_is_missing_without_an_address() {
    assert_eq!(get_jvmti_env_(0, 0), Err("No environment, err: 0".to_string()));
}

#[test]
fn environment_text_of_the_extreme_statuses() {
    assert_eq!(get_jvmti_env_(i32::MIN, 1), Err("No environment, err: -2147483648".to_string()));
    assert_eq!(get_jvmti_env_(i32::MAX, 1), Err("No environment, err: 2147483647".to_string()));
}

#[test]
fn environment_text_matches_the_display_rendering_of_the_status() {
    for status in [-6, -5, -4, -3, -2, -1, 1, 17, -100, 1000] {
        assert_eq!(get_jvmti_env_(status, 8), Err(format!("No environment, err: {}", status)));
    }
}

#[test]
fn retrieval_hands_over_count_and_buffer() {
    assert_eq!(
        get_objects_with_tags(0, 3, 0x7f00),
        Ok(TaggedObjectSet { count: 3, handles: 0x7f00 })
    );
    assert_eq!(get_objects_with_tags(0, 0, 0), Ok(TaggedObjectSet { count: 0, handles: 0 }));
}

#[test]
fn retrieval_failure_is_the_text_of_its_status() {
    assert_eq!(
        get_objects_with_tags(103, 3, 0x7f00),
        Err("Unexpected jvmti error: 103".to_string())
    );
}

fn answer(status: u32, name: &str) -> MethodName {
    MethodName { status, name: name.to_string() }
}

#[test]
fn method_is_found_at_its_place() {
    let names = vec![answer(0, "<init>"), answer(0, "run"), answer(0, "close")];
    assert_eq!(find_method(0, &names, "run"), Ok(1));
    assert_eq!(find_method(0, &names, "<init>"), Ok(0));
    assert_eq!(find_method(0, &names, "close"), Ok(2));
}

#[test]
fn method_found_is_the_first_of_that_name() {
    let names = vec![answer(0, "get"), answer(0, "put"), answer(0, "put")];
    assert_eq!(find_method(0, &names, "put"), Ok(1));
}

#[test]
fn method_whose_name_request_failed_is_passed_over() {
    let names = vec![answer(23, "run"), answer(0, "run")];
    assert_eq!(find_method(0, &names, "run"), Ok(1));
    let names = vec![answer(23, "run")];
    assert_eq!(find_method(0, &names, "run"), Err("Method not found".to_string()));
}

#[test]
fn method_missing_is_reported() {
    let names = vec![answer(0, "get"), answer(0, "put")];
    assert_eq!(find_method(0, &names, "remove"), Err("Method not found".to_string()));
    assert_eq!(find_method(0, &names, "Get"), Err("Method not found".to_string()));
    assert_eq!(find_method(0, &Vec::new(), "get"), Err("Method not found".to_string()));
}

#[test]
fn method_search_fails_with_the_status_of_the_listing() {
    let names = vec![answer(0, "get")];
    assert_eq!(find_method(21, &names, "get"), Err("Unexpected jvmti error: 21".to_string()));
}

#[test]
fn failure_text_is_the_display_rendering() {
    assert_eq!(failure_text(&jni::errors::Error::JavaException), "Java exception was thrown");
    assert_eq!(failure_text(&jni::errors::Error::NullPtr("get_java_vm")), "Null pointer in get_java_vm");
    assert_eq!(
        failure_text(&jni::errors::Error::ThrowFailed(-1)),
        "Throw failed with error code -1"
    );
}

#[test]
fn throw_that_worked_is_not_fatal() {
    assert_eq!(throw(&Ok(())), None);
}

#[test]
fn throw_that_failed_is_fatal_with_its_text() {
    assert_eq!(
        throw(&Err(jni::errors::Error::ThrowFailed(-4))),
        Some("Throw failed with error code -4".to_string())
    );
}
