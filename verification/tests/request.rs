use instance_agent::heap::{iterate_over_instances_of_class, tagged_objects};
use instance_agent::request::{get_instances, Answers};

fn untagged(objects: usize) -> Vec<i64> {
    vec![0; objects]
}

#[test]
fn class_without_instances_returns_an_empty_array() {
    let mut tags = untagged(4);
    let outcome = get_instances(&mut tags, &Answers::working(), &Vec::new(), 5);
    assert_eq!(outcome, Ok(Vec::new()));
    assert_eq!(tags, untagged(4));
}

#[test]
fn ten_instances_and_limit_three_return_three_of_them() {
    let mut tags = untagged(16);
    let instances = vec![12, 3, 7, 0, 15, 9, 1, 4, 10, 6];
    let array = get_instances(&mut tags, &Answers::working(), &instances, 3).unwrap();
    assert_eq!(array.len(), 3);
    for handle in &array {
        assert!(instances.contains(handle));
    }
    assert_eq!(array, vec![3, 7, 12]);
}

#[test]
fn limit_zero_returns_an_empty_array_whatever_lives() {
    for live in [0usize, 1, 10] {
        let mut tags = untagged(10);
        let instances: Vec<usize> = (0..live).collect();
        let outcome = get_instances(&mut tags, &Answers::working(), &instances, 0);
        assert_eq!(outcome, Ok(Vec::new()));
        assert_eq!(tags, untagged(10));
    }
}

#[test]
fn negative_limit_returns_an_empty_array() {
    for limit in [-1, -7, i32::MIN] {
        let mut tags = untagged(3);
        let outcome = get_instances(&mut tags, &Answers::working(), &vec![0, 1, 2], limit);
        assert_eq!(outcome, Ok(Vec::new()));
    }
}

#[test]
fn array_length_is_the_smaller_of_instances_and_limit() {
    for live in 0usize..6 {
        for limit in 1..8 {
            let mut tags = untagged(8);
            let instances: Vec<usize> = (0..live).map(|i| 7 - i).collect();
            let array = get_instances(&mut tags, &Answers::working(), &instances, limit).unwrap();
            assert_eq!(array.len(), live.min(limit as usize));
        }
    }
}

#[test]
fn second_request_in_the_same_order_returns_the_same() {
    let mut tags = untagged(8);
    let instances = vec![5, 2, 7, 1];
    let first = get_instances(&mut tags, &Answers::working(), &instances, 2).unwrap();
    let second = get_instances(&mut tags, &Answers::working(), &instances, 2).unwrap();
    assert_eq!(first, vec![2, 5]);
    assert_eq!(second, first);
}

#[test]
fn second_request_in_another_order_may_return_more() {
    let mut tags = untagged(2);
    let first = get_instances(&mut tags, &Answers::working(), &vec![0, 1], 1).unwrap();
    let second = get_instances(&mut tags, &Answers::working(), &vec![1, 0], 1).unwrap();
    assert_eq!(first, vec![0]);
    assert_eq!(second, vec![0, 1]);
}

#[test]
fn no_instance_is_returned_twice() {
    let mut tags = untagged(6);
    let array = get_instances(&mut tags, &Answers::working(), &vec![4, 2, 4, 2, 0], 5).unwrap();
    assert_eq!(array, vec![0, 2, 4]);
}

#[test]
fn objects_tagged_before_are_returned_too() {
    let mut tags = vec![0, 1, 0, 0];
    let array = get_instances(&mut tags, &Answers::working(), &vec![3, 0], 1).unwrap();
    assert_eq!(array, vec![1, 3]);
}

#[test]
fn request_does_what_walk_and_retrieval_do() {
    let mut tags = untagged(9);
    let mut walked = untagged(9);
    let instances = vec![8, 6, 4, 2, 0];
    let array = get_instances(&mut tags, &Answers::working(), &instances, 4).unwrap();
    iterate_over_instances_of_class(&mut walked, &instances, 4);
    assert_eq!(tags, walked);
    assert_eq!(array, tagged_objects(&walked, 1));
}

#[test]
fn missing_virtual_machine_fails_the_request() {
    let mut tags = untagged(3);
    let mut answers = Answers::working();
    answers.java_vm = Some("Null pointer in get_java_vm".to_string());
    let outcome = get_instances(&mut tags, &answers, &vec![0, 1], 2);
    assert_eq!(outcome, Err("Null pointer in get_java_vm".to_string()));
    assert_eq!(tags, untagged(3));
}

#[test]
fn missing_environment_fails_the_request_with_no_array() {
    let mut tags = untagged(3);
    let mut answers = Answers::working();
    answers.environment_status = -3;
    answers.environment = 0;
    let outcome = get_instances(&mut tags, &answers, &vec![0, 1], 2);
    assert_eq!(outcome, Err("No environment, err: -3".to_string()));
    assert_eq!(tags, untagged(3));
}

#[test]
fn denied_capability_fails_the_request_before_any_walk() {
    let mut tags = untagged(3);
    let mut answers = Answers::working();
    answers.capability_status = 99;
    let outcome = get_instances(&mut tags, &answers, &vec![0, 1], 2);
    assert_eq!(outcome, Err("Unexpected jvmti error: 99".to_string()));
    assert_eq!(tags, untagged(3));
}

#[test]
fn failed_walk_fails_the_request_and_leaves_its_tags() {
    let mut tags = untagged(3);
    let mut answers = Answers::working();
    answers.walk_status = 21;
    let outcome = get_instances(&mut tags, &answers, &vec![2, 1], 2);
    assert_eq!(outcome, Err("Unexpected jvmti error: 21".to_string()));
    assert_eq!(tags, vec![0, 1, 1]);
}

#[test]
fn failed_retrieval_fails_the_request_with_the_text_of_its_status() {
    let mut tags = untagged(3);
    let mut answers = Answers::working();
    answers.retrieval_status = 110;
    let outcome = get_instances(&mut tags, &answers, &vec![2, 1], 2);
    assert_eq!(outcome, Err("Unexpected jvmti error: 110".to_string()));
}

#[test]
fn failed_allocation_fails_the_request() {
    let mut tags = untagged(3);
    let mut answers = Answers::working();
    answers.allocation = Some("Java exception was thrown".to_string());
    let outcome = get_instances(&mut tags, &answers, &vec![2, 1], 2);
    assert_eq!(outcome, Err("Java exception was thrown".to_string()));
}

#[test]
fn failed_store_fails_the_request_when_there_is_something_to_store() {
    let mut answers = Answers::working();
    answers.store = Some("Java exception was thrown".to_string());
    let mut tags = untagged(3);
    let outcome = get_instances(&mut tags, &answers, &vec![2, 1], 2);
    assert_eq!(outcome, Err("Java exception was thrown".to_string()));
    let mut tags = untagged(3);
    let outcome = get_instances(&mut tags, &answers, &vec![2, 1], 0);
    assert_eq!(outcome, Ok(Vec::new()));
}

#[test]
fn failed_release_fails_the_request() {
    let mut tags = untagged(3);
    let mut answers = Answers::working();
    answers.release_status = 100;
    let outcome = get_instances(&mut tags, &answers, &vec![2, 1], 2);
    assert_eq!(outcome, Err("Unexpected jvmti error: 100".to_string()));
}

#[test]
fn first_failure_is_the_one_reported() {
    let mut tags = untagged(3);
    let mut answers = Answers::working();
    answers.capability_status = 98;
    answers.walk_status = 21;
    answers.release_status = 100;
    let outcome = get_instances(&mut tags, &answers, &vec![2, 1], 2);
    assert_eq!(outcome, Err("Unexpected jvmti error: 98".to_string()));
}
