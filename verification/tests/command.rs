use auth0_cli::command::{delete_target, AmbiguousDelete, DeleteTarget};
use auth0_cli::request::is_success;

#[test]
fn delete_by_id_alone_names_that_user() {
    match delete_target(Some("auth0|1".to_string()), None) {
        Ok(DeleteTarget::Id(id)) => assert_eq!(id, "auth0|1"),
        other => panic!("expected an id, got {:?}", other),
    }
}

#[test]
fn delete_by_pattern_alone_names_the_selected_users() {
    match delete_target(None, Some("test".to_string())) {
        Ok(DeleteTarget::Pattern(pattern)) => assert_eq!(pattern, "test"),
        other => panic!("expected a pattern, got {:?}", other),
    }
}

#[test]
fn delete_by_the_empty_pattern_is_a_pattern() {
    match delete_target(None, Some(String::new())) {
        Ok(DeleteTarget::Pattern(pattern)) => assert_eq!(pattern, ""),
        other => panic!("expected a pattern, got {:?}", other),
    }
}

#[test]
fn delete_by_id_and_pattern_is_refused() {
    match delete_target(Some("auth0|1".to_string()), Some("test".to_string())) {
        Err(error) => assert_eq!(error, AmbiguousDelete::IdAndPattern),
        other => panic!("expected a refusal, got {:?}", other),
    }
    match delete_target(Some(String::new()), Some(String::new())) {
        Err(error) => assert_eq!(error, AmbiguousDelete::IdAndPattern),
        other => panic!("expected a refusal, got {:?}", other),
    }
}

#[test]
fn delete_without_id_and_pattern_is_refused() {
    match delete_target(None, None) {
        Err(error) => assert_eq!(error, AmbiguousDelete::NeitherIdNorPattern),
        other => panic!("expected a refusal, got {:?}", other),
    }
}

#[test]
fn status_codes_from_200_to_299_report_success() {
    assert!(is_success(200));
    assert!(is_success(201));
    assert!(is_success(204));
    assert!(is_success(299));
}

#[test]
fn other_status_codes_report_failure() {
    assert!(!is_success(0));
    assert!(!is_success(100));
    assert!(!is_success(199));
    assert!(!is_success(300));
    assert!(!is_success(301));
    assert!(!is_success(400));
    assert!(!is_success(401));
    assert!(!is_success(404));
    assert!(!is_success(429));
    assert!(!is_success(500));
    assert!(!is_success(u16::MAX));
}
