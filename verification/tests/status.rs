use parallel_uploader::status::is_success_status;

#[test]
fn success_range_starts_at_200() {
    assert!(!is_success_status(199));
    assert!(is_success_status(200));
    assert!(is_success_status(201));
}

#[test]
fn success_range_ends_at_299() {
    assert!(is_success_status(204));
    assert!(is_success_status(299));
    assert!(!is_success_status(300));
}

#[test]
fn informational_redirect_and_error_statuses_are_no_success() {
    assert!(!is_success_status(100));
    assert!(!is_success_status(101));
    assert!(!is_success_status(301));
    assert!(!is_success_status(404));
    assert!(!is_success_status(500));
    assert!(!is_success_status(999));
}

#[test]
fn numbers_that_are_no_status_are_no_success() {
    assert!(!is_success_status(0));
    assert!(!is_success_status(99));
    assert!(!is_success_status(1000));
    assert!(!is_success_status(2000));
    assert!(!is_success_status(u16::MAX));
}

#[test]
fn every_number_is_classified_by_the_range_alone() {
    let mut status: u16 = 0;
    loop {
        assert_eq!(is_success_status(status), (200..300).contains(&status));
        if status == u16::MAX {
            break;
        }
        status += 1;
    }
}
