use site_archiver::fetch::{classify_status, FetchFailure};

#[test]
fn only_status_200_succeeds() {
    assert!(classify_status(200).is_ok());
    assert!(classify_status(301).is_err());
    assert!(classify_status(500).is_err());
}

#[test]
fn non_success_status_is_classified_with_its_code() {
    match classify_status(404) {
        Err(FetchFailure::NonSuccessStatus(s)) => assert_eq!(s, 404),
        _ => panic!("a non-200 status must classify as a non-success failure"),
    }
}
