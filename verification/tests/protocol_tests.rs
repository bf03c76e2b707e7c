use dynhost::{
    build_update_request, classify_update_response, resolve_body, Credentials, FetchError, Ipv4,
    UpdateError,
};

fn sample_credentials() -> Credentials {
    Credentials {
        hostname: String::from("example.dyndns.org"),
        username: String::from("u"),
        password: String::from("p"),
    }
}

#[test]
fn update_request_carries_exact_query_and_credentials() {
    let creds = sample_credentials();
    let req = build_update_request(&creds, &Ipv4::new(203, 0, 113, 5));
    assert_eq!(req.query, "system=dyndns&hostname=example.dyndns.org&myip=203.0.113.5");
    assert_eq!(req.username, "u");
    assert_eq!(req.password, "p");
}

#[test]
fn success_statuses_are_accepted() {
    assert!(classify_update_response(200, String::new()).is_ok());
    assert!(classify_update_response(204, String::new()).is_ok());
    assert!(classify_update_response(299, String::new()).is_ok());
}

#[test]
fn non_success_statuses_are_rejections_with_detail() {
    for status in [100u16, 199, 300, 301, 403, 404, 500] {
        let r = classify_update_response(status, String::from("details"));
        match r {
            Err(UpdateError::Rejected { status: st, body }) => {
                assert_eq!(st, status);
                assert_eq!(body, "details");
            }
            _ => panic!("status {} must be a rejection", status),
        }
    }
}

#[test]
fn rejection_keeps_status_and_body_for_the_log() {
    let r = classify_update_response(403, String::from("Bad Auth"));
    match r {
        Err(UpdateError::Rejected { status, body }) => {
            assert_eq!(status, 403);
            assert_eq!(body, "Bad Auth");
        }
        _ => panic!("403 must be a rejection"),
    }
}

#[test]
fn resolve_body_parses_a_plain_address() {
    match resolve_body("198.51.100.7") {
        Ok(x) => assert_eq!(x, Ipv4::new(198, 51, 100, 7)),
        Err(_) => panic!("a plain address body must resolve"),
    }
}

#[test]
fn resolve_body_reports_malformed_bodies_with_the_body() {
    match resolve_body("<html>error page</html>") {
        Err(FetchError::Parse { body }) => assert_eq!(body, "<html>error page</html>"),
        _ => panic!("an error page body must be a parse failure"),
    }
    match resolve_body("198.51.100.7\n") {
        Err(FetchError::Parse { body }) => assert_eq!(body, "198.51.100.7\n"),
        _ => panic!("trailing whitespace must be a parse failure"),
    }
}
