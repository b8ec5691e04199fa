use etternaonline_api::auth::{AuthorizationManager, RefreshStep};
use etternaonline_api::pipeline::{classify_response, error_for_message, error_for_title, transport_error, RequestStep, ResponseBody, TransportFailure};
use etternaonline_api::rate_gate::RateGate;
use etternaonline_api::Error;

#[test]
fn gate_spaces_requests() {
    let cooldown = 2_000;
    let mut gate = RateGate::new(cooldown);
    let arrivals = [100u64, 100, 100, 5_000, 5_100];
    let starts: Vec<u64> = arrivals.iter().map(|&t| gate.reserve(t)).collect();
    assert_eq!(starts, vec![100, 2_100, 4_100, 6_100, 8_100]);
    for w in starts.windows(2) {
        assert!(w[1] >= w[0] + cooldown);
    }
    assert!(starts[4] - starts[0] >= 4 * cooldown);
    assert_eq!(gate.reserve(20_000), 20_000);
    assert_eq!(gate.cooldown(), cooldown);
}

#[test]
fn gate_reports_when_full() {
    let mut gate = RateGate::new(10);
    assert!(gate.can_reserve());
    assert_eq!(gate.reserve(u64::MAX - 10), u64::MAX - 10);
    assert!(gate.can_reserve());
    assert_eq!(gate.reserve(0), u64::MAX);
    assert!(!gate.can_reserve());
}

#[test]
fn single_flight_login() {
    let mut m = AuthorizationManager::new(Some("old".to_string()));
    let seen = m.generation();
    let mut logins = 0;
    // five callers find the credential rejected; the login ends after the second
    for i in 0..5 {
        if i == 2 {
            m.finish_refresh(Some("new".to_string()));
        }
        match m.begin_refresh(seen) {
            RefreshStep::Login => logins += 1,
            RefreshStep::Wait => assert!(i < 2),
            RefreshStep::Reuse => assert!(i >= 2),
        }
    }
    assert_eq!(logins, 1);
    assert_eq!(m.credential(), Some("new".to_string()));
    assert!(!m.is_refreshing());
    assert_eq!(m.generation(), seen + 1);
    assert!(!m.last_login_failed());
}

#[test]
fn failed_login_keeps_credential() {
    let mut m = AuthorizationManager::new(Some("old".to_string()));
    assert_eq!(m.begin_refresh(0), RefreshStep::Login);
    assert!(m.is_refreshing());
    m.finish_refresh(None);
    assert!(m.last_login_failed());
    assert_eq!(m.credential(), Some("old".to_string()));
    assert_eq!(m.begin_refresh(0), RefreshStep::Reuse);
    assert_eq!(m.begin_refresh(1), RefreshStep::Login);
}

fn json(title: Option<&str>) -> ResponseBody {
    ResponseBody::Json { error_title: title.map(|t| t.to_string()) }
}

#[test]
fn responses_are_classified() {
    assert!(matches!(classify_response(200, &json(None), false), RequestStep::Deliver));
    assert!(matches!(classify_response(503, &json(None), false), RequestStep::Fail(Error::ServerIsDown { status_code: 503 })));
    assert!(matches!(classify_response(525, &ResponseBody::Empty, false), RequestStep::Fail(Error::ServerIsDown { status_code: 525 })));
    assert!(matches!(classify_response(500, &json(None), false), RequestStep::Fail(Error::InternalServerError { status_code: 500 })));
    assert!(matches!(classify_response(200, &ResponseBody::Empty, false), RequestStep::Fail(Error::EmptyServerResponse)));
    assert!(matches!(classify_response(200, &ResponseBody::Malformed("eof".to_string()), false), RequestStep::Fail(Error::InvalidJson(m)) if m == "eof"));
    assert!(matches!(classify_response(401, &json(Some("Unauthorized")), false), RequestStep::Reauthorize));
    assert!(matches!(classify_response(401, &json(Some("Unauthorized")), true), RequestStep::Fail(Error::Unauthorized)));
    assert!(matches!(classify_response(404, &json(Some("Score not found")), false), RequestStep::Fail(Error::ScoreNotFound)));
    assert!(matches!(classify_response(400, &json(None), false), RequestStep::Fail(Error::InvalidDataStructure(_))));
}

#[test]
fn error_titles() {
    assert!(matches!(error_for_title("Goal already exist"), Error::GoalAlreadyExists));
    assert!(matches!(error_for_title("User not found"), Error::UserNotFound { name: None }));
    assert!(matches!(error_for_title("Malformed XML file"), Error::InvalidXml));
    assert!(matches!(error_for_title("Something else"), Error::UnknownApiError(m) if m == "Something else"));
}

#[test]
fn transport_failures() {
    assert!(matches!(transport_error(&TransportFailure::TimedOut), Error::Timeout));
    assert!(matches!(transport_error(&TransportFailure::Other("reset".to_string())), Error::NetworkError(m) if m == "reset"));
}

#[test]
fn error_messages() {
    assert_eq!(Error::ServerIsDown { status_code: 503 }.message(), "EtternaOnline server is down (HTTP 503)");
    assert_eq!(Error::InternalServerError { status_code: 500 }.message(), "Internal EtternaOnline server error (HTTP 500)");
    assert_eq!(Error::UserNotFound { name: Some("kangalioo".to_string()) }.message(), "User 'kangalioo' not found");
    assert_eq!(Error::UserNotFound { name: None }.message(), "User not found");
    assert_eq!(Error::EmptyServerResponse.message(), "Server response was empty");
    assert_eq!(
        Error::UnknownApiError("odd".to_string()).message(),
        "Server responded to query with an unrecognized error message (odd)"
    );
}

#[test]
fn older_api_messages() {
    assert!(matches!(error_for_message("Sepcify a username", Some("kangalioo")), Error::UserNotFound { name: Some(n) } if n == "kangalioo"));
    assert!(matches!(error_for_message("User not found", None), Error::UserNotFound { name: None }));
    assert!(matches!(error_for_message("No users for specified country", None), Error::NoUsersFound));
    assert!(matches!(error_for_message("Chart not tracked", None), Error::ChartNotTracked));
    assert!(matches!(error_for_message("Score not found", None), Error::ScoreNotFound));
    assert!(matches!(error_for_message("boom", None), Error::UnknownApiError(m) if m == "boom"));
}

#[test]
fn data_structure_message_is_quoted() {
    assert_eq!(
        Error::InvalidDataStructure("bad \"row\"".to_string()).message(),
        "Server sent a payload that doesn't match expectations (debug: \"bad \\\"row\\\"\")"
    );
}
