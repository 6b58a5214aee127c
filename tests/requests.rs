use b2c_migrator::chain::{plan_dependents, ChainPlan, PendingOperation};
use b2c_migrator::config::Prj1AppConfig;
use b2c_migrator::retry::{classify, Outcome, RetryState, Step};
use b2c_migrator::user::PasswordProfile;

// Feeds scripted responses (status, Retry-After) to one request's state
// machine and returns the steps taken, as the request loop would.
fn script(responses: &[(u16, Option<&[u8]>)]) -> (Vec<Step>, u64) {
    let mut st = RetryState::new();
    let mut steps = Vec::new();
    for (status, ra) in responses {
        let step = st.on_outcome(classify(*status, *ra));
        steps.push(step);
        if !matches!(step, Step::Retry { .. }) {
            break;
        }
    }
    (steps, st.attempt())
}

#[test]
fn test_make_async_rest_call_success() {
    let (steps, attempts) = script(&[(200, None)]);
    assert_eq!(steps, vec![Step::Finish { outcome: Outcome::Success }]);
    assert_eq!(attempts, 1);
    let op = PendingOperation::new("user_success".to_string(), None, None);
    assert!(matches!(plan_dependents("http://x", None, &op.side_effects()), ChainPlan::NoneDeclared));
}

#[test]
fn test_make_async_rest_call_429_with_retry_after_and_success() {
    let one: &[u8] = b"1";
    let (steps, attempts) = script(&[(429, Some(one)), (200, None)]);
    assert_eq!(steps, vec![Step::Retry { wait_secs: 1 }, Step::Finish { outcome: Outcome::Success }]);
    assert_eq!(attempts, 2);
}

#[test]
fn test_make_async_rest_call_429_invalid_retry_after() {
    let bad: &[u8] = b"invalid_value";
    let (steps, attempts) = script(&[(429, Some(bad)), (200, None)]);
    assert_eq!(steps, vec![Step::Finish { outcome: Outcome::RateLimitUnusable }]);
    assert_eq!(attempts, 1);
}

#[test]
fn test_make_async_rest_call_429_no_retry_after() {
    let (steps, attempts) = script(&[(429, None), (200, None)]);
    assert_eq!(steps, vec![Step::Finish { outcome: Outcome::RateLimitUnusable }]);
    assert_eq!(attempts, 1);
}

#[test]
fn test_make_async_rest_call_other_error_400() {
    let (steps, attempts) = script(&[(400, None), (200, None)]);
    assert_eq!(steps, vec![Step::Finish { outcome: Outcome::ClientRejected { status: 400 } }]);
    assert_eq!(attempts, 1);
}

#[test]
fn test_make_async_rest_call_server_error_500() {
    let (steps, attempts) = script(&[(500, None), (200, None)]);
    assert_eq!(steps, vec![Step::Finish { outcome: Outcome::ProtocolError { status: 500 } }]);
    assert_eq!(attempts, 1);
}

#[test]
fn test_make_async_rest_call_network_error() {
    let mut st = RetryState::new();
    assert_eq!(st.on_outcome(Outcome::TransportError), Step::Finish { outcome: Outcome::TransportError });
    assert_eq!(st.attempt(), 1);
    assert!(st.is_done());
}

#[test]
fn many_rate_limits_in_a_row_have_no_cap() {
    let w: &[u8] = b"0";
    let mut responses: Vec<(u16, Option<&[u8]>)> = vec![(429, Some(w)); 1000];
    responses.push((201, None));
    let (steps, attempts) = script(&responses);
    assert_eq!(steps.len(), 1001);
    assert_eq!(attempts, 1001);
    assert_eq!(steps[1000], Step::Finish { outcome: Outcome::Success });
}

#[test]
fn dependent_call_retries_on_its_own() {
    let two: &[u8] = b"2";
    let (primary, primary_attempts) = script(&[(429, Some(two)), (429, Some(two)), (201, None)]);
    assert_eq!(primary_attempts, 3);
    assert_eq!(primary.last(), Some(&Step::Finish { outcome: Outcome::Success }));
    let op = PendingOperation::new("u".to_string(), Some("+1 555".to_string()), None);
    let calls = match plan_dependents("E", Some("42"), &op.side_effects()) {
        ChainPlan::Calls(c) => c,
        other => panic!("unexpected plan {other:?}"),
    };
    assert_eq!(calls.len(), 1);
    assert!(calls[0].endpoint.ends_with("/42/authentication/phoneMethods"));
    let five: &[u8] = b"5";
    let (dependent, dependent_attempts) = script(&[(429, Some(five)), (201, None)]);
    assert_eq!(dependent, vec![Step::Retry { wait_secs: 5 }, Step::Finish { outcome: Outcome::Success }]);
    assert_eq!(dependent_attempts, 2);
}

#[test]
fn config_keeps_its_fields() {
    let c = Prj1AppConfig::new(
        "https://yourendpoint.com".to_string(),
        "ABC".to_string(),
        "Azure".to_string(),
        "B2C".to_string(),
        "abc.user".to_string(),
        "abc.actual".to_string(),
        "KEY".to_string(),
    );
    assert_eq!(c.url(), "https://yourendpoint.com");
    assert_eq!(c.application_code(), "ABC");
    assert_eq!(c.name(), "Azure");
    assert_eq!(c.surname(), "B2C");
    assert_eq!(c.user_id(), "abc.user");
    assert_eq!(c.actual_user_id(), "abc.actual");
    assert_eq!(c.x_lag_key(), "KEY");
    let p = PasswordProfile { forceChangePasswordNextSignIn: true, password: "pw".to_string() };
    assert!(p.forceChangePasswordNextSignIn);
}
