use zero2prod::correlation::CorrelationContext;
use zero2prod::routes::health_check;
use zero2prod::routes::subscription_step;
use zero2prod::routes::Action;
use zero2prod::routes::Event;
use zero2prod::routes::Phase;

fn test_context() -> CorrelationContext {
    CorrelationContext::begin_with("test-request".to_string())
}

#[test]
fn health_check_works() {
    let response = health_check();
    assert_eq!(response.status, 200);
    assert_eq!(response.body.len(), 0);
}

#[test]
fn subscribe_returns_a_200_for_valid_form_data() {
    let ctx = test_context();
    let body = b"name=felipe%20acosta&email=felipe_acosta%40gmail.com".to_vec();
    let (phase, action, logs) = subscription_step(
        Phase::Ready,
        Event::Body(body),
        "a-fresh-id".to_string(),
        "2020-01-01T00:00:00+00:00".to_string(),
        &ctx,
    );
    let record = match action {
        Action::Insert(v) => v,
        _ => panic!("a valid submission must be handed to the store"),
    };
    assert_eq!(record.email, "felipe_acosta@gmail.com");
    assert_eq!(record.name, "felipe acosta");
    assert_eq!(record.id, "a-fresh-id");
    assert_eq!(record.subscribed_at, "2020-01-01T00:00:00+00:00");
    assert_eq!(logs.len(), 1);

    let (_, action, _) = subscription_step(
        phase,
        Event::Stored,
        "unused".to_string(),
        "unused".to_string(),
        &ctx,
    );
    match action {
        Action::Respond(response) => {
            assert_eq!(response.status, 200);
            assert_eq!(response.body.len(), 0);
        },
        _ => panic!("a stored record must be acknowledged"),
    }
}

#[test]
fn subscribe_returns_a_400_when_data_is_missing() {
    let cases: Vec<(&[u8], &str)> = vec![
        (b"name=felipe%20acosta", "missing the email"),
        (b"email=felipe_acosta%40gmail.com", "missing the name"),
        (b"", "missing both the name and email"),
    ];
    for (body, description) in cases {
        let ctx = test_context();
        let (_, action, _) = subscription_step(
            Phase::Ready,
            Event::Body(body.to_vec()),
            "a-fresh-id".to_string(),
            "2020-01-01T00:00:00+00:00".to_string(),
            &ctx,
        );
        match action {
            Action::Respond(response) => {
                assert_eq!(
                    response.status, 400,
                    "the core did not reply 400 when the payload was {}",
                    description
                );
                assert_eq!(response.body.len(), 0);
            },
            _ => panic!("an incomplete submission must be rejected, not {}", description),
        }
    }
}

#[test]
fn a_request_makes_at_most_one_insert_attempt() {
    let ctx = test_context();
    let body = b"name=felipe%20acosta&email=felipe_acosta%40gmail.com".to_vec();
    let mut inserts = 0;
    let (phase, action, _) = subscription_step(
        Phase::Ready,
        Event::Body(body.clone()),
        "id-1".to_string(),
        "ts-1".to_string(),
        &ctx,
    );
    if matches!(action, Action::Insert(_)) {
        inserts += 1;
    }
    // A stray second body changes nothing.
    let (phase, action, logs) = subscription_step(
        phase,
        Event::Body(body),
        "id-2".to_string(),
        "ts-2".to_string(),
        &ctx,
    );
    if matches!(action, Action::Insert(_)) {
        inserts += 1;
    }
    assert!(matches!(action, Action::Idle));
    assert_eq!(logs.len(), 0);
    let (_, action, _) = subscription_step(
        phase,
        Event::Stored,
        "id-3".to_string(),
        "ts-3".to_string(),
        &ctx,
    );
    if matches!(action, Action::Insert(_)) {
        inserts += 1;
    }
    assert_eq!(inserts, 1);
}

#[test]
fn a_live_step_draws_a_full_length_identifier_for_the_record() {
    let ctx = test_context();
    let body = b"name=felipe%20acosta&email=felipe_acosta%40gmail.com".to_vec();
    let (_, action, logs) =
        zero2prod::routes::subscription_step_now(Phase::Ready, Event::Body(body), &ctx);
    match action {
        Action::Insert(record) => {
            assert_eq!(record.id.len(), 36);
            assert_eq!(record.name, "felipe acosta");
            assert_eq!(record.email, "felipe_acosta@gmail.com");
            assert!(!record.subscribed_at.is_empty());
        },
        _ => panic!("a valid submission must be handed to the store"),
    }
    assert_eq!(logs.len(), 1);
    assert_eq!(logs[0].request_id, "test-request");
}

#[test]
fn a_failed_insert_is_answered_with_500_and_an_empty_body() {
    let ctx = test_context();
    let body = b"name=felipe%20acosta&email=felipe_acosta%40gmail.com".to_vec();
    let (phase, _, _) = subscription_step(
        Phase::Ready,
        Event::Body(body),
        "a-fresh-id".to_string(),
        "2020-01-01T00:00:00+00:00".to_string(),
        &ctx,
    );
    let (_, action, logs) = subscription_step(
        phase,
        Event::StoreFailed("connection pool exhausted".to_string()),
        "unused".to_string(),
        "unused".to_string(),
        &ctx,
    );
    match action {
        Action::Respond(response) => {
            assert_eq!(response.status, 500);
            assert_eq!(response.body.len(), 0, "error detail must not leak to the client");
        },
        _ => panic!("a failed insert must still be answered"),
    }
    assert_eq!(logs.len(), 1);
    assert_eq!(logs[0].request_id, "test-request");
    assert!(logs[0].message.contains("connection pool exhausted"));
}
