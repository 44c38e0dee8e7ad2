use zmq_patterns::dealer::{
    backend_endpoint, router_bind_endpoint, router_client_endpoint, worker_count, worker_step,
    RequestCounter, WorkerState,
};
use zmq_patterns::reqrep::{hello_endpoint, hello_request, HELLO_ROUNDS};
use zmq_patterns::rng::roll_percent;
use zmq_patterns::status::{
    client_report, client_report_after_roll, number_report_after_roll, roll_client_report,
    roll_number_report, status_bind_endpoint, status_change, status_client_endpoint, StatusChange,
    STATUS_COLLECT_PORT, STATUS_PUBLISH_PORT,
};

#[test]
fn roll_thresholds() {
    assert_eq!(status_change(1), StatusChange::Activated);
    assert_eq!(status_change(9), StatusChange::Activated);
    assert_eq!(status_change(10), StatusChange::Unchanged);
    assert_eq!(status_change(90), StatusChange::Unchanged);
    assert_eq!(status_change(91), StatusChange::Deactivated);
    assert_eq!(status_change(100), StatusChange::Deactivated);
}

#[test]
fn client_reports() {
    assert_eq!(client_report("c7", true), "( c7 :ON)");
    assert_eq!(client_report("c7", false), "( c7 :OFF)");
    assert_eq!(client_report_after_roll("c7", 3), Some("( c7 :ON)".to_string()));
    assert_eq!(client_report_after_roll("c7", 95), Some("( c7 :OFF)".to_string()));
    assert_eq!(client_report_after_roll("c7", 50), None);
    assert_eq!(number_report_after_roll(4), Some("4".to_string()));
    assert_eq!(number_report_after_roll(10), None);
    assert_eq!(number_report_after_roll(99), None);
}

#[test]
fn rolled_reports_follow_the_roll() {
    let mut rng = rand::rng();
    for _ in 0..300 {
        let (roll, report) = roll_client_report(&mut rng, "id");
        assert!((1..=100).contains(&roll));
        assert_eq!(report, client_report_after_roll("id", roll));
        let (roll, report) = roll_number_report(&mut rng);
        assert!((1..=100).contains(&roll));
        assert_eq!(report, number_report_after_roll(roll));
    }
}

#[test]
fn status_endpoints() {
    assert_eq!(status_bind_endpoint(STATUS_PUBLISH_PORT), "tcp://*:5557");
    assert_eq!(status_client_endpoint(STATUS_COLLECT_PORT), "tcp://localhost:5558");
}

#[test]
fn requests_are_numbered_from_one() {
    let mut c = RequestCounter::new();
    assert_eq!(c.next_request(), "request #1");
    assert_eq!(c.next_request(), "request #2");
    assert_eq!(c.sent, 2);
    let mut late = RequestCounter { sent: 41 };
    assert_eq!(late.next_request(), "request #42");
}

#[test]
fn worker_echoes_identity_then_body() {
    let (s, reply) = worker_step(WorkerState::AwaitIdentity, b"client-a".to_vec());
    assert!(reply.is_none());
    let (s, reply) = worker_step(s, b"request #1".to_vec());
    let (f1, f2) = reply.unwrap();
    assert_eq!(f1.data, b"client-a".to_vec());
    assert!(f1.more);
    assert_eq!(f2.data, b"request #1".to_vec());
    assert!(!f2.more);
    assert!(matches!(s, WorkerState::AwaitIdentity));
}

#[test]
fn worker_count_is_parsed_like_usize() {
    assert_eq!(worker_count("4"), Some(4));
    assert_eq!(worker_count("+2"), Some(2));
    assert_eq!(worker_count("-2"), None);
    assert_eq!(worker_count("four"), None);
}

#[test]
fn dealer_and_hello_endpoints() {
    assert_eq!(router_bind_endpoint(), "tcp://*:5570");
    assert_eq!(router_client_endpoint(), "tcp://localhost:5570");
    assert_eq!(backend_endpoint(), "inproc://backend");
    assert_eq!(hello_endpoint(), "tcp://localhost:5555");
    assert_eq!(hello_request(), "Hello");
    assert_eq!(HELLO_ROUNDS, 9);
}

#[test]
fn die_rolls_spread_over_the_range() {
    let mut rng = rand::rng();
    let mut seen = [false; 101];
    for _ in 0..5000 {
        let r = roll_percent(&mut rng);
        assert!((1..=100).contains(&r));
        seen[r as usize] = true;
    }
    assert!(seen[1..10].iter().any(|b| *b));
    assert!(seen[91..=100].iter().any(|b| *b));
    assert!(seen.iter().filter(|b| **b).count() > 50);
}
