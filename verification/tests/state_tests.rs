use gmail_forwarder::cli;
use gmail_forwarder::filter::Filter;
use gmail_forwarder::idle::{ChangeOutcome, IdleState, WaitEvent};
use gmail_forwarder::watch::{evaluate_candidate, App, RetryPolicy, Verdict};
use gmail_forwarder::headers::parse_headers;

fn args_with(sender: &str, subject: &str) -> cli::Args {
    cli::parse(
        String::from("user@example.com"),
        String::from("secret"),
        String::from("dest@example.com"),
        None,
        Some(String::from(sender)),
        Some(String::from(subject)),
    )
}

#[test]
fn parse_fills_defaults() {
    let args = cli::parse(
        String::from("user@example.com"),
        String::from("secret"),
        String::from("dest@example.com"),
        None,
        None,
        None,
    );
    assert_eq!(args.folder, "INBOX");
    assert_eq!(args.sender, "");
    assert_eq!(args.subject, "");
    assert_eq!(args.username, "user@example.com");
}

#[test]
fn app_starts_disconnected_with_fixed_endpoints() {
    let app = App::parse(args_with("", "Invoice"));
    assert!(!app.connected);
    assert_eq!(app.exists, 0);
    assert_eq!(app.host_imap, "imap.gmail.com");
    assert_eq!(app.host_smtp, "smtp.gmail.com");
    assert_eq!(app.port, 993);
    assert!(matches!(app.sender_filter, Filter::MatchAll));
    assert!(matches!(app.subject_filter, Filter::Pattern(_)));
}

#[test]
fn idle_continues_on_equal_or_lower_count() {
    let mut st = IdleState::new(5);
    assert!(st.step(&WaitEvent::Exists(5)));
    assert!(st.step(&WaitEvent::Exists(4)));
    assert!(st.step(&WaitEvent::Other));
}

#[test]
fn idle_stops_on_strict_increase() {
    let mut st = IdleState::new(5);
    assert!(st.step(&WaitEvent::Exists(5)));
    assert!(!st.step(&WaitEvent::Exists(6)));
    assert!(matches!(st.outcome(true), ChangeOutcome::MailboxChanged(6)));
}

#[test]
fn idle_goodbye_ends_session() {
    let mut st = IdleState::new(5);
    assert!(!st.step(&WaitEvent::Bye));
    assert!(matches!(st.outcome(true), ChangeOutcome::SessionEnded));
}

#[test]
fn idle_timeout_ends_session() {
    let st = IdleState::new(5);
    assert!(matches!(st.outcome(false), ChangeOutcome::SessionEnded));
}

#[test]
fn wait_fetches_only_on_strict_increase() {
    let mut app = App::parse(args_with("", ""));
    app.on_connected(5);
    assert!(app.connected);
    assert_eq!(app.exists, 5);
    assert_eq!(app.on_wait(&ChangeOutcome::MailboxChanged(5)), None);
    assert_eq!(app.exists, 5);
    assert_eq!(app.on_wait(&ChangeOutcome::MailboxChanged(6)), Some(6));
    assert_eq!(app.exists, 6);
}

#[test]
fn reconnect_resets_baseline_without_replay() {
    let mut app = App::parse(args_with("", ""));
    app.on_connected(5);
    let fetch = app.on_wait(&ChangeOutcome::SessionEnded);
    assert_eq!(fetch, None);
    assert!(!app.connected);
    app.on_connected(7);
    assert!(app.connected);
    assert_eq!(app.exists, 7);
    assert_eq!(app.on_wait(&ChangeOutcome::MailboxChanged(7)), None);
}

#[test]
fn cycle_error_forces_reconnect() {
    let mut app = App::parse(args_with("", ""));
    app.on_connected(3);
    app.on_cycle_error();
    assert!(!app.connected);
}

#[test]
fn retry_policy_is_bounded_and_fixed() {
    let p = RetryPolicy::fixed();
    assert_eq!(p.delay_ms, 30000);
    assert_eq!(p.max_tries, 20);
    assert!(p.allows(0));
    assert!(p.allows(19));
    assert!(!p.allows(20));
}

#[test]
fn forwarded_candidate_keeps_body_bytes() {
    let headers = parse_headers("From: a@b.com\nSubject: Hi\nContent-Type: text/plain");
    let body: Vec<u8> = vec![0x00, 0x9f, 0x92, 0x96, 0xff];
    let all = Filter::new(String::new());
    match evaluate_candidate(&all, &all, &headers, body.clone()) {
        Verdict::Forward(job) => {
            assert_eq!(job.from, "a@b.com");
            assert_eq!(job.subject, "Hi");
            assert_eq!(job.content_type, "text/plain");
            assert_eq!(job.body, body);
        }
        _ => panic!("candidate should be forwarded"),
    }
}

#[test]
fn rejected_subject_names_the_value() {
    let headers = parse_headers("From: a@b.com\nSubject: Newsletter\nContent-Type: text/plain");
    let all = Filter::new(String::new());
    let invoice = Filter::new(String::from("Invoice"));
    match evaluate_candidate(&invoice, &all, &headers, Vec::new()) {
        Verdict::RejectedSubject(seen) => assert_eq!(seen, "Newsletter"),
        _ => panic!("subject should be rejected"),
    }
}

#[test]
fn rejected_sender_names_the_value() {
    let headers = parse_headers("From: spam@junk.example\nSubject: Hi\nContent-Type: text/plain");
    let all = Filter::new(String::new());
    let billing = Filter::new(String::from("billing@"));
    match evaluate_candidate(&all, &billing, &headers, Vec::new()) {
        Verdict::RejectedSender(seen) => assert_eq!(seen, "spam@junk.example"),
        _ => panic!("sender should be rejected"),
    }
}

#[test]
fn missing_required_headers_abandon_the_attempt() {
    let all = Filter::new(String::new());
    let no_from = parse_headers("Subject: Hi\nContent-Type: text/plain");
    assert!(matches!(
        evaluate_candidate(&all, &all, &no_from, Vec::new()),
        Verdict::MissingFrom
    ));
    let no_subject = parse_headers("From: a@b.com\nContent-Type: text/plain");
    assert!(matches!(
        evaluate_candidate(&all, &all, &no_subject, Vec::new()),
        Verdict::MissingSubject
    ));
    let no_ct = parse_headers("From: a@b.com\nSubject: Hi");
    assert!(matches!(
        evaluate_candidate(&all, &all, &no_ct, Vec::new()),
        Verdict::MissingContentType
    ));
}
