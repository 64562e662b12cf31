use gmail_forwarder::send::{build_forward, split_recipients, BuildError, SendBatch};
use gmail_forwarder::watch::MailJob;

fn job_with(from: &str, content_type: &str, body: Vec<u8>) -> MailJob {
    MailJob {
        from: String::from(from),
        subject: String::from("Hi"),
        content_type: String::from(content_type),
        body,
    }
}

#[test]
fn splits_two_recipients() {
    let r = split_recipients("a@x.com,b@y.com");
    assert_eq!(r.len(), 2);
    assert_eq!(r[0], "a@x.com");
    assert_eq!(r[1], "b@y.com");
}

#[test]
fn single_recipient_is_one_piece() {
    let r = split_recipients("a@x.com");
    assert_eq!(r, vec![String::from("a@x.com")]);
}

#[test]
fn empty_list_is_one_empty_piece() {
    let r = split_recipients("");
    assert_eq!(r, vec![String::new()]);
}

#[test]
fn trailing_comma_yields_empty_piece() {
    let r = split_recipients("a@x.com,");
    assert_eq!(r, vec![String::from("a@x.com"), String::new()]);
}

#[test]
fn per_recipient_isolation_scenario() {
    let mut batch = SendBatch::new(split_recipients("a@x.com,b@y.com"));
    assert_eq!(batch.current().map(|s| s.as_str()), Some("a@x.com"));
    batch.record(false);
    assert_eq!(batch.current().map(|s| s.as_str()), Some("b@y.com"));
    batch.record(true);
    assert!(batch.current().is_none());
    assert_eq!(batch.failures(), 1);
    assert_eq!(batch.successes(), 1);
    assert_eq!(batch.results, vec![false, true]);
}

#[test]
fn batch_over_empty_list_is_done_at_once() {
    let batch = SendBatch::new(Vec::new());
    assert!(batch.current().is_none());
    assert_eq!(batch.successes(), 0);
    assert_eq!(batch.failures(), 0);
}

#[test]
fn builds_message_for_valid_parts() {
    let job = job_with("Alice <alice@example.com>", "text/plain", b"hello".to_vec());
    assert!(build_forward(&job, "bob@example.com").is_ok());
}

#[test]
fn body_bytes_survive_building_verbatim() {
    let body: Vec<u8> = vec![0x00, 0x9f, 0x92, 0x96, 0xff, 0x0a, 0x0d];
    let job = job_with("alice@example.com", "application/octet-stream", body.clone());
    let msg = build_forward(&job, "bob@example.com").ok().expect("message should build");
    let wire = msg.formatted();
    assert!(
        wire.windows(body.len()).any(|w| w == body.as_slice()),
        "payload must appear byte for byte in the transmitted message"
    );
}

#[test]
fn unparseable_from_is_reported() {
    let job = job_with("not an address", "text/plain", Vec::new());
    assert!(matches!(
        build_forward(&job, "bob@example.com"),
        Err(BuildError::BadFrom)
    ));
}

#[test]
fn unparseable_recipient_is_reported() {
    let job = job_with("alice@example.com", "text/plain", Vec::new());
    assert!(matches!(build_forward(&job, ""), Err(BuildError::BadTo)));
}

#[test]
fn unparseable_content_type_is_reported() {
    let job = job_with("alice@example.com", "not a type", Vec::new());
    assert!(matches!(
        build_forward(&job, "bob@example.com"),
        Err(BuildError::BadContentType)
    ));
}

#[test]
fn forward_keeps_original_sender_verbatim() {
    let job = job_with("Alice <alice@example.com>", "text/plain", b"x".to_vec());
    let msg = build_forward(&job, "bob@example.com").ok().expect("message should build");
    let wire = String::from_utf8_lossy(&msg.formatted()).into_owned();
    assert!(wire.contains("alice@example.com"));
    assert!(wire.contains("bob@example.com"));
}
