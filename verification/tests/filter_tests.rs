use gmail_forwarder::filter::{matches_sender, matches_subject, Filter};
use gmail_forwarder::headers::parse_headers;

#[test]
fn empty_pattern_matches_everything() {
    let f = Filter::new(String::new());
    assert!(matches!(f, Filter::MatchAll));
    assert!(f.matches(Some(&String::from("anything"))));
    assert!(f.matches(None));
}

#[test]
fn invalid_pattern_matches_nothing() {
    let f = Filter::new(String::from("("));
    assert!(matches!(f, Filter::MatchNone));
    assert!(!f.matches(Some(&String::from("(literal"))));
    assert!(!f.matches(None));
}

#[test]
fn pattern_found_within_value() {
    let f = Filter::new(String::from("Invoice"));
    assert!(f.matches(Some(&String::from("Monthly Invoice #42"))));
    assert!(!f.matches(Some(&String::from("Newsletter"))));
}

#[test]
fn pattern_filter_needs_header_present() {
    let f = Filter::new(String::from("Invoice"));
    assert!(!f.matches(None));
}

#[test]
fn regex_syntax_is_honoured() {
    let f = Filter::new(String::from("^Bill"));
    assert!(f.matches(Some(&String::from("Bill from May"))));
    assert!(!f.matches(Some(&String::from("Pay the Bill"))));
}

#[test]
fn subject_filter_reads_subject_header() {
    let headers = parse_headers("From: a@b.com\nSubject: Monthly Invoice #42");
    let f = Filter::new(String::from("Invoice"));
    assert!(matches_subject(&f, &headers));
    let g = Filter::new(String::from("Newsletter"));
    assert!(!matches_subject(&g, &headers));
}

#[test]
fn sender_filter_reads_from_header() {
    let headers = parse_headers("From: billing@shop.example\nSubject: Hi");
    let f = Filter::new(String::from("billing@"));
    assert!(matches_sender(&f, &headers));
    let g = Filter::new(String::from("noreply@"));
    assert!(!matches_sender(&g, &headers));
}

#[test]
fn sender_filter_on_missing_from_header() {
    let headers = parse_headers("Subject: Hi");
    let all = Filter::new(String::new());
    assert!(matches_sender(&all, &headers));
    let some = Filter::new(String::from("billing@"));
    assert!(!matches_sender(&some, &headers));
}
