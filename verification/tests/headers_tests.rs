use gmail_forwarder::headers::{header_value, parse_headers};

#[test]
fn parses_simple_header_block() {
    let pairs = parse_headers("From: a@b.com\nSubject: Hi\nContent-Type: text/plain");
    assert_eq!(pairs.len(), 3);
    assert_eq!(pairs[0].0, "From");
    assert_eq!(pairs[0].1, "a@b.com");
    assert_eq!(pairs[1].0, "Subject");
    assert_eq!(pairs[1].1, "Hi");
    assert_eq!(pairs[2].0, "Content-Type");
    assert_eq!(pairs[2].1, "text/plain");
}

#[test]
fn trims_value_whitespace() {
    let pairs = parse_headers("Subject:   Monthly Invoice #42  \t");
    assert_eq!(pairs.len(), 1);
    assert_eq!(pairs[0].0, "Subject");
    assert_eq!(pairs[0].1, "Monthly Invoice #42");
}

#[test]
fn line_without_colon_maps_to_empty_value() {
    let pairs = parse_headers("this line has no colon");
    assert_eq!(pairs.len(), 1);
    assert_eq!(pairs[0].0, "this line has no colon");
    assert_eq!(pairs[0].1, "");
}

#[test]
fn handles_crlf_line_endings() {
    let pairs = parse_headers("From: a@b.com\r\nSubject: Hi\r\n");
    assert_eq!(pairs.len(), 2);
    assert_eq!(pairs[0].0, "From");
    assert_eq!(pairs[0].1, "a@b.com");
    assert_eq!(pairs[1].0, "Subject");
    assert_eq!(pairs[1].1, "Hi");
}

#[test]
fn splits_at_first_colon_only() {
    let pairs = parse_headers("Subject: a:b:c");
    assert_eq!(pairs.len(), 1);
    assert_eq!(pairs[0].0, "Subject");
    assert_eq!(pairs[0].1, "a:b:c");
}

#[test]
fn empty_block_has_no_pairs() {
    let pairs = parse_headers("");
    assert_eq!(pairs.len(), 0);
}

#[test]
fn lookup_finds_value_by_name() {
    let pairs = parse_headers("From: a@b.com\nSubject: Hi");
    let v = header_value(&pairs, "From");
    assert_eq!(v.map(|s| s.as_str()), Some("a@b.com"));
}

#[test]
fn lookup_missing_name_is_none() {
    let pairs = parse_headers("From: a@b.com");
    assert!(header_value(&pairs, "Subject").is_none());
}

#[test]
fn lookup_last_duplicate_wins() {
    let pairs = parse_headers("X: first\nX: second");
    let v = header_value(&pairs, "X");
    assert_eq!(v.map(|s| s.as_str()), Some("second"));
}
