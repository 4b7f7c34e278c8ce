use tagged_rusqlite::mail::{Email, Status, get_bracketed, update_status};

#[test]
fn test_get_bracketed() {
    assert_eq!(
        get_bracketed("this is [ a very long test [ ] ] "),
        " a very long test [ "
    );
}

#[test]
fn get_bracketed_without_brackets_is_empty() {
    assert_eq!(get_bracketed("no brackets"), "");
    assert_eq!(get_bracketed("open [ only"), "");
    assert_eq!(get_bracketed("close ] before [ open"), "");
    assert_eq!(get_bracketed(""), "");
}

fn sample_email() -> Email {
    Email {
        status: Status::Inbox,
        subject: "hello [tag]".to_string(),
        from_name: "<alice".to_string(),
        from_domain: "example.com>".to_string(),
        body: "a note".to_string(),
        date: 1_600_000_000_000,
        id: "abc123".to_string(),
    }
}

#[test]
fn update_status_applies_a_pending_change() {
    let mut email = sample_email();
    update_status(&mut email, &Some(Status::Archive));
    assert_eq!(email.status, Status::Archive);
    assert_eq!(email.subject, "hello [tag]");
    assert_eq!(email.id, "abc123");
}

#[test]
fn update_status_without_a_change_leaves_the_email_alone() {
    let mut email = sample_email();
    let before = email.clone();
    update_status(&mut email, &None);
    assert_eq!(email, before);
}

#[test]
fn status_labels_are_exact() {
    assert_eq!(Status::Inbox.to_string(), "Inbox");
    assert_eq!(Status::FollowUp.to_string(), "FollowUp");
    assert_eq!(Status::ReadThrough.to_string(), "ReadThrough");
    assert_eq!(Status::Archive.to_string(), "Archive");
}

use tagged_rusqlite::mail::{Header, MessageData, get_header};

fn header(name: Option<&str>, value: Option<&str>) -> Header {
    Header {
        name: name.map(|s| s.to_string()),
        value: value.map(|s| s.to_string()),
    }
}

#[test]
fn get_header_matches_case_insensitively_and_in_order() {
    let headers = vec![
        header(None, Some("skipped")),
        header(Some("From"), Some("Alice <alice@example.com>")),
        header(Some("Subject"), Some("first")),
        header(Some("subject"), Some("second")),
    ];
    assert_eq!(
        get_header("subject", &headers),
        Some("first".to_string())
    );
    assert_eq!(
        get_header("FROM", &headers),
        Some("Alice <alice@example.com>".to_string())
    );
    assert_eq!(get_header("date", &headers), None);
}

#[test]
fn get_header_stops_at_a_match_without_a_value() {
    let headers = vec![
        header(Some("x"), None),
        header(Some("x"), Some("later")),
    ];
    assert_eq!(get_header("x", &headers), None);
}

fn sample_message() -> MessageData {
    MessageData {
        headers: Some(vec![
            header(Some("Subject"), Some("hello [tag]")),
            header(Some("From"), Some("Alice Example <alice@example.com>")),
        ]),
        snippet: Some("a note".to_string()),
        internal_date: Some("1600000000000".to_string()),
        id: Some("abc123".to_string()),
    }
}

#[test]
fn email_new_reads_the_message_fields() {
    let email = Email::new(&sample_message()).unwrap();
    assert_eq!(email.status, Status::Inbox);
    assert_eq!(email.subject, "hello [tag]");
    assert_eq!(email.from_name, "<alice");
    assert_eq!(email.from_domain, "example.com>");
    assert_eq!(email.body, "a note");
    assert_eq!(email.date, 1_600_000_000_000);
    assert_eq!(email.id, "abc123");
}

#[test]
fn email_new_without_angle_bracket_splits_the_raw_sender() {
    let mut message = sample_message();
    message.headers = Some(vec![header(Some("From"), Some("bob@host"))]);
    let email = Email::new(&message).unwrap();
    assert_eq!(email.subject, "");
    assert_eq!(email.from_name, "bob");
    assert_eq!(email.from_domain, "host");
}

#[test]
fn email_new_refuses_incomplete_messages() {
    let mut message = sample_message();
    message.headers = None;
    assert!(Email::new(&message).is_none());

    let mut message = sample_message();
    message.snippet = None;
    assert!(Email::new(&message).is_none());

    let mut message = sample_message();
    message.internal_date = Some("soon".to_string());
    assert!(Email::new(&message).is_none());

    let mut message = sample_message();
    message.id = None;
    assert!(Email::new(&message).is_none());
}

use tagged_rusqlite::mail::{chunks_of, ids_with_status};

fn email_with(id: &str, status: Status) -> Email {
    Email {
        status,
        subject: String::new(),
        from_name: String::new(),
        from_domain: String::new(),
        body: String::new(),
        date: 0,
        id: id.to_string(),
    }
}

#[test]
fn ids_with_status_filters_in_order() {
    let emails = vec![
        email_with("a", Status::Archive),
        email_with("b", Status::Inbox),
        email_with("c", Status::Archive),
        email_with("d", Status::FollowUp),
    ];
    assert_eq!(
        ids_with_status(&emails, Status::Archive),
        vec!["a".to_string(), "c".to_string()]
    );
    assert_eq!(
        ids_with_status(&emails, Status::FollowUp),
        vec!["d".to_string()]
    );
    assert_eq!(
        ids_with_status(&emails, Status::ReadThrough),
        Vec::<String>::new()
    );
}

#[test]
fn chunks_of_cuts_full_runs_and_a_short_tail() {
    let ids: Vec<String> = (0..5).map(|i| i.to_string()).collect();
    let chunks = chunks_of(&ids, 2);
    assert_eq!(
        chunks,
        vec![
            vec!["0".to_string(), "1".to_string()],
            vec!["2".to_string(), "3".to_string()],
            vec!["4".to_string()],
        ]
    );
    assert_eq!(chunks_of(&ids, 10), vec![ids.clone()]);
    assert_eq!(chunks_of(&Vec::new(), 3), Vec::<Vec<String>>::new());
}

use tagged_rusqlite::mail::append_present_ids;

#[test]
fn append_present_ids_keeps_order_and_skips_absent() {
    let mut ids = vec!["x".to_string()];
    let page = vec![
        Some("a".to_string()),
        None,
        Some("b".to_string()),
        None,
    ];
    append_present_ids(&mut ids, &page);
    assert_eq!(ids, vec!["x".to_string(), "a".to_string(), "b".to_string()]);
}
