use hemdaimail::mime::{collect_message, extract_parts, process_raw_message, Disposition, MimeHeader, MimePart, ProcessError};

const MIXED: &str = "Message-ID: <m1@example.com>\nIn-Reply-To: <m0@example.com>\nReferences: <r1@example.com>   <r2@example.com>\nSubject: Hello\nFrom: Alice <alice@example.com>\nto: bob@example.com,  carol@example.com\nTo: dave@example.com\nContent-Type: multipart/mixed; boundary=XX\n\n--XX\nContent-Type: multipart/alternative; boundary=YY\n\n--YY\nContent-Type: text/plain; charset=utf-8\n\nplain body\n--YY\nContent-Type: text/html\n\n<p>hi</p><script>alert(1)</script>\n--YY--\n--XX\nContent-Type: text/plain\n\nsecond plain body\n--XX\nContent-Type: application/pdf\nContent-Disposition: attachment; filename=\"doc.pdf\"\nContent-Transfer-Encoding: base64\n\naGVsbG8=\n--XX\nContent-Type: application/octet-stream\nContent-Disposition: attachment\n\nAAEC\n--XX--\n";

#[test]
fn headers_and_recipients_are_read() {
    let m = process_raw_message(MIXED.as_bytes()).unwrap();
    assert_eq!(m.message_id.as_deref(), Some("<m1@example.com>"));
    assert_eq!(m.in_reply_to.as_deref(), Some("<m0@example.com>"));
    assert_eq!(m.subject.as_deref(), Some("Hello"));
    assert_eq!(m.from.as_deref(), Some("Alice <alice@example.com>"));
    assert_eq!(m.to, vec!["bob@example.com", "carol@example.com", "dave@example.com"]);
    assert_eq!(m.references, vec!["<r1@example.com>", "<r2@example.com>"]);
}

#[test]
fn first_bodies_win_and_html_is_sanitized() {
    let m = process_raw_message(MIXED.as_bytes()).unwrap();
    assert_eq!(m.body_text.as_deref().map(|b| b.trim()), Some("plain body"));
    let html = m.body_html.unwrap();
    assert!(html.contains("<p>hi</p>"));
    assert!(!html.contains("script"));
    assert!(!html.contains("alert"));
}

#[test]
fn attachments_are_collected_in_order() {
    let m = process_raw_message(MIXED.as_bytes()).unwrap();
    assert_eq!(m.attachments.len(), 2);
    assert_eq!(m.attachments[0].filename, "doc.pdf");
    assert_eq!(m.attachments[0].content_type, "application/pdf");
    assert_eq!(m.attachments[0].content, b"hello".to_vec());
    assert_eq!(m.attachments[0].size, 5);
    assert_eq!(m.attachments[1].filename, "unnamed");
    assert_eq!(m.attachments[1].content_type, "application/octet-stream");
    assert_eq!(m.attachments[1].size, m.attachments[1].content.len());
}

#[test]
fn missing_headers_give_empty_fields() {
    let m = process_raw_message(b"Subject: only\n\nbody").unwrap();
    assert_eq!(m.message_id, None);
    assert_eq!(m.from, None);
    assert!(m.to.is_empty());
    assert!(m.references.is_empty());
    assert_eq!(m.body_text, None);
    assert!(m.attachments.is_empty());
}

#[test]
fn undecodable_body_is_an_error() {
    let raw = "Subject: broken\nContent-Type: text/plain\nContent-Transfer-Encoding: base64\n\n!!!not base64###\n";
    assert_eq!(process_raw_message(raw.as_bytes()).err(), Some(ProcessError::Body));
}

#[test]
fn unparsable_message_is_an_error() {
    assert_eq!(process_raw_message(b"Subject: x\n\rX").err(), Some(ProcessError::Parse));
}

fn header(k: &str, v: &str) -> MimeHeader {
    MimeHeader { key: k.to_string(), value: v.to_string() }
}

fn leaf(ct: &str, body: Option<&str>) -> MimePart {
    MimePart {
        headers: vec![header("content-type", ct)],
        body: body.map(|b| b.to_string()),
        body_raw: body.map(|b| b.as_bytes().to_vec()),
        disposition: Disposition::Inline,
        disposition_param: None,
        subparts: vec![],
    }
}

#[test]
fn collect_walks_the_tree_in_pre_order() {
    let tree = MimePart {
        headers: vec![
            header("TO", " x@y.z ,w@v.u"),
            header("Content-Type", "multipart/mixed"),
            header("references", "<a> <b>"),
        ],
        body: None,
        body_raw: None,
        disposition: Disposition::Inline,
        disposition_param: None,
        subparts: vec![
            MimePart { subparts: vec![leaf("text/html", Some("<b>first</b>"))], ..leaf("multipart/related", None) },
            leaf("text/html", Some("<i>second</i>")),
            leaf("text/plain", Some("text")),
            MimePart { disposition: Disposition::Attachment, disposition_param: Some("a.txt".to_string()), ..leaf("text/csv", Some("1,2")) },
        ],
    };
    let m = collect_message(&tree).unwrap();
    assert_eq!(m.to, vec!["x@y.z", "w@v.u"]);
    assert_eq!(m.references, vec!["<a>", "<b>"]);
    assert_eq!(m.body_html.as_deref(), Some("<b>first</b>"));
    assert_eq!(m.body_text.as_deref(), Some("text"));
    assert_eq!(m.attachments.len(), 1);
    assert_eq!(m.attachments[0].filename, "a.txt");
    assert_eq!(m.attachments[0].content_type, "text/csv");
    assert_eq!(m.attachments[0].size, 3);
}

#[test]
fn a_part_without_its_body_fails_only_when_needed() {
    let tree = MimePart { subparts: vec![leaf("image/png", None)], ..leaf("text/plain", Some("ok")) };
    assert!(collect_message(&tree).is_ok());
    let tree = leaf("text/plain", None);
    assert_eq!(collect_message(&tree).err(), Some(ProcessError::Body));
}

#[test]
fn a_failed_walk_keeps_what_it_had_found() {
    let tree = MimePart {
        subparts: vec![
            leaf("text/plain", Some("second")),
            MimePart { disposition: Disposition::Attachment, disposition_param: None, ..leaf("text/csv", Some("x")) },
            leaf("text/html", None),
            leaf("text/html", Some("never")),
        ],
        ..leaf("multipart/mixed", None)
    };
    let mut text = Some("first".to_string());
    let mut html = None;
    let mut atts = Vec::new();
    assert_eq!(extract_parts(&tree, &mut text, &mut html, &mut atts), Err(ProcessError::Body));
    assert_eq!(text.as_deref(), Some("first"));
    assert_eq!(html, None);
    assert_eq!(atts.len(), 1);
    assert_eq!(atts[0].filename, "unnamed");
}
