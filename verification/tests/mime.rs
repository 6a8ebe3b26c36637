use amail::mime::decompose;
use amail::mime::parse_eml_body;
use amail::plaintext;
use amail::EmlBody;
use amail::MimePart;

fn leaf(mimetype: &str, text: &str) -> MimePart {
    MimePart {
        mimetype: mimetype.to_string(),
        text: text.to_string(),
        raw: text.as_bytes().to_vec(),
        base64: None,
        disposition: "Inline".to_string(),
        filename: None,
        size: None,
        children: vec![],
    }
}

fn multi(subtype: &str, children: Vec<MimePart>) -> MimePart {
    MimePart {
        mimetype: format!("multipart/{}", subtype),
        text: String::new(),
        raw: vec![],
        base64: None,
        disposition: "Inline".to_string(),
        filename: None,
        size: None,
        children,
    }
}

#[test]
fn no_plaintext() {
    let eml = EmlBody {
        alternatives: vec![],
        mimetype: "not/plain".into(),
        ..Default::default()
    };

    assert_eq!(plaintext(&eml), None);
}

#[test]
fn top_level_plaintext() {
    let eml = EmlBody {
        alternatives: vec![EmlBody {
            ..Default::default()
        }],
        content: "plaintext!".into(),
        mimetype: "text/plain".into(),
        ..Default::default()
    };

    assert_eq!(plaintext(&eml), Some("plaintext!".into()));
}

#[test]
fn nested_plaintext() {
    let eml = EmlBody {
        alternatives: vec![EmlBody {
            content: "plaintext!".into(),
            mimetype: "text/plain".into(),
            ..Default::default()
        }],
        content: "not plaintext".into(),
        ..Default::default()
    };

    assert_eq!(plaintext(&eml), Some("plaintext!".into()));
}

#[test]
fn plaintext_alternative_precedence() {
    // Both the root and an alternative are text/plain: the alternative wins,
    // since the root is appended after the alternatives in the search list.
    let eml = EmlBody {
        alternatives: vec![EmlBody {
            content: "Y".into(),
            mimetype: "text/plain".into(),
            ..Default::default()
        }],
        content: "X".into(),
        mimetype: "text/plain".into(),
        ..Default::default()
    };

    assert_eq!(plaintext(&eml), Some("Y".into()));
}

#[test]
fn decompose_leaf_copies_content() {
    let b = decompose(&leaf("text/plain", "hello")).unwrap();
    assert_eq!(b.content, "hello");
    assert_eq!(b.mimetype, "text/plain");
    assert!(!b.is_cleaned_html);
    assert_eq!(b.content_encoded, Some(b"hello".to_vec()));
    assert!(b.alternatives.is_empty());
    assert!(b.extra.is_empty());
    assert!(b.signature.is_none());
}

#[test]
fn decompose_alternative_shape() {
    let p = multi(
        "alternative",
        vec![
            leaf("text/plain", "first"),
            leaf("text/html", "<p>second</p>"),
            leaf("text/rich", "third"),
        ],
    );
    let b = decompose(&p).unwrap();
    assert_eq!(b.content, "first");
    assert_eq!(b.alternatives.len(), 2);
    assert_eq!(b.alternatives[1].content, "third");
    assert!(b.extra.is_empty());
}

#[test]
fn decompose_mixed_shape() {
    let p = multi(
        "mixed",
        vec![leaf("text/plain", "main"), leaf("text/plain", "attached")],
    );
    let b = decompose(&p).unwrap();
    assert_eq!(b.content, "main");
    assert_eq!(b.extra.len(), 1);
    assert_eq!(b.extra[0].content, "attached");
    assert!(b.alternatives.is_empty());
}

#[test]
fn decompose_signed_needs_exactly_one_signature() {
    let two = multi(
        "signed",
        vec![leaf("text/plain", "body"), leaf("application/pgp-signature", "sig")],
    );
    let b = decompose(&two).unwrap();
    assert_eq!(b.content, "body");
    assert_eq!(b.signature.unwrap().content, "sig");

    let one = multi("signed", vec![leaf("text/plain", "body")]);
    let e = decompose(&one).unwrap_err();
    assert_eq!(e.reason, "Expected exactly one signature for signed part");

    let three = multi(
        "signed",
        vec![
            leaf("text/plain", "body"),
            leaf("application/pgp-signature", "sig"),
            leaf("text/plain", "extra"),
        ],
    );
    assert!(decompose(&three).is_err());

    let zero = multi("signed", vec![]);
    assert!(decompose(&zero).is_err());
}

#[test]
fn decompose_rejects_unknown_multipart() {
    let p = multi("digest", vec![leaf("text/plain", "x")]);
    let e = decompose(&p).unwrap_err();
    assert_eq!(e.reason, "Not implemented: digest");
}

#[test]
fn decompose_rejects_bad_mimetype() {
    let e = decompose(&leaf("textplain", "x")).unwrap_err();
    assert_eq!(e.reason, "Failed to parse mimetype: textplain");
}

#[test]
fn decompose_child_failure_aborts() {
    let p = multi(
        "alternative",
        vec![leaf("text/plain", "ok"), leaf("broken", "bad")],
    );
    let e = decompose(&p).unwrap_err();
    assert_eq!(e.reason, "Failed to parse mimetype: broken");
}

#[test]
fn decompose_cleans_html() {
    let p = leaf(
        "text/html",
        "<p>hi</p><script>alert(1)</script><a href=\"http://x.example/\">go</a>",
    );
    let b = decompose(&p).unwrap();
    assert!(b.is_cleaned_html);
    assert!(!b.content.contains("script"));
    assert!(b.content.contains("href=\"http://x.example/\" title=\"http://x.example/\""));
    assert!(b.content.contains("target=\"_blank\""));
}

#[test]
fn parse_eml_bytes_plain() {
    let raw = b"Content-Type: text/plain\r\nFrom: a@b.c\r\n\r\nhello body\r\n";
    let b = parse_eml_body(raw).unwrap();
    assert_eq!(b.mimetype, "text/plain");
    assert!(b.content.starts_with("hello body"));
}

#[test]
fn parse_eml_bytes_alternative() {
    let raw = b"Content-Type: multipart/alternative; boundary=xyz\r\n\r\n\
--xyz\r\nContent-Type: text/plain\r\n\r\nplain here\r\n\
--xyz\r\nContent-Type: text/html\r\n\r\n<p>html here</p>\r\n\
--xyz--\r\n";
    let b = parse_eml_body(raw).unwrap();
    assert_eq!(b.mimetype, "text/plain");
    assert_eq!(b.alternatives.len(), 1);
    assert_eq!(b.alternatives[0].mimetype, "text/html");
    assert_eq!(plaintext(&b), Some("plain here".into()));
}

#[test]
fn decompose_nested_multipart() {
    let p = multi(
        "mixed",
        vec![
            multi(
                "alternative",
                vec![leaf("text/plain", "plain"), leaf("text/html", "<p>rich</p>")],
            ),
            leaf("application/octet-stream", "blob"),
        ],
    );
    let b = decompose(&p).unwrap();
    assert_eq!(b.content, "plain");
    assert_eq!(b.alternatives.len(), 1);
    assert_eq!(b.extra.len(), 1);
    assert_eq!(b.extra[0].content, "blob");
    assert_eq!(plaintext(&b), Some("plain".into()));
}
