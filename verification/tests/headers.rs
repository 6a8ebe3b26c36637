use amail::headers::extract_meta;
use amail::EmlAddr;
use amail::EmlMeta;
use amail::Mailbox;
use amail::Rfc5322Fields;
use amail::StoredEml;

fn stored() -> StoredEml {
    StoredEml {
        id: "msg-1".to_string(),
        id_thread: "thread-1".to_string(),
        timestamp: 1234567890,
        tags: vec!["inbox".to_string()],
        bcc: None,
        cc: None,
        from: None,
        in_reply_to: None,
        received: None,
        references: None,
        reply_to: None,
        sender: None,
        subject: None,
        to: None,
    }
}

#[test]
fn simple_rfc5322_fields() {
    let mut fields = Rfc5322Fields::new();
    fields.insert("Subject", "blah".into());
    fields.insert("To", "foo@bar.com".into());
    assert_eq!(fields.format_fields(), "Subject: blah\r\nTo: foo@bar.com",)
}

#[test]
fn rfc5322_fields_bcc_blind() {
    let mut fields = Rfc5322Fields::new();
    fields.insert("Bcc", "foo@bar.com".into());
    fields.insert("To", "bar@foo.com".into());
    assert_eq!(fields.format_fields(), "Bcc:\r\nTo: bar@foo.com",)
}

#[test]
fn insert_returns_previous_value() {
    let mut fields = Rfc5322Fields::new();
    assert_eq!(fields.insert("Subject", "one".into()), None);
    assert_eq!(fields.insert("Subject", "two".into()), Some("one".to_string()));
    assert_eq!(fields.insert("X-Unknown", "ignored".into()), None);
    assert_eq!(fields.format_fields(), "Subject: two");
}

#[test]
fn resolve_sender_single_from() {
    let mut fields = Rfc5322Fields::new();
    fields.insert("From", "\"Enid\" <enid@blyt.on>".into());
    assert_eq!(fields.resolve_sender().unwrap(), "enid@blyt.on");
}

#[test]
fn resolve_sender_two_from_no_sender() {
    let mut fields = Rfc5322Fields::new();
    fields.insert("From", "a@x.com, b@y.com".into());
    let e = fields.resolve_sender().unwrap_err();
    assert_eq!(e.reason, "Must set Sender if multiple From addresses");
}

#[test]
fn resolve_sender_two_from_with_sender() {
    let mut fields = Rfc5322Fields::new();
    fields.insert("From", "a@x.com, b@y.com".into());
    fields.insert("Sender", "a@x.com".into());
    assert_eq!(fields.resolve_sender().unwrap(), "a@x.com");
}

#[test]
fn resolve_sender_no_from() {
    let fields = Rfc5322Fields::new();
    let e = fields.resolve_sender().unwrap_err();
    assert_eq!(e.reason, "Missing From header");
}

#[test]
fn resolve_sender_plural_sender() {
    let mut fields = Rfc5322Fields::new();
    fields.insert("From", "a@x.com".into());
    fields.insert("Sender", "a@x.com, b@y.com".into());
    let e = fields.resolve_sender().unwrap_err();
    assert_eq!(e.reason, "Must have exactly one Sender (if present)");
}

#[test]
fn meta_resolve_sender_scenarios() {
    let mut meta = EmlMeta {
        from: vec![Mailbox {
            name: "Enid".into(),
            address: "enid@blyt.on".into(),
        }],
        ..Default::default()
    };
    assert_eq!(meta.resolve_sender().unwrap(), "enid@blyt.on");

    meta.from.push(Mailbox {
        name: "Other".into(),
        address: "other@blyt.on".into(),
    });
    assert!(meta.resolve_sender().is_err());

    meta.sender = Some(Mailbox {
        name: "Enid".into(),
        address: "enid@blyt.on".into(),
    });
    assert_eq!(meta.resolve_sender().unwrap(), "enid@blyt.on");
}

#[test]
fn resolve_reply_to_prefers_reply_to() {
    let mut fields = Rfc5322Fields::new();
    fields.insert("From", "a@x.com".into());
    assert_eq!(fields.resolve_reply_to().unwrap(), "a@x.com");
    fields.insert("Reply-To", "r@x.com".into());
    assert_eq!(fields.resolve_reply_to().unwrap(), "r@x.com");

    let empty = Rfc5322Fields::new();
    let e = empty.resolve_reply_to().unwrap_err();
    assert_eq!(e.reason, "Missing header");
    assert_eq!(e.within, Some("From".to_string()));
}

#[test]
fn destinations_in_order() {
    let mut fields = Rfc5322Fields::new();
    fields.insert("To", "to@x.com".into());
    fields.insert("Cc", "cc1@x.com, cc2@x.com".into());
    fields.insert("Bcc", "bcc@x.com".into());
    assert_eq!(
        fields.destinations().unwrap(),
        vec![
            "to@x.com".to_string(),
            "cc1@x.com".to_string(),
            "cc2@x.com".to_string(),
            "bcc@x.com".to_string(),
        ]
    );
}

#[test]
fn message_id_rewrites_destination() {
    let mut fields = Rfc5322Fields::new();
    fields.insert("Message-ID", "<123.th-4.olddest>".into());
    assert_eq!(
        fields.format_message_id_for_destination("new@y.com", 0),
        "<123.th-4.new@y.com>"
    );
}

#[test]
fn message_id_unmatched_shape_minted() {
    // A prior identifier that lacks the dotted three-field shape falls
    // through to minting a fresh one.
    let mut fields = Rfc5322Fields::new();
    fields.insert("Message-ID", "<no-dots-here>".into());
    assert_eq!(
        fields.format_message_id_for_destination("new@y.com", 7),
        "<7.unknown.new@y.com>"
    );
}

#[test]
fn message_id_minted_fresh() {
    let fields = Rfc5322Fields::new();
    assert_eq!(
        fields.format_message_id_for_destination("dest@y.com", 1234567890),
        "<1234567890.unknown.dest@y.com>"
    );
}

#[test]
fn message_id_minted_from_date() {
    let mut fields = Rfc5322Fields::new();
    fields.insert("Date", "Fri, 13 Feb 2009 23:31:30 +0000".into());
    assert_eq!(
        fields.format_message_id_for_destination("d@y.com", 0),
        "<1234567890.unknown.d@y.com>"
    );
}

#[test]
fn extract_meta_requires_from() {
    let msg = stored();
    let e = extract_meta(&msg).unwrap_err();
    assert_eq!(e.within, Some("From".to_string()));
    assert_eq!(e.reason, "Missing");
    assert_eq!(e.id, Some("msg-1".to_string()));
}

#[test]
fn extract_meta_full() {
    let mut msg = stored();
    msg.from = Some("\"Enid Blyton\" <enid@blyt.on>".to_string());
    msg.to = Some("Docs: a@pph.com, b@pph.com;".to_string());
    msg.cc = Some("c@x.com".to_string());
    msg.subject = Some("hello".to_string());
    msg.received = Some("from relay by mx for bob@example.org; Thu, 1 Jan 2020".to_string());
    msg.sender = Some("enid@blyt.on".to_string());
    let meta = extract_meta(&msg).unwrap();
    assert_eq!(meta.id, "msg-1");
    assert_eq!(meta.id_thread, "thread-1");
    assert_eq!(meta.timestamp, 1234567890);
    assert_eq!(meta.tags, vec!["inbox".to_string()]);
    assert_eq!(meta.from.len(), 1);
    assert_eq!(meta.from[0].name, "Enid Blyton");
    assert_eq!(meta.from[0].address, "enid@blyt.on");
    assert_eq!(meta.subject, Some("hello".to_string()));
    let to = meta.to.unwrap();
    assert_eq!(to.len(), 1);
    match &to[0] {
        EmlAddr::Group { name, members } => {
            assert_eq!(name, "Docs");
            assert_eq!(members.len(), 2);
            assert_eq!(members[0].address, "a@pph.com");
        }
        _ => panic!("expected a group"),
    }
    let cc = meta.cc.unwrap();
    assert_eq!(cc.len(), 1);
    match &cc[0] {
        EmlAddr::Single(m) => assert_eq!(m.address, "c@x.com"),
        _ => panic!("expected a single mailbox"),
    }
    assert_eq!(meta.received_by.unwrap().address, "bob@example.org");
    assert_eq!(meta.sender.unwrap().address, "enid@blyt.on");
}

#[test]
fn extract_meta_rejects_group_in_from() {
    let mut msg = stored();
    msg.from = Some("Docs: a@pph.com;".to_string());
    assert!(extract_meta(&msg).is_err());
}

#[test]
fn extract_meta_received_without_pattern() {
    let mut msg = stored();
    msg.from = Some("enid@blyt.on".to_string());
    msg.received = Some("from relay by mx with smtp".to_string());
    let meta = extract_meta(&msg).unwrap();
    assert!(meta.received_by.is_none());
}

#[test]
fn round_trip_addresses_through_fields() {
    let to = vec![
        EmlAddr::Single(Mailbox {
            name: "Alice".into(),
            address: "alice@x.com".into(),
        }),
        EmlAddr::Single(Mailbox {
            name: "Bob".into(),
            address: "bob@y.com".into(),
        }),
    ];
    let from = vec![Mailbox {
        name: "Carol".into(),
        address: "carol@z.com".into(),
    }];
    let mut fields = Rfc5322Fields::new();
    fields.to(&to);
    fields.from_addr(&from);
    let meta = fields.try_into_meta().unwrap();
    assert_eq!(meta.from.len(), 1);
    assert_eq!(meta.from[0].name, "Carol");
    assert_eq!(meta.from[0].address, "carol@z.com");
    let got_to = meta.to.unwrap();
    assert_eq!(got_to.len(), 2);
    match &got_to[0] {
        EmlAddr::Single(m) => {
            assert_eq!(m.name, "Alice");
            assert_eq!(m.address, "alice@x.com");
        }
        _ => panic!("expected a single mailbox"),
    }
    match &got_to[1] {
        EmlAddr::Single(m) => {
            assert_eq!(m.name, "Bob");
            assert_eq!(m.address, "bob@y.com");
        }
        _ => panic!("expected a single mailbox"),
    }
}

#[test]
fn try_into_meta_requires_from() {
    let fields = Rfc5322Fields::new();
    let e = fields.try_into_meta().unwrap_err();
    assert_eq!(e.within, Some("From".to_string()));
    assert_eq!(e.reason, "Missing header");
}

#[test]
fn try_into_meta_reads_date() {
    let mut fields = Rfc5322Fields::new();
    fields.insert("From", "a@x.com".into());
    fields.insert("Date", "Fri, 13 Feb 2009 23:31:30 +0000".into());
    let meta = fields.try_into_meta().unwrap();
    assert_eq!(meta.timestamp, 1234567890);
}

#[test]
fn error_message_names_context() {
    let e = amail::EmlParseError::new()
        .id("msg-9".to_string())
        .within("To")
        .reason("bad list");
    assert_eq!(e.message(), "Error parsing msg-9's To: bad list");
}

#[test]
fn format_fields_canonical_order() {
    let mut fields = Rfc5322Fields::new();
    fields.insert("To", "t@x.com".into());
    fields.insert("Subject", "s".into());
    fields.insert("Sender", "sn@x.com".into());
    fields.insert("Reply-To", "r@x.com".into());
    fields.insert("References", "<a>".into());
    fields.insert("Message-ID", "<m>".into());
    fields.insert("In-Reply-To", "<i>".into());
    fields.insert("From", "f@x.com".into());
    fields.insert("Date", "D".into());
    fields.insert("Cc", "c@x.com".into());
    fields.insert("Bcc", "b@x.com".into());
    assert_eq!(
        fields.format_fields(),
        "Bcc:\r\nCc: c@x.com\r\nDate: D\r\nFrom: f@x.com\r\nIn-Reply-To: <i>\r\n\
Message-ID: <m>\r\nReferences: <a>\r\nReply-To: r@x.com\r\nSender: sn@x.com\r\n\
Subject: s\r\nTo: t@x.com"
    );
}


#[test]
fn extract_meta_rejects_empty_from() {
    // A From value that parses to zero mailboxes (here: only a comment)
    // violates the non-empty-authors invariant and is refused.
    let mut msg = stored();
    msg.from = Some("(comment only)".to_string());
    let e = extract_meta(&msg).unwrap_err();
    assert_eq!(e.within, Some("From".to_string()));
    assert_eq!(e.reason, "Missing From address");
    assert_eq!(e.id, Some("msg-1".to_string()));
}

#[test]
fn extract_meta_annotates_header_name() {
    let mut msg = stored();
    msg.from = Some("enid@blyt.on".to_string());
    msg.cc = Some("not an address".to_string());
    let e = extract_meta(&msg).unwrap_err();
    assert_eq!(e.within, Some("Cc".to_string()));
    assert_eq!(e.id, Some("msg-1".to_string()));
}

#[test]
fn try_into_meta_rejects_empty_from() {
    let mut fields = Rfc5322Fields::new();
    fields.insert("From", "(comment only)".into());
    let e = fields.try_into_meta().unwrap_err();
    assert_eq!(e.within, Some("From".to_string()));
    assert_eq!(e.reason, "Missing From address");
}

#[test]
fn try_into_meta_too_many_senders() {
    let mut fields = Rfc5322Fields::new();
    fields.insert("From", "a@x.com".into());
    fields.insert("Sender", "a@x.com, b@y.com".into());
    let e = fields.try_into_meta().unwrap_err();
    assert_eq!(e.within, Some("Sender".to_string()));
    assert_eq!(e.reason, "Too many Senders");
}

#[test]
fn round_trip_keeps_groups_in_cc() {
    let cc = vec![EmlAddr::Group {
        name: "Docs".into(),
        members: vec![
            Mailbox {
                name: "Gregory House".into(),
                address: "diagnostics@pph.com".into(),
            },
            Mailbox {
                name: "Lisa Cuddy".into(),
                address: "ceo@pph.com".into(),
            },
        ],
    }];
    let from = vec![Mailbox {
        name: "Carol".into(),
        address: "carol@z.com".into(),
    }];
    let mut fields = Rfc5322Fields::new();
    fields.cc(&cc);
    fields.from_addr(&from);
    let meta = fields.try_into_meta().unwrap();
    let got_cc = meta.cc.unwrap();
    assert_eq!(got_cc.len(), 1);
    match &got_cc[0] {
        EmlAddr::Group { name, members } => {
            assert_eq!(name, "Docs");
            assert_eq!(members.len(), 2);
            assert_eq!(members[1].address, "ceo@pph.com");
        }
        _ => panic!("expected a group"),
    }
}

#[test]
fn meta_destinations_direct() {
    let meta = EmlMeta {
        from: vec![Mailbox {
            name: "Enid".into(),
            address: "enid@blyt.on".into(),
        }],
        to: Some(vec![EmlAddr::Single(Mailbox {
            name: "A".into(),
            address: "a@x.com".into(),
        })]),
        cc: Some(vec![
            EmlAddr::Single(Mailbox {
                name: "B".into(),
                address: "b@y.com".into(),
            }),
            EmlAddr::Single(Mailbox {
                name: "C".into(),
                address: "c@z.com".into(),
            }),
        ]),
        bcc: Some(vec![EmlAddr::Single(Mailbox {
            name: "D".into(),
            address: "d@w.com".into(),
        })]),
        ..Default::default()
    };
    assert_eq!(
        meta.destinations().unwrap(),
        vec![
            "a@x.com".to_string(),
            "b@y.com".to_string(),
            "c@z.com".to_string(),
            "d@w.com".to_string(),
        ]
    );

    let grouped = EmlMeta {
        to: Some(vec![EmlAddr::Group {
            name: "Docs".into(),
            members: vec![],
        }]),
        ..Default::default()
    };
    assert!(grouped.destinations().is_err());
}
