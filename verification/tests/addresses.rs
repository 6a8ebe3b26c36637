use amail::addresses::addr_string;
use amail::addresses::mailbox_string;
use amail::headers::parse_address;
use amail::EmlAddr;
use amail::Mailbox;

#[test]
fn simple_mailbox_string() {
    let mbox = Mailbox {
        name: "Gregory House".into(),
        address: "diagnostics@pph.com".into(),
    };

    assert_eq!(
        &mailbox_string(&mbox),
        "\"Gregory House\" <diagnostics@pph.com>"
    );
}

#[test]
fn single_addr_string() {
    let single = EmlAddr::Single(Mailbox {
        name: "Gregory House".into(),
        address: "diagnostics@pph.com".into(),
    });

    assert_eq!(
        &addr_string(&single),
        "\"Gregory House\" <diagnostics@pph.com>",
    );
}

#[test]
fn group_addr_string() {
    let group = EmlAddr::Group {
        name: "Docs".into(),
        members: vec![
            Mailbox {
                name: "Gregory House".into(),
                address: "diagnostics@pph.com".into(),
            },
            Mailbox {
                name: "Lisa Cuddy".into(),
                address: "ceo@pph.com".into(),
            },
        ],
    };

    assert_eq!(
        &addr_string(&group),
        "Docs: \"Gregory House\" <diagnostics@pph.com>, \"Lisa Cuddy\" <ceo@pph.com>;",
    );
}

#[test]
fn simple_addr() {
    let addr = "Foo Bar <foo@bar.com>";

    let mboxes = parse_address(addr).unwrap();

    assert_eq!(
        mboxes[0],
        Mailbox {
            name: "Foo Bar".into(),
            address: "foo@bar.com".into(),
        }
    );
}

#[test]
fn parse_addr_rejects_group() {
    let addr = "Docs: a@pph.com, b@pph.com;";
    assert!(parse_address(addr).is_err());
}

#[test]
fn parse_addr_bad_grammar() {
    assert!(parse_address("not an address").is_err());
}

#[test]
fn parse_addr_list_order() {
    let mboxes = parse_address("a@x.com, \"B\" <b@y.com>, c@z.com").unwrap();
    assert_eq!(mboxes.len(), 3);
    assert_eq!(mboxes[0].address, "a@x.com");
    assert_eq!(mboxes[1].name, "B");
    assert_eq!(mboxes[1].address, "b@y.com");
    assert_eq!(mboxes[2].address, "c@z.com");
}

#[test]
fn group_to_mailbox_fails() {
    let group = EmlAddr::Group {
        name: "Docs".into(),
        members: vec![],
    };
    let e = group.to_mailbox().unwrap_err();
    assert_eq!(e.reason, "Not a single mailbox: Docs");
}
