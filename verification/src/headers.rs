//! Header metadata: the structured snapshot of one stored message, its
//! extraction from raw header values, and the RFC5322 field map the
//! composer renders to wire text.

use vstd::prelude::*;

use crate::addresses::addr_list_string;
use crate::addresses::mailbox_list_string;
use crate::addresses::mailbox_string;
use crate::addresses::render_addr_list;
use crate::addresses::render_mailbox;
use crate::addresses::render_mailbox_list;
use crate::addresses::AddrV;
use crate::addresses::EmlAddr;
use crate::addresses::Mailbox;
use crate::addresses::MailboxV;
use crate::error::EmlParseError;
use crate::error::ErrV;
use crate::outside::addrparse_wire;
use crate::outside::mail_err_reason;
use crate::outside::regex_capture;
use crate::outside::regex_first_capture;
use crate::outside::rfc2822_of;
use crate::outside::rfc2822_parse_ts;
use crate::outside::rfc2822_ts;
use crate::outside::rfc2822_utc;
use crate::outside::wire_addrs;
use crate::strutil::clone_opt_string;
use crate::strutil::dec_int;
use crate::strutil::find_in_chars;
use crate::strutil::i64_dec;
use crate::strutil::lemma_find_char_props;
use crate::strutil::seg_string;
use crate::strutil::str_chars;
use crate::strutil::join_strings;
use crate::strutil::join_with;
use crate::strutil::str_eq;

verus! {

/// The mathematical value of an `EmlMeta`.
pub ghost struct MetaV {
    pub cc: Option<Seq<AddrV>>,
    pub bcc: Option<Seq<AddrV>>,
    pub from: Seq<MailboxV>,
    pub id: Seq<char>,
    pub id_thread: Seq<char>,
    pub in_reply_to: Option<Seq<char>>,
    pub received_by: Option<MailboxV>,
    pub references: Option<Seq<char>>,
    pub reply_to: Option<Seq<AddrV>>,
    pub sender: Option<MailboxV>,
    pub subject: Option<Seq<char>>,
    pub tags: Seq<Seq<char>>,
    pub to: Option<Seq<AddrV>>,
    pub timestamp: int,
}

/// The structured header snapshot of one stored message.
#[derive(Debug)]
pub struct EmlMeta {
    pub cc: Option<Vec<EmlAddr>>,
    pub bcc: Option<Vec<EmlAddr>>,
    pub from: Vec<Mailbox>,
    pub id: String,
    pub id_thread: String,
    pub in_reply_to: Option<String>,
    pub received_by: Option<Mailbox>,
    pub references: Option<String>,
    pub reply_to: Option<Vec<EmlAddr>>,
    pub sender: Option<Mailbox>,
    pub subject: Option<String>,
    pub tags: Vec<String>,
    pub to: Option<Vec<EmlAddr>>,
    pub timestamp: i64,
}

impl View for EmlMeta {
    type V = MetaV;

    open spec fn view(&self) -> MetaV {
        MetaV {
            cc: self.cc.deep_view(),
            bcc: self.bcc.deep_view(),
            from: self.from.deep_view(),
            id: self.id@,
            id_thread: self.id_thread@,
            in_reply_to: self.in_reply_to.deep_view(),
            received_by: self.received_by.deep_view(),
            references: self.references.deep_view(),
            reply_to: self.reply_to.deep_view(),
            sender: self.sender.deep_view(),
            subject: self.subject.deep_view(),
            tags: self.tags.deep_view(),
            to: self.to.deep_view(),
            timestamp: self.timestamp as int,
        }
    }
}

impl DeepView for EmlMeta {
    type V = MetaV;

    open spec fn deep_view(&self) -> MetaV {
        self@
    }
}

impl Default for EmlMeta {
    /// An empty snapshot: no headers, no authors, timestamp zero.
    fn default() -> (r: Self)
        ensures
            r@ == (MetaV {
                cc: None,
                bcc: None,
                from: Seq::empty(),
                id: Seq::empty(),
                id_thread: Seq::empty(),
                in_reply_to: None,
                received_by: None,
                references: None,
                reply_to: None,
                sender: None,
                subject: None,
                tags: Seq::empty(),
                to: None,
                timestamp: 0,
            }),
    {
        let r = EmlMeta {
            cc: None,
            bcc: None,
            from: Vec::new(),
            id: String::new(),
            id_thread: String::new(),
            in_reply_to: None,
            received_by: None,
            references: None,
            reply_to: None,
            sender: None,
            subject: None,
            tags: Vec::new(),
            to: None,
            timestamp: 0,
        };
        proof {
            assert(r.from.deep_view() =~= Seq::<MailboxV>::empty());
            assert(r.tags.deep_view() =~= Seq::<Seq<char>>::empty());
        }
        r
    }
}

/// The raw material the mail store hands over for one message: its
/// identifiers, indexed timestamp and tags, and each header value this
/// library reads, where present.
pub struct StoredEml {
    pub id: String,
    pub id_thread: String,
    pub timestamp: i64,
    pub tags: Vec<String>,
    pub bcc: Option<String>,
    pub cc: Option<String>,
    pub from: Option<String>,
    pub in_reply_to: Option<String>,
    pub received: Option<String>,
    pub references: Option<String>,
    pub reply_to: Option<String>,
    pub sender: Option<String>,
    pub subject: Option<String>,
    pub to: Option<String>,
}

/// The mailbox an address-list slot denotes; a group slot denotes none and
/// maps to the empty mailbox.
pub open spec fn addr_mailbox(a: AddrV) -> MailboxV {
    match a {
        AddrV::Single(m) => m,
        AddrV::Group { .. } => MailboxV { name: Seq::empty(), address: Seq::empty() },
    }
}

/// Whether every slot of the list is a single mailbox.
pub open spec fn all_single(l: Seq<AddrV>) -> bool {
    forall|i: int| 0 <= i < l.len() ==> l[i] is Single
}

/// What parsing an address list into bare mailboxes yields: the parsed
/// slots when the grammar holds and every slot is a single mailbox,
/// nothing otherwise.
pub open spec fn parsed_mailboxes(s: Seq<char>) -> Option<Seq<MailboxV>> {
    match wire_addrs(s) {
        None => None,
        Some(l) => if all_single(l) {
            Some(l.map_values(|a: AddrV| addr_mailbox(a)))
        } else {
            None
        },
    }
}

/// Parses an address list in which every slot must be a bare mailbox;
/// a grammar violation or a group slot is refused.
pub fn parse_address(addr: &str) -> (r: Result<Vec<Mailbox>, EmlParseError>)
    ensures
        (r is Ok) == (parsed_mailboxes(addr@) is Some),
        r matches Ok(v) ==> Some(v.deep_view()) == parsed_mailboxes(addr@),
{
    let slots = match addrparse_wire(addr) {
        Ok(v) => v,
        Err(e) => {
            let mut reason = String::from_str("Failed to parse address: ");
            let detail = mail_err_reason(&e);
            reason.append(detail.as_str());
            return Err(EmlParseError::new().reason(reason.as_str()));
        },
    };
    let mut out: Vec<Mailbox> = Vec::new();
    let mut i: usize = 0;
    while i < slots.len()
        invariant
            i <= slots@.len(),
            Some(slots.deep_view()) == wire_addrs(addr@),
            out@.len() == i,
            forall|j: int| 0 <= j < i ==> slots@[j]@ is Single,
            forall|j: int| 0 <= j < i ==> out@[j]@ == addr_mailbox(slots@[j]@),
        decreases slots@.len() - i,
    {
        match &slots[i] {
            EmlAddr::Single(m) => {
                out.push(m.clone());
            },
            EmlAddr::Group { .. } => {
                proof {
                    assert(slots.deep_view()[i as int] == slots@[i as int]@);
                    assert(!(slots.deep_view()[i as int] is Single));
                }
                return Err(EmlParseError::new().reason("Expected single mailbox"));
            },
        }
        i = i + 1;
    }
    proof {
        assert(all_single(slots.deep_view()));
        assert(out.deep_view() =~~= slots.deep_view().map_values(|a: AddrV| addr_mailbox(a)));
    }
    Ok(out)
}

/// The single mailbox a parsed list denotes when it holds exactly one
/// single slot, per the advisory-header rule.
pub open spec fn single_mailbox_of(l: Seq<AddrV>) -> Option<MailboxV> {
    if l.len() == 1 && l[0] is Single {
        Some(addr_mailbox(l[0]))
    } else {
        None
    }
}

fn extract_single(v: &Vec<EmlAddr>) -> (r: Option<Mailbox>)
    ensures
        r.deep_view() == single_mailbox_of(v.deep_view()),
{
    if v.len() == 1 {
        match &v[0] {
            EmlAddr::Single(m) => Some(m.clone()),
            EmlAddr::Group { .. } => None,
        }
    } else {
        None
    }
}

fn opt_addr_list(id: Option<&String>, h: &Option<String>, name: &str) -> (r: Result<
    Option<Vec<EmlAddr>>,
    EmlParseError,
>)
    ensures
        (r is Ok) == (*h matches Some(s) ==> wire_addrs(s@) is Some),
        r matches Ok(v) ==> v.deep_view() == (match *h {
            Some(s) => wire_addrs(s@),
            None => None,
        }),
        r matches Err(e) ==> e@.within == Some(name@) && e@.id == (match id {
            Some(i) => Some(i@),
            None => None,
        }),
{
    match h {
        None => Ok(None),
        Some(s) => match addrparse_wire(s.as_str()) {
            Ok(v) => Ok(Some(v)),
            Err(e) => {
                let reason = mail_err_reason(&e);
                let mut err = EmlParseError::new().within(name).reason(reason.as_str());
                if let Some(i) = id {
                    err = err.id(i.clone());
                }
                Err(err)
            },
        },
    }
}

fn from_mailboxes(id: Option<&String>, f: &String) -> (r: Result<Vec<Mailbox>, EmlParseError>)
    ensures
        (r is Ok) == (parsed_mailboxes(f@) is Some),
        r matches Ok(v) ==> Some(v.deep_view()) == parsed_mailboxes(f@),
        r matches Err(e) ==> e@.within == Some("From"@) && e@.id == (match id {
            Some(i) => Some(i@),
            None => None,
        }),
{
    let slots = match addrparse_wire(f.as_str()) {
        Ok(v) => v,
        Err(e) => {
            let reason = mail_err_reason(&e);
            let mut err = EmlParseError::new().within("From").reason(reason.as_str());
            if let Some(i) = id {
                err = err.id(i.clone());
            }
            return Err(err);
        },
    };
    let mut out: Vec<Mailbox> = Vec::new();
    let mut i: usize = 0;
    while i < slots.len()
        invariant
            i <= slots@.len(),
            Some(slots.deep_view()) == wire_addrs(f@),
            out@.len() == i,
            forall|j: int| 0 <= j < i ==> slots@[j]@ is Single,
            forall|j: int| 0 <= j < i ==> out@[j]@ == addr_mailbox(slots@[j]@),
        decreases slots@.len() - i,
    {
        match &slots[i] {
            EmlAddr::Single(m) => {
                out.push(m.clone());
            },
            EmlAddr::Group { .. } => {
                proof {
                    assert(slots.deep_view()[i as int] == slots@[i as int]@);
                    assert(!(slots.deep_view()[i as int] is Single));
                }
                let mut err = EmlParseError::new().within("From").reason(
                    "Expected single mailbox",
                );
                if let Some(i) = id {
                    err = err.id(i.clone());
                }
                return Err(err);
            },
        }
        i = i + 1;
    }
    proof {
        assert(all_single(slots.deep_view()));
        assert(out.deep_view() =~~= slots.deep_view().map_values(|a: AddrV| addr_mailbox(a)));
    }
    Ok(out)
}

/// Whether an optional address-list value parses, absence counting as fine.
pub open spec fn list_slot_ok(s: Option<Seq<char>>) -> bool {
    match s {
        Some(x) => wire_addrs(x) is Some,
        None => true,
    }
}

/// Whether a From value is present and parses to one or more bare
/// mailboxes, the invariant a snapshot's authors must satisfy.
pub open spec fn from_slot_ok(s: Option<Seq<char>>) -> bool {
    match s {
        Some(x) => match parsed_mailboxes(x) {
            Some(l) => l.len() >= 1,
            None => false,
        },
        None => false,
    }
}

/// Whether the received-for heuristic's captured address parses, when the
/// pattern matches at all.
pub open spec fn received_slot_ok(s: Option<Seq<char>>) -> bool {
    match s {
        Some(h) => (regex_capture("for ([^\\s]+@[^\\s]+\\.[^\\s]+);"@, h) matches Some(a)
            ==> wire_addrs(a) is Some),
        None => true,
    }
}

/// Whether header extraction succeeds on the stored message: From must be
/// present and parse to one or more bare mailboxes; each optional
/// address-list header must parse when present; the advisory Sender and
/// received-for values must parse when present, though their being plural
/// is not an error.
pub open spec fn extract_ok(m: StoredEml) -> bool {
    &&& list_slot_ok(m.bcc.deep_view())
    &&& list_slot_ok(m.cc.deep_view())
    &&& from_slot_ok(m.from.deep_view())
    &&& received_slot_ok(m.received.deep_view())
    &&& list_slot_ok(m.reply_to.deep_view())
    &&& list_slot_ok(m.sender.deep_view())
    &&& list_slot_ok(m.to.deep_view())
}

/// The header a failing extraction is attributed to: the first field, in
/// extraction order, whose value does not satisfy its rule.
pub open spec fn extract_err_within(m: StoredEml) -> Seq<char> {
    if !list_slot_ok(m.bcc.deep_view()) {
        "Bcc"@
    } else if !list_slot_ok(m.cc.deep_view()) {
        "Cc"@
    } else if !from_slot_ok(m.from.deep_view()) {
        "From"@
    } else if !received_slot_ok(m.received.deep_view()) {
        "Received"@
    } else if !list_slot_ok(m.reply_to.deep_view()) {
        "Reply-To"@
    } else if !list_slot_ok(m.sender.deep_view()) {
        "Sender"@
    } else {
        "To"@
    }
}

/// The metadata extraction yields when it succeeds.
pub open spec fn extract_val(m: StoredEml) -> MetaV {
    MetaV {
        bcc: match m.bcc {
            Some(h) => wire_addrs(h@),
            None => None,
        },
        cc: match m.cc {
            Some(h) => wire_addrs(h@),
            None => None,
        },
        from: match m.from {
            Some(f) => match parsed_mailboxes(f@) {
                Some(l) => l,
                None => Seq::empty(),
            },
            None => Seq::empty(),
        },
        id: m.id@,
        id_thread: m.id_thread@,
        in_reply_to: m.in_reply_to.deep_view(),
        received_by: match m.received {
            Some(h) => match regex_capture("for ([^\\s]+@[^\\s]+\\.[^\\s]+);"@, h@) {
                Some(a) => match wire_addrs(a) {
                    Some(l) => single_mailbox_of(l),
                    None => None,
                },
                None => None,
            },
            None => None,
        },
        references: m.references.deep_view(),
        reply_to: match m.reply_to {
            Some(h) => wire_addrs(h@),
            None => None,
        },
        sender: match m.sender {
            Some(h) => match wire_addrs(h@) {
                Some(l) => single_mailbox_of(l),
                None => None,
            },
            None => None,
        },
        subject: m.subject.deep_view(),
        tags: m.tags.deep_view(),
        to: match m.to {
            Some(h) => wire_addrs(h@),
            None => None,
        },
        timestamp: m.timestamp as int,
    }
}

/// Extracts the structured header snapshot from a stored message's raw
/// header values. From is mandatory and must parse to one or more bare
/// mailboxes; Bcc, Cc, Reply-To and To are optional but must parse when
/// present; Sender and the `for <address>;` pattern of Received resolve to
/// a mailbox only when they denote exactly one. A failure names the
/// message and the header it arose in.
pub fn extract_meta(msg: &StoredEml) -> (r: Result<EmlMeta, EmlParseError>)
    ensures
        (r is Ok) == extract_ok(*msg),
        r matches Ok(v) ==> v@ == extract_val(*msg),
        r matches Err(e) ==> e@.id == Some(msg.id@) && e@.within == Some(
            extract_err_within(*msg),
        ),
        (list_slot_ok(msg.bcc.deep_view()) && list_slot_ok(msg.cc.deep_view()) && msg.from
            is None) ==> (r matches Err(e) && e@.reason == "Missing"@),
{
    let bcc = opt_addr_list(Some(&msg.id), &msg.bcc, "Bcc")?;
    let cc = opt_addr_list(Some(&msg.id), &msg.cc, "Cc")?;
    let from = match &msg.from {
        None => {
            return Err(EmlParseError::new().id(msg.id.clone()).within("From").reason("Missing"));
        },
        Some(f) => from_mailboxes(Some(&msg.id), f)?,
    };
    if from.len() == 0 {
        return Err(
            EmlParseError::new().id(msg.id.clone()).within("From").reason("Missing From address"),
        );
    }
    let received_by = match &msg.received {
        None => None,
        Some(h) => {
            match regex_first_capture("for ([^\\s]+@[^\\s]+\\.[^\\s]+);", h.as_str()) {
                None => None,
                Some(a) => match addrparse_wire(a.as_str()) {
                    Ok(v) => extract_single(&v),
                    Err(e) => {
                        let reason = mail_err_reason(&e);
                        return Err(
                            EmlParseError::new().id(msg.id.clone()).within("Received").reason(
                                reason.as_str(),
                            ),
                        );
                    },
                },
            }
        },
    };
    let reply_to = opt_addr_list(Some(&msg.id), &msg.reply_to, "Reply-To")?;
    let sender = match &msg.sender {
        None => None,
        Some(h) => match addrparse_wire(h.as_str()) {
            Ok(v) => extract_single(&v),
            Err(e) => {
                let reason = mail_err_reason(&e);
                return Err(
                    EmlParseError::new().id(msg.id.clone()).within("Sender").reason(
                        reason.as_str(),
                    ),
                );
            },
        },
    };
    let to = opt_addr_list(Some(&msg.id), &msg.to, "To")?;
    let meta = EmlMeta {
        cc,
        bcc,
        from,
        id: msg.id.clone(),
        id_thread: msg.id_thread.clone(),
        in_reply_to: crate::strutil::clone_opt_string(&msg.in_reply_to),
        received_by,
        references: crate::strutil::clone_opt_string(&msg.references),
        reply_to,
        sender,
        subject: crate::strutil::clone_opt_string(&msg.subject),
        tags: crate::strutil::clone_strings(&msg.tags),
        to,
        timestamp: msg.timestamp,
    };
    Ok(meta)
}

/// The mathematical value of an `Rfc5322Fields`: one slot per canonical
/// header name, each holding an already-rendered value.
pub ghost struct FieldsV {
    pub bcc: Option<Seq<char>>,
    pub cc: Option<Seq<char>>,
    pub date: Option<Seq<char>>,
    pub from: Option<Seq<char>>,
    pub in_reply_to: Option<Seq<char>>,
    pub message_id: Option<Seq<char>>,
    pub references: Option<Seq<char>>,
    pub reply_to: Option<Seq<char>>,
    pub sender: Option<Seq<char>>,
    pub subject: Option<Seq<char>>,
    pub to: Option<Seq<char>>,
}

/// The composer's field map: canonical RFC5322 header names to rendered
/// values, keys unique, serialized eagerly by the named setters.
pub struct Rfc5322Fields {
    pub bcc: Option<String>,
    pub cc: Option<String>,
    pub date: Option<String>,
    pub from: Option<String>,
    pub in_reply_to: Option<String>,
    pub message_id: Option<String>,
    pub references: Option<String>,
    pub reply_to: Option<String>,
    pub sender: Option<String>,
    pub subject: Option<String>,
    pub to: Option<String>,
}

impl View for Rfc5322Fields {
    type V = FieldsV;

    open spec fn view(&self) -> FieldsV {
        FieldsV {
            bcc: self.bcc.deep_view(),
            cc: self.cc.deep_view(),
            date: self.date.deep_view(),
            from: self.from.deep_view(),
            in_reply_to: self.in_reply_to.deep_view(),
            message_id: self.message_id.deep_view(),
            references: self.references.deep_view(),
            reply_to: self.reply_to.deep_view(),
            sender: self.sender.deep_view(),
            subject: self.subject.deep_view(),
            to: self.to.deep_view(),
        }
    }
}

/// The value stored under a canonical header name, none for a foreign name.
pub open spec fn field_get(f: FieldsV, name: Seq<char>) -> Option<Seq<char>> {
    if name == "Bcc"@ {
        f.bcc
    } else if name == "Cc"@ {
        f.cc
    } else if name == "Date"@ {
        f.date
    } else if name == "From"@ {
        f.from
    } else if name == "In-Reply-To"@ {
        f.in_reply_to
    } else if name == "Message-ID"@ {
        f.message_id
    } else if name == "References"@ {
        f.references
    } else if name == "Reply-To"@ {
        f.reply_to
    } else if name == "Sender"@ {
        f.sender
    } else if name == "Subject"@ {
        f.subject
    } else if name == "To"@ {
        f.to
    } else {
        None
    }
}

/// Whether the name is one of the canonical header names the map holds.
pub open spec fn known_field(name: Seq<char>) -> bool {
    ||| name == "Bcc"@
    ||| name == "Cc"@
    ||| name == "Date"@
    ||| name == "From"@
    ||| name == "In-Reply-To"@
    ||| name == "Message-ID"@
    ||| name == "References"@
    ||| name == "Reply-To"@
    ||| name == "Sender"@
    ||| name == "Subject"@
    ||| name == "To"@
}

/// The map with the value under a canonical name replaced; a foreign name
/// changes nothing.
pub open spec fn field_set(f: FieldsV, name: Seq<char>, v: Seq<char>) -> FieldsV {
    if name == "Bcc"@ {
        FieldsV { bcc: Some(v), ..f }
    } else if name == "Cc"@ {
        FieldsV { cc: Some(v), ..f }
    } else if name == "Date"@ {
        FieldsV { date: Some(v), ..f }
    } else if name == "From"@ {
        FieldsV { from: Some(v), ..f }
    } else if name == "In-Reply-To"@ {
        FieldsV { in_reply_to: Some(v), ..f }
    } else if name == "Message-ID"@ {
        FieldsV { message_id: Some(v), ..f }
    } else if name == "References"@ {
        FieldsV { references: Some(v), ..f }
    } else if name == "Reply-To"@ {
        FieldsV { reply_to: Some(v), ..f }
    } else if name == "Sender"@ {
        FieldsV { sender: Some(v), ..f }
    } else if name == "Subject"@ {
        FieldsV { subject: Some(v), ..f }
    } else if name == "To"@ {
        FieldsV { to: Some(v), ..f }
    } else {
        f
    }
}

/// One `Name: value` line appended when the slot is present.
pub open spec fn maybe_line(
    acc: Seq<Seq<char>>,
    slot: Option<Seq<char>>,
    prefix: Seq<char>,
) -> Seq<Seq<char>> {
    match slot {
        Some(v) => acc.push(prefix + v),
        None => acc,
    }
}

/// The rendered header lines, sorted by header name, with the one special
/// case that a present Bcc renders as a bare `Bcc:` so the blind-copy list
/// never reaches the wire.
pub open spec fn field_lines(f: FieldsV) -> Seq<Seq<char>> {
    let l0: Seq<Seq<char>> = Seq::empty();
    let l1 = if f.bcc is Some {
        l0.push("Bcc:"@)
    } else {
        l0
    };
    let l2 = maybe_line(l1, f.cc, "Cc: "@);
    let l3 = maybe_line(l2, f.date, "Date: "@);
    let l4 = maybe_line(l3, f.from, "From: "@);
    let l5 = maybe_line(l4, f.in_reply_to, "In-Reply-To: "@);
    let l6 = maybe_line(l5, f.message_id, "Message-ID: "@);
    let l7 = maybe_line(l6, f.references, "References: "@);
    let l8 = maybe_line(l7, f.reply_to, "Reply-To: "@);
    let l9 = maybe_line(l8, f.sender, "Sender: "@);
    let l10 = maybe_line(l9, f.subject, "Subject: "@);
    maybe_line(l10, f.to, "To: "@)
}

/// The whole rendered header block: the lines CRLF-joined.
pub open spec fn rendered_fields(f: FieldsV) -> Seq<char> {
    join_with(field_lines(f), "\r\n"@)
}

/// The rendered outgoing message: header block, the multipart envelope's
/// Content-Type, a blank line, the body, and the closing boundary line.
pub open spec fn rendered_message(f: FieldsV, body: Seq<char>, boundary: Seq<char>) -> Seq<char> {
    rendered_fields(f) + "\r\nContent-Type: multipart/mixed; boundary="@ + boundary + "\r\n\r\n"@
        + body + "\r\n--"@ + boundary + "--"@
}

fn push_addresses(out: &mut Vec<String>, l: &Vec<Mailbox>)
    ensures
        final(out).deep_view() == old(out).deep_view() + l.deep_view().map_values(
            |m: MailboxV| m.address,
        ),
{
    let mut i: usize = 0;
    while i < l.len()
        invariant
            i <= l@.len(),
            out@.len() == old(out)@.len() + i,
            forall|j: int| 0 <= j < old(out)@.len() ==> out@[j] == old(out)@[j],
            forall|j: int| 0 <= j < i ==> out@[old(out)@.len() + j]@ == l@[j]@.address,
        decreases l@.len() - i,
    {
        out.push(l[i].address.clone());
        i = i + 1;
    }
    proof {
        assert(out.deep_view() =~~= old(out).deep_view() + l.deep_view().map_values(
            |m: MailboxV| m.address,
        ));
    }
}

fn push_line(lines: &mut Vec<String>, slot: &Option<String>, prefix: &str)
    ensures
        final(lines).deep_view() == maybe_line(old(lines).deep_view(), slot.deep_view(), prefix@),
{
    if let Some(v) = slot {
        let mut l = String::from_str(prefix);
        l.append(v.as_str());
        lines.push(l);
        proof {
            assert(lines.deep_view() =~~= maybe_line(
                old(lines).deep_view(),
                slot.deep_view(),
                prefix@,
            ));
        }
    }
}

impl Rfc5322Fields {
    /// An empty field map.
    pub fn new() -> (r: Self)
        ensures
            r@ == (FieldsV {
                bcc: None,
                cc: None,
                date: None,
                from: None,
                in_reply_to: None,
                message_id: None,
                references: None,
                reply_to: None,
                sender: None,
                subject: None,
                to: None,
            }),
    {
        Rfc5322Fields {
            bcc: None,
            cc: None,
            date: None,
            from: None,
            in_reply_to: None,
            message_id: None,
            references: None,
            reply_to: None,
            sender: None,
            subject: None,
            to: None,
        }
    }

    /// Stores a rendered value under a canonical header name, returning the
    /// value it replaces; a foreign name is ignored.
    pub fn insert(&mut self, name: &str, value: String) -> (r: Option<String>)
        ensures
            final(self)@ == field_set(old(self)@, name@, value@),
            r.deep_view() == (if known_field(name@) {
                field_get(old(self)@, name@)
            } else {
                None
            }),
    {
        if str_eq(name, "Bcc") {
            let prev = clone_opt_string(&self.bcc);
            self.bcc = Some(value);
            prev
        } else if str_eq(name, "Cc") {
            let prev = clone_opt_string(&self.cc);
            self.cc = Some(value);
            prev
        } else if str_eq(name, "Date") {
            let prev = clone_opt_string(&self.date);
            self.date = Some(value);
            prev
        } else if str_eq(name, "From") {
            let prev = clone_opt_string(&self.from);
            self.from = Some(value);
            prev
        } else if str_eq(name, "In-Reply-To") {
            let prev = clone_opt_string(&self.in_reply_to);
            self.in_reply_to = Some(value);
            prev
        } else if str_eq(name, "Message-ID") {
            let prev = clone_opt_string(&self.message_id);
            self.message_id = Some(value);
            prev
        } else if str_eq(name, "References") {
            let prev = clone_opt_string(&self.references);
            self.references = Some(value);
            prev
        } else if str_eq(name, "Reply-To") {
            let prev = clone_opt_string(&self.reply_to);
            self.reply_to = Some(value);
            prev
        } else if str_eq(name, "Sender") {
            let prev = clone_opt_string(&self.sender);
            self.sender = Some(value);
            prev
        } else if str_eq(name, "Subject") {
            let prev = clone_opt_string(&self.subject);
            self.subject = Some(value);
            prev
        } else if str_eq(name, "To") {
            let prev = clone_opt_string(&self.to);
            self.to = Some(value);
            prev
        } else {
            None
        }
    }

    /// Sets Cc to the rendered address list.
    pub fn cc(&mut self, cc: &Vec<EmlAddr>)
        ensures
            final(self)@ == (FieldsV { cc: Some(render_addr_list(cc.deep_view())), ..old(self)@ }),
    {
        self.cc = Some(addr_list_string(cc));
    }

    /// Sets Bcc to the rendered address list. The stored value is used for
    /// the destination set only; rendering blinds it.
    pub fn bcc(&mut self, bcc: &Vec<EmlAddr>)
        ensures
            final(self)@ == (FieldsV {
                bcc: Some(render_addr_list(bcc.deep_view())),
                ..old(self)@
            }),
    {
        self.bcc = Some(addr_list_string(bcc));
    }

    /// Sets Date to the RFC2822 rendering of the timestamp, at UTC.
    pub fn date(&mut self, timestamp: i64)
        ensures
            final(self)@ == (FieldsV { date: Some(rfc2822_of(timestamp as int)), ..old(self)@ }),
    {
        self.date = Some(rfc2822_utc(timestamp));
    }

    /// Sets From to the rendered mailbox list.
    pub fn from_addr(&mut self, from: &Vec<Mailbox>)
        ensures
            final(self)@ == (FieldsV {
                from: Some(render_mailbox_list(from.deep_view())),
                ..old(self)@
            }),
    {
        self.from = Some(mailbox_list_string(from));
    }

    /// Sets In-Reply-To to the given identifier text.
    pub fn in_reply_to(&mut self, in_reply_to: &str)
        ensures
            final(self)@ == (FieldsV { in_reply_to: Some(in_reply_to@), ..old(self)@ }),
    {
        self.in_reply_to = Some(String::from_str(in_reply_to));
    }

    /// Sets Message-ID to the given identifier text.
    pub fn message_id(&mut self, message_id: &str)
        ensures
            final(self)@ == (FieldsV { message_id: Some(message_id@), ..old(self)@ }),
    {
        self.message_id = Some(String::from_str(message_id));
    }

    /// Sets References to the given identifier chain.
    pub fn references(&mut self, refs: &str)
        ensures
            final(self)@ == (FieldsV { references: Some(refs@), ..old(self)@ }),
    {
        self.references = Some(String::from_str(refs));
    }

    /// Sets Reply-To to the rendered address list.
    pub fn reply_to(&mut self, reply_to: &Vec<EmlAddr>)
        ensures
            final(self)@ == (FieldsV {
                reply_to: Some(render_addr_list(reply_to.deep_view())),
                ..old(self)@
            }),
    {
        self.reply_to = Some(addr_list_string(reply_to));
    }

    /// Sets Sender to the rendered mailbox.
    pub fn sender(&mut self, sender: &Mailbox)
        ensures
            final(self)@ == (FieldsV { sender: Some(render_mailbox(sender@)), ..old(self)@ }),
    {
        self.sender = Some(mailbox_string(sender));
    }

    /// Sets Subject to the given text.
    pub fn subject(&mut self, subject: &str)
        ensures
            final(self)@ == (FieldsV { subject: Some(subject@), ..old(self)@ }),
    {
        self.subject = Some(String::from_str(subject));
    }

    /// Sets To to the rendered address list.
    pub fn to(&mut self, to: &Vec<EmlAddr>)
        ensures
            final(self)@ == (FieldsV { to: Some(render_addr_list(to.deep_view())), ..old(self)@ }),
    {
        self.to = Some(addr_list_string(to));
    }

    /// Renders the stored fields, one `Name: value` line per present field,
    /// in canonical name order, CRLF-joined; a present Bcc renders bare.
    pub fn format_fields(&self) -> (r: String)
        ensures
            r@ == rendered_fields(self@),
    {
        let mut lines: Vec<String> = Vec::new();
        if self.bcc.is_some() {
            lines.push(String::from_str("Bcc:"));
        }
        proof {
            assert(lines.deep_view() =~~= (if self@.bcc is Some {
                Seq::<Seq<char>>::empty().push("Bcc:"@)
            } else {
                Seq::<Seq<char>>::empty()
            }));
        }
        push_line(&mut lines, &self.cc, "Cc: ");
        push_line(&mut lines, &self.date, "Date: ");
        push_line(&mut lines, &self.from, "From: ");
        push_line(&mut lines, &self.in_reply_to, "In-Reply-To: ");
        push_line(&mut lines, &self.message_id, "Message-ID: ");
        push_line(&mut lines, &self.references, "References: ");
        push_line(&mut lines, &self.reply_to, "Reply-To: ");
        push_line(&mut lines, &self.sender, "Sender: ");
        push_line(&mut lines, &self.subject, "Subject: ");
        push_line(&mut lines, &self.to, "To: ");
        proof {
            assert(lines.deep_view() == field_lines(self@));
        }
        join_strings(&lines, "\r\n")
    }

    /// Renders the whole outgoing message around an already-framed body.
    pub fn format_message(&self, body: &str, boundary: &str) -> (r: String)
        ensures
            r@ == rendered_message(self@, body@, boundary@),
    {
        let mut r = self.format_fields();
        r.append("\r\nContent-Type: multipart/mixed; boundary=");
        r.append(boundary);
        r.append("\r\n\r\n");
        r.append(body);
        r.append("\r\n--");
        r.append(boundary);
        r.append("--");
        proof {
            assert(r@ =~= rendered_message(self@, body@, boundary@));
        }
        r
    }
}

/// How many dots the text holds.
pub open spec fn dot_count(s: Seq<char>) -> int
    decreases s.len(),
{
    if s.len() == 0 {
        0
    } else {
        dot_count(s.drop_last()) + if s.last() == '.' {
            1int
        } else {
            0int
        }
    }
}

/// The index of the last dot in the text, if any.
pub open spec fn last_dot(s: Seq<char>) -> Option<int>
    decreases s.len(),
{
    if s.len() == 0 {
        None
    } else if s.last() == '.' {
        Some(s.len() - 1)
    } else {
        last_dot(s.drop_last())
    }
}

proof fn lemma_last_dot_at(s: Seq<char>, d: int)
    requires
        0 <= d < s.len(),
        s[d] == '.',
        forall|j: int| d < j < s.len() ==> s[j] != '.',
    ensures
        last_dot(s) == Some(d),
    decreases s.len(),
{
    if d < s.len() - 1 {
        let t = s.drop_last();
        assert(forall|j: int| 0 <= j < t.len() ==> t[j] == s[j]);
        lemma_last_dot_at(t, d);
    }
}

/// Whether the text is free of line breaks.
pub open spec fn no_newline(s: Seq<char>) -> bool {
    forall|j: int| 0 <= j < s.len() ==> s[j] != '\n'
}

/// Whether an existing Message-ID has the dotted three-field shape
/// `<timestamp.thread.destination>` that the destination rewrite applies
/// to: angle brackets around a middle holding at least two dots, with no
/// line break anywhere.
pub open spec fn mid_rewritable(s: Seq<char>) -> bool {
    &&& s.len() >= 2
    &&& s[0] == '<'
    &&& s[s.len() - 1] == '>'
    &&& dot_count(s.subrange(1, s.len() - 1)) >= 2
    &&& no_newline(s)
}

/// The Message-ID with its destination slot, everything after the last
/// dot, replaced. Meaningful only for a rewritable identifier.
pub open spec fn mid_rewrite(s: Seq<char>, dest: Seq<char>) -> Seq<char>
    recommends
        mid_rewritable(s),
{
    let middle = s.subrange(1, s.len() - 1);
    let d = last_dot(middle)->Some_0;
    "<"@ + middle.take(d) + "."@ + dest + ">"@
}

/// A freshly minted Message-ID: the Date field's timestamp, or `now` when
/// Date is absent or does not parse, an unknown thread slot, and the
/// destination.
pub open spec fn minted_mid(date: Option<Seq<char>>, dest: Seq<char>, now: int) -> Seq<char> {
    let ts = match date {
        Some(d) => match rfc2822_ts(d) {
            Some(t) => t,
            None => now,
        },
        None => now,
    };
    "<"@ + dec_int(ts) + ".unknown."@ + dest + ">"@
}

/// The Message-ID the composer derives for a destination: an existing
/// identifier of the dotted three-field shape has its destination slot
/// rewritten; any other shape, or no prior identifier at all, falls
/// through to minting a fresh one.
pub open spec fn mid_for_destination(f: FieldsV, dest: Seq<char>, now: int) -> Seq<char> {
    match f.message_id {
        Some(curr) => if mid_rewritable(curr) {
            mid_rewrite(curr, dest)
        } else {
            minted_mid(f.date, dest, now)
        },
        None => minted_mid(f.date, dest, now),
    }
}

/// Rewrites the destination slot of a dotted three-field Message-ID;
/// an identifier of any other shape yields nothing, so the caller can
/// mint a fresh one instead.
pub fn rewrite_message_id(s: &str, dest: &str) -> (r: Option<String>)
    ensures
        (r is Some) == mid_rewritable(s@),
        r matches Some(x) ==> x@ == mid_rewrite(s@, dest@),
{
    let v = str_chars(s);
    let n = v.len();
    if n < 2 || v[0] != '<' || v[n - 1] != '>' {
        return None;
    }
    let mut cnt: usize = 0;
    let mut last: usize = 0;
    let mut j: usize = 1;
    while j < n - 1
        invariant
            1 <= j <= n - 1,
            n == v@.len(),
            n >= 2,
            cnt == dot_count(v@.subrange(1, j as int)),
            cnt <= j - 1,
            cnt > 0 ==> 1 <= last < j && v@[last as int] == '.' && (forall|m: int|
                last < m < j ==> v@[m] != '.'),
        decreases n - 1 - j,
    {
        proof {
            assert(v@.subrange(1, j + 1).drop_last() =~= v@.subrange(1, j as int));
            assert(v@.subrange(1, j + 1).last() == v@[j as int]);
        }
        if v[j] == '.' {
            cnt = cnt + 1;
            last = j;
        }
        j = j + 1;
    }
    let nl = find_in_chars(&v, '\n');
    proof {
        lemma_find_char_props(v@, '\n');
    }
    if cnt >= 2 && nl.is_none() {
        let ghost middle = s@.subrange(1, n as int - 1);
        proof {
            assert(forall|m: int| 0 <= m < middle.len() ==> middle[m] == v@[m + 1]);
            lemma_last_dot_at(middle, last as int - 1);
            assert(middle.take(last as int - 1) =~= v@.subrange(1, last as int));
        }
        let prefix = seg_string(&v, 1, last);
        let mut r = String::from_str("<");
        r.append(prefix.as_str());
        r.append(".");
        r.append(dest);
        r.append(">");
        proof {
            assert(r@ =~= mid_rewrite(s@, dest@));
        }
        Some(r)
    } else {
        proof {
            if cnt < 2 {
                assert(s@.subrange(1, n as int - 1) =~= v@.subrange(1, n as int - 1));
                assert(!mid_rewritable(s@));
            } else {
                assert(!no_newline(s@));
            }
        }
        None
    }
}

/// The sender address the field map resolves to: a present Sender must
/// parse to exactly one mailbox; otherwise From must be present and parse
/// to exactly one mailbox. Anything else resolves to nothing.
pub open spec fn resolved_sender(f: FieldsV) -> Option<Seq<char>> {
    match f.sender {
        Some(s) => match parsed_mailboxes(s) {
            Some(l) => if l.len() == 1 {
                Some(l[0].address)
            } else {
                None
            },
            None => None,
        },
        None => match f.from {
            Some(fr) => match parsed_mailboxes(fr) {
                Some(l) => if l.len() == 1 {
                    Some(l[0].address)
                } else {
                    None
                },
                None => None,
            },
            None => None,
        },
    }
}

/// The destination mailboxes one optional address-list field contributes:
/// an absent field contributes none, a present one must parse to bare
/// mailboxes.
pub open spec fn opt_dests(slot: Option<Seq<char>>) -> Option<Seq<MailboxV>> {
    match slot {
        Some(s) => parsed_mailboxes(s),
        None => Some(Seq::empty()),
    }
}

/// The destination set of the field map: the addresses of To, then Cc,
/// then Bcc, in order; nothing when any present field fails to parse.
pub open spec fn destinations_of(f: FieldsV) -> Option<Seq<Seq<char>>> {
    match (opt_dests(f.to), opt_dests(f.cc), opt_dests(f.bcc)) {
        (Some(a), Some(b), Some(c)) => Some(
            (a + b + c).map_values(|m: MailboxV| m.address),
        ),
        _ => None,
    }
}

impl Rfc5322Fields {
    /// Derives the Message-ID for a destination: see `mid_for_destination`.
    pub fn format_message_id_for_destination(&self, dest: &str, now: i64) -> (r: String)
        ensures
            r@ == mid_for_destination(self@, dest@, now as int),
    {
        if let Some(curr) = &self.message_id {
            if let Some(rewritten) = rewrite_message_id(curr.as_str(), dest) {
                return rewritten;
            }
        }
        let ts: i64 = match &self.date {
            Some(d) => match rfc2822_parse_ts(d.as_str()) {
                Some(t) => t,
                None => now,
            },
            None => now,
        };
        let mut r = String::from_str("<");
        let digits = i64_dec(ts);
        r.append(digits.as_str());
        r.append(".unknown.");
        r.append(dest);
        r.append(">");
        proof {
            assert(r@ =~= minted_mid(self@.date, dest@, now as int));
        }
        r
    }

    /// Resolves where a reply should go: Reply-To when present, else From;
    /// with neither, resolution fails.
    pub fn resolve_reply_to(&self) -> (r: Result<String, EmlParseError>)
        ensures
            (r is Ok) == (self@.reply_to is Some || self@.from is Some),
            r matches Ok(s) ==> Some(s@) == (if self@.reply_to is Some {
                self@.reply_to
            } else {
                self@.from
            }),
            r matches Err(e) ==> e@ == (ErrV {
                id: None,
                reason: "Missing header"@,
                within: Some("From"@),
            }),
    {
        if let Some(reply_to) = &self.reply_to {
            return Ok(reply_to.clone());
        }
        match &self.from {
            Some(from) => Ok(from.clone()),
            None => Err(EmlParseError::new().within("From").reason("Missing header")),
        }
    }

    /// Resolves the single sender address: a present Sender must name
    /// exactly one mailbox; otherwise From must name exactly one, since
    /// RFC5322 requires an explicit Sender when From is plural.
    pub fn resolve_sender(&self) -> (r: Result<String, EmlParseError>)
        ensures
            (r is Ok) == (resolved_sender(self@) is Some),
            r matches Ok(a) ==> Some(a@) == resolved_sender(self@),
            (self@.sender matches Some(s) && parsed_mailboxes(s) matches Some(l) && l.len() != 1)
                ==> (r matches Err(e) && e@.reason
                == "Must have exactly one Sender (if present)"@),
            (self@.sender is None && (self@.from matches Some(fr) && (parsed_mailboxes(fr)
                matches Some(l) && l.len() > 1))) ==> (r matches Err(e) && e@.reason
                == "Must set Sender if multiple From addresses"@),
            (self@.sender is None && (self@.from matches Some(fr) && (parsed_mailboxes(fr)
                matches Some(l) && l.len() == 0))) ==> (r matches Err(e) && e@.reason
                == "Missing From address"@),
            (self@.sender is None && self@.from is None) ==> (r matches Err(e) && e@.reason
                == "Missing From header"@),
    {
        if let Some(s) = &self.sender {
            let mboxes = parse_address(s.as_str())?;
            if mboxes.len() != 1 {
                return Err(
                    EmlParseError::new().reason("Must have exactly one Sender (if present)"),
                );
            }
            return Ok(mboxes[0].address.clone());
        }
        let fr = match &self.from {
            Some(x) => x,
            None => {
                return Err(EmlParseError::new().reason("Missing From header"));
            },
        };
        let mboxes = parse_address(fr.as_str())?;
        if mboxes.len() > 1 {
            return Err(EmlParseError::new().reason("Must set Sender if multiple From addresses"));
        }
        if mboxes.len() == 0 {
            return Err(EmlParseError::new().reason("Missing From address"));
        }
        Ok(mboxes[0].address.clone())
    }

    /// Collects the destination addresses of To, then Cc, then Bcc, in
    /// order; each present field must parse to bare mailboxes.
    pub fn destinations(&self) -> (r: Result<Vec<String>, EmlParseError>)
        ensures
            (r is Ok) == (destinations_of(self@) is Some),
            r matches Ok(v) ==> Some(v.deep_view()) == destinations_of(self@),
    {
        let mut out: Vec<String> = Vec::new();
        let to_list = match &self.to {
            Some(s) => parse_address(s.as_str())?,
            None => Vec::new(),
        };
        push_addresses(&mut out, &to_list);
        let cc_list = match &self.cc {
            Some(s) => parse_address(s.as_str())?,
            None => Vec::new(),
        };
        push_addresses(&mut out, &cc_list);
        let bcc_list = match &self.bcc {
            Some(s) => parse_address(s.as_str())?,
            None => Vec::new(),
        };
        push_addresses(&mut out, &bcc_list);
        proof {
            let to_l = opt_dests(self@.to)->Some_0;
            let cc_l = opt_dests(self@.cc)->Some_0;
            let bcc_l = opt_dests(self@.bcc)->Some_0;
            assert(to_list.deep_view() == to_l);
            assert(cc_list.deep_view() == cc_l);
            assert(bcc_list.deep_view() == bcc_l);
            assert(out.deep_view() =~~= (to_l + cc_l + bcc_l).map_values(|m: MailboxV| m.address));
        }
        Ok(out)
    }
}

/// The destination slot a Message-ID carries: the one address when the
/// destination set is a singleton, `@unknown` when it is empty or cannot
/// be computed, `@multiple` otherwise.
pub open spec fn dest_slot(d: Option<Seq<Seq<char>>>) -> Seq<char> {
    match d {
        Some(l) => if l.len() == 0 {
            "@unknown"@
        } else if l.len() == 1 {
            l[0]
        } else {
            "@multiple"@
        },
        None => "@unknown"@,
    }
}

/// The field map a metadata snapshot serializes to: every present header
/// rendered eagerly, From always set, a Message-ID derived for the
/// destination set (minted at `now` when no Date was yet stored), and Date
/// set to the snapshot's timestamp.
pub open spec fn fields_of_meta(m: MetaV, now: int) -> FieldsV {
    let base = FieldsV {
        bcc: match m.bcc {
            Some(l) => Some(render_addr_list(l)),
            None => None,
        },
        cc: match m.cc {
            Some(l) => Some(render_addr_list(l)),
            None => None,
        },
        date: None,
        from: Some(render_mailbox_list(m.from)),
        in_reply_to: m.in_reply_to,
        message_id: None,
        references: m.references,
        reply_to: match m.reply_to {
            Some(l) => Some(render_addr_list(l)),
            None => None,
        },
        sender: match m.sender {
            Some(x) => Some(render_mailbox(x)),
            None => None,
        },
        subject: m.subject,
        to: match m.to {
            Some(l) => Some(render_addr_list(l)),
            None => None,
        },
    };
    FieldsV {
        message_id: Some(
            mid_for_destination(base, dest_slot(destinations_of(base)), now),
        ),
        date: Some(rfc2822_of(m.timestamp)),
        ..base
    }
}

/// The header text an optional slot contributes to re-parsing: absent
/// slots re-parse as the empty text, mirroring the composer.
pub open spec fn or_empty(o: Option<Seq<char>>) -> Seq<char> {
    match o {
        Some(s) => s,
        None => ""@,
    }
}

/// Whether an optional address-list slot re-parses.
pub open spec fn opt_slot_ok(o: Option<Seq<char>>) -> bool {
    wire_addrs(or_empty(o)) is Some
}

/// The address list an optional slot re-parses to: an empty list folds
/// back to an absent header.
pub open spec fn opt_slot_val(o: Option<Seq<char>>) -> Option<Seq<AddrV>> {
    match wire_addrs(or_empty(o)) {
        Some(l) => if l.len() == 0 {
            None
        } else {
            Some(l)
        },
        None => None,
    }
}

/// Whether the Sender slot re-parses to at most one single mailbox.
pub open spec fn sender_slot_ok(o: Option<Seq<char>>) -> bool {
    match wire_addrs(or_empty(o)) {
        Some(l) => l.len() == 0 || (l.len() == 1 && l[0] is Single),
        None => false,
    }
}

/// The mailbox the Sender slot re-parses to, if any.
pub open spec fn sender_slot_val(o: Option<Seq<char>>) -> Option<MailboxV> {
    match wire_addrs(or_empty(o)) {
        Some(l) => if l.len() == 0 {
            None
        } else {
            Some(addr_mailbox(l[0]))
        },
        None => None,
    }
}

/// Whether re-deriving a metadata snapshot from the field map succeeds:
/// Bcc, Cc, Reply-To and To must re-parse, From must be present and
/// re-parse to one or more bare mailboxes, and Sender must name at most
/// one mailbox.
pub open spec fn fields_to_meta_ok(f: FieldsV) -> bool {
    &&& list_slot_ok(f.bcc)
    &&& list_slot_ok(f.cc)
    &&& from_slot_ok(f.from)
    &&& opt_slot_ok(f.reply_to)
    &&& sender_slot_ok(f.sender)
    &&& opt_slot_ok(f.to)
}

/// The metadata snapshot the field map re-derives to. The store-assigned
/// identifiers and tags are not recoverable and are left empty.
pub open spec fn meta_of_fields(f: FieldsV) -> MetaV {
    MetaV {
        bcc: match f.bcc {
            Some(s) => wire_addrs(s),
            None => None,
        },
        cc: match f.cc {
            Some(s) => wire_addrs(s),
            None => None,
        },
        from: match f.from {
            Some(s) => parsed_mailboxes(s)->Some_0,
            None => Seq::empty(),
        },
        id: Seq::empty(),
        id_thread: Seq::empty(),
        in_reply_to: f.in_reply_to,
        received_by: None,
        references: f.references,
        reply_to: opt_slot_val(f.reply_to),
        sender: sender_slot_val(f.sender),
        subject: f.subject,
        tags: Seq::empty(),
        to: opt_slot_val(f.to),
        timestamp: match rfc2822_ts(or_empty(f.date)) {
            Some(t) => t,
            None => 0,
        },
    }
}

fn opt_list_or_empty(v: &Option<String>, hdr: &str) -> (r: Result<
    Option<Vec<EmlAddr>>,
    EmlParseError,
>)
    ensures
        (r is Ok) == opt_slot_ok(v.deep_view()),
        r matches Ok(x) ==> x.deep_view() == opt_slot_val(v.deep_view()),
{
    let s: &str = match v {
        Some(x) => x.as_str(),
        None => "",
    };
    match addrparse_wire(s) {
        Err(e) => {
            let reason = mail_err_reason(&e);
            Err(EmlParseError::new().within(hdr).reason(reason.as_str()))
        },
        Ok(x) => if x.len() == 0 {
            Ok(None)
        } else {
            Ok(Some(x))
        },
    }
}

fn sender_mailbox(v: &Option<String>) -> (r: Result<Option<Mailbox>, EmlParseError>)
    ensures
        (r is Ok) == sender_slot_ok(v.deep_view()),
        r matches Ok(x) ==> x.deep_view() == sender_slot_val(v.deep_view()),
        (wire_addrs(or_empty(v.deep_view())) matches Some(l) && l.len() >= 2) ==> (r matches Err(e)
            && e@ == (ErrV { id: None, reason: "Too many Senders"@, within: Some("Sender"@) })),
{
    let s: &str = match v {
        Some(x) => x.as_str(),
        None => "",
    };
    let addrs = match addrparse_wire(s) {
        Ok(x) => x,
        Err(e) => {
            let reason = mail_err_reason(&e);
            return Err(EmlParseError::new().within("Sender").reason(reason.as_str()));
        },
    };
    if addrs.len() == 0 {
        Ok(None)
    } else if addrs.len() == 1 {
        match &addrs[0] {
            EmlAddr::Single(m) => Ok(Some(m.clone())),
            EmlAddr::Group { .. } => Err(EmlParseError::new().reason("Expected single mailbox")),
        }
    } else {
        Err(EmlParseError::new().within("Sender").reason("Too many Senders"))
    }
}

impl Rfc5322Fields {
    /// Serializes a metadata snapshot into a field map, deriving the
    /// Message-ID from the destination set; a fresh identifier is minted at
    /// `now`, since no Date is stored before the derivation.
    pub fn from_meta(meta: &EmlMeta, now: i64) -> (r: Self)
        ensures
            r@ == fields_of_meta(meta@, now as int),
    {
        let mut fields = Self::new();
        if let Some(cc) = &meta.cc {
            fields.cc(cc);
        }
        if let Some(bcc) = &meta.bcc {
            fields.bcc(bcc);
        }
        if let Some(irt) = &meta.in_reply_to {
            fields.in_reply_to(irt.as_str());
        }
        if let Some(refs) = &meta.references {
            fields.references(refs.as_str());
        }
        if let Some(rt) = &meta.reply_to {
            fields.reply_to(rt);
        }
        if let Some(snd) = &meta.sender {
            fields.sender(snd);
        }
        if let Some(sub) = &meta.subject {
            fields.subject(sub.as_str());
        }
        if let Some(to) = &meta.to {
            fields.to(to);
        }
        fields.from_addr(&meta.from);
        let dest = match fields.destinations() {
            Ok(dests) => {
                if dests.len() == 0 {
                    String::from_str("@unknown")
                } else if dests.len() == 1 {
                    dests[0].clone()
                } else {
                    String::from_str("@multiple")
                }
            },
            Err(_) => String::from_str("@unknown"),
        };
        let mid = fields.format_message_id_for_destination(dest.as_str(), now);
        fields.message_id(mid.as_str());
        fields.date(meta.timestamp);
        fields
    }

    /// Re-derives a metadata snapshot from the field map, parsing each
    /// rendered header back into structured form; the store-assigned
    /// identifiers and tags are not recoverable and are left empty. From
    /// must re-parse to one or more bare mailboxes.
    pub fn try_into_meta(self) -> (r: Result<EmlMeta, EmlParseError>)
        ensures
            (r is Ok) == fields_to_meta_ok(self@),
            r matches Ok(v) ==> v@ == meta_of_fields(self@),
            (list_slot_ok(self@.bcc) && list_slot_ok(self@.cc) && self@.from is None) ==> (
            r matches Err(e) && e@ == (ErrV {
                id: None,
                reason: "Missing header"@,
                within: Some("From"@),
            })),
            (list_slot_ok(self@.bcc) && list_slot_ok(self@.cc) && from_slot_ok(self@.from)
                && opt_slot_ok(self@.reply_to) && (wire_addrs(or_empty(self@.sender))
                matches Some(l) && l.len() >= 2)) ==> (r matches Err(e) && e@ == (ErrV {
                id: None,
                reason: "Too many Senders"@,
                within: Some("Sender"@),
            })),
    {
        let bcc = opt_addr_list(None, &self.bcc, "Bcc")?;
        let cc = opt_addr_list(None, &self.cc, "Cc")?;
        let from = match &self.from {
            Some(s) => from_mailboxes(None, s)?,
            None => {
                return Err(EmlParseError::new().within("From").reason("Missing header"));
            },
        };
        if from.len() == 0 {
            return Err(EmlParseError::new().within("From").reason("Missing From address"));
        }
        let reply_to = opt_list_or_empty(&self.reply_to, "Reply-To")?;
        let sender = sender_mailbox(&self.sender)?;
        let to = opt_list_or_empty(&self.to, "To")?;
        let timestamp: i64 = {
            let d: &str = match &self.date {
                Some(x) => x.as_str(),
                None => "",
            };
            match rfc2822_parse_ts(d) {
                Some(t) => t,
                None => 0,
            }
        };
        let meta = EmlMeta {
            cc,
            bcc,
            from,
            id: String::new(),
            id_thread: String::new(),
            in_reply_to: clone_opt_string(&self.in_reply_to),
            received_by: None,
            references: clone_opt_string(&self.references),
            reply_to,
            sender,
            subject: clone_opt_string(&self.subject),
            tags: Vec::new(),
            to,
            timestamp,
        };
        proof {
            assert(meta.tags.deep_view() =~= Seq::<Seq<char>>::empty());
            assert(meta@ == meta_of_fields(self@));
        }
        Ok(meta)
    }
}

/// The destination set of a snapshot: the member addresses of To, then
/// Cc, then Bcc, in order, each list's own order kept; nothing when any
/// slot holds a group.
pub open spec fn meta_destinations(m: MetaV) -> Option<Seq<Seq<char>>> {
    let slots = (match m.to {
        Some(l) => l,
        None => Seq::empty(),
    }) + (match m.cc {
        Some(l) => l,
        None => Seq::empty(),
    }) + (match m.bcc {
        Some(l) => l,
        None => Seq::empty(),
    });
    if all_single(slots) {
        Some(slots.map_values(|a: AddrV| addr_mailbox(a).address))
    } else {
        None
    }
}

fn push_single_addresses(out: &mut Vec<String>, l: &Vec<EmlAddr>) -> (r: Result<
    (),
    EmlParseError,
>)
    ensures
        (r is Ok) == all_single(l.deep_view()),
        r is Ok ==> final(out).deep_view() == old(out).deep_view() + l.deep_view().map_values(
            |a: AddrV| addr_mailbox(a).address,
        ),
{
    let mut i: usize = 0;
    while i < l.len()
        invariant
            i <= l@.len(),
            out@.len() == old(out)@.len() + i,
            forall|j: int| 0 <= j < old(out)@.len() ==> out@[j] == old(out)@[j],
            forall|j: int| 0 <= j < i ==> l@[j]@ is Single,
            forall|j: int| 0 <= j < i ==> out@[old(out)@.len() + j]@ == addr_mailbox(l@[j]@).address,
        decreases l@.len() - i,
    {
        match &l[i] {
            EmlAddr::Single(m) => {
                out.push(m.address.clone());
            },
            EmlAddr::Group { .. } => {
                proof {
                    assert(l.deep_view()[i as int] == l@[i as int]@);
                    assert(!(l.deep_view()[i as int] is Single));
                }
                return Err(EmlParseError::new().reason("Expected single mailbox"));
            },
        }
        i = i + 1;
    }
    proof {
        assert(all_single(l.deep_view()));
        assert(out.deep_view() =~~= old(out).deep_view() + l.deep_view().map_values(
            |a: AddrV| addr_mailbox(a).address,
        ));
    }
    Ok(())
}

impl EmlMeta {
    /// The destination addresses of this snapshot: the members of To, then
    /// Cc, then Bcc, in order; a group in any of them is refused.
    pub fn destinations(&self) -> (r: Result<Vec<String>, EmlParseError>)
        ensures
            (r is Ok) == (meta_destinations(self@) is Some),
            r matches Ok(v) ==> Some(v.deep_view()) == meta_destinations(self@),
    {
        let ghost slots = (match self@.to {
            Some(l) => l,
            None => Seq::empty(),
        }) + (match self@.cc {
            Some(l) => l,
            None => Seq::empty(),
        }) + (match self@.bcc {
            Some(l) => l,
            None => Seq::empty(),
        });
        let ghost to_part: Seq<AddrV> = match self@.to {
            Some(l) => l,
            None => Seq::empty(),
        };
        let ghost cc_part: Seq<AddrV> = match self@.cc {
            Some(l) => l,
            None => Seq::empty(),
        };
        let mut out: Vec<String> = Vec::new();
        if let Some(l) = &self.to {
            match push_single_addresses(&mut out, l) {
                Ok(()) => {},
                Err(e) => {
                    proof {
                        let j = choose|j: int|
                            0 <= j < l.deep_view().len() && !(l.deep_view()[j] is Single);
                        assert(slots[j] == l.deep_view()[j]);
                        assert(!all_single(slots));
                    }
                    return Err(e);
                },
            }
        }
        if let Some(l) = &self.cc {
            match push_single_addresses(&mut out, l) {
                Ok(()) => {},
                Err(e) => {
                    proof {
                        let j = choose|j: int|
                            0 <= j < l.deep_view().len() && !(l.deep_view()[j] is Single);
                        assert(slots[to_part.len() + j] == l.deep_view()[j]);
                        assert(!all_single(slots));
                    }
                    return Err(e);
                },
            }
        }
        if let Some(l) = &self.bcc {
            match push_single_addresses(&mut out, l) {
                Ok(()) => {},
                Err(e) => {
                    proof {
                        let j = choose|j: int|
                            0 <= j < l.deep_view().len() && !(l.deep_view()[j] is Single);
                        assert(slots[to_part.len() + cc_part.len() + j] == l.deep_view()[j]);
                        assert(!all_single(slots));
                    }
                    return Err(e);
                },
            }
        }
        proof {
            assert(out.deep_view() =~~= slots.map_values(|a: AddrV| addr_mailbox(a).address));
        }
        Ok(out)
    }

    /// Where a reply to this snapshot goes: its rendered Reply-To when
    /// present, else its rendered From.
    pub fn resolve_reply_to(&self) -> (r: Result<String, EmlParseError>)
        ensures
            r is Ok,
            r matches Ok(s) ==> s@ == (if self@.reply_to is Some {
                render_addr_list(self@.reply_to->Some_0)
            } else {
                render_mailbox_list(self@.from)
            }),
    {
        let fields = Rfc5322Fields::from_meta(self, 0);
        fields.resolve_reply_to()
    }

    /// The single sender address of this snapshot's serialized fields.
    pub fn resolve_sender(&self) -> (r: Result<String, EmlParseError>)
        ensures
            (r is Ok) == (resolved_sender(fields_of_meta(self@, 0)) is Some),
            r matches Ok(a) ==> Some(a@) == resolved_sender(fields_of_meta(self@, 0)),
    {
        let fields = Rfc5322Fields::from_meta(self, 0);
        fields.resolve_sender()
    }
}

} // verus!
