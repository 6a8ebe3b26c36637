//! The RFC5322 composer: body line-wrapping, attachment framing, whole
//! message rendering, and reply templating with thread derivation.

use vstd::prelude::*;

use crate::addresses::clone_addr_list;
use crate::addresses::clone_opt_addr_list;
use crate::addresses::mailbox_plain_string;
use crate::addresses::render_mailbox_plain;
use crate::addresses::AddrV;
use crate::addresses::EmlAddr;
use crate::addresses::Mailbox;
use crate::addresses::MailboxV;
use crate::error::EmlParseError;
use crate::error::ErrV;
use crate::headers::addr_mailbox;
use crate::headers::all_single;
use crate::headers::fields_of_meta;
use crate::headers::EmlMeta;
use crate::headers::MetaV;
use crate::headers::Rfc5322Fields;
use crate::headers::rendered_message;
use crate::mime::plaintext;
use crate::mime::plaintext_of;
use crate::mime::EmlBody;
use crate::outside::base64_of;
use crate::outside::base64_string;
use crate::outside::fill_text;
use crate::outside::guessed_mime;
use crate::outside::mime_from_path;
use crate::outside::rfc2822_of;
use crate::outside::rfc2822_utc;
use crate::outside::wrapped;
use crate::strutil::str_chars;

verus! {

/// A reply template: the derived header snapshot and the quoted body.
pub struct ReplyTemplate {
    pub meta: EmlMeta,
    pub body: String,
}

/// The mathematical value of an `Attachment`.
pub ghost struct AttachmentV {
    pub name: Seq<char>,
    pub path: Seq<char>,
}

/// One attachment to compose into an outgoing message: the filename to
/// declare and the path its payload was read from.
pub struct Attachment {
    pub name: String,
    pub path: String,
}

impl View for Attachment {
    type V = AttachmentV;

    open spec fn view(&self) -> AttachmentV {
        AttachmentV { name: self.name@, path: self.path@ }
    }
}

impl DeepView for Attachment {
    type V = AttachmentV;

    open spec fn deep_view(&self) -> AttachmentV {
        self@
    }
}

/// The text with every line break normalized to CRLF, mirroring a single
/// left-to-right pass: a bare `\n` gains a `\r`, an existing CRLF is kept
/// verbatim, and a `\n` directly behind a just-normalized one is left
/// alone, since the pass has moved past it.
pub open spec fn crlf_norm(s: Seq<char>, at_start: bool) -> Seq<char>
    decreases s.len(),
{
    if s.len() == 0 {
        s
    } else if at_start && s[0] == '\n' {
        seq!['\r', '\n'] + crlf_norm(s.skip(1), false)
    } else if s[0] != '\r' && s.len() >= 2 && s[1] == '\n' {
        seq![s[0], '\r', '\n'] + crlf_norm(s.skip(2), false)
    } else {
        seq![s[0]] + crlf_norm(s.skip(1), false)
    }
}

/// Normalizes every bare `\n` to CRLF, leaving existing CRLF breaks as
/// they are.
pub fn crlf_normalize(s: &str) -> (r: String)
    ensures
        r@ == crlf_norm(s@, true),
{
    let v = str_chars(s);
    let mut out = String::new();
    let mut i: usize = 0;
    proof {
        assert(s@.skip(0) =~= s@);
        assert(out@ + crlf_norm(s@, true) =~= crlf_norm(s@, true));
    }
    while i < v.len()
        invariant
            i <= v.len(),
            v@ == s@,
            out@ + crlf_norm(s@.skip(i as int), i == 0) =~= crlf_norm(s@, true),
        decreases v.len() - i,
    {
        let ghost rem = s@.skip(i as int);
        proof {
            assert(rem.len() == v@.len() - i);
            assert(rem[0] == v@[i as int]);
            if v@.len() - i >= 2 {
                assert(rem[1] == v@[i as int + 1]);
            }
        }
        if i == 0 && v[0] == '\n' {
            out.append("\r\n");
            proof {
                assert(rem.skip(1) =~= s@.skip(1));
                assert(seq!['\r', '\n'] =~= "\r\n"@) by {
                    reveal_strlit("\r\n");
                }
                assert(out@ + crlf_norm(s@.skip(1), false) =~= crlf_norm(s@, true));
            }
            i = 1;
        } else if v[i] != '\r' && v.len() - i >= 2 && v[i + 1] == '\n' {
            out.push(v[i]);
            out.append("\r\n");
            proof {
                reveal_strlit("\r\n");
                assert("\r\n"@ =~= seq!['\r', '\n']);
                assert(rem.skip(2) =~= s@.skip(i as int + 2));
                assert(crlf_norm(rem, i == 0) == seq![rem[0], '\r', '\n'] + crlf_norm(
                    rem.skip(2),
                    false,
                ));
                assert(out@ + crlf_norm(s@.skip(i as int + 2), false) =~= crlf_norm(s@, true));
            }
            i = i + 2;
        } else {
            out.push(v[i]);
            proof {
                assert(rem.skip(1) =~= s@.skip(i as int + 1));
                assert(crlf_norm(rem, i == 0) == seq![rem[0]] + crlf_norm(rem.skip(1), false));
                assert(out@ + crlf_norm(s@.skip(i as int + 1), false) =~= crlf_norm(s@, true));
            }
            i = i + 1;
        }
    }
    proof {
        assert(s@.skip(v@.len() as int) =~= Seq::<char>::empty());
        assert(crlf_norm(Seq::<char>::empty(), false).len() == 0);
        assert(out@ =~= crlf_norm(s@, true));
    }
    out
}

/// Law: text whose every line break is already CRLF passes through the
/// normalization verbatim; only a bare `\n` is touched.
pub proof fn lemma_crlf_preserves_crlf(s: Seq<char>, at_start: bool)
    requires
        at_start && s.len() > 0 ==> s[0] != '\n',
        forall|i: int| 0 < i < s.len() && #[trigger] s[i] == '\n' ==> s[i - 1] == '\r',
    ensures
        crlf_norm(s, at_start) == s,
    decreases s.len(),
{
    if s.len() > 0 {
        let rest = s.drop_first();
        assert(forall|j: int| 0 <= j < rest.len() ==> rest[j] == s[j + 1]);
        if s.len() >= 2 && s[1] == '\n' {
            assert(s[0] == '\r');
        }
        lemma_crlf_preserves_crlf(rest, false);
        assert(seq![s[0]] + rest =~= s);
    }
}

/// One framed MIME part: boundary line, its three content headers, a blank
/// line, the content, and a trailing blank line.
pub open spec fn part_rendered(
    boundary: Seq<char>,
    ctype: Seq<char>,
    ctencoding: Seq<char>,
    disposition: Seq<char>,
    content: Seq<char>,
) -> Seq<char> {
    "--"@ + boundary + "\r\nContent-Type: "@ + ctype + "\r\nContent-Transfer-Encoding: "@
        + ctencoding + "\r\nContent-Disposition: "@ + disposition + "\r\n\r\n"@ + content
        + "\r\n\r\n"@
}

/// Frames one MIME part with its boundary and content headers.
pub fn format_part(
    boundary: &str,
    ctype: &str,
    ctencoding: &str,
    disposition: &str,
    content: &str,
) -> (r: String)
    ensures
        r@ == part_rendered(boundary@, ctype@, ctencoding@, disposition@, content@),
{
    let mut r = String::from_str("--");
    r.append(boundary);
    r.append("\r\nContent-Type: ");
    r.append(ctype);
    r.append("\r\nContent-Transfer-Encoding: ");
    r.append(ctencoding);
    r.append("\r\nContent-Disposition: ");
    r.append(disposition);
    r.append("\r\n\r\n");
    r.append(content);
    r.append("\r\n\r\n");
    proof {
        assert(r@ =~= part_rendered(boundary@, ctype@, ctencoding@, disposition@, content@));
    }
    r
}

/// The body text wrapped to 78 display columns for human readability,
/// with every line break normalized to CRLF.
pub open spec fn body_rendered(s: Seq<char>) -> Seq<char> {
    crlf_norm(wrapped(s, 78), true)
}

/// Wraps plain body text to at most 78 columns per line, CRLF-terminated.
pub fn format_body(body: &str) -> (r: String)
    ensures
        r@ == body_rendered(body@),
{
    let filled = fill_text(body, 78);
    crlf_normalize(filled.as_str())
}

/// An attachment payload hard-wrapped at the binary-safe 998-column MIME
/// limit, with every line break normalized to CRLF.
pub open spec fn attachment_rendered(s: Seq<char>) -> Seq<char> {
    crlf_norm(wrapped(s, 998), true)
}

/// Hard-wraps base64 attachment text at 998 columns, CRLF-terminated.
pub fn format_attachment(content: &str) -> (r: String)
    ensures
        r@ == attachment_rendered(content@),
{
    let filled = fill_text(content, 998);
    crlf_normalize(filled.as_str())
}

/// One attachment framed as a MIME part: content type guessed from the
/// file name, base64 payload, attachment disposition naming the file.
pub open spec fn att_part(a: AttachmentV, payload: Seq<u8>) -> Seq<char> {
    part_rendered(
        "amail-boundary"@,
        guessed_mime(a.path),
        "base64"@,
        "attachment; filename="@ + a.name,
        attachment_rendered(base64_of(payload)),
    )
}

/// The attachment parts concatenated in order.
pub open spec fn atts_parts(atts: Seq<AttachmentV>, payloads: Seq<Seq<u8>>) -> Seq<char>
    decreases atts.len(),
{
    if atts.len() == 0 {
        Seq::empty()
    } else {
        att_part(atts[0], payloads[0]) + atts_parts(atts.drop_first(), payloads.drop_first())
    }
}

proof fn lemma_atts_parts_snoc(atts: Seq<AttachmentV>, payloads: Seq<Seq<u8>>, i: int)
    requires
        0 <= i < atts.len(),
        atts.len() == payloads.len(),
    ensures
        atts_parts(atts.take(i + 1), payloads.take(i + 1)) == atts_parts(
            atts.take(i),
            payloads.take(i),
        ) + att_part(atts[i], payloads[i]),
    decreases i,
{
    if i == 0 {
        assert(atts.take(1).drop_first() =~= atts.take(0));
        assert(payloads.take(1).drop_first() =~= payloads.take(0));
        assert(atts_parts(atts.take(0), payloads.take(0)).len() == 0);
        assert(atts_parts(atts.take(1), payloads.take(1)) =~= atts_parts(
            atts.take(0),
            payloads.take(0),
        ) + att_part(atts[0], payloads[0]));
    } else {
        lemma_atts_parts_snoc(atts.drop_first(), payloads.drop_first(), i - 1);
        assert(atts.take(i + 1).drop_first() =~= atts.drop_first().take(i));
        assert(payloads.take(i + 1).drop_first() =~= payloads.drop_first().take(i));
        assert(atts.take(i).drop_first() =~= atts.drop_first().take(i - 1));
        assert(payloads.take(i).drop_first() =~= payloads.drop_first().take(i - 1));
        assert(atts.drop_first()[i - 1] == atts[i]);
        assert(payloads.drop_first()[i - 1] == payloads[i]);
        assert(atts.drop_first().take(i - 1 + 1) =~= atts.drop_first().take(i));
        assert(atts_parts(atts.take(i + 1), payloads.take(i + 1)) =~= atts_parts(
            atts.take(i),
            payloads.take(i),
        ) + att_part(atts[i], payloads[i]));
    }
}

/// The whole outgoing message: the snapshot's rendered fields around a
/// multipart/mixed body of the wrapped text part followed by the framed
/// attachments.
pub open spec fn message_rendered(
    m: MetaV,
    body: Seq<char>,
    atts: Seq<AttachmentV>,
    payloads: Seq<Seq<u8>>,
    now: int,
) -> Seq<char> {
    let text_part = part_rendered(
        "amail-boundary"@,
        "text/plain; charset=utf-8"@,
        "8bit"@,
        "inline"@,
        body_rendered(body),
    );
    rendered_message(
        fields_of_meta(m, now),
        text_part + atts_parts(atts, payloads),
        "amail-boundary"@,
    )
}

/// Renders a complete outgoing message: the snapshot's headers, the body
/// wrapped for reading, and each attachment payload base64-encoded and
/// framed, all inside one multipart/mixed envelope. `payloads` holds the
/// bytes of each attachment, in the same order; `now` stamps a fresh
/// Message-ID when the snapshot carries none.
pub fn format_message(
    meta: &EmlMeta,
    body: &str,
    attachments: &Vec<Attachment>,
    payloads: &Vec<Vec<u8>>,
    now: i64,
) -> (r: String)
    requires
        attachments@.len() == payloads@.len(),
    ensures
        r@ == message_rendered(
            meta@,
            body@,
            attachments.deep_view(),
            payloads.deep_view(),
            now as int,
        ),
{
    let wrapped_body = format_body(body);
    let mut parts = format_part(
        "amail-boundary",
        "text/plain; charset=utf-8",
        "8bit",
        "inline",
        wrapped_body.as_str(),
    );
    let ghost text_part = parts@;
    let mut i: usize = 0;
    while i < attachments.len()
        invariant
            i <= attachments@.len(),
            attachments@.len() == payloads@.len(),
            parts@ == text_part + atts_parts(
                attachments.deep_view().take(i as int),
                payloads.deep_view().take(i as int),
            ),
        decreases attachments@.len() - i,
    {
        let ctype = mime_from_path(attachments[i].path.as_str());
        let mut disp = String::from_str("attachment; filename=");
        disp.append(attachments[i].name.as_str());
        let encoded = base64_string(payloads[i].as_slice());
        let framed_content = format_attachment(encoded.as_str());
        let part = format_part(
            "amail-boundary",
            ctype.as_str(),
            "base64",
            disp.as_str(),
            framed_content.as_str(),
        );
        parts.append(part.as_str());
        proof {
            lemma_atts_parts_snoc(attachments.deep_view(), payloads.deep_view(), i as int);
            assert(attachments.deep_view()[i as int] == attachments@[i as int]@);
            assert(payloads.deep_view()[i as int] =~= payloads@[i as int]@);
            assert(parts@ =~= text_part + atts_parts(
                attachments.deep_view().take(i as int + 1),
                payloads.deep_view().take(i as int + 1),
            ));
        }
        i = i + 1;
    }
    proof {
        assert(attachments.deep_view().take(attachments@.len() as int) =~= attachments.deep_view());
        assert(payloads.deep_view().take(payloads@.len() as int) =~= payloads.deep_view());
    }
    let fields = Rfc5322Fields::from_meta(meta, now);
    fields.format_message(parts.as_str(), "amail-boundary")
}

/// The quoted reply body: a blank separator, an attribution line naming
/// when and by whom the original was written, and the original's plaintext
/// or a placeholder when it has none.
pub open spec fn reply_body(m: MetaV, pt: Option<Seq<char>>) -> Seq<char> {
    "\r\n\r\nOn "@ + rfc2822_of(m.timestamp) + ", "@ + (if m.from.len() > 0 {
        render_mailbox_plain(m.from.last())
    } else {
        Seq::empty()
    }) + " wrote:\r\n"@ + (match pt {
        Some(p) => p,
        None => "[no plaintext]"@,
    })
}

/// Builds the quoted body of a reply to the given message.
pub fn template_body(meta: &EmlMeta, body: &EmlBody) -> (r: String)
    ensures
        r@ == reply_body(meta@, plaintext_of(*body)),
{
    let mut r = String::from_str("\r\n\r\nOn ");
    let date = rfc2822_utc(meta.timestamp);
    r.append(date.as_str());
    r.append(", ");
    if meta.from.len() > 0 {
        let who = mailbox_plain_string(&meta.from[meta.from.len() - 1]);
        r.append(who.as_str());
        proof {
            assert(meta.from.deep_view()[meta.from@.len() - 1] == meta.from@[meta.from@.len()
                - 1]@);
        }
    }
    r.append(" wrote:\r\n");
    match plaintext(body) {
        Some(p) => r.append(p.as_str()),
        None => r.append("[no plaintext]"),
    }
    proof {
        assert(r@ =~= reply_body(meta@, plaintext_of(*body)));
    }
    r
}

/// The reply snapshot derived from the original: Cc carried forward as it
/// stands, Date set to `now`, the threading headers extended with the
/// original's identifier, and the addressing swapped — the new From is the
/// original To's mailboxes, the new To is the original Reply-To when
/// present, else the original From promoted to single slots.
pub open spec fn reply_meta_of(m: MetaV, now: int) -> MetaV {
    MetaV {
        cc: m.cc,
        bcc: None,
        from: (match m.to {
            Some(l) => l,
            None => Seq::empty(),
        }).map_values(|a: AddrV| addr_mailbox(a)),
        id: Seq::empty(),
        id_thread: Seq::empty(),
        in_reply_to: Some("<"@ + m.id + ">"@),
        received_by: None,
        references: Some(
            (match m.references {
                Some(x) => x,
                None => Seq::empty(),
            }) + " <"@ + m.id + ">"@,
        ),
        reply_to: None,
        sender: None,
        subject: Some(
            match m.subject {
                Some(x) => x,
                None => Seq::empty(),
            },
        ),
        tags: Seq::empty(),
        to: Some(
            match m.reply_to {
                Some(rt) => rt,
                None => m.from.map_values(|mb: MailboxV| AddrV::Single(mb)),
            },
        ),
        timestamp: now,
    }
}

/// Builds a reply template for the given message: the swapped, re-threaded
/// header snapshot and the quoted body. Succeeds exactly when the original
/// names one or more single-mailbox To entries to become the reply's
/// authors; a missing To, a group in To, or a To with no mailboxes at all
/// is refused.
pub fn template_reply(meta: &EmlMeta, body: &EmlBody, now: i64) -> (r: Result<
    ReplyTemplate,
    EmlParseError,
>)
    ensures
        (r is Ok) == (meta@.to matches Some(l) && all_single(l) && l.len() >= 1),
        r matches Ok(t) ==> t.meta@ == reply_meta_of(meta@, now as int) && t.body@ == reply_body(
            meta@,
            plaintext_of(*body),
        ),
        meta@.to is None ==> (r matches Err(e) && e@ == (ErrV {
            id: None,
            reason: "Missing header"@,
            within: Some("From"@),
        })),
        (meta@.to matches Some(l) && all_single(l) && l.len() == 0) ==> (r matches Err(e) && e@
            == (ErrV { id: None, reason: "Missing From address"@, within: Some("From"@) })),
{
    let original_to = match &meta.to {
        Some(t) => t,
        None => {
            return Err(EmlParseError::new().within("From").reason("Missing header"));
        },
    };
    let mut from: Vec<Mailbox> = Vec::new();
    let mut i: usize = 0;
    while i < original_to.len()
        invariant
            i <= original_to@.len(),
            meta@.to == Some(original_to.deep_view()),
            from@.len() == i,
            forall|j: int| 0 <= j < i ==> original_to@[j]@ is Single,
            forall|j: int| 0 <= j < i ==> from@[j]@ == addr_mailbox(original_to@[j]@),
        decreases original_to@.len() - i,
    {
        match original_to[i].to_mailbox() {
            Ok(m) => from.push(m),
            Err(e) => {
                proof {
                    assert(original_to.deep_view()[i as int] == original_to@[i as int]@);
                    assert(!(original_to@[i as int]@ is Single));
                }
                return Err(e);
            },
        }
        i = i + 1;
    }
    proof {
        assert(from.deep_view() =~~= original_to.deep_view().map_values(
            |a: AddrV| addr_mailbox(a),
        ));
    }
    if from.len() == 0 {
        return Err(EmlParseError::new().within("From").reason("Missing From address"));
    }
    let mut irt = String::from_str("<");
    irt.append(meta.id.as_str());
    irt.append(">");
    let mut refs = match &meta.references {
        Some(x) => x.clone(),
        None => String::new(),
    };
    refs.append(" <");
    refs.append(meta.id.as_str());
    refs.append(">");
    let new_to: Vec<EmlAddr> = match &meta.reply_to {
        Some(rt) => clone_addr_list(rt),
        None => singles_of(&meta.from),
    };
    let new_meta = EmlMeta {
        cc: clone_opt_addr_list(&meta.cc),
        bcc: None,
        from,
        id: String::new(),
        id_thread: String::new(),
        in_reply_to: Some(irt),
        received_by: None,
        references: Some(refs),
        reply_to: None,
        sender: None,
        subject: Some(
            match &meta.subject {
                Some(x) => x.clone(),
                None => String::new(),
            },
        ),
        tags: Vec::new(),
        to: Some(new_to),
        timestamp: now,
    };
    let new_body = template_body(meta, body);
    proof {
        assert(new_meta.tags.deep_view() =~= Seq::<Seq<char>>::empty());
        assert(irt@ =~= "<"@ + meta@.id + ">"@);
        assert(refs@ =~= (match meta@.references {
            Some(x) => x,
            None => Seq::<char>::empty(),
        }) + " <"@ + meta@.id + ">"@);
        assert(new_meta@ == reply_meta_of(meta@, now as int));
    }
    Ok(ReplyTemplate { meta: new_meta, body: new_body })
}

/// Each From author promoted to a single address-list slot.
fn singles_of(from: &Vec<Mailbox>) -> (r: Vec<EmlAddr>)
    ensures
        r.deep_view() == from.deep_view().map_values(|mb: MailboxV| AddrV::Single(mb)),
{
    let mut r: Vec<EmlAddr> = Vec::new();
    let mut i: usize = 0;
    while i < from.len()
        invariant
            i <= from@.len(),
            r@.len() == i,
            forall|j: int| 0 <= j < i ==> r@[j]@ == AddrV::Single(from@[j]@),
        decreases from@.len() - i,
    {
        r.push(EmlAddr::Single(from[i].clone()));
        i = i + 1;
    }
    proof {
        assert(r.deep_view() =~~= from.deep_view().map_values(|mb: MailboxV| AddrV::Single(mb)));
    }
    r
}

} // verus!
