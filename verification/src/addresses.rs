//! The address model: a single mailbox, an address-list entry that may be
//! a named group, and their wire renderings.

use vstd::prelude::*;

use crate::error::EmlParseError;
use crate::error::ErrV;
use crate::strutil::join_with;
use crate::strutil::join_strings;

verus! {

/// The mathematical value of a `Mailbox`.
pub ghost struct MailboxV {
    pub name: Seq<char>,
    pub address: Seq<char>,
}

/// One mailbox: a display name, possibly empty, and a bare address spec.
#[derive(Debug)]
pub struct Mailbox {
    pub name: String,
    pub address: String,
}

impl View for Mailbox {
    type V = MailboxV;

    open spec fn view(&self) -> MailboxV {
        MailboxV { name: self.name@, address: self.address@ }
    }
}

impl DeepView for Mailbox {
    type V = MailboxV;

    open spec fn deep_view(&self) -> MailboxV {
        self@
    }
}

impl Clone for Mailbox {
    fn clone(&self) -> (r: Self)
        ensures
            r == *self,
    {
        Mailbox { name: self.name.clone(), address: self.address.clone() }
    }
}

impl PartialEq for Mailbox {
    fn eq(&self, other: &Self) -> (r: bool) {
        self.name == other.name && self.address == other.address
    }
}

impl vstd::std_specs::cmp::PartialEqSpecImpl for Mailbox {
    open spec fn obeys_eq_spec() -> bool {
        true
    }

    open spec fn eq_spec(&self, other: &Self) -> bool {
        self@ == other@
    }
}

/// The mathematical value of an `EmlAddr`.
pub ghost enum AddrV {
    Single(MailboxV),
    Group { name: Seq<char>, members: Seq<MailboxV> },
}

/// One slot of an address-list header: a single mailbox, or a named group
/// of mailboxes.
#[derive(Debug)]
pub enum EmlAddr {
    Single(Mailbox),
    Group { name: String, members: Vec<Mailbox> },
}

impl View for EmlAddr {
    type V = AddrV;

    open spec fn view(&self) -> AddrV {
        match self {
            EmlAddr::Single(m) => AddrV::Single(m@),
            EmlAddr::Group { name, members } => AddrV::Group {
                name: name@,
                members: members.deep_view(),
            },
        }
    }
}

impl DeepView for EmlAddr {
    type V = AddrV;

    open spec fn deep_view(&self) -> AddrV {
        self@
    }
}

impl Clone for EmlAddr {
    fn clone(&self) -> (r: Self)
        ensures
            r@ == self@,
    {
        match self {
            EmlAddr::Single(m) => EmlAddr::Single(m.clone()),
            EmlAddr::Group { name, members } => {
                let mut ms: Vec<Mailbox> = Vec::new();
                let mut i: usize = 0;
                while i < members.len()
                    invariant
                        i <= members.len(),
                        ms@.len() == i,
                        forall|j: int| 0 <= j < i ==> ms@[j]@ == members@[j]@,
                    decreases members.len() - i,
                {
                    ms.push(members[i].clone());
                    i = i + 1;
                }
                proof {
                    assert(ms.deep_view() =~~= members.deep_view());
                }
                EmlAddr::Group { name: name.clone(), members: ms }
            },
        }
    }
}

/// The wire rendering of one mailbox: the name always quoted, even when
/// empty, and the address in angle brackets.
pub open spec fn render_mailbox(m: MailboxV) -> Seq<char> {
    "\""@ + m.name + "\" <"@ + m.address + ">"@
}

/// Copies an address list.
pub fn clone_addr_list(l: &Vec<EmlAddr>) -> (r: Vec<EmlAddr>)
    ensures
        r.deep_view() == l.deep_view(),
{
    let mut r: Vec<EmlAddr> = Vec::new();
    let mut i: usize = 0;
    while i < l.len()
        invariant
            i <= l.len(),
            r@.len() == i,
            forall|j: int| 0 <= j < i ==> r@[j]@ == l@[j]@,
        decreases l.len() - i,
    {
        r.push(l[i].clone());
        i = i + 1;
    }
    proof {
        assert(r.deep_view() =~~= l.deep_view());
    }
    r
}

/// Copies an optional address list.
pub fn clone_opt_addr_list(o: &Option<Vec<EmlAddr>>) -> (r: Option<Vec<EmlAddr>>)
    ensures
        r.deep_view() == o.deep_view(),
{
    match o {
        Some(l) => Some(clone_addr_list(l)),
        None => None,
    }
}

/// The attribution rendering of one mailbox: the name bare, the address
/// in angle brackets.
pub open spec fn render_mailbox_plain(m: MailboxV) -> Seq<char> {
    m.name + " <"@ + m.address + ">"@
}

/// Renders one mailbox for a reply attribution line. Total: never fails.
pub fn mailbox_plain_string(m: &Mailbox) -> (r: String)
    ensures
        r@ == render_mailbox_plain(m@),
{
    let mut r = m.name.clone();
    r.append(" <");
    r.append(m.address.as_str());
    r.append(">");
    proof {
        assert(r@ =~= render_mailbox_plain(m@));
    }
    r
}

/// The wire rendering of one address-list slot: a group renders as
/// `name: member, member;`, a single mailbox as its own rendering.
pub open spec fn render_addr(a: AddrV) -> Seq<char> {
    match a {
        AddrV::Single(m) => render_mailbox(m),
        AddrV::Group { name, members } => name + ": "@ + join_with(
            members.map_values(|m: MailboxV| render_mailbox(m)),
            ", "@,
        ) + ";"@,
    }
}

/// The wire rendering of a whole mailbox list, comma-joined.
pub open spec fn render_mailbox_list(l: Seq<MailboxV>) -> Seq<char> {
    join_with(l.map_values(|m: MailboxV| render_mailbox(m)), ","@)
}

/// The wire rendering of a whole address list, comma-joined.
pub open spec fn render_addr_list(l: Seq<AddrV>) -> Seq<char> {
    join_with(l.map_values(|a: AddrV| render_addr(a)), ","@)
}

/// Renders one mailbox to its wire form. Total: never fails.
pub fn mailbox_string(m: &Mailbox) -> (r: String)
    ensures
        r@ == render_mailbox(m@),
{
    let mut r = String::from_str("\"");
    r.append(m.name.as_str());
    r.append("\" <");
    r.append(m.address.as_str());
    r.append(">");
    proof {
        assert(r@ =~= render_mailbox(m@));
    }
    r
}

/// Renders one address-list slot to its wire form. Total: never fails.
pub fn addr_string(a: &EmlAddr) -> (r: String)
    ensures
        r@ == render_addr(a@),
{
    match a {
        EmlAddr::Single(m) => mailbox_string(m),
        EmlAddr::Group { name, members } => {
            let mut parts: Vec<String> = Vec::new();
            let mut i: usize = 0;
            while i < members.len()
                invariant
                    i <= members.len(),
                    parts@.len() == i,
                    forall|j: int| 0 <= j < i ==> parts@[j]@ == render_mailbox(members@[j]@),
                decreases members.len() - i,
            {
                parts.push(mailbox_string(&members[i]));
                i = i + 1;
            }
            let mut r = name.clone();
            r.append(": ");
            let joined = join_strings(&parts, ", ");
            r.append(joined.as_str());
            r.append(";");
            proof {
                assert(parts.deep_view() =~~= members.deep_view().map_values(
                    |m: MailboxV| render_mailbox(m),
                ));
                assert(r@ =~= render_addr(a@));
            }
            r
        },
    }
}

/// Renders a mailbox list to its wire form, comma-joined.
pub fn mailbox_list_string(l: &Vec<Mailbox>) -> (r: String)
    ensures
        r@ == render_mailbox_list(l.deep_view()),
{
    let mut parts: Vec<String> = Vec::new();
    let mut i: usize = 0;
    while i < l.len()
        invariant
            i <= l.len(),
            parts@.len() == i,
            forall|j: int| 0 <= j < i ==> parts@[j]@ == render_mailbox(l@[j]@),
        decreases l.len() - i,
    {
        parts.push(mailbox_string(&l[i]));
        i = i + 1;
    }
    proof {
        assert(parts.deep_view() =~~= l.deep_view().map_values(
            |m: MailboxV| render_mailbox(m),
        ));
    }
    join_strings(&parts, ",")
}

/// Renders an address list to its wire form, comma-joined.
pub fn addr_list_string(l: &Vec<EmlAddr>) -> (r: String)
    ensures
        r@ == render_addr_list(l.deep_view()),
{
    let mut parts: Vec<String> = Vec::new();
    let mut i: usize = 0;
    while i < l.len()
        invariant
            i <= l.len(),
            parts@.len() == i,
            forall|j: int| 0 <= j < i ==> parts@[j]@ == render_addr(l@[j]@),
        decreases l.len() - i,
    {
        parts.push(addr_string(&l[i]));
        i = i + 1;
    }
    proof {
        assert(parts.deep_view() =~~= l.deep_view().map_values(
            |a: AddrV| render_addr(a),
        ));
    }
    join_strings(&parts, ",")
}

impl EmlAddr {
    /// The single mailbox this slot holds; a group is refused, naming it.
    pub fn to_mailbox(&self) -> (r: Result<Mailbox, EmlParseError>)
        ensures
            self@ matches AddrV::Single(m) ==> (r matches Ok(got) && got@ == m),
            self@ matches AddrV::Group { name, .. } ==> (r matches Err(e) && e@ == (ErrV {
                id: None,
                reason: "Not a single mailbox: "@ + name,
                within: None,
            })),
    {
        match self {
            EmlAddr::Single(m) => Ok(m.clone()),
            EmlAddr::Group { name, .. } => {
                let mut reason = String::from_str("Not a single mailbox: ");
                reason.append(name.as_str());
                Err(EmlParseError::new().reason(reason.as_str()))
            },
        }
    }
}

} // verus!
