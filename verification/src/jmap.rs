//! The decision and message-building half of email sending: choosing
//! the inbox and the sending identity among what the mail server
//! reports, and assembling the RFC-style message text. The network
//! calls themselves live outside the library.

use vstd::prelude::*;

use crate::strutil::push_char;

verus! {

/// A displayable address: a name and the address itself.
#[derive(Debug)]
pub struct EmailAddress {
    pub name: String,
    pub email: String,
}

#[verifier::ext_equal]
pub struct EmailAddressV {
    pub name: Seq<char>,
    pub email: Seq<char>,
}

/// An address rendered as `Name <user@host>`.
pub open spec fn email_address_display(a: EmailAddressV) -> Seq<char> {
    a.name + " <"@ + a.email + ">"@
}

impl EmailAddress {
    pub open spec fn v(self) -> EmailAddressV {
        EmailAddressV { name: self.name@, email: self.email@ }
    }

    pub fn new(name: &str, email: &str) -> (r: EmailAddress)
        ensures
            r.v() == (EmailAddressV { name: name@, email: email@ }),
    {
        let r = EmailAddress { name: String::from_str(name), email: String::from_str(email) };
        assert(r.v() =~= EmailAddressV { name: name@, email: email@ });
        r
    }

    /// A copy with the same view.
    pub fn duplicate(&self) -> (r: EmailAddress)
        ensures
            r.v() == self.v(),
    {
        let r = EmailAddress { name: self.name.clone(), email: self.email.clone() };
        assert(r.v() =~= self.v());
        r
    }

    /// Renders the address as `Name <user@host>`.
    pub fn display(&self) -> (r: String)
        ensures
            r@ == email_address_display(self.v()),
    {
        let mut r = self.name.clone();
        r.append(" <");
        r.append(self.email.as_str());
        r.append(">");
        assert(r@ =~= email_address_display(self.v()));
        r
    }
}

/// One email to be sent: its recipient, subject and body.
#[derive(Debug)]
pub struct Email {
    pub to: EmailAddress,
    pub subject: String,
    pub body: String,
}

#[verifier::ext_equal]
pub struct EmailV {
    pub to: EmailAddressV,
    pub subject: Seq<char>,
    pub body: Seq<char>,
}

impl Email {
    pub open spec fn v(self) -> EmailV {
        EmailV { to: self.to.v(), subject: self.subject@, body: self.body@ }
    }
}

/// The text with every `\n` replaced by `\r\n`.
pub open spec fn crlf_escaped(s: Seq<char>) -> Seq<char>
    decreases s.len(),
{
    if s.len() == 0 {
        Seq::empty()
    } else {
        crlf_escaped(s.drop_last()) + if s.last() == '\n' {
            seq!['\r', '\n']
        } else {
            seq![s.last()]
        }
    }
}

proof fn lemma_crlf_step(s: Seq<char>, i: int)
    requires
        0 <= i < s.len(),
    ensures
        crlf_escaped(s.take(i + 1)) == crlf_escaped(s.take(i)) + if s[i] == '\n' {
            seq!['\r', '\n']
        } else {
            seq![s[i]]
        },
{
    assert(s.take(i + 1).drop_last() =~= s.take(i));
    assert(s.take(i + 1).last() == s[i]);
}

/// Replaces every `\n` with `\r\n`.
fn to_crlf(s: &str) -> (r: String)
    ensures
        r@ == crlf_escaped(s@),
{
    let n = s.unicode_len();
    let mut r = String::new();
    let mut i: usize = 0;
    while i < n
        invariant
            i <= n,
            n == s@.len(),
            r@ == crlf_escaped(s@.take(i as int)),
        decreases n - i,
    {
        let c = s.get_char(i);
        if c == '\n' {
            push_char(&mut r, '\r');
            push_char(&mut r, '\n');
        } else {
            push_char(&mut r, c);
        }
        proof {
            lemma_crlf_step(s@, i as int);
            assert(r@ =~= crlf_escaped(s@.take(i + 1)));
        }
        i = i + 1;
    }
    assert(s@.take(n as int) =~= s@);
    r
}

/// The full message text: `To`, `From` and `Subject` headers, a blank
/// line, and the body with CRLF line endings, CRLF-terminated.
pub open spec fn rfc_message_str(
    from: EmailAddressV,
    to: EmailAddressV,
    subject: Seq<char>,
    body: Seq<char>,
) -> Seq<char> {
    "To: "@ + email_address_display(to) + seq!['\r', '\n'] + "From: "@ + email_address_display(
        from,
    ) + seq!['\r', '\n'] + "Subject: "@ + subject + seq!['\r', '\n'] + seq!['\r', '\n']
        + crlf_escaped(body) + seq!['\r', '\n']
}

impl Email {
    /// Assembles the message text that is handed to the mail transport.
    pub fn rfc_message(&self, from: &EmailAddress) -> (r: String)
        ensures
            r@ == rfc_message_str(from.v(), self.to.v(), self.subject@, self.body@),
    {
        let mut r = String::from_str("To: ");
        let to_disp = self.to.display();
        r.append(to_disp.as_str());
        push_char(&mut r, '\r');
        push_char(&mut r, '\n');
        r.append("From: ");
        let from_disp = from.display();
        r.append(from_disp.as_str());
        push_char(&mut r, '\r');
        push_char(&mut r, '\n');
        r.append("Subject: ");
        r.append(self.subject.as_str());
        push_char(&mut r, '\r');
        push_char(&mut r, '\n');
        push_char(&mut r, '\r');
        push_char(&mut r, '\n');
        let body = to_crlf(self.body.as_str());
        r.append(body.as_str());
        push_char(&mut r, '\r');
        push_char(&mut r, '\n');
        assert(r@ =~= rfc_message_str(from.v(), self.to.v(), self.subject@, self.body@));
        r
    }
}

/// What the reconciler needs to know of one mailbox the server reports.
#[derive(Debug)]
pub struct Mailbox {
    pub id: String,
    pub role: MailboxRole,
}

/// Whether a mailbox is the account's inbox.
#[derive(Clone, Copy, PartialEq, Eq, Structural, Debug)]
pub enum MailboxRole {
    Inbox,
    Other,
}

#[verifier::ext_equal]
pub struct MailboxV {
    pub id: Seq<char>,
    pub role: MailboxRole,
}

impl Mailbox {
    pub open spec fn v(self) -> MailboxV {
        MailboxV { id: self.id@, role: self.role }
    }
}

pub open spec fn mailboxes_view(s: Seq<Mailbox>) -> Seq<MailboxV> {
    s.map_values(|m: Mailbox| m.v())
}

/// One sending identity the server reports.
#[derive(Debug)]
pub struct Identity {
    pub id: Option<String>,
    pub name: Option<String>,
    pub email: Option<String>,
}

#[verifier::ext_equal]
pub struct IdentityV {
    pub id: Option<Seq<char>>,
    pub name: Option<Seq<char>>,
    pub email: Option<Seq<char>>,
}

pub open spec fn opt_view(s: Option<String>) -> Option<Seq<char>> {
    match s {
        Option::Some(x) => Option::Some(x@),
        Option::None => Option::None,
    }
}

impl Identity {
    pub open spec fn v(self) -> IdentityV {
        IdentityV { id: opt_view(self.id), name: opt_view(self.name), email: opt_view(self.email) }
    }
}

pub open spec fn identities_view(s: Seq<Identity>) -> Seq<IdentityV> {
    s.map_values(|i: Identity| i.v())
}

/// The inbox that a scan of the mailboxes settles on: the last one with
/// the inbox role, as each later match supersedes the earlier.
pub open spec fn find_inbox_spec(s: Seq<MailboxV>) -> Option<Seq<char>>
    decreases s.len(),
{
    if s.len() == 0 {
        Option::None
    } else if s.last().role == MailboxRole::Inbox {
        Option::Some(s.last().id)
    } else {
        find_inbox_spec(s.drop_last())
    }
}

/// Whether an identity belongs to the given sender: it names exactly
/// the sender's address and name.
pub open spec fn identity_matches(i: IdentityV, from: EmailAddressV) -> bool {
    i.email == Option::Some(from.email) && i.name == Option::Some(from.name)
}

/// The identity a scan settles on: the last one matching the sender.
pub open spec fn find_identity_spec(s: Seq<IdentityV>, from: EmailAddressV) -> Option<IdentityV>
    decreases s.len(),
{
    if s.len() == 0 {
        Option::None
    } else if identity_matches(s.last(), from) {
        Option::Some(s.last())
    } else {
        find_identity_spec(s.drop_last(), from)
    }
}

/// Why a sending identity could not be set up.
#[derive(Clone, Copy, PartialEq, Eq, Structural, Debug)]
pub enum JmapError {
    NoInbox,
    NoIdentity,
    IdentityMissingId,
}

pub open spec fn jmap_error_str(e: JmapError) -> Seq<char> {
    match e {
        JmapError::NoInbox => "Unable to find Inbox ID"@,
        JmapError::NoIdentity => "Unable to find sending identity"@,
        JmapError::IdentityMissingId => "Identity has no ID"@,
    }
}

impl JmapError {
    /// A short description of the failure.
    pub fn describe(&self) -> (r: &'static str)
        ensures
            r@ == jmap_error_str(*self),
    {
        match self {
            JmapError::NoInbox => "Unable to find Inbox ID",
            JmapError::NoIdentity => "Unable to find sending identity",
            JmapError::IdentityMissingId => "Identity has no ID",
        }
    }
}

/// Everything needed to send mail as one sender: the sender's address,
/// the inbox to file into, and the server-side identity to submit with.
#[derive(Debug)]
pub struct SendingIdentity {
    pub from: EmailAddress,
    pub mailbox_id: String,
    pub identity_id: String,
}

impl SendingIdentity {
    /// Chooses the inbox and the sending identity among what the server
    /// reports. Fails exactly when no mailbox has the inbox role, when
    /// no identity matches the sender, or when the matching identity
    /// carries no id.
    pub fn new(from: EmailAddress, mailboxes: &Vec<Mailbox>, identities: &Vec<Identity>) -> (r:
        Result<SendingIdentity, JmapError>)
        ensures
            match find_inbox_spec(mailboxes_view(mailboxes@)) {
                Option::None => r == Result::<SendingIdentity, JmapError>::Err(JmapError::NoInbox),
                Option::Some(mid) => match find_identity_spec(
                    identities_view(identities@),
                    from.v(),
                ) {
                    Option::None => r == Result::<SendingIdentity, JmapError>::Err(
                        JmapError::NoIdentity,
                    ),
                    Option::Some(ident) => match ident.id {
                        Option::None => r == Result::<SendingIdentity, JmapError>::Err(
                            JmapError::IdentityMissingId,
                        ),
                        Option::Some(iid) => r is Ok && r->Ok_0.from.v() == from.v()
                            && r->Ok_0.mailbox_id@ == mid && r->Ok_0.identity_id@ == iid,
                    },
                },
            },
    {
        let ghost mv = mailboxes_view(mailboxes@);
        let mut mailbox_id: Option<String> = Option::None;
        let mut i: usize = 0;
        while i < mailboxes.len()
            invariant
                i <= mailboxes.len(),
                mv == mailboxes_view(mailboxes@),
                mv.len() == mailboxes@.len(),
                opt_view(mailbox_id) == find_inbox_spec(mv.take(i as int)),
            decreases mailboxes.len() - i,
        {
            let m = &mailboxes[i];
            proof {
                assert(mv.take(i + 1).drop_last() =~= mv.take(i as int));
                assert(mv.take(i + 1).last() == mv[i as int]);
                assert(mv[i as int] == mailboxes@[i as int].v());
            }
            match m.role {
                MailboxRole::Inbox => mailbox_id = Option::Some(m.id.clone()),
                MailboxRole::Other => (),
            }
            i = i + 1;
        }
        assert(mv.take(mailboxes.len() as int) =~= mv);
        let mailbox_id = match mailbox_id {
            Option::Some(mid) => mid,
            Option::None => {
                return Result::Err(JmapError::NoInbox);
            },
        };

        let ghost iv = identities_view(identities@);
        let mut identity: Option<&Identity> = Option::None;
        let mut k: usize = 0;
        while k < identities.len()
            invariant
                k <= identities.len(),
                iv == identities_view(identities@),
                iv.len() == identities@.len(),
                match identity {
                    Option::Some(ident) => find_identity_spec(iv.take(k as int), from.v())
                        == Option::Some(ident.v()),
                    Option::None => find_identity_spec(iv.take(k as int), from.v()) is None,
                },
            decreases identities.len() - k,
        {
            let ident = &identities[k];
            proof {
                assert(iv.take(k + 1).drop_last() =~= iv.take(k as int));
                assert(iv.take(k + 1).last() == iv[k as int]);
                assert(iv[k as int] == identities@[k as int].v());
            }
            let email_matches = match (&ident.email, &from.email) {
                (Option::Some(e), f) => *e == *f,
                (Option::None, _) => false,
            };
            let name_matches = match (&ident.name, &from.name) {
                (Option::Some(n), f) => *n == *f,
                (Option::None, _) => false,
            };
            if email_matches && name_matches {
                assert(identity_matches(iv[k as int], from.v()));
                identity = Option::Some(ident);
            } else {
                assert(!identity_matches(iv[k as int], from.v()));
            }
            k = k + 1;
        }
        assert(iv.take(identities.len() as int) =~= iv);
        let identity = match identity {
            Option::Some(ident) => ident,
            Option::None => {
                return Result::Err(JmapError::NoIdentity);
            },
        };
        let identity_id = match &identity.id {
            Option::Some(iid) => iid.clone(),
            Option::None => {
                return Result::Err(JmapError::IdentityMissingId);
            },
        };
        Result::Ok(SendingIdentity { from, mailbox_id, identity_id })
    }
}

} // verus!
