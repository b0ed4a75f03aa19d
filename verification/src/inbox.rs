//! The mail client's state: the user's identities and which one is logged
//! in, and the inbox of the active identity.

use crate::message::Message;
use rsa::pkcs1::DecodeRsaPrivateKey;
use rsa::{RsaPrivateKey, RsaPublicKey};
use vstd::prelude::*;
use vstd::string::StringExecFns;

verus! {

#[verifier::external_type_specification]
#[verifier::external_body]
pub struct ExRsaPublicKey(RsaPublicKey);

#[verifier::external_type_specification]
#[verifier::external_body]
pub struct ExRsaPrivateKey(RsaPrivateKey);

#[verifier::external_type_specification]
#[verifier::external_body]
pub struct ExPkcs1Error(rsa::pkcs1::Error);

/// Copies a public key: `<RsaPublicKey as Clone>::clone`, which the derived
/// copies of `PemPublicKey` call. Nothing is claimed of the copy.
pub assume_specification[ <RsaPublicKey as Clone>::clone ](key: &RsaPublicKey) -> RsaPublicKey;

/// Whether `pem` is a PEM-encoded PKCS#1 RSA private key that `rsa` accepts.
pub uninterp spec fn pkcs1_pem_parses(pem: Seq<char>) -> bool;

/// An RSA private key together with the PEM text it was parsed from.
pub struct PemPrivateKey {
    pem: String,
    key: RsaPrivateKey,
}

/// The public half of an RSA private key, together with the PEM text that
/// private key was parsed from.
#[derive(Clone)]
pub struct PemPublicKey {
    pem: String,
    key: RsaPublicKey,
}

impl PemPrivateKey {
    /// The PEM text the key was parsed from.
    pub closed spec fn source(&self) -> Seq<char> {
        self.pem@
    }

    /// The key.
    pub fn key(&self) -> &RsaPrivateKey {
        &self.key
    }

    /// The PEM text the key was parsed from.
    pub fn pem(&self) -> (p: &str)
        ensures
            p@ == self.source(),
    {
        self.pem.as_str()
    }
}

impl PemPublicKey {
    /// The PEM text of the private key whose public half this is.
    pub closed spec fn source(&self) -> Seq<char> {
        self.pem@
    }

    /// The key.
    pub fn key(&self) -> &RsaPublicKey {
        &self.key
    }

    /// The PEM text of the private key whose public half this is.
    pub fn pem(&self) -> (p: &str)
        ensures
            p@ == self.source(),
    {
        self.pem.as_str()
    }
}

/// Parses a PKCS#1 RSA private key from PEM:
/// `<RsaPrivateKey as DecodeRsaPrivateKey>::from_pkcs1_pem`, kept beside a
/// copy of the text. Claimed: it succeeds exactly on the texts that
/// `pkcs1_pem_parses` names, which depends on the text alone, and the key is
/// kept with the very text it was parsed from.
#[verifier::external_body]
fn rsa_private_key_from_pem(pem: &str) -> (r: Result<PemPrivateKey, rsa::pkcs1::Error>)
    ensures
        r is Ok <==> pkcs1_pem_parses(pem@),
        r matches Ok(k) ==> k.source() == pem@,
{
    match RsaPrivateKey::from_pkcs1_pem(pem) {
        Ok(key) => Ok(PemPrivateKey { pem: pem.to_owned(), key }),
        Err(e) => Err(e),
    }
}

/// The public half of a private key: `RsaPrivateKey::to_public_key`, kept
/// beside a copy of the private key's PEM text. Claimed: the public key is
/// kept with the text of the private key it was taken from.
#[verifier::external_body]
fn rsa_public_key(key: &PemPrivateKey) -> (p: PemPublicKey)
    ensures
        p.source() == key.source(),
{
    PemPublicKey { pem: key.pem.clone(), key: key.key.to_public_key() }
}

/// `s` repeated `n` times.
pub open spec fn repeated(s: Seq<char>, n: nat) -> Seq<char>
    decreases n,
{
    if n == 0 {
        Seq::<char>::empty()
    } else {
        repeated(s, (n - 1) as nat) + s
    }
}

/// `s` repeated `n` times.
fn str_repeat(s: &str, n: usize) -> (r: String)
    ensures
        r@ == repeated(s@, n as nat),
{
    let mut r = String::new();
    let mut i: usize = 0;
    while i < n
        invariant
            i <= n,
            r@ == repeated(s@, i as nat),
        decreases n - i,
    {
        r.append(s);
        i = i + 1;
    }
    r
}

/// One identity of the user: a mail address and its public key.
#[derive(Clone)]
pub struct Identity {
    pub id: usize,
    pub pub_key: PemPublicKey,
    pub alias: String,
}

/// The first screen of the client.
#[derive(PartialEq, Eq, Structural, Clone, Copy, Debug)]
pub enum AppScreen {
    /// No identity yet: create or import one.
    GetOrCreateIdentity,
    /// An identity is logged in: its inbox.
    UserInbox,
    /// Choose which identity to log in with.
    IdentifiersList,
}

/// The two mail identities of the demo client: "ian.clarke@freenet.org"
/// (id 0) with the public half of the private key in `identity_1_pem`, and
/// "other.stuff@freenet.org" (id 1) with that of `identity_2_pem`. Fails
/// when either key does not parse, the first one's failure first.
pub fn demo_contracts(identity_1_pem: &str, identity_2_pem: &str) -> (r: Result<
    Vec<Identity>,
    rsa::pkcs1::Error,
>)
    ensures
        r is Ok <==> pkcs1_pem_parses(identity_1_pem@) && pkcs1_pem_parses(identity_2_pem@),
        r matches Ok(ids) ==> {
            &&& ids@.len() == 2
            &&& ids@[0].id == 0
            &&& ids@[0].alias@ == "ian.clarke@freenet.org"@
            &&& ids@[1].id == 1
            &&& ids@[1].alias@ == "other.stuff@freenet.org"@
            &&& ids@[0].pub_key.source() == identity_1_pem@
            &&& ids@[1].pub_key.source() == identity_2_pem@
        },
{
    let key_1 = match rsa_private_key_from_pem(identity_1_pem) {
        Ok(key) => key,
        Err(e) => return Err(e),
    };
    let key_2 = match rsa_private_key_from_pem(identity_2_pem) {
        Ok(key) => key,
        Err(e) => return Err(e),
    };
    let mut contracts: Vec<Identity> = Vec::new();
    contracts.push(
        Identity { id: 0, alias: "ian.clarke@freenet.org".to_owned(), pub_key: rsa_public_key(&key_1) },
    );
    contracts.push(
        Identity { id: 1, alias: "other.stuff@freenet.org".to_owned(), pub_key: rsa_public_key(&key_2) },
    );
    Ok(contracts)
}

/// The user of the client.
pub struct User {
    logged: bool,
    identified: bool,
    active_id: Option<usize>,
    identities: Vec<Identity>,
    private_key: Option<PemPrivateKey>,
}

/// The abstract state of a user.
pub struct UserView {
    pub logged: bool,
    pub identified: bool,
    pub active_id: Option<usize>,
    pub identities: Seq<Identity>,
    pub private_key_source: Option<Seq<char>>,
}

impl View for User {
    type V = UserView;

    closed spec fn view(&self) -> UserView {
        UserView {
            logged: self.logged,
            identified: self.identified,
            active_id: self.active_id,
            identities: self.identities@,
            private_key_source: match self.private_key {
                Some(k) => Some(k.source()),
                None => None,
            },
        }
    }
}

impl UserView {
    /// The identity logged in, if the active index names one.
    pub open spec fn logged_id(self) -> Option<Identity> {
        match self.active_id {
            Some(i) => if i < self.identities.len() {
                Some(self.identities[i as int])
            } else {
                None
            },
            None => None,
        }
    }

    /// The first screen: identity creation without an identity, the inbox
    /// when one is logged in, else the choice of identity.
    pub open spec fn app_screen(self) -> AppScreen {
        if !self.identified {
            AppScreen::GetOrCreateIdentity
        } else if self.logged_id() is Some {
            AppScreen::UserInbox
        } else {
            AppScreen::IdentifiersList
        }
    }
}

impl User {
    /// The user of the demo client: identified, logged out, with two
    /// identities, "ian.clarke@freenet.org" (id 0) and
    /// "other.stuff@freenet.org" (id 1), both with the public half of the
    /// private key in `private_key_pem`. Fails when the key does not parse.
    pub fn new(private_key_pem: &str) -> (r: Result<User, rsa::pkcs1::Error>)
        ensures
            r is Ok <==> pkcs1_pem_parses(private_key_pem@),
            r matches Ok(u) ==> {
                &&& !u@.logged
                &&& u@.identified
                &&& u@.active_id is None
                &&& u@.private_key_source == Some(private_key_pem@)
                &&& u@.identities[0].pub_key.source() == private_key_pem@
                &&& u@.identities[1].pub_key.source() == private_key_pem@
                &&& u@.identities.len() == 2
                &&& u@.identities[0].id == 0
                &&& u@.identities[0].alias@ == "ian.clarke@freenet.org"@
                &&& u@.identities[1].id == 1
                &&& u@.identities[1].alias@ == "other.stuff@freenet.org"@
            },
    {
        let priv_key = match rsa_private_key_from_pem(private_key_pem) {
            Ok(key) => key,
            Err(e) => return Err(e),
        };
        let mut identities: Vec<Identity> = Vec::new();
        identities.push(
            Identity {
                alias: "ian.clarke@freenet.org".to_owned(),
                id: 0,
                pub_key: rsa_public_key(&priv_key),
            },
        );
        identities.push(
            Identity {
                alias: "other.stuff@freenet.org".to_owned(),
                id: 1,
                pub_key: rsa_public_key(&priv_key),
            },
        );
        Ok(
            User {
                logged: false,
                identified: true,
                active_id: None,
                identities,
                private_key: Some(priv_key),
            },
        )
    }

    /// The identity logged in, if any.
    pub fn logged_id(&self) -> (r: Option<&Identity>)
        ensures
            r == match self@.logged_id() {
                Some(i) => Some(&i),
                None => None::<&Identity>,
            },
    {
        match self.active_id {
            Some(id) => if id < self.identities.len() {
                Some(&self.identities[id])
            } else {
                None
            },
            None => None,
        }
    }

    /// Logs in with the identity at index `id`.
    pub fn set_logged_id(&mut self, id: usize)
        requires
            id < old(self)@.identities.len(),
        ensures
            final(self)@ == (UserView { active_id: Some(id), ..old(self)@ }),
    {
        self.active_id = Some(id);
    }

    /// Logs out.
    pub fn log_out(&mut self)
        ensures
            final(self)@ == (UserView { logged: false, active_id: None, ..old(self)@ }),
    {
        self.logged = false;
        self.active_id = None;
    }

    /// Whether the user has an identity.
    pub fn is_identified(&self) -> (b: bool)
        ensures
            b == self@.identified,
    {
        self.identified
    }

    /// The user's identities.
    pub fn identities(&self) -> (ids: &Vec<Identity>)
        ensures
            ids@ == self@.identities,
    {
        &self.identities
    }

    /// The user's private key, if known.
    pub fn private_key(&self) -> (k: Option<&PemPrivateKey>)
        ensures
            k is Some == self@.private_key_source is Some,
            k matches Some(key) ==> self@.private_key_source == Some(key.source()),
    {
        match &self.private_key {
            Some(key) => Some(key),
            None => None,
        }
    }

    /// The first screen of the client.
    pub fn app_screen(&self) -> (s: AppScreen)
        ensures
            s == self@.app_screen(),
    {
        if !self.identified {
            AppScreen::GetOrCreateIdentity
        } else if self.logged_id().is_some() {
            AppScreen::UserInbox
        } else {
            AppScreen::IdentifiersList
        }
    }
}

/// The text of the demo messages' bodies, before repetition.
pub open spec fn lorem() -> Seq<char> {
    "Lorem ipsum dolor sit amet, consectetur adipiscing elit..."@
}

/// `m` is the unread demo message with these id, sender and title.
pub open spec fn is_demo_message(m: Message, id: u64, from: Seq<char>, title: Seq<char>) -> bool {
    &&& m.id == id
    &&& m.from@ == from
    &&& m.title@ == title
    &&& m.content@ == repeated(lorem(), 10)
    &&& !m.read
}

/// `messages` with those whose ids are in `ids` marked read.
pub open spec fn marked_read(messages: Seq<Message>, ids: Seq<u64>) -> Seq<Message> {
    Seq::new(
        messages.len(),
        |i: int|
            if ids.contains(messages[i].id) {
                Message { read: true, ..messages[i] }
            } else {
                messages[i]
            },
    )
}

/// The messages are sorted by id.
pub open spec fn sorted_by_id(messages: Seq<Message>) -> bool {
    forall|i: int, j: int| 0 <= i <= j < messages.len() ==> messages[i].id <= messages[j].id
}

/// `ids` holds `id`.
fn contains_id(ids: &[u64], id: u64) -> (b: bool)
    ensures
        b == ids@.contains(id),
{
    let mut i: usize = 0;
    while i < ids.len()
        invariant
            i <= ids@.len(),
            forall|j: int| 0 <= j < i ==> ids@[j] != id,
        decreases ids@.len() - i,
    {
        if ids[i] == id {
            assert(ids@[i as int] == id);
            return true;
        }
        i = i + 1;
    }
    false
}

/// The inbox of the active identity.
pub struct Inbox {
    inbox_ids: Vec<Identity>,
    messages: Vec<Message>,
    active_id: usize,
}

/// The abstract state of an inbox.
pub struct InboxView {
    pub inbox_ids: Seq<Identity>,
    pub messages: Seq<Message>,
    pub active_id: usize,
}

impl View for Inbox {
    type V = InboxView;

    closed spec fn view(&self) -> InboxView {
        InboxView { inbox_ids: self.inbox_ids@, messages: self.messages@, active_id: self.active_id }
    }
}

impl Inbox {
    /// An empty inbox for the identities `contracts`, the first one active.
    pub fn new(contracts: Vec<Identity>) -> (r: Result<Self, String>)
        ensures
            r matches Ok(inbox) && inbox@ == (InboxView {
                inbox_ids: contracts@,
                messages: Seq::<Message>::empty(),
                active_id: 0,
            }),
    {
        Ok(Inbox { inbox_ids: contracts, messages: Vec::new(), active_id: 0 })
    }

    /// Sends a message. Without a node to deliver to, nothing is sent and
    /// the call succeeds.
    pub fn send_message(&self, to: &str, title: &str, content: &str) -> (r: Result<(), String>)
        ensures
            r is Ok,
    {
        Ok(())
    }

    /// Removes the messages with the given ids from the inbox contract.
    /// Without a node to update, nothing is removed and the call succeeds.
    pub fn remove_messages(&self, ids: &[u64]) -> (r: Result<(), String>)
        ensures
            r is Ok,
    {
        Ok(())
    }

    /// Marks the messages whose ids are in `ids` as read, then removes them
    /// from the inbox contract.
    pub fn mark_as_read(&mut self, ids: &[u64]) -> (r: Result<(), String>)
        ensures
            r is Ok,
            final(self)@.inbox_ids == old(self)@.inbox_ids,
            final(self)@.active_id == old(self)@.active_id,
            final(self)@.messages == marked_read(old(self)@.messages, ids@),
            final(self)@.messages.len() == old(self)@.messages.len(),
            forall|i: int|
                0 <= i < old(self)@.messages.len() ==> #[trigger] final(self)@.messages[i] == (
                Message {
                    read: old(self)@.messages[i].read || ids@.contains(old(self)@.messages[i].id),
                    ..old(self)@.messages[i]
                }),
    {
        let ghost start = self.messages@;
        let mut i: usize = 0;
        while i < self.messages.len()
            invariant
                self@.inbox_ids == old(self)@.inbox_ids,
                self@.active_id == old(self)@.active_id,
                self.messages@.len() == start.len(),
                i <= start.len(),
                forall|j: int|
                    0 <= j < start.len() ==> #[trigger] self.messages@[j] == (if j < i && ids@.contains(
                        start[j].id,
                    ) {
                        Message { read: true, ..start[j] }
                    } else {
                        start[j]
                    }),
            decreases start.len() - i,
        {
            if contains_id(ids, self.messages[i].id) {
                self.messages[i].read = true;
            }
            i = i + 1;
        }
        assert(self.messages@ =~= marked_read(start, ids@));
        self.remove_messages(ids)
    }

    /// Fills the inbox with the two demo messages of identity `id`: from
    /// "Ian's Other Account" and "Mary" for identity 0, from "Ian Clarke"
    /// and "Jane" for the others.
    pub fn load_messages(&mut self, id: &Identity)
        ensures
            final(self)@.inbox_ids == old(self)@.inbox_ids,
            final(self)@.active_id == old(self)@.active_id,
            final(self)@.messages.len() == 2,
            id.id == 0 ==> is_demo_message(
                final(self)@.messages[0],
                0,
                "Ian's Other Account"@,
                "Email from Ian's Other Account"@,
            ) && is_demo_message(final(self)@.messages[1], 1, "Mary"@, "Email from Mary"@),
            id.id != 0 ==> is_demo_message(
                final(self)@.messages[0],
                0,
                "Ian Clarke"@,
                "Email from Ian"@,
            ) && is_demo_message(final(self)@.messages[1], 1, "Jane"@, "Email from Jane"@),
    {
        let lorem = "Lorem ipsum dolor sit amet, consectetur adipiscing elit...";
        let mut emails: Vec<Message> = Vec::new();
        if id.id == 0 {
            emails.push(
                Message {
                    id: 0,
                    from: "Ian's Other Account".to_owned(),
                    title: "Email from Ian's Other Account".to_owned(),
                    content: str_repeat(lorem, 10),
                    read: false,
                },
            );
            emails.push(
                Message {
                    id: 1,
                    from: "Mary".to_owned(),
                    title: "Email from Mary".to_owned(),
                    content: str_repeat(lorem, 10),
                    read: false,
                },
            );
        } else {
            emails.push(
                Message {
                    id: 0,
                    from: "Ian Clarke".to_owned(),
                    title: "Email from Ian".to_owned(),
                    content: str_repeat(lorem, 10),
                    read: false,
                },
            );
            emails.push(
                Message {
                    id: 1,
                    from: "Jane".to_owned(),
                    title: "Email from Jane".to_owned(),
                    content: str_repeat(lorem, 10),
                    read: false,
                },
            );
        }
        self.messages = emails;
    }

    /// The position of the message with id `id`, found by binary search
    /// over messages sorted by id. A position, when given, holds a message
    /// with that id; over sorted messages, none is given only when no
    /// message has that id.
    pub fn message_index(&self, id: u64) -> (r: Option<usize>)
        ensures
            r matches Some(i) ==> i < self@.messages.len() && self@.messages[i as int].id == id,
            r is None && sorted_by_id(self@.messages) ==> forall|i: int|
                0 <= i < self@.messages.len() ==> (#[trigger] self@.messages[i]).id != id,
    {
        let mut lo: usize = 0;
        let mut hi: usize = self.messages.len();
        while lo < hi
            invariant
                lo <= hi <= self@.messages.len(),
                sorted_by_id(self@.messages) ==> forall|i: int|
                    0 <= i < lo ==> (#[trigger] self@.messages[i]).id < id,
                sorted_by_id(self@.messages) ==> forall|i: int|
                    hi <= i < self@.messages.len() ==> (#[trigger] self@.messages[i]).id > id,
            decreases hi - lo,
        {
            let mid = lo + (hi - lo) / 2;
            let mid_id = self.messages[mid].id;
            if mid_id < id {
                lo = mid + 1;
            } else if mid_id > id {
                hi = mid;
            } else {
                return Some(mid);
            }
        }
        None
    }

    /// The messages, in the order they were loaded.
    pub fn messages(&self) -> (m: &Vec<Message>)
        ensures
            m@ == self@.messages,
    {
        &self.messages
    }

    /// The index of the active identity.
    pub fn active_id(&self) -> (a: usize)
        ensures
            a == self@.active_id,
    {
        self.active_id
    }
}

/// Marking messages read keeps every message in its place with its id,
/// sender, title and body, sets the read flag of exactly the listed ones and
/// leaves the rest as they were; marking the same ids again changes nothing more, and messages sorted
/// by id stay sorted.
pub proof fn lemma_mark_as_read(messages: Seq<Message>, ids: Seq<u64>)
    ensures
        marked_read(messages, ids).len() == messages.len(),
        forall|i: int|
            0 <= i < messages.len() ==> {
                &&& (#[trigger] marked_read(messages, ids)[i]).id == messages[i].id
                &&& marked_read(messages, ids)[i].from == messages[i].from
                &&& marked_read(messages, ids)[i].title == messages[i].title
                &&& marked_read(messages, ids)[i].content == messages[i].content
                &&& marked_read(messages, ids)[i].read == (messages[i].read || ids.contains(
                    messages[i].id,
                ))
            },
        marked_read(marked_read(messages, ids), ids) == marked_read(messages, ids),
        sorted_by_id(messages) ==> sorted_by_id(marked_read(messages, ids)),
{
    let once = marked_read(messages, ids);
    assert(marked_read(once, ids) =~= once);
}

/// Logging in with an identity makes it the logged-in identity and shows its
/// inbox; logging out leaves no identity logged in and never shows an inbox.
pub proof fn lemma_log_in_and_out(u: UserView, id: usize)
    requires
        id < u.identities.len(),
    ensures
        (UserView { active_id: Some(id), ..u }).logged_id() == Some(u.identities[id as int]),
        u.identified ==> (UserView { active_id: Some(id), ..u }).app_screen()
            == AppScreen::UserInbox,
        (UserView { logged: false, active_id: None, ..u }).logged_id() is None,
        (UserView { logged: false, active_id: None, ..u }).app_screen() != AppScreen::UserInbox,
{
}

} // verus!
