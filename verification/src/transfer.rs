//! The direct-transfer screen: its forms, and how the reports of a transfer worker
//! change what it shows.

use vstd::prelude::*;
use crate::contacts::{Contact, ContactBook, Trust};
use crate::fingerprint::{hex, hex_text};
use crate::net::{ListenConfig, NatStatus, NetEvent, SendConfig};
use crate::path::pair_texts;
use crate::text::{concat2, concat3, decimal, decimal_text, opt_text, owned, parse_u16, same_text, trim, trimmed, u16_of};

verus! {

/// Which side of a transfer this is.
#[derive(Clone, Copy, Debug, PartialEq, Eq, Structural)]
pub enum ActiveKind {
    Receive,
    Send,
}

/// Where the listener can be reached.
pub struct ListenView {
    pub lan_addr: String,
    pub public_addr: Option<String>,
    pub nat: String,
    pub transfer_code: String,
}

/// A transfer that waits for the user's consent.
pub struct OfferView {
    pub filename: String,
    pub size: u64,
    pub sender: String,
}

/// A running listener or sender.
pub struct ActiveTransfer {
    pub kind: ActiveKind,
    pub status: String,
    pub listen: Option<ListenView>,
    pub peer: Option<String>,
    pub offer: Option<OfferView>,
    pub progress: Option<(u64, u64)>,
}

impl ActiveTransfer {
    /// A transfer that has just been started.
    pub fn started(kind: ActiveKind) -> (t: Self)
        ensures
            t.kind == kind,
            t.status@ == (if kind == ActiveKind::Receive {
                "Starting…"@
            } else {
                "Connecting…"@
            }),
            t.listen is None && t.peer is None && t.offer is None && t.progress is None,
    {
        let status = match kind {
            ActiveKind::Receive => owned("Starting…"),
            ActiveKind::Send => owned("Connecting…"),
        };
        ActiveTransfer { kind, status, listen: None, peer: None, offer: None, progress: None }
    }
}

/// The direct-transfer screen.
pub struct TransferState {
    pub active: Option<ActiveTransfer>,
    /// Hex fingerprint of the designated sender.
    pub recv_contact: Option<String>,
    pub recv_internet: bool,
    pub recv_port: String,
    /// Hex fingerprint of the chosen verified contact.
    pub send_contact: Option<String>,
    pub send_host: String,
    pub send_port: String,
    pub send_pairing: String,
    /// The vault to send.
    pub send_vault: Option<String>,
}

impl TransferState {
    /// An empty screen.
    pub fn new() -> (t: Self)
        ensures
            t.active is None && t.recv_contact is None && !t.recv_internet && t.send_contact is None
                && t.send_vault is None,
            t.recv_port@.len() == 0 && t.send_host@.len() == 0 && t.send_port@.len() == 0
                && t.send_pairing@.len() == 0,
    {
        TransferState {
            active: None,
            recv_contact: None,
            recv_internet: false,
            recv_port: String::new(),
            send_contact: None,
            send_host: String::new(),
            send_port: String::new(),
            send_pairing: String::new(),
            send_vault: None,
        }
    }
}

// ---------------------------------------------------------------------------
// Reports of a worker
// ---------------------------------------------------------------------------

/// What is shown about the router's port.
pub open spec fn nat_text(router: NatStatus) -> Seq<char> {
    match router {
        NatStatus::Disabled => "Local network only."@,
        NatStatus::Mapped => "Router port opened."@,
        NatStatus::Unavailable(m) => "Couldn't open a router port ("@ + m@
            + "). You're still reachable on your local network."@,
    }
}

/// What is shown about the router's port.
pub fn nat_label(router: &NatStatus) -> (r: String)
    ensures
        r@ == nat_text(*router),
{
    match router {
        NatStatus::Disabled => owned("Local network only."),
        NatStatus::Mapped => owned("Router port opened."),
        NatStatus::Unavailable(m) => concat3(
            "Couldn't open a router port (",
            m,
            "). You're still reachable on your local network.",
        ),
    }
}

/// A name, or what stands for a missing one.
pub open spec fn name_or_contact(name: Option<String>) -> Seq<char> {
    match name {
        Some(n) => n@,
        None => "a verified contact"@,
    }
}

/// A name, or what stands for a missing one.
fn contact_name(name: Option<String>) -> (r: String)
    ensures
        r@ == name_or_contact(name),
{
    match name {
        Some(n) => n,
        None => owned("a verified contact"),
    }
}

/// How a connected peer is shown: by name, or by the start of its fingerprint.
pub open spec fn peer_text(fpr_hex: Seq<char>, name: Option<String>, verified: bool) -> Seq<char> {
    (match name {
        Some(n) => n@,
        None => fpr_hex.take(if fpr_hex.len() < 16 {
            fpr_hex.len() as int
        } else {
            16
        }) + "…"@,
    }) + (if verified {
        " (verified)"@
    } else {
        " (unverified)"@
    })
}

/// How a connected peer is shown.
pub fn peer_label(fpr_hex: &str, name: Option<String>, verified: bool) -> (r: String)
    ensures
        r@ == peer_text(fpr_hex@, name, verified),
{
    let who = match name {
        Some(n) => n,
        None => {
            let n: usize = fpr_hex.unicode_len();
            let end: usize = if n < 16 { n } else { 16 };
            let head = fpr_hex.substring_char(0, end);
            assert(head@ =~= fpr_hex@.take(end as int));
            concat2(head, "…")
        },
    };
    if verified {
        concat2(&who, " (verified)")
    } else {
        concat2(&who, " (unverified)")
    }
}

/// What is said when a container has arrived.
pub open spec fn received_text(vault: Seq<char>, from: Option<String>, files: nat) -> Seq<char> {
    "Received “"@ + vault + "” from "@ + name_or_contact(from) + " ("@ + decimal_text(files)
        + " file(s))."@
}

/// What is said when a container has arrived.
pub fn received_message(vault: &str, from: Option<String>, files: usize) -> (r: String)
    ensures
        r@ == received_text(vault@, from, files as nat),
{
    let mut r = concat3("Received “", vault, "” from ");
    r.append(&contact_name(from));
    r.append(" (");
    r.append(&decimal(files as u64));
    r.append(" file(s)).");
    r
}

/// Whether a transfer shows a status, and is otherwise the same.
pub open spec fn only_status(a: ActiveTransfer, b: ActiveTransfer, status: Seq<char>) -> bool {
    b.status@ == status && b == (ActiveTransfer { status: b.status, ..a })
}

/// Whether a receiver is back to waiting, as after a finished or failed transfer.
pub open spec fn waits_again(a: ActiveTransfer, b: ActiveTransfer) -> bool {
    &&& b.status@ == "Listening for the next transfer…"@
    &&& b == (ActiveTransfer { status: b.status, offer: None, progress: None, ..a })
}

/// How a report changes a running transfer.
pub open spec fn transfer_after(
    a: ActiveTransfer,
    event: NetEvent,
    b: Option<ActiveTransfer>,
) -> bool {
    match event {
        NetEvent::Listening { lan_addr, public_addr, nat: router, transfer_code } => {
            &&& b is Some
            &&& b->0.status@ == "Listening for a sender…"@
            &&& b->0.listen is Some
            &&& b->0.listen->0.lan_addr == lan_addr
            &&& b->0.listen->0.public_addr == public_addr
            &&& b->0.listen->0.nat@ == nat_text(router)
            &&& b->0.listen->0.transfer_code == transfer_code
            &&& b->0 == (ActiveTransfer { status: b->0.status, listen: b->0.listen, ..a })
        },
        NetEvent::Connecting => b is Some && only_status(a, b->0, "Connecting…"@),
        NetEvent::Status(msg) => b is Some && only_status(a, b->0, msg@),
        NetEvent::PeerConnected { fpr_hex, name, verified } => {
            &&& b is Some
            &&& b->0.status@ == "Connected"@
            &&& opt_text(b->0.peer) == Some(peer_text(fpr_hex@, name, verified))
            &&& b->0 == (ActiveTransfer { status: b->0.status, peer: b->0.peer, ..a })
        },
        NetEvent::Offer { filename, size, sender_name, verified } => {
            &&& b is Some
            &&& b->0.offer is Some
            &&& b->0.offer->0.filename == filename
            &&& b->0.offer->0.size == size
            &&& b->0.offer->0.sender@ == name_or_contact(sender_name)
            &&& b->0 == (ActiveTransfer { offer: b->0.offer, ..a })
        },
        NetEvent::Progress { done, total } => b == Some(
            ActiveTransfer { progress: Some((done, total)), ..a },
        ),
        NetEvent::Received { meta, file_count, sender_name } => b is Some && waits_again(a, b->0),
        NetEvent::Sent { vault_name } => b is None,
        NetEvent::Declined => b is None,
        NetEvent::Error(msg) => if a.kind == ActiveKind::Send {
            b is None
        } else {
            b is Some && waits_again(a, b->0)
        },
        NetEvent::Stopped => b is None,
    }
}

/// The toast that a report raises: its text, and whether it is an error.
pub open spec fn event_toast(event: NetEvent) -> Option<(Seq<char>, bool)> {
    match event {
        NetEvent::Received { meta, file_count, sender_name } => Some(
            (received_text(meta.name@, sender_name, file_count as nat), false),
        ),
        NetEvent::Sent { vault_name } => Some(("Sent “"@ + vault_name@ + "”."@, false)),
        NetEvent::Declined => Some(("The receiver declined the transfer."@, true)),
        NetEvent::Error(msg) => Some((msg@, true)),
        _ => None,
    }
}

/// A toast's text and whether it is an error.
pub open spec fn toast_view(t: Option<(String, bool)>) -> Option<(Seq<char>, bool)> {
    match t {
        Some((m, e)) => Some((m@, e)),
        None => None,
    }
}

/// `b` is `a` after an answer to the offer was passed on.
pub open spec fn commanded(a: TransferState, b: TransferState, clear_offer: bool) -> bool {
    &&& b == (TransferState { active: b.active, ..a })
    &&& match a.active {
        Some(a) => b.active is Some && if clear_offer {
            &&& b.active->0.status@ == "Receiving…"@
            &&& b.active->0 == (ActiveTransfer {
                offer: None,
                status: b.active->0.status,
                ..a
            })
        } else {
            b.active->0 == a
        },
        None => b.active is None,
    }
}

impl TransferState {
    /// Applies a report to the running transfer, and tells the toast to show.
    pub fn apply_event(&mut self, event: NetEvent) -> (r: Option<(String, bool)>)
        ensures
            toast_view(r) == event_toast(event),
            *final(self) == (TransferState { active: final(self).active, ..*old(self) }),
            match old(self).active {
                Some(a) => transfer_after(a, event, final(self).active),
                None => final(self).active is None,
            },
    {
        let active = self.active.take();
        match event {
            NetEvent::Listening { lan_addr, public_addr, nat: router, transfer_code } => {
                let nat_text = nat_label(&router);
                if let Some(mut t) = active {
                    t.status = owned("Listening for a sender…");
                    t.listen = Some(
                        ListenView { lan_addr, public_addr, nat: nat_text, transfer_code },
                    );
                    self.active = Some(t);
                }
                None
            },
            NetEvent::Connecting => {
                if let Some(mut t) = active {
                    t.status = owned("Connecting…");
                    self.active = Some(t);
                }
                None
            },
            NetEvent::Status(msg) => {
                if let Some(mut t) = active {
                    t.status = msg;
                    self.active = Some(t);
                }
                None
            },
            NetEvent::PeerConnected { fpr_hex, name, verified } => {
                if let Some(mut t) = active {
                    t.peer = Some(peer_label(&fpr_hex, name, verified));
                    t.status = owned("Connected");
                    self.active = Some(t);
                }
                None
            },
            NetEvent::Offer { filename, size, sender_name, verified: _ } => {
                if let Some(mut t) = active {
                    t.offer = Some(OfferView { filename, size, sender: contact_name(sender_name) });
                    self.active = Some(t);
                }
                None
            },
            NetEvent::Progress { done, total } => {
                if let Some(mut t) = active {
                    t.progress = Some((done, total));
                    self.active = Some(t);
                }
                None
            },
            NetEvent::Received { meta, file_count, sender_name } => {
                if let Some(mut t) = active {
                    t.progress = None;
                    t.offer = None;
                    t.status = owned("Listening for the next transfer…");
                    self.active = Some(t);
                }
                Some((received_message(&meta.name, sender_name, file_count), false))
            },
            NetEvent::Sent { vault_name } => Some((concat3("Sent “", &vault_name, "”."), false)),
            NetEvent::Declined => Some((owned("The receiver declined the transfer."), true)),
            NetEvent::Error(msg) => {
                if let Some(mut t) = active {
                    if t.kind != ActiveKind::Send {
                        t.offer = None;
                        t.progress = None;
                        t.status = owned("Listening for the next transfer…");
                        self.active = Some(t);
                    }
                }
                Some((msg, true))
            },
            NetEvent::Stopped => None,
        }
    }

    /// Notes that the offer was answered; whether there is a transfer to tell.
    pub fn command(&mut self, clear_offer: bool) -> (r: bool)
        ensures
            r == old(self).active is Some,
            commanded(*old(self), *final(self), clear_offer),
    {
        match self.active.take() {
            Some(mut t) => {
                if clear_offer {
                    t.offer = None;
                    t.status = owned("Receiving…");
                }
                self.active = Some(t);
                true
            },
            None => false,
        }
    }
}

// ---------------------------------------------------------------------------
// The forms
// ---------------------------------------------------------------------------

/// Whether a contact is verified and has a fingerprint.
pub open spec fn is_verified_as(c: Contact, fpr_hex: Seq<char>) -> bool {
    c.trust == Trust::Verified && hex_text(c.key.fpr@) == fpr_hex
}

/// The first verified contact with a fingerprint, or -1.
pub open spec fn verified_pos(contacts: Seq<Contact>, fpr_hex: Seq<char>) -> int
    decreases contacts.len(),
{
    if contacts.len() == 0 {
        -1
    } else if verified_pos(contacts.drop_last(), fpr_hex) >= 0 {
        verified_pos(contacts.drop_last(), fpr_hex)
    } else if is_verified_as(contacts.last(), fpr_hex) {
        contacts.len() - 1
    } else {
        -1
    }
}

proof fn lemma_verified_pos(contacts: Seq<Contact>, fpr_hex: Seq<char>)
    ensures
        -1 <= verified_pos(contacts, fpr_hex) < contacts.len(),
        verified_pos(contacts, fpr_hex) >= 0 ==> is_verified_as(
            contacts[verified_pos(contacts, fpr_hex)],
            fpr_hex,
        ) && forall|i: int|
            0 <= i < verified_pos(contacts, fpr_hex) ==> !is_verified_as(
                #[trigger] contacts[i],
                fpr_hex,
            ),
        verified_pos(contacts, fpr_hex) < 0 ==> forall|i: int|
            0 <= i < contacts.len() ==> !is_verified_as(#[trigger] contacts[i], fpr_hex),
    decreases contacts.len(),
{
    if contacts.len() > 0 {
        let t = contacts.drop_last();
        lemma_verified_pos(t, fpr_hex);
        assert forall|i: int| 0 <= i < t.len() implies #[trigger] contacts[i] == t[i] by {}
        if verified_pos(t, fpr_hex) < 0 && !is_verified_as(contacts.last(), fpr_hex) {
            assert forall|i: int| 0 <= i < contacts.len() implies !is_verified_as(
                #[trigger] contacts[i],
                fpr_hex,
            ) by {
                if i < t.len() {
                    assert(contacts[i] == t[i]);
                }
            }
        }
    }
}

/// The position of the first verified contact with a fingerprint.
pub fn find_verified(book: &ContactBook, fpr_hex: &str) -> (r: Option<usize>)
    ensures
        match r {
            Some(k) => k == verified_pos(book.contacts@, fpr_hex@) && k < book.contacts@.len(),
            None => verified_pos(book.contacts@, fpr_hex@) == -1,
        },
{
    proof {
        lemma_verified_pos(book.contacts@, fpr_hex@);
    }
    let mut i: usize = 0;
    while i < book.contacts.len()
        invariant
            i <= book.contacts@.len(),
            forall|k: int|
                0 <= k < i ==> !is_verified_as(#[trigger] book.contacts@[k], fpr_hex@),
        decreases book.contacts@.len() - i,
    {
        if book.contacts[i].trust == Trust::Verified {
            let h = hex(&book.contacts[i].key.fpr);
            if same_text(&h, fpr_hex) {
                proof {
                    lemma_verified_pos(book.contacts@, fpr_hex@);
                }
                return Some(i);
            }
        }
        i += 1;
    }
    None
}

/// The fingerprint and the name of a contact, as the forms list it.
pub open spec fn contact_option(c: Contact) -> (Seq<char>, Seq<char>) {
    (
        hex_text(c.key.fpr@),
        if c.key.name@.len() == 0 {
            "(unnamed)"@
        } else {
            c.key.name@
        },
    )
}

/// Whether a contact is verified.
pub open spec fn is_verified() -> spec_fn(Contact) -> bool {
    |c: Contact| c.trust == Trust::Verified
}

/// The verified contacts as fingerprint and name, in the order of the book.
pub open spec fn verified_options(contacts: Seq<Contact>) -> Seq<(Seq<char>, Seq<char>)> {
    contacts.filter(is_verified()).map_values(|c: Contact| contact_option(c))
}

/// The user's verified contacts as fingerprint and display name.
pub fn verified_contacts(book: &ContactBook) -> (r: Vec<(String, String)>)
    ensures
        pair_texts(r@) == verified_options(book.contacts@),
{
    let ghost all = book.contacts@;
    let ghost keep = is_verified();
    let mut r: Vec<(String, String)> = Vec::new();
    let mut i: usize = 0;
    proof {
        reveal(Seq::filter);
        assert(all.take(0).filter(keep) =~= Seq::<Contact>::empty());
        assert(pair_texts(r@) =~= verified_options(all.take(0)));
    }
    while i < book.contacts.len()
        invariant
            i <= all.len(),
            all == book.contacts@,
            keep == is_verified(),
            pair_texts(r@) == verified_options(all.take(i as int)),
        decreases all.len() - i,
    {
        let c = &book.contacts[i];
        proof {
            reveal(Seq::filter);
            assert(all.take(i + 1).drop_last() =~= all.take(i as int));
        }
        if c.trust == Trust::Verified {
            let name = if c.key.name.as_str().is_empty() {
                owned("(unnamed)")
            } else {
                owned(&c.key.name)
            };
            let ghost before = pair_texts(r@);
            r.push((hex(&c.key.fpr), name));
            proof {
                assert(pair_texts(r@) =~= before.push(contact_option(*c)));
                assert(all.take(i + 1).filter(keep) =~= all.take(i as int).filter(keep).push(*c));
                assert(verified_options(all.take(i + 1)) =~= verified_options(
                    all.take(i as int),
                ).push(contact_option(*c)));
            }
        } else {
            assert(all.take(i + 1).filter(keep) =~= all.take(i as int).filter(keep));
        }
        i += 1;
    }
    assert(all.take(i as int) =~= all);
    r
}

/// The name of the first option with an id, or the placeholder.
pub open spec fn label_of(
    selected: Option<Seq<char>>,
    options: Seq<(Seq<char>, Seq<char>)>,
    placeholder: Seq<char>,
) -> Seq<char>
    decreases options.len(),
{
    if selected is None || options.len() == 0 {
        placeholder
    } else if options[0].0 == selected->0 {
        options[0].1
    } else {
        label_of(selected, options.skip(1), placeholder)
    }
}

/// The display name for the selected `(id, name)` option, or a placeholder.
pub fn combo_label(
    selected: &Option<String>,
    options: &[(String, String)],
    placeholder: &str,
) -> (r: String)
    ensures
        r@ == label_of(opt_text(*selected), pair_texts(options@), placeholder@),
{
    match selected {
        None => owned(placeholder),
        Some(sel) => {
            let ghost all = pair_texts(options@);
            let mut i: usize = 0;
            assert(all.skip(0) =~= all);
            while i < options.len()
                invariant
                    i <= options@.len(),
                    all == pair_texts(options@),
                    opt_text(*selected) == Some(sel@),
                    label_of(Some(sel@), all, placeholder@) == label_of(
                        Some(sel@),
                        all.skip(i as int),
                        placeholder@,
                    ),
                decreases options@.len() - i,
            {
                proof {
                    assert(all.skip(i as int)[0] == all[i as int]);
                    assert(all.skip(i as int).skip(1) =~= all.skip(i + 1));
                }
                if same_text(&options[i].0, sel) {
                    return owned(&options[i].1);
                }
                i += 1;
            }
            owned(placeholder)
        },
    }
}

/// What is wrong with the receive form, if anything.
pub open spec fn listen_fault(forms: TransferState, contacts: Seq<Contact>) -> Option<Seq<char>> {
    if forms.recv_contact is None || verified_pos(contacts, forms.recv_contact->0@) < 0 {
        Some("Pick the verified contact you expect to receive from."@)
    } else if trimmed(forms.recv_port@).len() > 0 && u16_of(trimmed(forms.recv_port@)) is None {
        Some("Enter a valid port number, or leave it blank for auto."@)
    } else {
        None
    }
}

/// What confirming the receive form comes to.
pub open spec fn listen_asked(
    forms: TransferState,
    contacts: Seq<Contact>,
    r: Result<ListenConfig, String>,
) -> bool {
    match (listen_fault(forms, contacts), r) {
        (Some(e), Err(msg)) => msg@ == e,
        (None, Ok(c)) => {
            &&& c.port == (if trimmed(forms.recv_port@).len() == 0 {
                0u16
            } else {
                u16_of(trimmed(forms.recv_port@))->0
            })
            &&& c.internet == forms.recv_internet
            &&& c.expected_sender_fpr == Some(
                contacts[verified_pos(
                    contacts,
                    forms.recv_contact->0@,
                )].key.fpr,
            )
        },
        _ => false,
    }
}

/// Validates the receive form.
pub fn build_listen_config(forms: &TransferState, book: &ContactBook) -> (r: Result<
    ListenConfig,
    String,
>)
    ensures
        listen_asked(*forms, book.contacts@, r),
{
    let contact = match &forms.recv_contact {
        Some(f) => match find_verified(book, f) {
            Some(k) => k,
            None => return Err(owned("Pick the verified contact you expect to receive from.")),
        },
        None => return Err(owned("Pick the verified contact you expect to receive from.")),
    };
    let port_text = trim(&forms.recv_port);
    let port: u16 = if port_text.as_str().is_empty() {
        0
    } else {
        match parse_u16(&port_text) {
            Some(p) => p,
            None => return Err(owned("Enter a valid port number, or leave it blank for auto.")),
        }
    };
    Ok(
        ListenConfig {
            port,
            internet: forms.recv_internet,
            expected_sender_fpr: Some(book.contacts[contact].key.fpr),
        },
    )
}

/// What is wrong with the send form, if anything.
pub open spec fn send_fault(forms: TransferState, contacts: Seq<Contact>) -> Option<Seq<char>> {
    if forms.send_contact is None || verified_pos(contacts, forms.send_contact->0@) < 0 {
        Some("Pick a verified contact to send to."@)
    } else if trimmed(forms.send_host@).len() == 0 {
        Some("Enter the receiver's address."@)
    } else if u16_of(trimmed(forms.send_port@)) is None || u16_of(trimmed(forms.send_port@))
        == Some(0u16) {
        Some("Enter a valid port number."@)
    } else if forms.send_vault is None {
        Some("Pick a vault to send."@)
    } else if trimmed(forms.send_pairing@).len() == 0 {
        Some("Enter the transfer code the receiver is showing."@)
    } else {
        None
    }
}

/// What confirming the send form comes to.
pub open spec fn send_asked(
    forms: TransferState,
    contacts: Seq<Contact>,
    r: Result<SendConfig, String>,
) -> bool {
    match (send_fault(forms, contacts), r) {
        (Some(e), Err(msg)) => msg@ == e,
        (None, Ok(c)) => {
            let contact = contacts[verified_pos(
                contacts,
                forms.send_contact->0@,
            )];
            &&& c.host@ == trimmed(forms.send_host@)
            &&& Some(c.port) == u16_of(trimmed(forms.send_port@))
            &&& c.recipient == contact.key
            &&& c.recipient_fpr == contact.key.fpr
            &&& opt_text(c.transfer_code) == Some(trimmed(forms.send_pairing@))
            &&& c.vault_id@ == forms.send_vault->0@
        },
        _ => false,
    }
}

/// Validates the send form.
pub fn build_send_config(forms: &TransferState, book: &ContactBook) -> (r: Result<
    SendConfig,
    String,
>)
    ensures
        send_asked(*forms, book.contacts@, r),
{
    let contact = match &forms.send_contact {
        Some(f) => match find_verified(book, f) {
            Some(k) => k,
            None => return Err(owned("Pick a verified contact to send to.")),
        },
        None => return Err(owned("Pick a verified contact to send to.")),
    };
    let host = trim(&forms.send_host);
    if host.as_str().is_empty() {
        return Err(owned("Enter the receiver's address."));
    }
    let port: u16 = match parse_u16(&trim(&forms.send_port)) {
        Some(p) => p,
        None => return Err(owned("Enter a valid port number.")),
    };
    if port == 0 {
        return Err(owned("Enter a valid port number."));
    }
    let vault_id = match &forms.send_vault {
        Some(v) => owned(v),
        None => return Err(owned("Pick a vault to send.")),
    };
    let code = trim(&forms.send_pairing);
    if code.as_str().is_empty() {
        return Err(owned("Enter the transfer code the receiver is showing."));
    }
    Ok(
        SendConfig {
            host,
            port,
            recipient: book.contacts[contact].key.copy(),
            recipient_fpr: book.contacts[contact].key.fpr,
            transfer_code: Some(code),
            vault_id,
        },
    )
}

/// A transfer is only ever set up with a contact whose safety number was compared:
/// the forms are complete only for a verified contact with the chosen fingerprint.
pub proof fn law_transfers_are_with_verified_contacts(forms: TransferState, contacts: Seq<Contact>)
    ensures
        listen_fault(forms, contacts) is None ==> exists|i: int|
            0 <= i < contacts.len() && is_verified_as(
                #[trigger] contacts[i],
                forms.recv_contact->0@,
            ),
        send_fault(forms, contacts) is None ==> exists|i: int|
            0 <= i < contacts.len() && is_verified_as(
                #[trigger] contacts[i],
                forms.send_contact->0@,
            ),
{
    if forms.recv_contact is Some {
        lemma_verified_pos(contacts, forms.recv_contact->0@);
    }
    if forms.send_contact is Some {
        lemma_verified_pos(contacts, forms.send_contact->0@);
    }
}

/// A listener survives what happens to one transfer: a failure, or a container that
/// arrived, leaves it waiting for the next. A sender is done after a failure.
pub proof fn law_listener_keeps_listening(a: ActiveTransfer, event: NetEvent, b: Option<ActiveTransfer>)
    requires
        transfer_after(a, event, b),
        event is Error || event is Received,
    ensures
        a.kind == ActiveKind::Receive ==> b is Some && b->0.listen == a.listen && b->0.offer is None
            && b->0.progress is None,
        a.kind == ActiveKind::Send && event is Error ==> b is None,
{
}

/// Whether a contact is verified and has a fingerprint.
pub open spec fn is_chosen_contact(c: Contact, fpr_hex: Seq<char>) -> bool {
    c.trust == Trust::Verified && hex_text(c.key.fpr@) == fpr_hex
}

/// A listener lets in the contact that was chosen: the verified one with the chosen
/// fingerprint; on the port that was typed, or one of the system's choice; and it asks the
/// router only if told to.
pub proof fn law_a_listener_expects_the_chosen_contact(
    forms: TransferState,
    book: ContactBook,
    c: ListenConfig,
)
    requires
        call_ensures(
            build_listen_config,
            (&forms, &book),
            Ok::<ListenConfig, String>(c),
        ),
    ensures
        forms.recv_contact is Some,
        exists|i: int|
            0 <= i < book.contacts@.len() && is_chosen_contact(
                #[trigger] book.contacts@[i],
                forms.recv_contact->0@,
            ) && c.expected_sender_fpr == Some(book.contacts@[i].key.fpr),
        c.internet == forms.recv_internet,
        trimmed(forms.recv_port@).len() == 0 ==> c.port == 0,
        forall|n: u16| trimmed(forms.recv_port@) == #[trigger] decimal_text(n as nat) ==> c.port == n,
{
    lemma_verified_pos(book.contacts@, forms.recv_contact->0@);
    let k = verified_pos(book.contacts@, forms.recv_contact->0@);
    assert(is_chosen_contact(book.contacts@[k], forms.recv_contact->0@));
    assert forall|n: u16| trimmed(forms.recv_port@) == #[trigger] decimal_text(n as nat) implies c.port
        == n by {
        lemma_port(n);
    }
}

/// A listener is started whenever a verified contact is chosen and the port is blank or a
/// number.
pub proof fn law_a_good_listener_is_started(
    forms: TransferState,
    book: ContactBook,
    r: Result<ListenConfig, String>,
    i: int,
    n: u16,
)
    requires
        call_ensures(build_listen_config, (&forms, &book), r),
        forms.recv_contact is Some,
        0 <= i < book.contacts@.len(),
        is_chosen_contact(book.contacts@[i], forms.recv_contact->0@),
        trimmed(forms.recv_port@).len() == 0 || trimmed(forms.recv_port@) == decimal_text(n as nat),
    ensures
        r is Ok,
{
    lemma_verified_pos(book.contacts@, forms.recv_contact->0@);
    assert(is_verified_as(book.contacts@[i], forms.recv_contact->0@));
    lemma_port(n);
}

/// A vault is sent as it was asked for: the chosen vault, to the verified contact with the
/// chosen fingerprint, at the address, the port and with the code that were typed.
pub proof fn law_a_vault_is_sent_to_the_chosen_contact(
    forms: TransferState,
    book: ContactBook,
    c: SendConfig,
)
    requires
        call_ensures(build_send_config, (&forms, &book), Ok::<SendConfig, String>(c)),
    ensures
        forms.send_contact is Some,
        exists|i: int|
            0 <= i < book.contacts@.len() && is_chosen_contact(
                #[trigger] book.contacts@[i],
                forms.send_contact->0@,
            ) && c.recipient == book.contacts@[i].key && c.recipient_fpr
                == book.contacts@[i].key.fpr,
        forms.send_vault is Some && c.vault_id@ == forms.send_vault->0@,
        c.host@ == trimmed(forms.send_host@) && c.host@.len() > 0,
        c.port != 0,
        forall|n: u16| trimmed(forms.send_port@) == #[trigger] decimal_text(n as nat) ==> c.port == n,
        opt_text(c.transfer_code) == Some(trimmed(forms.send_pairing@)),
        trimmed(forms.send_pairing@).len() > 0,
{
    lemma_verified_pos(book.contacts@, forms.send_contact->0@);
    let k = verified_pos(book.contacts@, forms.send_contact->0@);
    assert(is_chosen_contact(book.contacts@[k], forms.send_contact->0@));
    assert forall|n: u16| trimmed(forms.send_port@) == #[trigger] decimal_text(n as nat) implies c.port
        == n by {
        lemma_port(n);
    }
}

/// A vault is sent whenever all is filled in: a verified contact, an address, a port other
/// than zero, a vault and a code.
pub proof fn law_a_complete_form_is_sent(
    forms: TransferState,
    book: ContactBook,
    r: Result<SendConfig, String>,
    i: int,
    n: u16,
)
    requires
        call_ensures(build_send_config, (&forms, &book), r),
        forms.send_contact is Some,
        0 <= i < book.contacts@.len(),
        is_chosen_contact(book.contacts@[i], forms.send_contact->0@),
        trimmed(forms.send_host@).len() > 0,
        n > 0,
        trimmed(forms.send_port@) == decimal_text(n as nat),
        forms.send_vault is Some,
        trimmed(forms.send_pairing@).len() > 0,
    ensures
        r is Ok,
{
    lemma_verified_pos(book.contacts@, forms.send_contact->0@);
    assert(is_verified_as(book.contacts@[i], forms.send_contact->0@));
    lemma_port(n);
}

proof fn lemma_port(n: u16)
    ensures
        decimal_text(n as nat).len() > 0,
        u16_of(decimal_text(n as nat)) == Some(n),
{
    let t = decimal_text(n as nat);
    crate::text::lemma_decimal_round_trip(n as nat);
    assert(crate::text::is_digit(t[0]));
}

/// Every verified contact can be chosen, by its fingerprint and name, and nobody else.
pub proof fn law_exactly_the_verified_contacts_are_offered(
    book: ContactBook,
    r: Vec<(String, String)>,
    fpr_hex: Seq<char>,
)
    requires
        call_ensures(verified_contacts, (&book,), r),
    ensures
        (exists|k: int| 0 <= k < r@.len() && (#[trigger] r@[k]).0@ == fpr_hex) <==> (exists|i: int|
            0 <= i < book.contacts@.len() && is_chosen_contact(
                #[trigger] book.contacts@[i],
                fpr_hex,
            )),
{
    let all = book.contacts@;
    let keep = is_verified();
    let f = all.filter(keep);
    let v = verified_options(all);
    assert(v.len() == f.len());
    assert(pair_texts(r@).len() == r@.len());
    if exists|k: int| 0 <= k < r@.len() && (#[trigger] r@[k]).0@ == fpr_hex {
        let k = choose|k: int| 0 <= k < r@.len() && (#[trigger] r@[k]).0@ == fpr_hex;
        assert(pair_texts(r@)[k] == v[k]);
        assert(f.contains(f[k]));
        crate::order::lemma_filter_members(all, keep, f[k]);
        let i = choose|i: int| 0 <= i < all.len() && all[i] == f[k];
        assert(is_chosen_contact(all[i], fpr_hex));
    }
    if exists|i: int| 0 <= i < all.len() && is_chosen_contact(#[trigger] all[i], fpr_hex) {
        let i = choose|i: int| 0 <= i < all.len() && is_chosen_contact(#[trigger] all[i], fpr_hex);
        assert(all.contains(all[i]));
        crate::order::lemma_filter_members(all, keep, all[i]);
        let k = choose|k: int| 0 <= k < f.len() && f[k] == all[i];
        assert(v[k].0 == fpr_hex);
        assert(pair_texts(r@)[k] == v[k]);
        assert(r@[k].0@ == fpr_hex);
    }
}

/// The chosen one of some options is shown by its name, and where none is chosen, or what is
/// chosen is not there, the placeholder is.
pub proof fn law_the_chosen_option_is_shown(
    selected: Option<String>,
    options: &[(String, String)],
    placeholder: &str,
    r: String,
    k: int,
)
    requires
        call_ensures(combo_label, (&selected, options, placeholder), r),
    ensures
        selected is None ==> r@ == placeholder@,
        selected is Some && 0 <= k < options@.len() && options@[k].0@ == selected->0@ && (forall|
            j: int,
        |
            0 <= j < k ==> (#[trigger] options@[j]).0@ != selected->0@) ==> r@ == options@[k].1@,
        selected is Some && (forall|j: int|
            0 <= j < options@.len() ==> (#[trigger] options@[j]).0@ != selected->0@) ==> r@
            == placeholder@,
{
    if selected is Some {
        let all = pair_texts(options@);
        assert forall|j: int| 0 <= j < all.len() implies all[j] == ((#[trigger] options@[j]).0@, options@[j].1@) by {}
        lemma_label(selected->0@, all, placeholder@, if 0 <= k < all.len() {
            k
        } else {
            0
        });
    }
}

proof fn lemma_label(
    sel: Seq<char>,
    options: Seq<(Seq<char>, Seq<char>)>,
    placeholder: Seq<char>,
    k: int,
)
    ensures
        0 <= k < options.len() && options[k].0 == sel && (forall|j: int|
            0 <= j < k ==> (#[trigger] options[j]).0 != sel) ==> label_of(
            Some(sel),
            options,
            placeholder,
        ) == options[k].1,
        (forall|j: int| 0 <= j < options.len() ==> (#[trigger] options[j]).0 != sel) ==> label_of(
            Some(sel),
            options,
            placeholder,
        ) == placeholder,
    decreases options.len(),
{
    if options.len() > 0 {
        let t = options.skip(1);
        lemma_label(sel, t, placeholder, k - 1);
        assert forall|j: int| 0 <= j < t.len() implies #[trigger] t[j] == options[j + 1] by {}
        if 0 < k < options.len() && options[k].0 == sel && (forall|j: int|
            0 <= j < k ==> (#[trigger] options[j]).0 != sel) {
            assert(t[k - 1] == options[k]);
            assert forall|j: int| 0 <= j < k - 1 implies (#[trigger] t[j]).0 != sel by {
                assert(t[j] == options[j + 1]);
            }
            assert(options[0].0 != sel);
        }
        if forall|j: int| 0 <= j < options.len() ==> (#[trigger] options[j]).0 != sel {
            assert forall|j: int| 0 <= j < t.len() implies (#[trigger] t[j]).0 != sel by {
                assert(t[j] == options[j + 1]);
            }
            assert(options[0].0 != sel);
        }
    }
}

/// What a worker reports is what is shown: where the listener is reached and under which
/// code, who connected, what is offered and by whom, and how far the transfer is.
pub proof fn law_reports_are_shown_as_they_are(
    a: ActiveTransfer,
    event: NetEvent,
    b: Option<ActiveTransfer>,
)
    requires
        transfer_after(a, event, b),
    ensures
        event is Listening ==> b is Some && b->0.listen is Some && b->0.listen->0.lan_addr
            == event->Listening_lan_addr && b->0.listen->0.public_addr
            == event->Listening_public_addr && b->0.listen->0.transfer_code
            == event->Listening_transfer_code,
        event is Offer ==> b is Some && b->0.offer is Some && b->0.offer->0.filename
            == event->Offer_filename && b->0.offer->0.size == event->Offer_size && (
        event->Offer_sender_name is Some ==> b->0.offer->0.sender@
            == event->Offer_sender_name->0@),
        event is Progress ==> b is Some && b->0.progress == Some(
            (event->Progress_done, event->Progress_total),
        ),
        event is PeerConnected ==> b is Some && b->0.peer is Some,
        event is Status ==> b is Some && b->0.status@ == event->Status_0@ && b->0.offer == a.offer
            && b->0.progress == a.progress,
        event is Sent || event is Declined || event is Stopped ==> b is None,
        b is Some ==> b->0.kind == a.kind,
        b is Some && !(event is Offer || event is Received || event is Error) ==> b->0.offer
            == a.offer,
{
}

/// A verified peer is shown as verified, and only such a one.
pub proof fn law_a_peer_is_labelled_by_its_trust(
    fpr_hex: &str,
    name: Option<String>,
    verified: bool,
    r: String,
)
    requires
        call_ensures(peer_label, (fpr_hex, name, verified), r),
    ensures
        r@.len() >= 11,
        verified <==> r@.skip(r@.len() - 11) == " (verified)"@,
        name is Some ==> r@.take(name->0@.len() as int) == name->0@,
        name is None && fpr_hex@.len() >= 16 ==> r@.take(16) == fpr_hex@.take(16),
{
    reveal_strlit(" (verified)");
    reveal_strlit(" (unverified)");
    if verified {
        assert(r@.skip(r@.len() - 11) =~= " (verified)"@);
    } else {
        let t = r@.skip(r@.len() - 11);
        assert(t[0] == 'u');
    }
    if name is Some {
        assert(r@.take(name->0@.len() as int) =~= name->0@);
    } else if fpr_hex@.len() >= 16 {
        assert(r@.take(16) =~= fpr_hex@.take(16));
    }
}

/// A failure and a refusal are shown as errors, and what was received or sent is not.
pub proof fn law_failures_are_shown_as_failures(event: NetEvent)
    ensures
        event is Error ==> event_toast(event) == Some((event->Error_0@, true)),
        event is Declined ==> event_toast(event) is Some && (event_toast(event)->0).1,
        event is Received || event is Sent ==> event_toast(event) is Some && !(event_toast(
            event,
        )->0).1,
        !(event is Error || event is Declined || event is Received || event is Sent)
            ==> event_toast(event) is None,
{
}

/// An answer closes the offer and shows that the transfer goes on; without a transfer there is
/// nobody to tell, and nothing changes.
pub proof fn law_an_answered_offer_is_put_away(
    t: &mut TransferState,
    clear_offer: bool,
    r: bool,
)
    requires
        call_ensures(TransferState::command, (t, clear_offer), r),
    ensures
        r <==> old(t).active is Some,
        final(t).active is Some <==> old(t).active is Some,
        r && clear_offer ==> final(t).active->0.offer is None,
        r && !clear_offer ==> final(t).active == old(t).active,
        final(t).recv_contact == old(t).recv_contact && final(t).send_contact == old(t).send_contact,
        final(t).send_pairing == old(t).send_pairing,
{
}

} // verus!
