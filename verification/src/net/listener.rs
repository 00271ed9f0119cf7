//! Receiver side: whom to let in, what a failed connection means, and how an
//! authenticated peer's transfer proceeds to import.
//!
//! Sockets, files and the handshake's cryptography are outside. Times are nanoseconds
//! of a clock that never goes back.

use vstd::prelude::*;

use crate::contacts::{contact_pos, ContactBook, Trust};
use crate::fingerprint::{hex, hex_text, same_fpr};
use crate::net::concurrency::{
    admits, after_failure, recent, PeerAddr, Permit, RateLimiter, Semaphore, MAX_BACKOFF,
};
use crate::net::{NatStatus, NetCommand, NetEvent};
use crate::store::VaultMeta;
use crate::text::{concat3, decimal, decimal_text, owned};

verus! {

/// Ceiling on connections handshaking concurrently.
pub const MAX_CONCURRENT_HANDSHAKES: usize = 8;

/// How often to prune the records of peers.
pub const RATE_PRUNE_INTERVAL: u64 = 60_000_000_000;

/// How often to renew the router's mapping.
pub const REFRESH_INTERVAL: u64 = 1_800_000_000_000;

/// How often progress is shown.
pub const PROGRESS_INTERVAL: u64 = 100_000_000;

/// Budget for one connection's whole handshake.
pub const HANDSHAKE_DEADLINE: u64 = 10_000_000_000;

/// How long to wait for the user to answer an offer.
pub const OFFER_DECISION_TIMEOUT: u64 = 300_000_000_000;

/// Hard ceiling on a declared inbound transfer size: 64 GiB.
pub const MAX_TRANSFER_SIZE: u64 = 68_719_476_736;

// ---------------------------------------------------------------------------
// Failed connections
// ---------------------------------------------------------------------------

/// How servicing a connection failed.
pub struct ConnError {
    pub message: String,
    /// The peer had not proved the transfer secret: back its address off.
    pub rate_limit: bool,
    /// Show the message.
    pub user_facing: bool,
}

impl ConnError {
    /// A failure before authentication: silent, and the address is backed off.
    pub fn probe(message: String) -> (e: Self)
        ensures
            e == (ConnError { message, rate_limit: true, user_facing: false }),
    {
        ConnError { message, rate_limit: true, user_facing: false }
    }

    /// An authenticated peer's failure the user should see.
    pub fn shown(message: String) -> (e: Self)
        ensures
            e == (ConnError { message, rate_limit: false, user_facing: true }),
    {
        ConnError { message, rate_limit: false, user_facing: true }
    }

    /// A benign refusal: silent, no backoff.
    pub fn quiet(message: String) -> (e: Self)
        ensures
            e == (ConnError { message, rate_limit: false, user_facing: false }),
    {
        ConnError { message, rate_limit: false, user_facing: false }
    }
}

/// Whether a failure is shown with a text.
pub open spec fn shown_as(e: ConnError, msg: Seq<char>) -> bool {
    !e.rate_limit && e.user_facing && e.message@ == msg
}

/// Whether a failure is kept quiet, with a text.
pub open spec fn quiet_as(e: ConnError, msg: Seq<char>) -> bool {
    !e.rate_limit && !e.user_facing && e.message@ == msg
}

// ---------------------------------------------------------------------------
// The accept loop
// ---------------------------------------------------------------------------

/// What a poll of the command channel gave.
pub enum Polled {
    Command(NetCommand),
    Empty,
    /// The other side is gone.
    Disconnected,
}

/// What to do about it.
#[derive(Clone, Copy, Debug, PartialEq, Eq, Structural)]
pub enum CommandStep {
    Continue,
    /// Pass a command on to the running transfer.
    Forward(NetCommand),
    /// Cancel the running transfer and end.
    Stop,
}

/// The state that the accept loop and its workers share.
pub struct Listener {
    pub permits: Semaphore,
    pub limiter: RateLimiter,
    /// Whether one authenticated transfer owns the screen.
    pub transfer_active: bool,
    pub stopped: bool,
    /// Whether the router forwards a port.
    pub mapped: bool,
    pub last_refresh: u64,
    pub last_prune: u64,
}

impl Listener {
    /// A listener that starts now.
    pub fn new(mapped: bool, now: u64) -> (l: Self)
        ensures
            l.permits.total() == MAX_CONCURRENT_HANDSHAKES && l.permits.in_flight() == 0,
            forall|ip: PeerAddr| #[trigger] l.limiter.record(ip) is None,
            !l.transfer_active && !l.stopped && l.mapped == mapped,
            l.last_refresh == now && l.last_prune == now,
    {
        Listener {
            permits: Semaphore::new(MAX_CONCURRENT_HANDSHAKES),
            limiter: RateLimiter::new(),
            transfer_active: false,
            stopped: false,
            mapped,
            last_refresh: now,
            last_prune: now,
        }
    }

    /// What a polled command means. A stop, or a screen that is gone, ends the
    /// listener; answers go to the running transfer.
    pub fn on_command(&mut self, polled: Polled) -> (r: CommandStep)
        ensures
            r == (match polled {
                Polled::Command(NetCommand::Stop) => CommandStep::Stop,
                Polled::Disconnected => CommandStep::Stop,
                Polled::Command(c) => CommandStep::Forward(c),
                Polled::Empty => CommandStep::Continue,
            }),
            *final(self) == (Listener {
                stopped: old(self).stopped || r == CommandStep::Stop,
                ..*old(self)
            }),
    {
        match polled {
            Polled::Command(NetCommand::Stop) => {
                self.stopped = true;
                CommandStep::Stop
            },
            Polled::Disconnected => {
                self.stopped = true;
                CommandStep::Stop
            },
            Polled::Command(c) => CommandStep::Forward(c),
            Polled::Empty => CommandStep::Continue,
        }
    }

    /// The regular upkeep: whether to renew the router's mapping now. Records of peers
    /// not seen for long are dropped.
    pub fn tick(&mut self, now: u64) -> (refresh: bool)
        ensures
            refresh == (old(self).mapped && now - old(self).last_refresh >= REFRESH_INTERVAL),
            final(self).last_refresh == (if refresh {
                now
            } else {
                old(self).last_refresh
            }),
            ({
                let prune = now - old(self).last_prune >= RATE_PRUNE_INTERVAL;
                &&& final(self).last_prune == (if prune {
                    now
                } else {
                    old(self).last_prune
                })
                &&& if prune {
                    forall|ip: PeerAddr| #[trigger]
                        final(self).limiter.record(ip) == (match old(self).limiter.record(ip) {
                            Some(r) => if recent(r, now) {
                                Some(r)
                            } else {
                                None
                            },
                            None => None,
                        })
                } else {
                    final(self).limiter == old(self).limiter
                }
            }),
            *final(self) == (Listener {
                last_refresh: final(self).last_refresh,
                last_prune: final(self).last_prune,
                limiter: final(self).limiter,
                ..*old(self)
            }),
    {
        let refresh = self.mapped && now >= self.last_refresh && now - self.last_refresh
            >= REFRESH_INTERVAL;
        if refresh {
            self.last_refresh = now;
        }
        if now >= self.last_prune && now - self.last_prune >= RATE_PRUNE_INTERVAL {
            self.limiter.prune(now);
            self.last_prune = now;
        }
        refresh
    }

    /// Whether to take a connection on: a backed-off address, or one too many, is
    /// refused at once.
    pub fn take_on(&mut self, peer: PeerAddr, now: u64) -> (r: Option<Permit>)
        ensures
            r is Some == (admits(old(self).limiter.record(peer), now)
                && old(self).permits.in_flight() < old(self).permits.total()),
            final(self).permits.total() == old(self).permits.total(),
            final(self).permits.in_flight() == old(self).permits.in_flight() + (if r is Some {
                1int
            } else {
                0
            }),
            *final(self) == (Listener { permits: final(self).permits, ..*old(self) }),
    {
        if !self.limiter.allow(peer, now) {
            return None;
        }
        self.permits.try_acquire()
    }

    /// Notes that a peer proved the transfer secret: it is no longer backed off.
    pub fn proven(&mut self, peer: PeerAddr)
        ensures
            final(self).limiter.record(peer) is None,
            forall|other: PeerAddr|
                other != peer ==> #[trigger] final(self).limiter.record(other) == old(
                    self,
                ).limiter.record(other),
            *final(self) == (Listener { limiter: final(self).limiter, ..*old(self) }),
    {
        self.limiter.record_success(peer);
    }

    /// Claims the screen for one transfer; a second one is turned away.
    pub fn claim(&mut self) -> (r: bool)
        ensures
            r == !old(self).transfer_active,
            *final(self) == (Listener { transfer_active: true, ..*old(self) }),
    {
        let free = !self.transfer_active;
        self.transfer_active = true;
        free
    }

    /// Gives the screen back.
    pub fn release(&mut self)
        ensures
            *final(self) == (Listener { transfer_active: false, ..*old(self) }),
    {
        self.transfer_active = false;
    }

    /// Ends a connection: its slot is free again, a probe's address is backed off, and
    /// what the user should see is handed out.
    pub fn service(
        &mut self,
        permit: Permit,
        peer: PeerAddr,
        now: u64,
        failure: Option<ConnError>,
    ) -> (r: Option<String>)
        requires
            old(self).permits.in_flight() > 0,
            now + MAX_BACKOFF <= u64::MAX,
        ensures
            r == (match failure {
                Some(e) => if e.user_facing {
                    Some(e.message)
                } else {
                    None
                },
                None => None,
            }),
            final(self).permits.total() == old(self).permits.total(),
            final(self).permits.in_flight() == old(self).permits.in_flight() - 1,
            if failure is Some && failure->0.rate_limit {
                &&& final(self).limiter.record(peer) == Some(
                    after_failure(old(self).limiter.record(peer), now),
                )
                &&& forall|other: PeerAddr|
                    other != peer ==> #[trigger] final(self).limiter.record(other) == old(
                        self,
                    ).limiter.record(other)
            } else {
                final(self).limiter == old(self).limiter
            },
            *final(self) == (Listener {
                permits: final(self).permits,
                limiter: final(self).limiter,
                ..*old(self)
            }),
    {
        self.permits.release(permit);
        match failure {
            None => None,
            Some(e) => {
                if e.rate_limit {
                    self.limiter.record_failure(peer, now);
                }
                if e.user_facing {
                    Some(e.message)
                } else {
                    None
                }
            },
        }
    }
}

/// Where the listener is reachable on the local network.
pub fn lan_addr(ip: Option<&str>, port: u16) -> (r: String)
    ensures
        r@ == (match ip {
            Some(t) => t@,
            None => "this machine"@,
        }) + ":"@ + decimal_text(port as nat),
{
    match ip {
        Some(t) => concat3(t, ":", &decimal(port as u64)),
        None => concat3("this machine", ":", &decimal(port as u64)),
    }
}

/// The report that the listener is up. `mapping` tells how asking the router went, if
/// it was asked.
pub fn listening(
    lan: String,
    mapping: Option<Result<String, String>>,
    transfer_code: String,
) -> (e: NetEvent)
    ensures
        e == (NetEvent::Listening {
            lan_addr: lan,
            public_addr: match mapping {
                Some(Ok(a)) => Some(a),
                _ => None,
            },
            nat: match mapping {
                Some(Ok(_)) => NatStatus::Mapped,
                Some(Err(m)) => NatStatus::Unavailable(m),
                None => NatStatus::Disabled,
            },
            transfer_code,
        }),
{
    let (public_addr, router) = match mapping {
        Some(Ok(a)) => (Some(a), NatStatus::Mapped),
        Some(Err(m)) => (None, NatStatus::Unavailable(m)),
        None => (None, NatStatus::Disabled),
    };
    NetEvent::Listening { lan_addr: lan, public_addr, nat: router, transfer_code }
}

// ---------------------------------------------------------------------------
// The handshake
// ---------------------------------------------------------------------------

/// The stages of servicing a connection.
#[derive(Clone, Copy, Debug, PartialEq, Eq, Structural)]
pub enum ConnStage {
    SetTimeouts,
    NewResponder,
    ReadHello,
    /// Check the proof of the transfer secret, and make the answer to it.
    CheckProof,
    SendAuth,
    ReadConfirm,
    CheckConfirm,
    /// Become the one transfer that owns the screen.
    Claim,
    SetTransferTimeouts,
    Transfer,
}

/// Why a stage failed.
pub enum ConnFailure {
    Outside(String),
    /// A verified identity, but not the expected one.
    WrongIdentity,
    /// Another transfer owns the screen.
    Busy,
}

/// What to do after a stage.
pub enum ConnNext {
    Go(ConnStage),
    Failed(ConnError),
}

/// The stage after one that succeeded.
pub open spec fn conn_after(stage: ConnStage) -> ConnStage {
    match stage {
        ConnStage::SetTimeouts => ConnStage::NewResponder,
        ConnStage::NewResponder => ConnStage::ReadHello,
        ConnStage::ReadHello => ConnStage::CheckProof,
        ConnStage::CheckProof => ConnStage::SendAuth,
        ConnStage::SendAuth => ConnStage::ReadConfirm,
        ConnStage::ReadConfirm => ConnStage::CheckConfirm,
        ConnStage::CheckConfirm => ConnStage::Claim,
        ConnStage::Claim => ConnStage::SetTransferTimeouts,
        ConnStage::SetTransferTimeouts => ConnStage::Transfer,
        ConnStage::Transfer => ConnStage::Transfer,
    }
}

/// Whether the peer has yet to prove the transfer secret.
pub open spec fn unproven(stage: ConnStage) -> bool {
    stage == ConnStage::SetTimeouts || stage == ConnStage::NewResponder || stage
        == ConnStage::ReadHello || stage == ConnStage::CheckProof
}

/// What a failure says.
pub open spec fn failure_text(f: ConnFailure) -> Seq<char> {
    match f {
        ConnFailure::Outside(e) => e@,
        ConnFailure::WrongIdentity =>
            "Refused: a different contact connected than the one you're expecting."@,
        ConnFailure::Busy => "receiver is busy with another transfer"@,
    }
}

/// The next stage of a connection. A failure before the proof counts against the
/// address and stays silent; of the later ones only a confirmation that does not hold
/// is shown.
pub fn handle_conn(stage: ConnStage, failure: Option<ConnFailure>) -> (r: ConnNext)
    ensures
        match failure {
            None => r == ConnNext::Go(conn_after(stage)),
            Some(f) => {
                &&& r is Failed
                &&& r->Failed_0.message@ == failure_text(f)
                &&& r->Failed_0.rate_limit == unproven(stage)
                &&& r->Failed_0.user_facing == (stage == ConnStage::CheckConfirm)
                &&& unproven(stage) ==> !r->Failed_0.user_facing
            },
        },
{
    match failure {
        None => ConnNext::Go(
            match stage {
                ConnStage::SetTimeouts => ConnStage::NewResponder,
                ConnStage::NewResponder => ConnStage::ReadHello,
                ConnStage::ReadHello => ConnStage::CheckProof,
                ConnStage::CheckProof => ConnStage::SendAuth,
                ConnStage::SendAuth => ConnStage::ReadConfirm,
                ConnStage::ReadConfirm => ConnStage::CheckConfirm,
                ConnStage::CheckConfirm => ConnStage::Claim,
                ConnStage::Claim => ConnStage::SetTransferTimeouts,
                ConnStage::SetTransferTimeouts => ConnStage::Transfer,
                ConnStage::Transfer => ConnStage::Transfer,
            },
        ),
        Some(f) => {
            let message = match f {
                ConnFailure::Outside(e) => e,
                ConnFailure::WrongIdentity => owned(
                    "Refused: a different contact connected than the one you're expecting.",
                ),
                ConnFailure::Busy => owned("receiver is busy with another transfer"),
            };
            ConnNext::Failed(
                match stage {
                    ConnStage::SetTimeouts
                    | ConnStage::NewResponder
                    | ConnStage::ReadHello
                    | ConnStage::CheckProof => ConnError::probe(message),
                    ConnStage::CheckConfirm => ConnError::shown(message),
                    _ => ConnError::quiet(message),
                },
            )
        },
    }
}

// ---------------------------------------------------------------------------
// The transfer
// ---------------------------------------------------------------------------

/// The types of records that a session carries.
#[derive(Clone, Copy, Debug, PartialEq, Eq, Structural)]
pub enum RecordType {
    Offer,
    OfferDecision,
    Data,
    Done,
}

/// Whether the contact book holds a verified contact with a fingerprint.
pub open spec fn is_verified_peer(book: ContactBook, fpr: Seq<u8>) -> bool {
    let k = contact_pos(book.contacts@, fpr);
    k >= 0 && book.contacts@[k].trust == Trust::Verified
}

/// The name of a peer, if the contact book knows it.
pub open spec fn peer_name(book: ContactBook, fpr: Seq<u8>) -> Option<String> {
    let k = contact_pos(book.contacts@, fpr);
    if k >= 0 {
        Some(book.contacts@[k].key.name)
    } else {
        None
    }
}

/// What is said of a peer that is not verified.
pub open spec fn unverified_text(fpr: Seq<u8>) -> Seq<char> {
    "Refused a transfer from an unverified sender ("@ + hex_text(fpr).take(16)
        + "…). Add and verify them in Contacts first."@
}

/// Whether an event reports a peer that has proved its identity, as the contact book
/// knows it.
pub open spec fn reports_peer(book: ContactBook, fpr: Seq<u8>, e: NetEvent) -> bool {
    match e {
        NetEvent::PeerConnected { fpr_hex, name, verified } => {
            &&& fpr_hex@ == hex_text(fpr)
            &&& name == peer_name(book, fpr)
            &&& verified == is_verified_peer(book, fpr)
        },
        _ => false,
    }
}

/// Greets an authenticated peer: reports it, and turns it away unless it is a verified
/// contact.
pub fn greet_peer(book: &ContactBook, fpr: &[u8; 32]) -> (r: (NetEvent, Result<
    Option<String>,
    ConnError,
>))
    ensures
        reports_peer(*book, fpr@, r.0),
        match r.1 {
            Ok(name) => is_verified_peer(*book, fpr@) && name == peer_name(*book, fpr@),
            Err(e) => !is_verified_peer(*book, fpr@) && shown_as(e, unverified_text(fpr@)),
        },
{
    let (name, again, verified) = match book.find(fpr) {
        Some(k) => (
            Some(book.contacts[k].key.name.clone()),
            Some(book.contacts[k].key.name.clone()),
            book.contacts[k].trust == Trust::Verified,
        ),
        None => (None, None, false),
    };
    let fpr_hex = hex(fpr);
    let gate = if verified {
        Ok(again)
    } else {
        let short = fpr_hex.as_str().substring_char(0, 16);
        assert(short@ =~= hex_text(fpr@).take(16));
        Err(
            ConnError::shown(
                concat3(
                    "Refused a transfer from an unverified sender (",
                    short,
                    "…). Add and verify them in Contacts first.",
                ),
            ),
        )
    };
    (NetEvent::PeerConnected { fpr_hex, name, verified }, gate)
}

/// Whether a sender's declared size is within the ceiling. What arrives is bounded by
/// the declared size, so this is what keeps the disk from being filled.
pub fn transfer_size_acceptable(size: u64) -> (r: bool)
    ensures
        r == (size <= MAX_TRANSFER_SIZE),
{
    size <= MAX_TRANSFER_SIZE
}

/// Why an offer is refused before the user is asked, if it is.
pub open spec fn offer_fault(sender_fpr: Seq<u8>, peer_fpr: Seq<u8>, size: u64) -> Option<Seq<char>> {
    if sender_fpr != peer_fpr {
        Some("the offer's sender does not match the connected identity"@)
    } else if size > MAX_TRANSFER_SIZE {
        Some("the offered transfer is too large to accept"@)
    } else {
        None
    }
}

/// Whether the first record is an offer.
pub fn expect_offer(kind: RecordType) -> (r: Option<ConnError>)
    ensures
        match r {
            Some(e) => kind != RecordType::Offer && shown_as(
                e,
                "protocol error: expected a transfer offer"@,
            ),
            None => kind == RecordType::Offer,
        },
{
    if kind == RecordType::Offer {
        None
    } else {
        Some(ConnError::shown(owned("protocol error: expected a transfer offer")))
    }
}

/// Checks an offer before the user is asked.
pub fn check_offer(sender_fpr: &[u8; 32], peer_fpr: &[u8; 32], size: u64) -> (r: Option<ConnError>)
    ensures
        match r {
            Some(e) => offer_fault(sender_fpr@, peer_fpr@, size) is Some && shown_as(
                e,
                offer_fault(sender_fpr@, peer_fpr@, size)->0,
            ),
            None => offer_fault(sender_fpr@, peer_fpr@, size) is None,
        },
{
    if !same_fpr(sender_fpr, peer_fpr) {
        Some(
            ConnError::shown(owned("the offer's sender does not match the connected identity")),
        )
    } else if !transfer_size_acceptable(size) {
        Some(ConnError::shown(owned("the offered transfer is too large to accept")))
    } else {
        None
    }
}

/// Where waiting for the user's answer stands.
pub enum DecisionStep {
    Accept,
    Reject,
    Wait,
    Failed(ConnError),
}

/// What a poll for the user's answer means; `Empty` is a poll that timed out.
pub fn wait_decision(stop: bool, polled: Polled, now: u64, deadline: u64) -> (r: DecisionStep)
    ensures
        if stop {
            r is Failed && quiet_as(r->Failed_0, "Transfer cancelled."@)
        } else {
            match polled {
                Polled::Command(NetCommand::AcceptOffer) => r is Accept,
                Polled::Command(NetCommand::RejectOffer) => r is Reject,
                Polled::Command(_) => r is Failed && quiet_as(
                    r->Failed_0,
                    "Transfer cancelled."@,
                ),
                Polled::Disconnected => r is Failed && quiet_as(
                    r->Failed_0,
                    "Transfer cancelled."@,
                ),
                Polled::Empty => if now >= deadline {
                    r is Failed && shown_as(
                        r->Failed_0,
                        "No response to the transfer offer (timed out)."@,
                    )
                } else {
                    r is Wait
                },
            }
        },
{
    if stop {
        return DecisionStep::Failed(ConnError::quiet(owned("Transfer cancelled.")));
    }
    match polled {
        Polled::Command(NetCommand::AcceptOffer) => DecisionStep::Accept,
        Polled::Command(NetCommand::RejectOffer) => DecisionStep::Reject,
        Polled::Command(_) => DecisionStep::Failed(
            ConnError::quiet(owned("Transfer cancelled.")),
        ),
        Polled::Disconnected => DecisionStep::Failed(
            ConnError::quiet(owned("Transfer cancelled.")),
        ),
        Polled::Empty => if now >= deadline {
            DecisionStep::Failed(
                ConnError::shown(owned("No response to the transfer offer (timed out).")),
            )
        } else {
            DecisionStep::Wait
        },
    }
}

/// Whether a poll of the command channel asks to end the transfer.
pub open spec fn asks_to_end(polled: Polled) -> bool {
    match polled {
        Polled::Command(NetCommand::Cancel) => true,
        Polled::Command(NetCommand::Stop) => true,
        Polled::Disconnected => true,
        _ => false,
    }
}

/// Whether the transfer is to end.
pub fn transfer_cancelled(stop: bool, polled: &Polled) -> (r: bool)
    ensures
        r == (stop || asks_to_end(*polled)),
{
    stop || match polled {
        Polled::Command(NetCommand::Cancel) => true,
        Polled::Command(NetCommand::Stop) => true,
        Polled::Disconnected => true,
        _ => false,
    }
}

/// A transfer that is being received.
pub struct Receiving {
    /// The declared size.
    pub size: u64,
    pub received: u64,
    pub last_progress: u64,
}

/// What to do with a record.
pub enum RecordStep {
    /// Write it to the file, and report progress if told so.
    Store { progress: bool },
    /// The sender is done.
    Finish,
}

/// Why a record of `len` bytes breaks the transfer off, if it does.
pub open spec fn record_fault(received: u64, size: u64, kind: RecordType, len: nat) -> Option<Seq<char>> {
    match kind {
        RecordType::Data => if len == 0 {
            Some("protocol error: empty data record"@)
        } else if received + len > size {
            Some("the sender exceeded the declared size"@)
        } else {
            None
        },
        RecordType::Done => if len == 0 {
            None
        } else {
            Some("protocol error during the transfer"@)
        },
        _ => Some("protocol error during the transfer"@),
    }
}

impl Receiving {
    /// A transfer of a declared size, before its first record.
    pub fn new(size: u64, now: u64) -> (t: Self)
        ensures
            t == (Receiving { size, received: 0, last_progress: now }),
    {
        Receiving { size, received: 0, last_progress: now }
    }

    /// Takes a record in: data counts toward the declared size and may not exceed it.
    pub fn receive_into(&mut self, kind: RecordType, len: usize, now: u64) -> (r: Result<
        RecordStep,
        String,
    >)
        requires
            old(self).received <= old(self).size,
        ensures
            final(self).size == old(self).size,
            final(self).received <= final(self).size,
            match record_fault(old(self).received, old(self).size, kind, len as nat) {
                Some(e) => r is Err && r->Err_0@ == e && *final(self) == *old(self),
                None => if kind == RecordType::Done {
                    r is Ok && r->Ok_0 is Finish && *final(self) == *old(self)
                } else {
                    &&& r is Ok && r->Ok_0 is Store
                    &&& final(self).received == old(self).received + len
                    &&& r->Ok_0->progress == (final(self).received == old(self).size || now - old(
                        self,
                    ).last_progress >= PROGRESS_INTERVAL)
                    &&& final(self).last_progress == (if r->Ok_0->progress {
                        now
                    } else {
                        old(self).last_progress
                    })
                },
            },
    {
        match kind {
            RecordType::Data => {
                if len == 0 {
                    return Err(owned("protocol error: empty data record"));
                }
                if len as u64 > self.size - self.received {
                    return Err(owned("the sender exceeded the declared size"));
                }
                self.received = self.received + len as u64;
                let progress = self.received == self.size || (now >= self.last_progress && now
                    - self.last_progress >= PROGRESS_INTERVAL);
                if progress {
                    self.last_progress = now;
                }
                Ok(RecordStep::Store { progress })
            },
            RecordType::Done => if len == 0 {
                Ok(RecordStep::Finish)
            } else {
                Err(owned("protocol error during the transfer"))
            },
            _ => Err(owned("protocol error during the transfer")),
        }
    }

    /// Whether all that was declared has come.
    pub fn finish(&self) -> (r: Result<(), String>)
        ensures
            match r {
                Ok(_) => self.received == self.size,
                Err(e) => self.received != self.size && e@
                    == "the transfer ended early (size mismatch)"@,
            },
    {
        if self.received == self.size {
            Ok(())
        } else {
            Err(owned("the transfer ended early (size mismatch)"))
        }
    }
}

/// What a received container comes to: it is imported only if the connected peer
/// signed it.
pub fn import_received(signer: &[u8; 32], peer: &[u8; 32]) -> (r: Result<(), String>)
    ensures
        match r {
            Ok(_) => signer@ == peer@,
            Err(e) => signer@ != peer@ && e@
                == "the file's signature does not match the connected sender"@,
        },
{
    if same_fpr(signer, peer) {
        Ok(())
    } else {
        Err(owned("the file's signature does not match the connected sender"))
    }
}

// ---------------------------------------------------------------------------
// The order of a transfer
// ---------------------------------------------------------------------------

/// How a transfer ended.
pub enum TransferEnd {
    Received { meta: VaultMeta, file_count: usize },
    /// The user declined it.
    Declined,
    Failed(ConnError),
}

/// The stages of a transfer from an authenticated peer. Each but the last is work to do;
/// at the last one nothing is read, written or reported any more.
pub enum TransferStep {
    /// Read the first record.
    ReadOffer,
    /// Decode the offer in it.
    DecodeOffer,
    /// Show the offer, and wait for the user.
    AskUser { size: u64 },
    /// Tell the sender.
    Answer { accept: bool, size: u64 },
    /// Make the private temp file.
    CreateTemp { size: u64 },
    /// Read the data records into it.
    Receive { size: u64 },
    /// Check the container's signature, and see who signed it.
    Verify,
    /// Take it into the local store.
    Import,
    /// Wipe the temp file.
    Wipe(TransferEnd),
    Done(TransferEnd),
}

/// How a stage of a transfer went.
pub enum TransferReply {
    Went,
    Record { kind: RecordType },
    Offer { sender_fpr: [u8; 32], size: u64 },
    Decided(bool),
    /// The user did not decide.
    Undecided(ConnError),
    Signed { signer: [u8; 32] },
    Imported { meta: VaultMeta, file_count: usize },
    Failed(String),
}

/// Whether a transfer ended with a failure that is shown.
pub open spec fn ended_with(end: TransferEnd, msg: Seq<char>) -> bool {
    end is Failed && shown_as(end->Failed_0, msg)
}

/// Whether the temp file exists while a stage is carried out.
pub open spec fn has_temp(step: TransferStep) -> bool {
    step is Receive || step is Verify || step is Import || step is Wipe
}

/// Whether `r` is the end of a transfer that broke off in a stage: the temp file is
/// wiped first if there is one.
pub open spec fn broke_off(step: TransferStep, msg: Seq<char>, r: TransferStep) -> bool {
    if has_temp(step) {
        r is Wipe && ended_with(r->Wipe_0, msg)
    } else {
        r is Done && ended_with(r->Done_0, msg)
    }
}

/// Whether `r` is the stage after one that went as `reply` says, in a transfer with the
/// peer of a fingerprint.
pub open spec fn transfer_next_is(
    step: TransferStep,
    peer: Seq<u8>,
    reply: TransferReply,
    r: TransferStep,
) -> bool {
    match (step, reply) {
        (TransferStep::Wipe(end), _) => r == TransferStep::Done(end),
        (TransferStep::Done(end), _) => r == TransferStep::Done(end),
        (_, TransferReply::Failed(e)) => broke_off(step, e@, r),
        (TransferStep::ReadOffer, TransferReply::Record { kind }) => if kind != RecordType::Offer {
            broke_off(step, "protocol error: expected a transfer offer"@, r)
        } else {
            r is DecodeOffer
        },
        (TransferStep::DecodeOffer, TransferReply::Offer { sender_fpr, size }) => match offer_fault(
            sender_fpr@,
            peer,
            size,
        ) {
            Some(e) => broke_off(step, e, r),
            None => r == (TransferStep::AskUser { size }),
        },
        (TransferStep::AskUser { size }, TransferReply::Decided(accept)) => r == (
        TransferStep::Answer { accept, size }),
        (TransferStep::AskUser { size }, TransferReply::Undecided(e)) => r == TransferStep::Done(
            TransferEnd::Failed(e),
        ),
        (TransferStep::Answer { accept, size }, TransferReply::Went) => r == (if accept {
            TransferStep::CreateTemp { size }
        } else {
            TransferStep::Done(TransferEnd::Declined)
        }),
        (TransferStep::CreateTemp { size }, TransferReply::Went) => r == (TransferStep::Receive {
            size,
        }),
        (TransferStep::Receive { size }, TransferReply::Went) => r is Verify,
        (TransferStep::Verify, TransferReply::Signed { signer }) => if signer@ == peer {
            r is Import
        } else {
            broke_off(step, "the file's signature does not match the connected sender"@, r)
        },
        (TransferStep::Import, TransferReply::Imported { meta, file_count }) => r
            == TransferStep::Wipe(TransferEnd::Received { meta, file_count }),
        _ => broke_off(step, "protocol error during the transfer"@, r),
    }
}

/// The end of a transfer that broke off.
fn break_off(temp: bool, msg: String) -> (r: TransferStep)
    ensures
        if temp {
            r is Wipe && ended_with(r->Wipe_0, msg@)
        } else {
            r is Done && ended_with(r->Done_0, msg@)
        },
{
    let end = TransferEnd::Failed(ConnError::shown(msg));
    if temp {
        TransferStep::Wipe(end)
    } else {
        TransferStep::Done(end)
    }
}

/// Whether a transfer with the peer of a fingerprint starts with an event and a stage:
/// the peer is reported, and unless it is a verified contact that is all.
pub open spec fn transfer_starts(
    book: ContactBook,
    peer: Seq<u8>,
    event: NetEvent,
    step: TransferStep,
) -> bool {
    &&& reports_peer(book, peer, event)
    &&& if is_verified_peer(book, peer) {
        step is ReadOffer
    } else {
        step is Done && ended_with(step->Done_0, unverified_text(peer))
    }
}

/// Starts a transfer with an authenticated peer: what to report, and the first stage.
pub fn transfer_start(book: &ContactBook, peer: &[u8; 32]) -> (r: (NetEvent, TransferStep))
    ensures
        transfer_starts(*book, peer@, r.0, r.1),
{
    let (event, gate) = greet_peer(book, peer);
    match gate {
        Ok(_) => (event, TransferStep::ReadOffer),
        Err(e) => (event, TransferStep::Done(TransferEnd::Failed(e))),
    }
}

/// The next stage of a transfer that [`transfer_start`] began.
pub fn run_transfer(step: TransferStep, peer: &[u8; 32], reply: TransferReply) -> (r: TransferStep)
    ensures
        transfer_next_is(step, peer@, reply, r),
{
    let temp = match &step {
        TransferStep::Receive { size: _ } | TransferStep::Verify | TransferStep::Import => true,
        _ => false,
    };
    match (step, reply) {
        (TransferStep::Wipe(end), _) => TransferStep::Done(end),
        (TransferStep::Done(end), _) => TransferStep::Done(end),
        (_, TransferReply::Failed(e)) => break_off(temp, e),
        (TransferStep::ReadOffer, TransferReply::Record { kind }) => match expect_offer(kind) {
            Some(e) => TransferStep::Done(TransferEnd::Failed(e)),
            None => TransferStep::DecodeOffer,
        },
        (TransferStep::DecodeOffer, TransferReply::Offer { sender_fpr, size }) => {
            match check_offer(&sender_fpr, peer, size) {
                Some(e) => TransferStep::Done(TransferEnd::Failed(e)),
                None => TransferStep::AskUser { size },
            }
        },
        (TransferStep::AskUser { size }, TransferReply::Decided(accept)) => TransferStep::Answer {
            accept,
            size,
        },
        (TransferStep::AskUser { size: _ }, TransferReply::Undecided(e)) => TransferStep::Done(
            TransferEnd::Failed(e),
        ),
        (TransferStep::Answer { accept, size }, TransferReply::Went) => if accept {
            TransferStep::CreateTemp { size }
        } else {
            TransferStep::Done(TransferEnd::Declined)
        },
        (TransferStep::CreateTemp { size }, TransferReply::Went) => TransferStep::Receive { size },
        (TransferStep::Receive { size: _ }, TransferReply::Went) => TransferStep::Verify,
        (TransferStep::Verify, TransferReply::Signed { signer }) => {
            match import_received(&signer, peer) {
                Ok(_) => TransferStep::Import,
                Err(e) => break_off(true, e),
            }
        },
        (
            TransferStep::Import,
            TransferReply::Imported { meta, file_count },
        ) => TransferStep::Wipe(TransferEnd::Received { meta, file_count }),
        _ => break_off(temp, owned("protocol error during the transfer")),
    }
}

/// Whether `steps` are the stages of a transfer from its start, one after the other, with
/// the peer of a fingerprint and these replies.
pub open spec fn transfer_ran(
    book: ContactBook,
    peer: Seq<u8>,
    event: NetEvent,
    steps: Seq<TransferStep>,
    replies: Seq<TransferReply>,
) -> bool {
    &&& steps.len() == replies.len() + 1
    &&& transfer_starts(book, peer, event, steps[0])
    &&& forall|i: int|
        0 <= i < replies.len() ==> transfer_next_is(
            steps[i],
            peer,
            #[trigger] replies[i],
            steps[i + 1],
        )
}

/// Only a verified contact gets past the start. A transfer with anyone else is over
/// before a record is read: the peer is reported as unverified, the refusal is shown and
/// does not count against the address, and no reply changes that.
pub proof fn law_unverified_peers_are_refused(
    book: ContactBook,
    peer: Seq<u8>,
    event: NetEvent,
    steps: Seq<TransferStep>,
    replies: Seq<TransferReply>,
    k: int,
)
    requires
        transfer_ran(book, peer, event, steps, replies),
        !is_verified_peer(book, peer),
        0 <= k < steps.len(),
    ensures
        event is PeerConnected && !event->PeerConnected_verified,
        steps[k] is Done && ended_with(steps[k]->Done_0, unverified_text(peer)),
    decreases k,
{
    if k > 0 {
        law_unverified_peers_are_refused(book, peer, event, steps, replies, k - 1);
        assert(transfer_next_is(steps[k - 1], peer, replies[k - 1], steps[k - 1 + 1]));
    }
}

/// Nothing is written to disk before the user has accepted the offer, and what was
/// accepted is within the ceiling.
pub proof fn law_nothing_is_received_unasked(
    step: TransferStep,
    peer: Seq<u8>,
    reply: TransferReply,
    r: TransferStep,
)
    requires
        transfer_next_is(step, peer, reply, r),
    ensures
        r is CreateTemp ==> step is Answer && step->accept && r->CreateTemp_size
            == step->Answer_size,
        r is Answer ==> step is AskUser && reply is Decided && r->Answer_size == step->AskUser_size,
        r is AskUser ==> r->AskUser_size <= MAX_TRANSFER_SIZE,
        r is Receive ==> step is CreateTemp,
{
}

/// The temp file never outlives its transfer: from the moment it exists, the transfer
/// cannot end but by wiping it.
pub proof fn law_received_temp_is_always_wiped(
    step: TransferStep,
    peer: Seq<u8>,
    reply: TransferReply,
    r: TransferStep,
)
    requires
        transfer_next_is(step, peer, reply, r),
        has_temp(step),
    ensures
        step is Wipe || has_temp(r),
        r is Done ==> step is Wipe,
{
}

/// A container is taken in only if the connected peer signed it.
pub proof fn law_only_the_peers_containers_are_imported(
    step: TransferStep,
    peer: Seq<u8>,
    reply: TransferReply,
    r: TransferStep,
)
    requires
        transfer_next_is(step, peer, reply, r),
        r is Import,
    ensures
        step is Verify && reply is Signed && reply->signer@ == peer,
{
}

// ---------------------------------------------------------------------------
// Laws
// ---------------------------------------------------------------------------

/// A peer that proved the transfer secret stays proven: none of the later stages of
/// its connection counts against its address.
pub proof fn law_proven_peers_stay_proven(stage: ConnStage)
    requires
        !unproven(stage) || stage == ConnStage::CheckProof,
    ensures
        !unproven(conn_after(stage)),
{
}

/// The bytes of some data records.
pub open spec fn total_len(lens: Seq<nat>) -> nat
    decreases lens.len(),
{
    if lens.len() == 0 {
        0
    } else {
        total_len(lens.drop_last()) + lens.last()
    }
}

/// Whether all data records of these lengths are accepted, one after the other.
pub open spec fn all_accepted(size: u64, lens: Seq<nat>) -> bool
    decreases lens.len(),
{
    lens.len() == 0 || (all_accepted(size, lens.drop_last()) && record_fault(
        total_len(lens.drop_last()) as u64,
        size,
        RecordType::Data,
        lens.last(),
    ) is None)
}

/// What is accepted never exceeds the declared size, so never the ceiling.
pub proof fn law_received_bytes_are_bounded(size: u64, lens: Seq<nat>)
    requires
        size <= MAX_TRANSFER_SIZE,
        all_accepted(size, lens),
    ensures
        total_len(lens) <= size <= MAX_TRANSFER_SIZE,
    decreases lens.len(),
{
    if lens.len() > 0 {
        law_received_bytes_are_bounded(size, lens.drop_last());
    }
}

/// Records that are not empty and add up to the declared size are all accepted.
pub proof fn law_declared_bytes_are_accepted(size: u64, lens: Seq<nat>)
    requires
        forall|i: int| 0 <= i < lens.len() ==> #[trigger] lens[i] > 0,
        total_len(lens) <= size,
    ensures
        all_accepted(size, lens),
    decreases lens.len(),
{
    if lens.len() > 0 {
        let t = lens.drop_last();
        assert forall|i: int| 0 <= i < t.len() implies #[trigger] t[i] > 0 by {
            assert(t[i] == lens[i]);
        }
        assert(lens.last() == lens[lens.len() - 1]);
        law_declared_bytes_are_accepted(size, t);
    }
}

/// Whether the stage after the `i`-th is the one that servicing goes on with.
pub open spec fn goes_on(stages: Seq<ConnStage>, i: int) -> bool {
    call_ensures(
        handle_conn,
        (stages[i], None::<ConnFailure>),
        ConnNext::Go(stages[i + 1]),
    )
}

proof fn lemma_goes_on(stages: Seq<ConnStage>, i: int)
    requires
        goes_on(stages, i),
    ensures
        stages[i + 1] == conn_after(stages[i]),
{
    let a = stages[i];
    let b = stages[i + 1];
    assert(call_ensures(handle_conn, (a, None::<ConnFailure>), ConnNext::Go(b)));
}

/// A connection that nothing fails on goes through all stages, one after the other, and
/// each once: the peer is answered before its confirmation is read, the screen is claimed
/// only for a confirmed peer, and the transfer comes last.
pub proof fn law_a_connection_takes_every_stage_in_turn(stages: Seq<ConnStage>)
    requires
        stages.len() == 10,
        stages[0] == ConnStage::SetTimeouts,
        forall|i: int| 0 <= i < 9 ==> #[trigger] goes_on(stages, i),
    ensures
        stages == seq![
            ConnStage::SetTimeouts,
            ConnStage::NewResponder,
            ConnStage::ReadHello,
            ConnStage::CheckProof,
            ConnStage::SendAuth,
            ConnStage::ReadConfirm,
            ConnStage::CheckConfirm,
            ConnStage::Claim,
            ConnStage::SetTransferTimeouts,
            ConnStage::Transfer,
        ],
        forall|x: ConnStage| #[trigger] stages.contains(x),
        stages.no_duplicates(),
{
    let s = stages;
    lemma_goes_on(s, 0);
    lemma_goes_on(s, 1);
    lemma_goes_on(s, 2);
    lemma_goes_on(s, 3);
    lemma_goes_on(s, 4);
    lemma_goes_on(s, 5);
    lemma_goes_on(s, 6);
    lemma_goes_on(s, 7);
    lemma_goes_on(s, 8);
    assert(s =~= seq![
        ConnStage::SetTimeouts,
        ConnStage::NewResponder,
        ConnStage::ReadHello,
        ConnStage::CheckProof,
        ConnStage::SendAuth,
        ConnStage::ReadConfirm,
        ConnStage::CheckConfirm,
        ConnStage::Claim,
        ConnStage::SetTransferTimeouts,
        ConnStage::Transfer,
    ]);
    assert forall|x: ConnStage| #[trigger] stages.contains(x) by {
        assert(s.contains(s[0]) && s.contains(s[1]) && s.contains(s[2]) && s.contains(s[3])
            && s.contains(s[4]) && s.contains(s[5]) && s.contains(s[6]) && s.contains(s[7])
            && s.contains(s[8]) && s.contains(s[9]));
    }
}

/// A failure ends the connection in whatever stage it comes. Before the peer has proved the
/// transfer secret it counts against the address and nobody is told; after that it never
/// counts, and only a confirmation that does not hold is shown.
pub proof fn law_probes_are_silent_and_proven_peers_are_not_punished(
    stage: ConnStage,
    f: ConnFailure,
    r: ConnNext,
)
    requires
        call_ensures(handle_conn, (stage, Some(f)), r),
    ensures
        r is Failed,
        stage == ConnStage::SetTimeouts || stage == ConnStage::NewResponder || stage
            == ConnStage::ReadHello || stage == ConnStage::CheckProof ==> r->Failed_0.rate_limit
            && !r->Failed_0.user_facing,
        stage == ConnStage::SendAuth || stage == ConnStage::ReadConfirm || stage == ConnStage::Claim
            || stage == ConnStage::SetTransferTimeouts || stage == ConnStage::Transfer ==> !r->Failed_0.rate_limit
            && !r->Failed_0.user_facing,
        stage == ConnStage::CheckConfirm ==> !r->Failed_0.rate_limit && r->Failed_0.user_facing,
        f is Outside ==> r->Failed_0.message@ == f->Outside_0@,
{
}

/// A verified contact gets its vault across: from its offer, made in its own name and small
/// enough, through the user's consent, the answer, the data and the check of the signature,
/// to the import of what was sent, after which the temp file is wiped.
pub proof fn law_an_accepted_offer_is_imported(
    book: &ContactBook,
    peer: &[u8; 32],
    k: int,
    start: (NetEvent, TransferStep),
    steps: Seq<TransferStep>,
    size: u64,
    meta: VaultMeta,
    file_count: usize,
)
    requires
        call_ensures(transfer_start, (book, peer), start),
        0 <= k < book.contacts@.len(),
        book.contacts@[k].key.fpr@ == peer@,
        book.contacts@[k].trust == Trust::Verified,
        forall|i: int| 0 <= i < k ==> (#[trigger] book.contacts@[i]).key.fpr@ != peer@,
        size <= 68_719_476_736,
        steps.len() == 10,
        steps[0] == start.1,
        call_ensures(
            run_transfer,
            (steps[0], peer, TransferReply::Record { kind: RecordType::Offer }),
            steps[1],
        ),
        call_ensures(
            run_transfer,
            (steps[1], peer, TransferReply::Offer { sender_fpr: *peer, size }),
            steps[2],
        ),
        call_ensures(run_transfer, (steps[2], peer, TransferReply::Decided(true)), steps[3]),
        call_ensures(run_transfer, (steps[3], peer, TransferReply::Went), steps[4]),
        call_ensures(run_transfer, (steps[4], peer, TransferReply::Went), steps[5]),
        call_ensures(run_transfer, (steps[5], peer, TransferReply::Went), steps[6]),
        call_ensures(
            run_transfer,
            (steps[6], peer, TransferReply::Signed { signer: *peer }),
            steps[7],
        ),
        call_ensures(
            run_transfer,
            (steps[7], peer, TransferReply::Imported { meta, file_count }),
            steps[8],
        ),
        call_ensures(run_transfer, (steps[8], peer, TransferReply::Went), steps[9]),
    ensures
        start.0 is PeerConnected && start.0->PeerConnected_verified,
        start.0->PeerConnected_name == Some(book.contacts@[k].key.name),
        steps[0] is ReadOffer,
        steps[1] is DecodeOffer,
        steps[2] == (TransferStep::AskUser { size }),
        steps[3] == (TransferStep::Answer { accept: true, size }),
        steps[4] == (TransferStep::CreateTemp { size }),
        steps[5] == (TransferStep::Receive { size }),
        steps[6] is Verify,
        steps[7] is Import,
        steps[8] == TransferStep::Wipe(TransferEnd::Received { meta, file_count }),
        steps[9] == TransferStep::Done(TransferEnd::Received { meta, file_count }),
{
    crate::contacts::lemma_contact_pos(book.contacts@, peer@);
    assert(contact_pos(book.contacts@, peer@) == k) by {
        let p = contact_pos(book.contacts@, peer@);
        if p < 0 {
            assert(book.contacts@[k].key.fpr@ != peer@);
        } else if p > k {
            assert(book.contacts@[k].key.fpr@ != peer@);
        }
    }
}

/// A transfer that is not to be goes nowhere: an offer in another's name, or too large, or a
/// record that is no offer ends it before the user is asked; a declined one ends without a
/// temp file; and a container that someone else signed is wiped, not imported.
pub proof fn law_a_wrong_transfer_is_refused(
    peer: &[u8; 32],
    kind: RecordType,
    sender_fpr: [u8; 32],
    size: u64,
    signer: [u8; 32],
    read: TransferStep,
    decoded: TransferStep,
    declined: TransferStep,
    verified: TransferStep,
)
    requires
        call_ensures(
            run_transfer,
            (TransferStep::ReadOffer, peer, TransferReply::Record { kind }),
            read,
        ),
        call_ensures(
            run_transfer,
            (TransferStep::DecodeOffer, peer, TransferReply::Offer { sender_fpr, size }),
            decoded,
        ),
        call_ensures(
            run_transfer,
            (TransferStep::Answer { accept: false, size }, peer, TransferReply::Went),
            declined,
        ),
        call_ensures(
            run_transfer,
            (TransferStep::Verify, peer, TransferReply::Signed { signer }),
            verified,
        ),
    ensures
        kind != RecordType::Offer ==> read is Done && read->Done_0 is Failed,
        sender_fpr@ != peer@ || size > 68_719_476_736 ==> decoded is Done
            && decoded->Done_0 is Failed && decoded->Done_0->Failed_0.user_facing,
        sender_fpr@ == peer@ && size <= 68_719_476_736 ==> decoded == (TransferStep::AskUser { size }),
        declined == TransferStep::Done(TransferEnd::Declined),
        signer@ != peer@ ==> verified is Wipe && verified->Wipe_0 is Failed,
        signer@ == peer@ ==> verified is Import,
{
}

/// The user's answer is what is done: an offer is accepted only by an accept command, and
/// rejected only by a reject command; without either it waits, until the time is up, the
/// listener stops or the user ends it.
pub proof fn law_only_the_user_accepts(
    stop: bool,
    polled: Polled,
    now: u64,
    deadline: u64,
    r: DecisionStep,
)
    requires
        call_ensures(wait_decision, (stop, polled, now, deadline), r),
    ensures
        r is Accept <==> !stop && polled == Polled::Command(NetCommand::AcceptOffer),
        r is Reject <==> !stop && polled == Polled::Command(NetCommand::RejectOffer),
        r is Wait <==> !stop && polled is Empty && now < deadline,
{
}

/// A transfer is complete exactly when every declared byte has come: no sooner, and then it
/// is accepted.
pub proof fn law_a_transfer_is_complete_at_its_declared_size(
    t: Receiving,
    r: Result<(), String>,
)
    requires
        call_ensures(Receiving::finish, (&t,), r),
    ensures
        r is Ok <==> t.received == t.size,
{
}

/// One transfer owns the screen at a time: of two that claim it only one gets it, until it
/// is given back.
pub proof fn law_one_transfer_owns_the_screen(
    l: &mut Listener,
    m: &mut Listener,
    n: &mut Listener,
    o: &mut Listener,
    first: bool,
    second: bool,
    third: bool,
)
    requires
        call_ensures(Listener::claim, (l,), first),
        *old(m) == *final(l),
        call_ensures(Listener::claim, (m,), second),
        *old(n) == *final(m),
        call_ensures(Listener::release, (n,), ()),
        *old(o) == *final(n),
        call_ensures(Listener::claim, (o,), third),
    ensures
        !second,
        third,
        first <==> !old(l).transfer_active,
{
}

/// The listener ends when the user stops it or the screen is gone, and only then; the user's
/// answers go to the transfer as they are.
pub proof fn law_only_a_stop_ends_the_listener(
    l: &mut Listener,
    polled: Polled,
    r: CommandStep,
)
    requires
        call_ensures(Listener::on_command, (l, polled), r),
    ensures
        r == CommandStep::Stop <==> polled is Disconnected || polled == Polled::Command(
            NetCommand::Stop,
        ),
        r == CommandStep::Stop ==> final(l).stopped,
        r != CommandStep::Stop ==> *final(l) == *old(l),
        polled is Command && polled->Command_0 != NetCommand::Stop ==> r == CommandStep::Forward(
            polled->Command_0,
        ),
        polled is Empty ==> r == CommandStep::Continue,
{
}

/// At most eight connections are served at once. A peer that is not backed off is taken on
/// while a slot is free, and its slot is free again once it is served.
pub proof fn law_slots_are_bounded_and_given_back(
    l: &mut Listener,
    m: &mut Listener,
    peer: PeerAddr,
    now: u64,
    r: Option<Permit>,
    permit: Permit,
    failure: Option<ConnError>,
    told: Option<String>,
)
    requires
        call_ensures(Listener::take_on, (l, peer, now), r),
        r is Some,
        *old(m) == *final(l),
        call_ensures(Listener::service, (m, permit, peer, now, failure), told),
    ensures
        old(l).permits.in_flight() < old(l).permits.total(),
        final(m).permits.in_flight() == old(l).permits.in_flight(),
        final(m).permits.total() == old(l).permits.total(),
        failure is None || !failure->0.rate_limit ==> final(m).limiter == old(l).limiter,
        told is Some <==> failure is Some && failure->0.user_facing,
        told is Some ==> told == Some(failure->0.message),
{
}

/// A new listener serves eight connections at once and holds nothing against anyone.
pub proof fn law_a_new_listener_takes_anyone_on(
    mapped: bool,
    start: u64,
    fresh: Listener,
    l: &mut Listener,
    peer: PeerAddr,
    now: u64,
    r: Option<Permit>,
)
    requires
        call_ensures(Listener::new, (mapped, start), fresh),
        *old(l) == fresh,
        call_ensures(Listener::take_on, (l, peer, now), r),
    ensures
        r is Some,
        fresh.permits.total() == 8,
        !fresh.transfer_active && !fresh.stopped,
{
    assert(fresh.limiter.record(peer) is None);
}

/// A peer that proved the secret is not backed off: it is taken on while a slot is free.
pub proof fn law_a_proven_peer_is_taken_on(
    l: &mut Listener,
    m: &mut Listener,
    peer: PeerAddr,
    now: u64,
    r: Option<Permit>,
)
    requires
        call_ensures(Listener::proven, (l, peer), ()),
        *old(m) == *final(l),
        call_ensures(Listener::take_on, (m, peer, now), r),
    ensures
        r is Some <==> old(l).permits.in_flight() < old(l).permits.total(),
{
}

/// A mapping is renewed every half hour, and only if there is one.
pub proof fn law_mappings_are_renewed_in_time(
    l: &mut Listener,
    m: &mut Listener,
    now: u64,
    later: u64,
    first: bool,
    second: bool,
)
    requires
        call_ensures(Listener::tick, (l, now), first),
        *old(m) == *final(l),
        call_ensures(Listener::tick, (m, later), second),
    ensures
        !old(l).mapped ==> !first && !second,
        old(l).mapped ==> (first <==> now >= old(l).last_refresh + 1_800_000_000_000),
        old(l).mapped && first ==> (second <==> later >= now + 1_800_000_000_000),
        old(l).mapped && !first ==> (second <==> later >= old(l).last_refresh + 1_800_000_000_000),
        final(l).permits == old(l).permits,
        final(l).transfer_active == old(l).transfer_active,
        final(l).stopped == old(l).stopped,
{
}

/// The report that the listener is up tells whether the router forwards to it, and where.
pub proof fn law_listening_tells_where(
    lan: String,
    mapping: Option<Result<String, String>>,
    code: String,
    e: NetEvent,
)
    requires
        call_ensures(listening, (lan, mapping, code), e),
    ensures
        e is Listening && e->lan_addr == lan && e->transfer_code == code,
        e->public_addr is Some <==> mapping is Some && mapping->0 is Ok,
        mapping is Some && mapping->0 is Ok ==> e->public_addr->0 == mapping->0->Ok_0 && e->nat
            is Mapped,
        mapping is Some && mapping->0 is Err ==> e->nat == NatStatus::Unavailable(
            mapping->0->Err_0,
        ),
        mapping is None ==> e->nat is Disabled,
{
}

/// A connected peer is let on only if it is a verified contact, and is known by that contact's
/// name; everyone else is turned away.
pub proof fn law_only_verified_contacts_are_let_on(
    book: ContactBook,
    fpr: [u8; 32],
    k: int,
    r: (NetEvent, Result<Option<String>, ConnError>),
)
    requires
        call_ensures(greet_peer, (&book, &fpr), r),
        0 <= k <= book.contacts@.len(),
        forall|i: int| 0 <= i < k ==> (#[trigger] book.contacts@[i]).key.fpr@ != fpr@,
        k < book.contacts@.len() ==> book.contacts@[k].key.fpr@ == fpr@,
    ensures
        r.1 is Ok <==> k < book.contacts@.len() && book.contacts@[k].trust == Trust::Verified,
        r.1 is Ok ==> r.1->Ok_0 == Some(book.contacts@[k].key.name),
        r.1 is Err ==> r.1->Err_0.user_facing && !r.1->Err_0.rate_limit,
        r.0 is PeerConnected && (r.0->PeerConnected_verified <==> r.1 is Ok),
{
    crate::contacts::lemma_contact_pos(book.contacts@, fpr@);
}

/// An offer reaches the user only if it is one, its sender is the connected peer, and its size
/// is within bounds; a received container counts only if the peer signed it.
pub proof fn law_only_the_peers_own_offers_are_asked(
    kind: RecordType,
    first: Option<ConnError>,
    sender: [u8; 32],
    peer: [u8; 32],
    size: u64,
    offered: Option<ConnError>,
    imported: Result<(), String>,
)
    requires
        call_ensures(expect_offer, (kind,), first),
        call_ensures(check_offer, (&sender, &peer, size), offered),
        call_ensures(import_received, (&sender, &peer), imported),
    ensures
        first is None <==> kind == RecordType::Offer,
        offered is None <==> sender@ == peer@ && size <= 64 * 1024 * 1024 * 1024,
        imported is Ok <==> sender@ == peer@,
{
}

/// Data is stored as long as it stays within the declared size, every byte of it counted; the
/// sender's end is taken as such, and anything else breaks the transfer off.
pub proof fn law_received_records_are_counted(
    t: &mut Receiving,
    kind: RecordType,
    len: usize,
    now: u64,
    r: Result<RecordStep, String>,
)
    requires
        old(t).received <= old(t).size,
        call_ensures(Receiving::receive_into, (t, kind, len, now), r),
    ensures
        r is Ok && r->Ok_0 is Store <==> kind == RecordType::Data && len > 0 && old(t).received
            + len <= old(t).size,
        r is Ok && r->Ok_0 is Finish <==> kind == RecordType::Done && len == 0,
        r is Ok && r->Ok_0 is Store ==> final(t).received == old(t).received + len,
        !(r is Ok && r->Ok_0 is Store) ==> final(t).received == old(t).received,
        r is Ok && r->Ok_0 is Store && final(t).received == final(t).size ==> r->Ok_0->progress,
        final(t).size == old(t).size,
{
}

/// A transfer ends when the listener stops, the user cancels or stops it, or the screen is
/// gone; an answer to the offer does not end it.
pub proof fn law_only_the_user_ends_a_transfer(stop: bool, polled: Polled, r: bool)
    requires
        call_ensures(transfer_cancelled, (stop, &polled), r),
    ensures
        stop ==> r,
        !stop && polled is Empty ==> !r,
        polled is Disconnected ==> r,
        polled == Polled::Command(NetCommand::Cancel) ==> r,
        polled == Polled::Command(NetCommand::Stop) ==> r,
        !stop && polled is Command && polled->Command_0 != NetCommand::Cancel
            && polled->Command_0 != NetCommand::Stop ==> !r,
{
}

} // verus!
