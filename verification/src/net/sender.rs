//! Sender side: authenticate the receiver first, offer, then stream the container in
//! records of bounded size.
//!
//! Sockets and the handshake's cryptography are outside. Times are nanoseconds of a
//! clock that never goes back.

use vstd::prelude::*;

use crate::contacts::PublicKey;

use crate::net::code::{decode_transfer_code, secret_of};
use crate::net::listener::{
    all_accepted, asks_to_end, law_declared_bytes_are_accepted, total_len, Polled, RecordType,
    PROGRESS_INTERVAL,
};
use crate::text::{concat2, concat3, concat4, decimal, decimal_text, owned};

verus! {

/// The most bytes that one data record carries.
pub const CHUNK: usize = 65_536;

// ---------------------------------------------------------------------------
// Cutting the container into records
// ---------------------------------------------------------------------------

/// The complete chunks at the front of some bytes.
pub open spec fn full_chunks(s: Seq<u8>) -> Seq<Seq<u8>> {
    Seq::new((s.len() / CHUNK as nat) as nat, |i: int| s.subrange(i * CHUNK, (i + 1) * CHUNK))
}

/// What follows the complete chunks.
pub open spec fn tail_of(s: Seq<u8>) -> Seq<u8> {
    s.skip((s.len() / CHUNK as nat) * CHUNK)
}

/// The values of a list of chunks.
pub open spec fn chunk_views(v: Seq<Vec<u8>>) -> Seq<Seq<u8>> {
    v.map_values(|c: Vec<u8>| c@)
}

/// Chunks one after the other.
pub open spec fn flat(chunks: Seq<Seq<u8>>) -> Seq<u8>
    decreases chunks.len(),
{
    if chunks.len() == 0 {
        Seq::empty()
    } else {
        flat(chunks.drop_last()) + chunks.last()
    }
}

/// Cuts the bytes of a streamed container into data records.
pub struct RecordWriter {
    /// The size that was declared.
    total: u64,
    /// The bytes handed to the socket so far.
    sent: u64,
    last_progress: u64,
    /// The bytes toward the next record.
    buf: Vec<u8>,
    cancelled: bool,
}

impl RecordWriter {
    #[verifier::type_invariant]
    spec fn inv(self) -> bool {
        self.buf@.len() < CHUNK
    }

    /// The declared size.
    pub closed spec fn declared(self) -> u64 {
        self.total
    }

    /// The bytes handed to the socket so far.
    pub closed spec fn done(self) -> u64 {
        self.sent
    }

    /// When progress was last shown.
    pub closed spec fn shown_at(self) -> u64 {
        self.last_progress
    }

    /// The bytes toward the next record.
    pub closed spec fn pending(self) -> Seq<u8> {
        self.buf@
    }

    /// Whether the user ended the transfer.
    pub closed spec fn ended(self) -> bool {
        self.cancelled
    }

    /// A writer for a container of a declared size.
    pub fn new(total: u64, now: u64) -> (w: Self)
        ensures
            w.declared() == total && w.done() == 0 && w.shown_at() == now,
            w.pending() == Seq::<u8>::empty() && !w.ended(),
    {
        RecordWriter { total, sent: 0, last_progress: now, buf: Vec::new(), cancelled: false }
    }

    /// Takes bytes in, and gives out the records that are complete.
    pub fn write(&mut self, data: &[u8]) -> (r: Vec<Vec<u8>>)
        ensures
            chunk_views(r@) == full_chunks(old(self).pending() + data@),
            final(self).pending() == tail_of(old(self).pending() + data@),
            final(self).pending().len() < CHUNK,
            final(self).declared() == old(self).declared() && final(self).done() == old(
                self,
            ).done(),
            final(self).shown_at() == old(self).shown_at() && final(self).ended() == old(
                self,
            ).ended(),
    {
        proof {
            use_type_invariant(&*self);
        }
        let ghost first = self.buf@;
        let mut buf: Vec<u8> = Vec::new();
        std::mem::swap(&mut self.buf, &mut buf);
        let mut r: Vec<Vec<u8>> = Vec::new();
        let mut i: usize = 0;
        proof {
            assert(data@.take(0) =~= Seq::<u8>::empty());
            assert(first + data@.take(0) =~= first);
            lemma_short(first);
            assert(chunk_views(r@) =~= full_chunks(first));
        }
        let n: usize = data.len();
        while i < n
            invariant
                i <= n,
                n == data@.len(),
                buf@.len() < CHUNK,
                chunk_views(r@) == full_chunks(first + data@.take(i as int)),
                buf@ == tail_of(first + data@.take(i as int)),
            decreases n - i,
        {
            let ghost s = first + data@.take(i as int);
            let ghost t = first + data@.take(i + 1);
            proof {
                assert(t =~= s.push(data@[i as int]));
                lemma_push(s, data@[i as int]);
            }
            buf.push(data[i]);
            if buf.len() == CHUNK {
                let ghost chunk = buf@;
                let ghost before = chunk_views(r@);
                r.push(buf);
                buf = Vec::new();
                proof {
                    assert(chunk_views(r@) =~= before.push(chunk));
                    assert(buf@ =~= tail_of(t));
                }
            }
            i += 1;
        }
        assert(data@.take(n as int) =~= data@);
        self.buf = buf;
        r
    }

    /// Whether the user ended the transfer, which is remembered.
    pub fn cancel_requested(&mut self, polled: &Polled) -> (r: bool)
        ensures
            r == asks_to_end(*polled),
            final(self).ended() == (old(self).ended() || r),
            final(self).pending() == old(self).pending(),
            final(self).declared() == old(self).declared() && final(self).done() == old(
                self,
            ).done() && final(self).shown_at() == old(self).shown_at(),
    {
        proof {
            use_type_invariant(&*self);
        }
        let r = crate::net::listener::transfer_cancelled(false, polled);
        if r {
            self.cancelled = true;
        }
        r
    }

    /// Notes that a record was sent; the progress to show, if it is time.
    pub fn record_sent(&mut self, len: usize, now: u64) -> (r: Option<(u64, u64)>)
        ensures
            final(self).done() == (if old(self).done() + len > u64::MAX {
                u64::MAX as int
            } else {
                old(self).done() + len
            }),
            r == (if final(self).done() == old(self).declared() || now - old(self).shown_at()
                >= PROGRESS_INTERVAL {
                Some((final(self).done(), old(self).declared()))
            } else {
                None
            }),
            final(self).shown_at() == (if r is Some {
                now
            } else {
                old(self).shown_at()
            }),
            final(self).pending() == old(self).pending(),
            final(self).declared() == old(self).declared() && final(self).ended() == old(
                self,
            ).ended(),
    {
        proof {
            use_type_invariant(&*self);
        }
        let len64: u64 = len as u64;
        self.sent = if len64 > u64::MAX - self.sent { u64::MAX } else { self.sent + len64 };
        if self.sent == self.total || (now >= self.last_progress && now - self.last_progress
            >= PROGRESS_INTERVAL) {
            self.last_progress = now;
            Some((self.sent, self.total))
        } else {
            None
        }
    }

    /// Hands out the last, short record, if there is one.
    pub fn finish(&mut self) -> (r: Option<Vec<u8>>)
        ensures
            match r {
                Some(tail) => tail@ == old(self).pending() && tail@.len() > 0,
                None => old(self).pending().len() == 0,
            },
            final(self).pending() == Seq::<u8>::empty(),
            final(self).declared() == old(self).declared() && final(self).done() == old(
                self,
            ).done(),
            final(self).shown_at() == old(self).shown_at() && final(self).ended() == old(
                self,
            ).ended(),
    {
        let mut tail: Vec<u8> = Vec::new();
        std::mem::swap(&mut self.buf, &mut tail);
        assert(self.buf@ =~= Seq::<u8>::empty());
        if tail.len() > 0 {
            Some(tail)
        } else {
            None
        }
    }

    /// Whether the user ended the transfer.
    pub fn cancelled(&self) -> (r: bool)
        ensures
            r == self.ended(),
    {
        self.cancelled
    }
}

proof fn lemma_short(s: Seq<u8>)
    requires
        s.len() < CHUNK,
    ensures
        full_chunks(s) == Seq::<Seq<u8>>::empty(),
        tail_of(s) == s,
{
    assert(s.len() / CHUNK as nat == 0) by (nonlinear_arith)
        requires
            s.len() < CHUNK,
    ;
    assert(full_chunks(s) =~= Seq::<Seq<u8>>::empty());
    assert(tail_of(s) =~= s);
}

/// What one more byte does to the chunks.
proof fn lemma_push(s: Seq<u8>, b: u8)
    ensures
        ({
            let t = s.push(b);
            if tail_of(s).len() + 1 == CHUNK {
                full_chunks(t) == full_chunks(s).push(tail_of(s).push(b)) && tail_of(t).len() == 0
            } else {
                full_chunks(t) == full_chunks(s) && tail_of(t) == tail_of(s).push(b)
            }
        }),
        tail_of(s).len() < CHUNK,
{
    let t = s.push(b);
    let q = s.len() / 65536;
    let q2 = t.len() / 65536;
    assert(tail_of(s).len() == s.len() - q * 65536);
    if tail_of(s).len() + 1 == CHUNK {
        assert(q2 == q + 1);
        assert(full_chunks(t) =~= full_chunks(s).push(tail_of(s).push(b))) by {
            assert forall|i: int| 0 <= i < q implies full_chunks(t)[i] =~= full_chunks(s)[i] by {}
            assert(full_chunks(t)[q as int] =~= tail_of(s).push(b));
        }
    } else {
        assert(q2 == q);
        assert(full_chunks(t) =~= full_chunks(s)) by {
            assert forall|i: int| 0 <= i < q implies full_chunks(t)[i] =~= full_chunks(s)[i] by {}
        }
        assert(tail_of(t) =~= tail_of(s).push(b));
    }
}

/// How the container is handed in does not show on the wire: cutting two pieces one
/// after the other gives the records of both together.
pub proof fn law_fragments_make_no_difference(a: Seq<u8>, b: Seq<u8>)
    ensures
        full_chunks(a + b) == full_chunks(a) + full_chunks(tail_of(a) + b),
        tail_of(a + b) == tail_of(tail_of(a) + b),
    decreases b.len(),
{
    let t = tail_of(a);
    lemma_push(a, 0);
    if b.len() == 0 {
        assert(a + b =~= a);
        assert(t + b =~= t);
        lemma_short(t);
        assert(full_chunks(a) + Seq::<Seq<u8>>::empty() =~= full_chunks(a));
    } else {
        let c = b.drop_last();
        law_fragments_make_no_difference(a, c);
        assert(a + b =~= (a + c).push(b.last()));
        assert(t + b =~= (t + c).push(b.last()));
        lemma_push(a + c, b.last());
        lemma_push(t + c, b.last());
        assert(full_chunks(a + b) =~= full_chunks(a) + full_chunks(t + b));
        if tail_of(a + c).len() + 1 == CHUNK {
            assert(tail_of(a + b) =~= tail_of(t + b));
        }
    }
}

/// Nothing is lost or added: the records, and the short one at the end, are the bytes
/// that were handed in; no record is empty or too long.
pub proof fn law_records_carry_the_data(s: Seq<u8>)
    ensures
        flat(full_chunks(s)) + tail_of(s) == s,
        forall|i: int| 0 <= i < full_chunks(s).len() ==> #[trigger] full_chunks(s)[i].len() == CHUNK,
        tail_of(s).len() < CHUNK,
    decreases s.len(),
{
    if s.len() == 0 {
        lemma_short(s);
        assert(flat(full_chunks(s)) + tail_of(s) =~= s);
    } else {
        let p = s.drop_last();
        law_records_carry_the_data(p);
        assert(s =~= p.push(s.last()));
        lemma_push(p, s.last());
        lemma_push(s, 0);
        if tail_of(p).len() + 1 == CHUNK {
            assert(full_chunks(s).drop_last() =~= full_chunks(p));
            assert(flat(full_chunks(s)) == flat(full_chunks(p)) + tail_of(p).push(s.last()));
        }
        assert(flat(full_chunks(s)) + tail_of(s) =~= s);
    }
}

/// The lengths of the data records that carry some bytes.
pub open spec fn record_lens(s: Seq<u8>) -> Seq<nat> {
    full_chunks(s).map_values(|c: Seq<u8>| c.len()) + (if tail_of(s).len() > 0 {
        seq![tail_of(s).len()]
    } else {
        Seq::empty()
    })
}

proof fn lemma_flat_len(chunks: Seq<Seq<u8>>)
    ensures
        flat(chunks).len() == total_len(chunks.map_values(|c: Seq<u8>| c.len())),
    decreases chunks.len(),
{
    let m = chunks.map_values(|c: Seq<u8>| c.len());
    if chunks.len() > 0 {
        lemma_flat_len(chunks.drop_last());
        assert(m.drop_last() =~= chunks.drop_last().map_values(|c: Seq<u8>| c.len()));
    }
}

/// A container that is sent whole arrives whole: a receiver told its exact size takes
/// every record in, and has the declared size at the end.
pub proof fn law_a_whole_transfer_is_accepted(s: Seq<u8>)
    requires
        s.len() <= u64::MAX,
    ensures
        all_accepted(s.len() as u64, record_lens(s)),
        total_len(record_lens(s)) == s.len(),
{
    law_records_carry_the_data(s);
    let chunks = full_chunks(s);
    let m = chunks.map_values(|c: Seq<u8>| c.len());
    lemma_flat_len(chunks);
    let lens = record_lens(s);
    if tail_of(s).len() > 0 {
        assert(lens.drop_last() =~= m);
        assert(lens.last() == tail_of(s).len());
    } else {
        assert(lens =~= m);
    }
    assert forall|i: int| 0 <= i < lens.len() implies #[trigger] lens[i] > 0 by {
        if i < m.len() {
            assert(lens[i] == chunks[i].len());
        }
    }
    law_declared_bytes_are_accepted(s.len() as u64, lens);
}

// ---------------------------------------------------------------------------
// Before the stream
// ---------------------------------------------------------------------------

/// What is said when the receiver cannot be reached.
pub fn unreachable_message(host: &str, port: u16, e: &str) -> (r: String)
    ensures
        r@ == "Couldn't reach the receiver at "@ + host@ + ":"@ + decimal_text(port as nat)
            + ". Make sure they've started listening and the address and port are right. ("@ + e@
            + ")"@,
{
    let mut r = concat3("Couldn't reach the receiver at ", host, ":");
    r.append(&decimal(port as u64));
    r.append(". Make sure they've started listening and the address and port are right. (");
    r.append(e);
    r.append(")");
    r
}

/// What is said when a host has no address; `e` tells why, if looking it up failed.
pub fn resolve_message(host: &str, e: Option<&str>) -> (r: String)
    ensures
        r@ == (match e {
            Some(t) => "could not resolve "@ + host@ + ": "@ + t@,
            None => "no address found for "@ + host@,
        }),
{
    match e {
        Some(t) => concat4("could not resolve ", host, ": ", t),
        None => concat2("no address found for ", host),
    }
}

/// The secret that the typed code stands for.
pub fn transfer_secret(code: &Option<String>) -> (r: Result<[u8; 16], String>)
    ensures
        match r {
            Ok(s) => code is Some && secret_of(code->0@) == Some(s@),
            Err(e) => (code is None || secret_of(code->0@) is None) && e@
                == "Enter the transfer code the receiver is showing (letters and numbers)."@,
        },
{
    match code {
        Some(c) => match decode_transfer_code(c) {
            Some(s) => Ok(s),
            None => Err(
                owned("Enter the transfer code the receiver is showing (letters and numbers)."),
            ),
        },
        None => Err(
            owned("Enter the transfer code the receiver is showing (letters and numbers)."),
        ),
    }
}

/// What is shown while the receiver decides.
pub fn waiting_status(recipient: &PublicKey) -> (r: String)
    ensures
        r@ == "Waiting for "@ + (if recipient.name@.len() == 0 {
            "the receiver"@
        } else {
            recipient.name@
        }) + " to accept…"@,
{
    if recipient.name.as_str().is_empty() {
        concat3("Waiting for ", "the receiver", " to accept…")
    } else {
        concat3("Waiting for ", &recipient.name, " to accept…")
    }
}

/// The name under which a vault is offered.
pub fn offer_name(vault: &str) -> (r: String)
    ensures
        r@ == vault@ + ".fsec"@,
{
    concat2(vault, ".fsec")
}

/// What the receiver's answer means.
#[derive(Clone, Copy, Debug, PartialEq, Eq, Structural)]
pub enum Answer {
    Stream,
    Declined,
}

/// Whether a record is the receiver's answer.
pub fn expect_decision(kind: RecordType) -> (r: Option<String>)
    ensures
        match r {
            Some(e) => kind != RecordType::OfferDecision && e@
                == "protocol error: expected a decision"@,
            None => kind == RecordType::OfferDecision,
        },
{
    if kind == RecordType::OfferDecision {
        None
    } else {
        Some(owned("protocol error: expected a decision"))
    }
}

/// What the receiver's answer means.
pub fn on_decision(accept: bool) -> (r: Answer)
    ensures
        r == (if accept {
            Answer::Stream
        } else {
            Answer::Declined
        }),
{
    if accept {
        Answer::Stream
    } else {
        Answer::Declined
    }
}

/// How streaming ended: a transfer that the user ended is said to be so, whatever
/// failure that caused.
pub fn stream_result(w: &RecordWriter, failure: Option<String>) -> (r: Result<(), String>)
    ensures
        if w.ended() {
            r is Err && r->Err_0@ == "Transfer cancelled."@
        } else {
            match failure {
                Some(e) => r == Err::<(), String>(e),
                None => r is Ok,
            }
        },
{
    if w.cancelled() {
        return Err(owned("Transfer cancelled."));
    }
    match failure {
        Some(e) => Err(e),
        None => Ok(()),
    }
}

// ---------------------------------------------------------------------------
// The order of sending
// ---------------------------------------------------------------------------

/// The stages of sending a vault.
pub enum SendStep {
    /// Open the vault for its name alone.
    OpenVault,
    Resolve,
    Connect,
    /// Read the code that was typed.
    ReadCode,
    Hello,
    ReadAuth,
    /// Check that the receiver is the chosen contact, and confirm.
    Confirm,
    /// Prepare the export, for its exact size.
    Plan,
    Offer,
    AwaitDecision,
    Stream,
    /// Say that all is sent.
    Finish,
    Sent,
    Declined,
    Failed(String),
}

/// How a stage of sending went.
pub enum SendReply {
    Went,
    Answer { kind: RecordType, accept: bool },
    Failed(String),
}

/// Whether `r` is the stage after one that went as `reply` says.
pub open spec fn send_next_is(step: SendStep, reply: SendReply, r: SendStep) -> bool {
    match (step, reply) {
        (SendStep::Sent, _) => r is Sent,
        (SendStep::Declined, _) => r is Declined,
        (SendStep::Failed(e), _) => r == SendStep::Failed(e),
        (_, SendReply::Failed(e)) => r == SendStep::Failed(e),
        (SendStep::AwaitDecision, SendReply::Answer { kind, accept }) => if kind
            != RecordType::OfferDecision {
            r is Failed && r->Failed_0@ == "protocol error: expected a decision"@
        } else if accept {
            r is Stream
        } else {
            r is Declined
        },
        (SendStep::OpenVault, SendReply::Went) => r is Resolve,
        (SendStep::Resolve, SendReply::Went) => r is Connect,
        (SendStep::Connect, SendReply::Went) => r is ReadCode,
        (SendStep::ReadCode, SendReply::Went) => r is Hello,
        (SendStep::Hello, SendReply::Went) => r is ReadAuth,
        (SendStep::ReadAuth, SendReply::Went) => r is Confirm,
        (SendStep::Confirm, SendReply::Went) => r is Plan,
        (SendStep::Plan, SendReply::Went) => r is Offer,
        (SendStep::Offer, SendReply::Went) => r is AwaitDecision,
        (SendStep::Stream, SendReply::Went) => r is Finish,
        (SendStep::Finish, SendReply::Went) => r is Sent,
        _ => r is Failed && r->Failed_0@ == "protocol error during the transfer"@,
    }
}

/// The next stage of sending a vault.
pub fn run_send(step: SendStep, reply: SendReply) -> (r: SendStep)
    ensures
        send_next_is(step, reply, r),
{
    match (step, reply) {
        (SendStep::Sent, _) => SendStep::Sent,
        (SendStep::Declined, _) => SendStep::Declined,
        (SendStep::Failed(e), _) => SendStep::Failed(e),
        (_, SendReply::Failed(e)) => SendStep::Failed(e),
        (SendStep::AwaitDecision, SendReply::Answer { kind, accept }) => match expect_decision(
            kind,
        ) {
            Some(e) => SendStep::Failed(e),
            None => match on_decision(accept) {
                Answer::Stream => SendStep::Stream,
                Answer::Declined => SendStep::Declined,
            },
        },
        (SendStep::OpenVault, SendReply::Went) => SendStep::Resolve,
        (SendStep::Resolve, SendReply::Went) => SendStep::Connect,
        (SendStep::Connect, SendReply::Went) => SendStep::ReadCode,
        (SendStep::ReadCode, SendReply::Went) => SendStep::Hello,
        (SendStep::Hello, SendReply::Went) => SendStep::ReadAuth,
        (SendStep::ReadAuth, SendReply::Went) => SendStep::Confirm,
        (SendStep::Confirm, SendReply::Went) => SendStep::Plan,
        (SendStep::Plan, SendReply::Went) => SendStep::Offer,
        (SendStep::Offer, SendReply::Went) => SendStep::AwaitDecision,
        (SendStep::Stream, SendReply::Went) => SendStep::Finish,
        (SendStep::Finish, SendReply::Went) => SendStep::Sent,
        _ => SendStep::Failed(owned("protocol error during the transfer")),
    }
}

/// Whether a stage hands out what the vault holds.
pub open spec fn reveals_content(step: SendStep) -> bool {
    step is Stream || step is Finish || step is Sent
}

/// Whether a stage comes after the receiver was authenticated as the chosen contact.
pub open spec fn authenticated(step: SendStep) -> bool {
    step is Plan || step is Offer || step is AwaitDecision || reveals_content(step)
        || step is Declined
}

/// Nothing of a vault is sent before the receiver has been authenticated and has
/// accepted the offer.
pub proof fn law_nothing_is_sent_unauthenticated(step: SendStep, reply: SendReply, r: SendStep)
    requires
        send_next_is(step, reply, r),
    ensures
        authenticated(r) && !authenticated(step) ==> step is Confirm && reply is Went,
        reveals_content(r) && !reveals_content(step) ==> step is AwaitDecision && reply is Answer
            && reply->accept,
{
}

/// Sending goes through its stages in order, each once: the receiver is authenticated before
/// anything is offered, and what the vault holds goes out only after the offer was accepted.
pub proof fn law_a_vault_is_sent_stage_by_stage(steps: Seq<SendStep>)
    requires
        steps.len() == 13,
        steps[0] is OpenVault,
        call_ensures(run_send, (steps[0], SendReply::Went), steps[1]),
        call_ensures(run_send, (steps[1], SendReply::Went), steps[2]),
        call_ensures(run_send, (steps[2], SendReply::Went), steps[3]),
        call_ensures(run_send, (steps[3], SendReply::Went), steps[4]),
        call_ensures(run_send, (steps[4], SendReply::Went), steps[5]),
        call_ensures(run_send, (steps[5], SendReply::Went), steps[6]),
        call_ensures(run_send, (steps[6], SendReply::Went), steps[7]),
        call_ensures(run_send, (steps[7], SendReply::Went), steps[8]),
        call_ensures(run_send, (steps[8], SendReply::Went), steps[9]),
        call_ensures(
            run_send,
            (steps[9], SendReply::Answer { kind: RecordType::OfferDecision, accept: true }),
            steps[10],
        ),
        call_ensures(run_send, (steps[10], SendReply::Went), steps[11]),
        call_ensures(run_send, (steps[11], SendReply::Went), steps[12]),
    ensures
        steps[1] is Resolve,
        steps[2] is Connect,
        steps[3] is ReadCode,
        steps[4] is Hello,
        steps[5] is ReadAuth,
        steps[6] is Confirm,
        steps[7] is Plan,
        steps[8] is Offer,
        steps[9] is AwaitDecision,
        steps[10] is Stream,
        steps[11] is Finish,
        steps[12] is Sent,
{
}

/// A declined offer ends in a refusal that is no failure, an answer that is none in a
/// failure, and whatever fails ends the sending with its reason.
pub proof fn law_sending_stops_where_it_is_stopped(
    step: SendStep,
    e: String,
    failed: SendStep,
    declined: SendStep,
    kind: RecordType,
    accept: bool,
    wrong: SendStep,
)
    requires
        !(step is Sent || step is Declined || step is Failed),
        call_ensures(run_send, (step, SendReply::Failed(e)), failed),
        call_ensures(
            run_send,
            (
                SendStep::AwaitDecision,
                SendReply::Answer { kind: RecordType::OfferDecision, accept: false },
            ),
            declined,
        ),
        kind != RecordType::OfferDecision,
        call_ensures(
            run_send,
            (SendStep::AwaitDecision, SendReply::Answer { kind, accept }),
            wrong,
        ),
    ensures
        failed == SendStep::Failed(e),
        declined is Declined,
        wrong is Failed,
{
}

/// A stream that the user ended is reported as ended, and only then; any other failure is
/// reported as it came, and a stream without one is a success.
pub proof fn law_a_stream_reports_how_it_ended(
    w: RecordWriter,
    failure: Option<String>,
    r: Result<(), String>,
)
    requires
        call_ensures(stream_result, (&w, failure), r),
    ensures
        r is Ok <==> !w.ended() && failure is None,
        !w.ended() && failure is Some ==> r->Err_0 == failure->0,
{
}

/// What is written comes out in whole records, in order and without loss: what was held back
/// before and what came in are what the records hold and what is held back now.
pub proof fn law_nothing_written_is_lost(w: &mut RecordWriter, data: &[u8], r: Vec<Vec<u8>>, i: int)
    requires
        call_ensures(RecordWriter::write, (w, data), r),
    ensures
        flat(chunk_views(r@)) + final(w).pending() == old(w).pending() + data@,
        0 <= i < r@.len() ==> r@[i]@.len() == 65_536,
        final(w).pending().len() < 65_536,
{
    let s = old(w).pending() + data@;
    law_records_carry_the_data(s);
    if 0 <= i < r@.len() {
        assert(chunk_views(r@)[i] == r@[i]@);
        assert(full_chunks(s)[i].len() == CHUNK);
    }
}

/// Every byte sent is counted, the end is always shown, and otherwise progress is shown at
/// most every tenth of a second.
pub proof fn law_progress_counts_every_byte(
    w: &mut RecordWriter,
    len: usize,
    now: u64,
    r: Option<(u64, u64)>,
)
    requires
        call_ensures(RecordWriter::record_sent, (w, len, now), r),
        old(w).done() + len <= u64::MAX,
    ensures
        final(w).done() == old(w).done() + len,
        final(w).declared() == old(w).declared(),
        r is Some <==> old(w).done() + len == old(w).declared() || now >= old(w).shown_at()
            + 100_000_000,
        match r {
            Some((done, total)) => done == old(w).done() + len && total == old(w).declared(),
            None => true,
        },
{
}

/// Only the user ends a transfer from here, and that is not forgotten.
pub proof fn law_an_ended_transfer_stays_ended(
    w: &mut RecordWriter,
    polled: Polled,
    r: bool,
    v: &mut RecordWriter,
    later: Polled,
    q: bool,
)
    requires
        call_ensures(RecordWriter::cancel_requested, (w, &polled), r),
        *old(v) == *final(w),
        call_ensures(RecordWriter::cancel_requested, (v, &later), q),
    ensures
        polled is Empty ==> !r,
        polled is Disconnected ==> r,
        polled == Polled::Command(crate::net::NetCommand::Cancel) ==> r,
        polled == Polled::Command(crate::net::NetCommand::Stop) ==> r,
        r ==> final(v).ended(),
        !r && !q ==> final(v).ended() == old(w).ended(),
        final(v).pending() == old(w).pending() && final(v).done() == old(w).done(),
{
}

/// The typed code stands for a secret exactly as the receiver's code reads, and nothing is
/// streamed unless the receiver accepted.
pub proof fn law_only_an_accepted_offer_is_streamed(
    code: Option<String>,
    text: &str,
    read: Option<[u8; 16]>,
    secret: Result<[u8; 16], String>,
    kind: RecordType,
    fault: Option<String>,
    accept: bool,
    answer: Answer,
)
    requires
        call_ensures(transfer_secret, (&code,), secret),
        code is Some ==> text@ == code->0@,
        call_ensures(decode_transfer_code, (text,), read),
        call_ensures(expect_decision, (kind,), fault),
        call_ensures(on_decision, (accept,), answer),
    ensures
        code is None ==> secret is Err,
        code is Some ==> (secret is Ok <==> read is Some),
        code is Some && read is Some ==> secret->Ok_0@ == read->0@,
        fault is None <==> kind == RecordType::OfferDecision,
        answer == Answer::Stream <==> accept,
{
}

} // verus!
