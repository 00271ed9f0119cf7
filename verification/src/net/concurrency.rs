//! Listener admission controls: a counting semaphore that bounds how many
//! connections may be handshaking at once, and a per-address backoff that
//! throttles a peer that keeps failing the handshake.
//!
//! Both are plain state machines over an injected clock. A clock reading is a
//! number of nanoseconds since a fixed origin of the caller's choosing.

use vstd::prelude::*;

verus! {

// ---------------------------------------------------------------------------
// Bounded worker permits
// ---------------------------------------------------------------------------

/// A non-blocking counting semaphore. The accept loop takes a permit before
/// starting a handshake worker and gives it back when the worker exits, so at most
/// `capacity` connections are ever in flight; a flood beyond that is refused
/// immediately.
pub struct Semaphore {
    capacity: usize,
    available: usize,
}

/// One permit taken from a [`Semaphore`].
pub struct Permit {
    taken: (),
}

impl Semaphore {
    #[verifier::type_invariant]
    spec fn inv(self) -> bool {
        self.available <= self.capacity
    }

    /// How many permits the semaphore was made with.
    pub closed spec fn total(self) -> nat {
        self.capacity as nat
    }

    /// How many permits are out.
    pub closed spec fn in_flight(self) -> nat {
        (self.capacity - self.available) as nat
    }

    /// Creates a semaphore with `capacity` permits.
    pub fn new(capacity: usize) -> (s: Self)
        ensures
            s.total() == capacity,
            s.in_flight() == 0,
    {
        Semaphore { capacity, available: capacity }
    }

    /// Tries to take one permit without blocking; `None` if the pool is full.
    pub fn try_acquire(&mut self) -> (r: Option<Permit>)
        ensures
            final(self).total() == old(self).total(),
            match r {
                Some(_) => old(self).in_flight() < old(self).total() && final(self).in_flight()
                    == old(self).in_flight() + 1,
                None => old(self).in_flight() == old(self).total() && final(self).in_flight()
                    == old(self).in_flight(),
            },
            final(self).in_flight() <= final(self).total(),
    {
        proof {
            use_type_invariant(&*self);
        }
        if self.available == 0 {
            None
        } else {
            self.available = self.available - 1;
            Some(Permit { taken: () })
        }
    }

    /// Gives a permit back.
    pub fn release(&mut self, permit: Permit)
        requires
            old(self).in_flight() > 0,
        ensures
            final(self).total() == old(self).total(),
            final(self).in_flight() == old(self).in_flight() - 1,
    {
        proof {
            use_type_invariant(&*self);
        }
        self.available = self.available + 1;
    }

    /// Permits currently available.
    pub fn available(&self) -> (n: usize)
        ensures
            n == self.total() - self.in_flight(),
    {
        proof {
            use_type_invariant(self);
        }
        self.available
    }
}

// ---------------------------------------------------------------------------
// Per-address failed-handshake backoff
// ---------------------------------------------------------------------------

/// Nanoseconds in a second.
pub const SECOND: u64 = 1_000_000_000;

/// How many consecutive failures a peer may accrue before it is blocked.
pub const FAILURE_THRESHOLD: u32 = 5;

/// Base backoff once the threshold is crossed; doubles per extra failure.
pub const BASE_BACKOFF: u64 = 1_000_000_000;

/// Ceiling on a single block window.
pub const MAX_BACKOFF: u64 = 60_000_000_000;

/// Idle time after which a peer's failure record is forgotten.
pub const FORGET_AFTER: u64 = 300_000_000_000;

/// A peer's source address.
#[derive(Clone, Copy, Debug, PartialEq, Eq, Structural)]
pub enum PeerAddr {
    V4(u32),
    V6(u128),
}

/// What is remembered of one peer.
#[derive(Clone, Copy, Debug, PartialEq, Eq, Structural)]
pub struct Record {
    /// Failures in a row.
    pub failures: u32,
    /// The peer is refused until this time, once past the threshold.
    pub blocked_until: Option<u64>,
    /// Last time a failure was seen from this address.
    pub last_seen: u64,
}

/// The block window after `failures` failures in a row, at or past the threshold:
/// one second, doubled for each failure beyond it, at most a minute.
pub open spec fn backoff(failures: u32) -> nat {
    let over = failures - FAILURE_THRESHOLD;
    if over >= 6 {
        MAX_BACKOFF as nat
    } else {
        BASE_BACKOFF as nat * vstd::arithmetic::power2::pow2(over as nat)
    }
}

/// A peer's record after one more failure at time `now`.
pub open spec fn after_failure(rec: Option<Record>, now: u64) -> Record {
    let failures: u32 = match rec {
        Some(r) => if r.failures == u32::MAX {
            u32::MAX
        } else {
            (r.failures + 1) as u32
        },
        None => 1,
    };
    let earlier = match rec {
        Some(r) => r.blocked_until,
        None => None,
    };
    Record {
        failures,
        blocked_until: if failures >= FAILURE_THRESHOLD {
            Some((now + backoff(failures)) as u64)
        } else {
            earlier
        },
        last_seen: now,
    }
}

/// Whether a peer with this record is let in at time `now`.
pub open spec fn admits(rec: Option<Record>, now: u64) -> bool {
    match rec {
        Some(r) => match r.blocked_until {
            Some(until) => now >= until,
            None => true,
        },
        None => true,
    }
}

/// Whether a record is recent enough to keep at time `now`.
pub open spec fn recent(rec: Record, now: u64) -> bool {
    now - rec.last_seen < FORGET_AFTER
}

/// Tracks failed handshakes per source address and answers whether a new
/// connection from that address should currently be accepted. A successful
/// handshake clears the peer's record; repeated failures back it off exponentially.
pub struct RateLimiter {
    peers: Vec<(PeerAddr, Record)>,
}

/// The record that a list of records holds of `ip`: the first one.
pub open spec fn lookup(peers: Seq<(PeerAddr, Record)>, ip: PeerAddr) -> Option<Record>
    decreases peers.len(),
{
    if peers.len() == 0 {
        None
    } else if peers[0].0 == ip {
        Some(peers[0].1)
    } else {
        lookup(peers.drop_first(), ip)
    }
}

/// Whether no address has two records.
pub open spec fn one_record_each(peers: Seq<(PeerAddr, Record)>) -> bool {
    forall|i: int, j: int| 0 <= i < j < peers.len() ==> peers[i].0 != peers[j].0
}

proof fn lemma_lookup_at(peers: Seq<(PeerAddr, Record)>, i: int)
    requires
        one_record_each(peers),
        0 <= i < peers.len(),
    ensures
        lookup(peers, peers[i].0) == Some(peers[i].1),
    decreases peers.len(),
{
    if i > 0 {
        assert(peers[0].0 != peers[i].0);
        let t = peers.drop_first();
        assert(t[i - 1] == peers[i]);
        assert forall|a: int, b: int| 0 <= a < b < t.len() implies t[a].0 != t[b].0 by {
            assert(t[a] == peers[a + 1] && t[b] == peers[b + 1]);
        }
        lemma_lookup_at(t, i - 1);
    }
}

proof fn lemma_lookup_none(peers: Seq<(PeerAddr, Record)>, ip: PeerAddr)
    requires
        forall|i: int| 0 <= i < peers.len() ==> (#[trigger] peers[i]).0 != ip,
    ensures
        lookup(peers, ip) is None,
    decreases peers.len(),
{
    if peers.len() > 0 {
        let t = peers.drop_first();
        assert forall|i: int| 0 <= i < t.len() implies (#[trigger] t[i]).0 != ip by {
            assert(t[i] == peers[i + 1]);
        }
        lemma_lookup_none(t, ip);
    }
}

proof fn lemma_lookup_found(peers: Seq<(PeerAddr, Record)>, ip: PeerAddr) -> (i: int)
    requires
        lookup(peers, ip) is Some,
    ensures
        0 <= i < peers.len(),
        peers[i] == (ip, lookup(peers, ip)->0),
    decreases peers.len(),
{
    if peers[0].0 == ip {
        0
    } else {
        let i = lemma_lookup_found(peers.drop_first(), ip);
        assert(peers.drop_first()[i] == peers[i + 1]);
        i + 1
    }
}

/// A handshake that a limiter is told of.
pub enum LimiterEvent {
    Failed { ip: PeerAddr, now: u64 },
    Succeeded { ip: PeerAddr },
}

impl LimiterEvent {
    /// The peer it was with.
    pub open spec fn ip(self) -> PeerAddr {
        match self {
            LimiterEvent::Failed { ip, now } => ip,
            LimiterEvent::Succeeded { ip } => ip,
        }
    }

    /// What is remembered of the peer after it.
    pub open spec fn leaves(self, rec: Option<Record>) -> Option<Record> {
        match self {
            LimiterEvent::Failed { ip, now } => Some(after_failure(rec, now)),
            LimiterEvent::Succeeded { ip } => None,
        }
    }
}

/// Whether a limiter that is told of a handshake turns from `a` into `b`: only what it
/// remembers of that peer changes.
pub open spec fn noted(a: RateLimiter, e: LimiterEvent, b: RateLimiter) -> bool {
    &&& b.record(e.ip()) == e.leaves(a.record(e.ip()))
    &&& forall|other: PeerAddr| other != e.ip() ==> #[trigger] b.record(other) == a.record(other)
}

/// Whether a limiter that forgets old records at time `now` turns from `a` into `b`.
pub open spec fn pruned(a: RateLimiter, now: u64, b: RateLimiter) -> bool {
    forall|ip: PeerAddr| #[trigger]
        b.record(ip) == (match a.record(ip) {
            Some(r) => if recent(r, now) {
                Some(r)
            } else {
                None
            },
            None => None,
        })
}

impl RateLimiter {
    #[verifier::type_invariant]
    spec fn inv(self) -> bool {
        one_record_each(self.peers@)
    }

    /// What is remembered of `ip`.
    pub closed spec fn record(self, ip: PeerAddr) -> Option<Record> {
        lookup(self.peers@, ip)
    }

    /// A limiter that remembers nobody.
    pub fn new() -> (r: Self)
        ensures
            forall|ip: PeerAddr| #[trigger] r.record(ip) is None,
    {
        RateLimiter { peers: Vec::new() }
    }

    /// The position of `ip`'s record.
    fn position(&self, ip: PeerAddr) -> (r: Option<usize>)
        ensures
            match r {
                Some(i) => i < self.peers@.len() && self.peers@[i as int].0 == ip && self.record(ip)
                    == Some(self.peers@[i as int].1),
                None => self.record(ip) is None && forall|k: int|
                    0 <= k < self.peers@.len() ==> (#[trigger] self.peers@[k]).0 != ip,
            },
    {
        proof {
            use_type_invariant(self);
        }
        let mut i: usize = 0;
        while i < self.peers.len()
            invariant
                i <= self.peers@.len(),
                one_record_each(self.peers@),
                forall|k: int| 0 <= k < i ==> (#[trigger] self.peers@[k]).0 != ip,
            decreases self.peers@.len() - i,
        {
            if self.peers[i].0 == ip {
                proof {
                    lemma_lookup_at(self.peers@, i as int);
                }
                return Some(i);
            }
            i += 1;
        }
        proof {
            lemma_lookup_none(self.peers@, ip);
        }
        None
    }

    /// Whether a connection from `ip` should be accepted right now.
    pub fn allow(&self, ip: PeerAddr, now: u64) -> (r: bool)
        ensures
            r == admits(self.record(ip), now),
    {
        match self.position(ip) {
            Some(i) => match self.peers[i].1.blocked_until {
                Some(until) => now >= until,
                None => true,
            },
            None => true,
        }
    }

    /// Records a failed handshake from `ip`, extending its backoff.
    pub fn record_failure(&mut self, ip: PeerAddr, now: u64)
        requires
            now + MAX_BACKOFF <= u64::MAX,
        ensures
            noted(*old(self), LimiterEvent::Failed { ip, now }, *final(self)),
    {
        proof {
            use_type_invariant(&*self);
        }
        let found = self.position(ip);
        let rec = match found {
            Some(i) => Some(self.peers[i].1),
            None => None,
        };
        let next = next_record(rec, now);
        let mut peers: Vec<(PeerAddr, Record)> = Vec::new();
        std::mem::swap(&mut peers, &mut self.peers);
        let ghost before = peers@;
        match found {
            Some(i) => {
                peers[i] = (ip, next);
                proof {
                    assert(peers@ == before.update(i as int, (ip, next)));
                    assert forall|a: int, b: int| 0 <= a < b < peers@.len() implies peers@[a].0
                        != peers@[b].0 by {
                        assert(before[a].0 != before[b].0);
                    }
                    lemma_lookup_at(peers@, i as int);
                    assert forall|other: PeerAddr| other != ip implies #[trigger] lookup(
                        peers@,
                        other,
                    ) == lookup(before, other) by {
                        lemma_same_elsewhere(before, peers@, other);
                    }
                }
            },
            None => {
                peers.push((ip, next));
                proof {
                    assert(peers@ == before.push((ip, next)));
                    assert forall|a: int, b: int| 0 <= a < b < peers@.len() implies peers@[a].0
                        != peers@[b].0 by {
                        if b < before.len() {
                            assert(before[a].0 != before[b].0);
                        } else {
                            assert(peers@[a] == before[a]);
                        }
                    }
                    lemma_lookup_at(peers@, before.len() as int);
                    assert forall|other: PeerAddr| other != ip implies #[trigger] lookup(
                        peers@,
                        other,
                    ) == lookup(before, other) by {
                        lemma_same_elsewhere(before, peers@, other);
                    }
                }
            },
        }
        self.peers = peers;
    }

    /// Clears a peer's record after a successful, authenticated handshake.
    pub fn record_success(&mut self, ip: PeerAddr)
        ensures
            noted(*old(self), LimiterEvent::Succeeded { ip }, *final(self)),
    {
        proof {
            use_type_invariant(&*self);
        }
        match self.position(ip) {
            Some(i) => {
                let mut peers: Vec<(PeerAddr, Record)> = Vec::new();
                std::mem::swap(&mut peers, &mut self.peers);
                let ghost before = peers@;
                let _ = peers.remove(i);
                proof {
                    let after = before.remove(i as int);
                    assert(peers@ == after);
                    assert forall|k: int| 0 <= k < after.len() implies (#[trigger] after[k]).0
                        != ip by {
                        let j = if k < i { k } else { k + 1 };
                        assert(after[k] == before[j]);
                        assert(before[i as int].0 == ip);
                        if j < i {
                            assert(before[j].0 != before[i as int].0);
                        } else {
                            assert(before[i as int].0 != before[j].0);
                        }
                    }
                    lemma_lookup_none(after, ip);
                    assert forall|a: int, b: int| 0 <= a < b < after.len() implies after[a].0
                        != after[b].0 by {
                        let ja = if a < i { a } else { a + 1 };
                        let jb = if b < i { b } else { b + 1 };
                        assert(before[ja].0 != before[jb].0);
                    }
                    assert forall|other: PeerAddr| other != ip implies #[trigger] lookup(
                        after,
                        other,
                    ) == lookup(before, other) by {
                        lemma_removed_elsewhere(before, i as int, other);
                    }
                }
                self.peers = peers;
            },
            None => {},
        }
    }

    /// Drops records of peers not seen within [`FORGET_AFTER`], so the table cannot
    /// grow without bound under a churn of source addresses.
    pub fn prune(&mut self, now: u64)
        ensures
            pruned(*old(self), now, *final(self)),
    {
        proof {
            use_type_invariant(&*self);
        }
        let mut kept: Vec<(PeerAddr, Record)> = Vec::new();
        let mut i: usize = 0;
        while i < self.peers.len()
            invariant
                i <= self.peers@.len(),
                one_record_each(self.peers@),
                one_record_each(kept@),
                forall|k: int|
                    0 <= k < kept@.len() ==> exists|j: int|
                        0 <= j < i && self.peers@[j] == #[trigger] kept@[k] && recent(
                            kept@[k].1,
                            now,
                        ),
                forall|j: int|
                    0 <= j < i && recent((#[trigger] self.peers@[j]).1, now) ==> kept@.contains(
                        self.peers@[j],
                    ),
            decreases self.peers@.len() - i,
        {
            let p = self.peers[i];
            let age: u64 = if now >= p.1.last_seen { now - p.1.last_seen } else { 0 };
            let ghost before = kept@;
            if age < FORGET_AFTER {
                kept.push(p);
                proof {
                    assert forall|a: int, b: int| 0 <= a < b < kept@.len() implies kept@[a].0
                        != kept@[b].0 by {
                        if b < before.len() {
                            assert(before[a].0 != before[b].0);
                        } else {
                            assert(kept@[a] == before[a]);
                            let j = choose|j: int|
                                0 <= j < i && self.peers@[j] == before[a] && recent(
                                    before[a].1,
                                    now,
                                );
                            assert(self.peers@[j].0 != self.peers@[i as int].0);
                        }
                    }
                    assert forall|k: int| 0 <= k < kept@.len() implies exists|j: int|
                        0 <= j < i + 1 && self.peers@[j] == #[trigger] kept@[k] && recent(
                            kept@[k].1,
                            now,
                        ) by {
                        if k < before.len() {
                            assert(kept@[k] == before[k]);
                        } else {
                            assert(self.peers@[i as int] == kept@[k]);
                        }
                    }
                    assert forall|j: int|
                        0 <= j < i + 1 && recent(
                            (#[trigger] self.peers@[j]).1,
                            now,
                        ) implies kept@.contains(self.peers@[j]) by {
                        if j < i {
                            let k = choose|k: int|
                                0 <= k < before.len() && before[k] == self.peers@[j];
                            assert(kept@[k] == self.peers@[j]);
                        } else {
                            assert(kept@[before.len() as int] == self.peers@[j]);
                        }
                    }
                }
            }
            i += 1;
        }
        proof {
            assert forall|ip: PeerAddr| #[trigger]
                lookup(kept@, ip) == (match lookup(self.peers@, ip) {
                    Some(r) => if recent(r, now) {
                        Some(r)
                    } else {
                        None
                    },
                    None => None,
                }) by {
                if lookup(kept@, ip) is Some {
                    let k = lemma_lookup_found(kept@, ip);
                    let j = choose|j: int|
                        0 <= j < i && self.peers@[j] == kept@[k] && recent(kept@[k].1, now);
                    lemma_lookup_at(self.peers@, j);
                } else if lookup(self.peers@, ip) is Some {
                    let j = lemma_lookup_found(self.peers@, ip);
                    if recent(self.peers@[j].1, now) {
                        assert(kept@.contains(self.peers@[j]));
                        let k = choose|k: int| 0 <= k < kept@.len() && kept@[k] == self.peers@[j];
                        lemma_lookup_at(kept@, k);
                    }
                }
            }
        }
        self.peers = kept;
    }

    /// How many failures in a row are remembered of `ip`.
    pub fn failure_count(&self, ip: PeerAddr) -> (n: u32)
        ensures
            n == (match self.record(ip) {
                Some(r) => r.failures,
                None => 0,
            }),
    {
        match self.position(ip) {
            Some(i) => self.peers[i].1.failures,
            None => 0,
        }
    }
}

/// A peer's record after one more failure at time `now`.
fn next_record(rec: Option<Record>, now: u64) -> (r: Record)
    requires
        now + MAX_BACKOFF <= u64::MAX,
    ensures
        r == after_failure(rec, now),
{
    let (before, earlier): (u32, Option<u64>) = match rec {
        Some(r) => (r.failures, r.blocked_until),
        None => (0, None),
    };
    let failures: u32 = if before == u32::MAX { before } else { before + 1 };
    if failures >= FAILURE_THRESHOLD {
        let over: u32 = failures - FAILURE_THRESHOLD;
        let window: u64 = if over >= 6 {
            MAX_BACKOFF
        } else {
            proof {
                lemma_small_powers();
            }
            let factor: u64 = if over == 0 {
                1
            } else if over == 1 {
                2
            } else if over == 2 {
                4
            } else if over == 3 {
                8
            } else if over == 4 {
                16
            } else {
                32
            };
            BASE_BACKOFF * factor
        };
        Record { failures, blocked_until: Some(now + window), last_seen: now }
    } else {
        Record { failures, blocked_until: earlier, last_seen: now }
    }
}

proof fn lemma_small_powers()
    ensures
        vstd::arithmetic::power2::pow2(0) == 1,
        vstd::arithmetic::power2::pow2(1) == 2,
        vstd::arithmetic::power2::pow2(2) == 4,
        vstd::arithmetic::power2::pow2(3) == 8,
        vstd::arithmetic::power2::pow2(4) == 16,
        vstd::arithmetic::power2::pow2(5) == 32,
{
    vstd::arithmetic::power2::lemma2_to64();
}

proof fn lemma_same_elsewhere(
    a: Seq<(PeerAddr, Record)>,
    b: Seq<(PeerAddr, Record)>,
    ip: PeerAddr,
)
    requires
        a.len() <= b.len(),
        forall|i: int| 0 <= i < a.len() ==> (#[trigger] a[i]).0 == b[i].0,
        forall|i: int| 0 <= i < a.len() && (#[trigger] b[i]).0 == ip ==> a[i] == b[i],
        forall|i: int| a.len() <= i < b.len() ==> (#[trigger] b[i]).0 != ip,
    ensures
        lookup(b, ip) == lookup(a, ip),
    decreases b.len(),
{
    if a.len() == 0 {
        lemma_lookup_none(b, ip);
    } else {
        assert(a[0].0 == b[0].0);
        if b[0].0 != ip {
            let a1 = a.drop_first();
            let b1 = b.drop_first();
            assert forall|i: int| 0 <= i < a1.len() implies (#[trigger] a1[i]).0 == b1[i].0 by {
                assert(a1[i] == a[i + 1] && b1[i] == b[i + 1]);
            }
            assert forall|i: int| 0 <= i < a1.len() && (#[trigger] b1[i]).0 == ip implies a1[i]
                == b1[i] by {
                assert(a1[i] == a[i + 1] && b1[i] == b[i + 1]);
            }
            assert forall|i: int| a1.len() <= i < b1.len() implies (#[trigger] b1[i]).0 != ip by {
                assert(b1[i] == b[i + 1]);
            }
            lemma_same_elsewhere(a1, b1, ip);
        }
    }
}

proof fn lemma_removed_elsewhere(a: Seq<(PeerAddr, Record)>, i: int, ip: PeerAddr)
    requires
        0 <= i < a.len(),
        a[i].0 != ip,
    ensures
        lookup(a.remove(i), ip) == lookup(a, ip),
    decreases a.len(),
{
    if i == 0 {
        assert(a.remove(0) =~= a.drop_first());
    } else {
        assert(a.remove(i)[0] == a[0]);
        if a[0].0 != ip {
            assert(a.remove(i).drop_first() =~= a.drop_first().remove(i - 1));
            lemma_removed_elsewhere(a.drop_first(), i - 1, ip);
        }
    }
}

// ---------------------------------------------------------------------------
// Laws
// ---------------------------------------------------------------------------

/// A block window is never longer than a minute nor shorter than a second, and it
/// does not shrink as failures mount.
pub proof fn law_backoff_grows_and_caps(failures: u32)
    requires
        failures >= FAILURE_THRESHOLD,
    ensures
        BASE_BACKOFF <= backoff(failures) <= MAX_BACKOFF,
        failures < u32::MAX ==> backoff(failures) <= backoff((failures + 1) as u32),
{
    lemma_small_powers();
}

/// A failure at or past the threshold shuts the peer out at once, and the wait is
/// over after at most a minute.
pub proof fn law_threshold_blocks_then_recovers(rec: Option<Record>, now: u64, later: u64)
    requires
        now + MAX_BACKOFF <= u64::MAX,
        after_failure(rec, now).failures >= FAILURE_THRESHOLD,
        later >= now + MAX_BACKOFF,
    ensures
        !admits(Some(after_failure(rec, now)), now),
        admits(Some(after_failure(rec, now)), later),
{
    law_backoff_grows_and_caps(after_failure(rec, now).failures);
}

/// A peer below the threshold, and not blocked before, is still let in.
pub proof fn law_below_threshold_is_admitted(rec: Option<Record>, now: u64)
    requires
        admits(rec, now),
        after_failure(rec, now).failures < FAILURE_THRESHOLD,
    ensures
        admits(Some(after_failure(rec, now)), now),
{
}

/// Whether a limiter that remembered nobody went through the states `states`, told of
/// `events` one after the other.
pub open spec fn went_through(states: Seq<RateLimiter>, events: Seq<LimiterEvent>) -> bool {
    &&& states.len() == events.len() + 1
    &&& forall|ip: PeerAddr| #[trigger] states[0].record(ip) is None
    &&& forall|i: int|
        0 <= i < events.len() ==> noted(states[i], #[trigger] events[i], states[i + 1])
}

/// The times at which handshakes with `ip` failed.
pub open spec fn failure_times(events: Seq<LimiterEvent>, ip: PeerAddr) -> Seq<u64>
    decreases events.len(),
{
    if events.len() == 0 {
        Seq::empty()
    } else {
        let before = failure_times(events.drop_last(), ip);
        match events.last() {
            LimiterEvent::Failed { ip: other, now } => if other == ip {
                before.push(now)
            } else {
                before
            },
            LimiterEvent::Succeeded { ip: other } => before,
        }
    }
}

/// How long a peer is shut out after its `k`-th failure in a row, in nanoseconds: not at
/// all below the threshold, then one second, doubled for each further failure, at most
/// a minute.
pub open spec fn wait_after(k: nat) -> nat {
    if k < FAILURE_THRESHOLD {
        0
    } else {
        let doubled = vstd::arithmetic::power2::pow2((k - FAILURE_THRESHOLD) as nat);
        SECOND as nat * (if doubled < 60 {
            doubled
        } else {
            60
        })
    }
}

/// The backoff, in full: a peer that failed `k` times, the last time at `t`, and never
/// succeeded, is let in at `u` exactly if `k` is below the threshold or the wait of the
/// `k`-th failure is over. What other peers do makes no difference.
pub proof fn law_backoff_is_exact(
    states: Seq<RateLimiter>,
    events: Seq<LimiterEvent>,
    ip: PeerAddr,
    u: u64,
)
    requires
        went_through(states, events),
        failure_times(events, ip).len() >= 1,
        forall|i: int|
            0 <= i < events.len() && (#[trigger] events[i]).ip() == ip ==> events[i] is Failed
                && events[i]->now + MAX_BACKOFF <= u64::MAX,
    ensures
        admits(states.last().record(ip), u) <==> {
            let k = failure_times(events, ip).len();
            let t = failure_times(events, ip).last();
            k < FAILURE_THRESHOLD || u >= t + wait_after(k)
        },
{
    lemma_failures_counted(states, events, ip);
    let k = failure_times(events, ip).len();
    if k >= FAILURE_THRESHOLD {
        lemma_wait(k);
    }
}

/// What one peer does changes nothing for another.
pub proof fn law_peers_are_independent(
    a: RateLimiter,
    e: LimiterEvent,
    b: RateLimiter,
    other: PeerAddr,
    u: u64,
)
    requires
        noted(a, e, b),
        other != e.ip(),
    ensures
        admits(b.record(other), u) == admits(a.record(other), u),
{
}

/// What a limiter remembers of a peer that only ever failed.
proof fn lemma_failures_counted(
    states: Seq<RateLimiter>,
    events: Seq<LimiterEvent>,
    ip: PeerAddr,
)
    requires
        went_through(states, events),
        forall|i: int|
            0 <= i < events.len() && (#[trigger] events[i]).ip() == ip ==> events[i] is Failed
                && events[i]->now + MAX_BACKOFF <= u64::MAX,
    ensures
        ({
            let times = failure_times(events, ip);
            let k = times.len();
            match states.last().record(ip) {
                None => k == 0,
                Some(r) => {
                    &&& k > 0
                    &&& r.failures == (if k <= u32::MAX {
                        k as int
                    } else {
                        u32::MAX as int
                    })
                    &&& times.last() + MAX_BACKOFF <= u64::MAX
                    &&& r.blocked_until == (if k < FAILURE_THRESHOLD {
                        None
                    } else {
                        Some((times.last() + backoff(r.failures)) as u64)
                    })
                },
            }
        }),
    decreases events.len(),
{
    if events.len() > 0 {
        let s = states.drop_last();
        let e = events.drop_last();
        assert forall|i: int| 0 <= i < e.len() implies noted(s[i], #[trigger] e[i], s[i + 1]) by {
            assert(e[i] == events[i]);
        }
        assert forall|i: int| 0 <= i < e.len() && (#[trigger] e[i]).ip() == ip implies e[i] is Failed
            && e[i]->now + MAX_BACKOFF <= u64::MAX by {
            assert(e[i] == events[i]);
        }
        lemma_failures_counted(s, e, ip);
        let last = events[events.len() - 1];
        assert(noted(states[events.len() - 1], last, states[events.len() as int]));
    }
}

/// The window that is set is the wait that is promised, whatever the count.
proof fn lemma_wait(k: nat)
    requires
        k >= FAILURE_THRESHOLD,
    ensures
        wait_after(k) <= MAX_BACKOFF,
        backoff(
            (if k <= u32::MAX {
                k as int
            } else {
                u32::MAX as int
            }) as u32,
        ) == wait_after(k),
{
    lemma_small_powers();
    let over = (k - FAILURE_THRESHOLD) as nat;
    if over >= 6 {
        vstd::arithmetic::power2::lemma2_to64();
        if over > 6 {
            vstd::arithmetic::power2::lemma_pow2_strictly_increases(6, over);
        }
    }
}

/// As many permits are out as were taken and not given back, and no more than there are.
pub proof fn law_permits_are_never_overdrawn(
    s: &mut Semaphore,
    t: &mut Semaphore,
    permit: Permit,
    r: Option<Permit>,
)
    requires
        call_ensures(Semaphore::try_acquire, (s,), r),
        r is Some,
        *old(t) == *final(s),
        call_ensures(Semaphore::release, (t, permit), ()),
    ensures
        old(s).in_flight() < old(s).total(),
        final(s).in_flight() == old(s).in_flight() + 1,
        final(t).in_flight() == old(s).in_flight(),
        final(s).total() == old(s).total() && final(t).total() == old(s).total(),
{
}

/// A free permit is always given, and none where all are out.
pub proof fn law_a_free_permit_is_given(s: &mut Semaphore, r: Option<Permit>)
    requires
        call_ensures(Semaphore::try_acquire, (s,), r),
        old(s).in_flight() <= old(s).total(),
    ensures
        r is Some <==> old(s).in_flight() < old(s).total(),
{
}

/// A stranger that fails five times in a row is shut out for a second, no sooner and no
/// longer; one success makes it a stranger again.
pub proof fn law_the_fifth_failure_shuts_out(
    l: &mut RateLimiter,
    m: &mut RateLimiter,
    ip: PeerAddr,
    seen: u32,
    now: u64,
    later: u64,
    after: RateLimiter,
    cleared: RateLimiter,
    at_once: bool,
    then_on: bool,
    forgiven: bool,
)
    requires
        call_ensures(RateLimiter::failure_count, (&*old(l), ip), seen),
        call_ensures(RateLimiter::allow, (&*old(l), ip, now), true),
        call_ensures(RateLimiter::record_failure, (l, ip, now), ()),
        after == *final(l),
        *old(m) == *final(l),
        call_ensures(RateLimiter::record_success, (m, ip), ()),
        cleared == *final(m),
        call_ensures(RateLimiter::allow, (&after, ip, now), at_once),
        call_ensures(RateLimiter::allow, (&after, ip, later), then_on),
        call_ensures(RateLimiter::allow, (&cleared, ip, now), forgiven),
        now + MAX_BACKOFF <= u64::MAX,
    ensures
        forgiven,
        seen < 4 ==> at_once,
        seen >= 4 ==> !at_once,
        seen == 4 ==> (then_on <==> later >= now + 1_000_000_000),
        seen == 5 ==> (then_on <==> later >= now + 2_000_000_000),
        seen >= 10 ==> (then_on <==> later >= now + 60_000_000_000),
{
    lemma_small_powers();
}

/// What one peer does makes no difference to another.
pub proof fn law_a_failure_concerns_one_peer(
    l: &mut RateLimiter,
    ip: PeerAddr,
    other: PeerAddr,
    now: u64,
    u: u64,
    after: RateLimiter,
    before_it: bool,
    after_it: bool,
)
    requires
        other != ip,
        now + MAX_BACKOFF <= u64::MAX,
        call_ensures(RateLimiter::record_failure, (l, ip, now), ()) || call_ensures(
            RateLimiter::record_success,
            (l, ip),
            (),
        ),
        after == *final(l),
        call_ensures(RateLimiter::allow, (&*old(l), other, u), before_it),
        call_ensures(RateLimiter::allow, (&after, other, u), after_it),
    ensures
        before_it == after_it,
{
}

/// Pruning forgets whom nothing was heard of for five minutes, and nobody else.
pub proof fn law_pruning_forgets_the_silent(
    l: &mut RateLimiter,
    now: u64,
    ip: PeerAddr,
    after: RateLimiter,
)
    requires
        call_ensures(RateLimiter::prune, (l, now), ()),
        after == *final(l),
    ensures
        old(l).record(ip) is None ==> after.record(ip) is None,
        old(l).record(ip) is Some && now >= old(l).record(ip)->0.last_seen + 300_000_000_000
            ==> after.record(ip) is None,
        old(l).record(ip) is Some && now < old(l).record(ip)->0.last_seen + 300_000_000_000
            ==> after.record(ip) == old(l).record(ip),
{
    assert(pruned(*old(l), now, after));
}

} // verus!
