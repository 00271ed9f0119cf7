//! Rollback protection: the newest state seen of each stored object is remembered,
//! and an older one, or another in its place, is refused.

use vstd::prelude::*;
use crate::store::LEGACY_MESSAGE;
use crate::fingerprint::same_fpr;
use crate::text::{concat3, owned, same_text};

verus! {

/// The objects that are protected.
#[derive(Clone, Copy, Debug, PartialEq, Eq, Structural)]
pub enum StateObjectType {
    Keystore,
    Contacts,
    Registry,
    VaultManifest,
}

/// What an authenticated object says of its own state.
pub struct Stamp {
    pub object_id: String,
    pub epoch: u64,
    pub hash: [u8; 32],
}

/// What is remembered of an object.
pub struct AnchorEntry {
    pub kind: StateObjectType,
    pub id: String,
    pub epoch: u64,
    pub hash: [u8; 32],
}

/// Why a stored object is refused.
#[derive(Clone, Copy, Debug, PartialEq, Eq, Structural)]
pub enum StateFault {
    /// It is older than what was seen before.
    Rollback,
    /// It claims the epoch that was seen, with another content.
    Mismatch,
    /// It is another object than the one that belongs there.
    WrongObject,
    /// It carries no state: it is from before there was any.
    Legacy,
}

impl StateFault {
    /// What is said of it.
    pub fn message(self) -> (r: &'static str)
        ensures
            r@ == (match self {
                StateFault::Rollback => "rollback detected"@,
                StateFault::Mismatch => "state-anchor mismatch"@,
                StateFault::WrongObject => "the object id does not match"@,
                StateFault::Legacy => LEGACY_MESSAGE@,
            }),
    {
        match self {
            StateFault::Rollback => "rollback detected",
            StateFault::Mismatch => "state-anchor mismatch",
            StateFault::WrongObject => "the object id does not match",
            StateFault::Legacy => LEGACY_MESSAGE,
        }
    }

    /// Whether the object is moved out of the way. One without state stays: it can
    /// still be recovered.
    pub fn quarantines(self) -> (r: bool)
        ensures
            r == (self != StateFault::Legacy),
    {
        self != StateFault::Legacy
    }
}

/// The name under which a refused object is kept.
pub fn quarantine_name(name: &str, tag: &str) -> (r: String)
    ensures
        r@ == name@ + ".rollback-"@ + tag@,
{
    concat3(name, ".rollback-", tag)
}

/// The entry of an object, or -1.
pub open spec fn anchor_pos(
    entries: Seq<AnchorEntry>,
    kind: StateObjectType,
    id: Seq<char>,
) -> int
    decreases entries.len(),
{
    if entries.len() == 0 {
        -1
    } else if anchor_pos(entries.drop_last(), kind, id) >= 0 {
        anchor_pos(entries.drop_last(), kind, id)
    } else if entries.last().kind == kind && entries.last().id@ == id {
        entries.len() - 1
    } else {
        -1
    }
}

proof fn lemma_anchor_pos(entries: Seq<AnchorEntry>, kind: StateObjectType, id: Seq<char>, k: int)
    requires
        0 <= k <= entries.len(),
        forall|i: int| 0 <= i < k ==> !((#[trigger] entries[i]).kind == kind && entries[i].id@ == id),
        k < entries.len() ==> entries[k].kind == kind && entries[k].id@ == id,
    ensures
        anchor_pos(entries, kind, id) == (if k < entries.len() {
            k
        } else {
            -1
        }),
    decreases entries.len(),
{
    if entries.len() > 0 {
        let t = entries.drop_last();
        assert forall|i: int| 0 <= i < t.len() implies #[trigger] t[i] == entries[i] by {}
        if k < t.len() {
            assert(t[k] == entries[k]);
            lemma_anchor_pos(t, kind, id, k);
        } else {
            lemma_anchor_pos(t, kind, id, t.len() as int);
        }
    }
}

/// Changing or adding the entry of one object does not concern another.
proof fn lemma_others_stay(
    a: Seq<AnchorEntry>,
    b: Seq<AnchorEntry>,
    kind: StateObjectType,
    id: Seq<char>,
)
    requires
        a.len() <= b.len(),
        forall|i: int|
            0 <= i < a.len() ==> (#[trigger] a[i]).kind == b[i].kind && a[i].id@ == b[i].id@,
        forall|i: int|
            a.len() <= i < b.len() ==> !((#[trigger] b[i]).kind == kind && b[i].id@ == id),
    ensures
        anchor_pos(a, kind, id) == anchor_pos(b, kind, id),
    decreases b.len(),
{
    if b.len() > a.len() {
        assert(b.drop_last().len() == b.len() - 1);
        assert(b.last() == b[b.len() - 1]);
        assert forall|i: int| 0 <= i < b.len() - 1 implies #[trigger] b[i] == b.drop_last()[i] by {}
        lemma_others_stay(a, b.drop_last(), kind, id);
    } else if b.len() > 0 {
        let (s, t) = (a.drop_last(), b.drop_last());
        assert forall|i: int| 0 <= i < s.len() implies (#[trigger] s[i]).kind == t[i].kind
            && s[i].id@ == t[i].id@ by {
            assert(s[i] == a[i] && t[i] == b[i]);
        }
        lemma_others_stay(s, t, kind, id);
        assert(a.last() == a[a.len() - 1] && b.last() == b[b.len() - 1]);
    }
}

/// What a list of entries says was the newest state seen of an object: the first entry.
pub open spec fn newest_in(
    entries: Seq<AnchorEntry>,
    kind: StateObjectType,
    id: Seq<char>,
) -> Option<(u64, Seq<u8>)> {
    let k = anchor_pos(entries, kind, id);
    if k >= 0 {
        Some((entries[k].epoch, entries[k].hash@))
    } else {
        None
    }
}

/// The newest states seen.
pub struct Anchors {
    entries: Vec<AnchorEntry>,
}

/// What to make of a stored object, given the newest state seen of it.
pub open spec fn verdict(
    newest: Option<(u64, Seq<u8>)>,
    id: Seq<char>,
    stamp: Option<Stamp>,
) -> Option<StateFault> {
    match stamp {
        None => Some(StateFault::Legacy),
        Some(s) => if s.object_id@ != id {
            Some(StateFault::WrongObject)
        } else {
            match newest {
                None => None,
                Some((epoch, hash)) => if s.epoch < epoch {
                    Some(StateFault::Rollback)
                } else if s.epoch == epoch && s.hash@ != hash {
                    Some(StateFault::Mismatch)
                } else {
                    None
                },
            }
        },
    }
}

/// The epoch that follows the newest state seen, if one is left.
pub open spec fn epoch_after(newest: Option<(u64, Seq<u8>)>) -> Option<u64> {
    match newest {
        None => Some(1),
        Some((epoch, _)) => if epoch < u64::MAX {
            Some((epoch + 1) as u64)
        } else {
            None
        },
    }
}

impl Anchors {
    /// The newest state seen of an object.
    pub closed spec fn newest(self, kind: StateObjectType, id: Seq<char>) -> Option<(u64, Seq<u8>)> {
        newest_in(self.entries@, kind, id)
    }

    /// Nothing has been seen yet.
    pub fn new() -> (a: Self)
        ensures
            forall|kind: StateObjectType, id: Seq<char>| #[trigger] a.newest(kind, id) is None,
    {
        Anchors { entries: Vec::new() }
    }

    /// What was seen, read back from where it is kept.
    pub fn from_entries(entries: Vec<AnchorEntry>) -> (a: Self)
        ensures
            forall|kind: StateObjectType, id: Seq<char>| #[trigger]
                a.newest(kind, id) == newest_in(entries@, kind, id),
    {
        Anchors { entries }
    }

    /// What was seen, to be kept.
    pub fn entries(&self) -> (r: &Vec<AnchorEntry>)
        ensures
            forall|kind: StateObjectType, id: Seq<char>| #[trigger]
                self.newest(kind, id) == newest_in(r@, kind, id),
    {
        &self.entries
    }

    /// The epoch that the next state of an object gets; none is left after the last.
    pub fn next_epoch(&self, kind: StateObjectType, id: &str) -> (r: Option<u64>)
        ensures
            r == epoch_after(self.newest(kind, id@)),
    {
        match self.position(kind, id) {
            None => Some(1),
            Some(k) => self.entries[k].epoch.checked_add(1),
        }
    }

    /// The position of an object's entry.
    fn position(&self, kind: StateObjectType, id: &str) -> (r: Option<usize>)
        ensures
            match r {
                Some(k) => k < self.entries@.len() && k == anchor_pos(self.entries@, kind, id@)
                    && self.entries@[k as int].kind == kind && self.entries@[k as int].id@ == id@,
                None => anchor_pos(self.entries@, kind, id@) == -1,
            },
    {
        let mut i: usize = 0;
        while i < self.entries.len()
            invariant
                i <= self.entries@.len(),
                forall|k: int|
                    0 <= k < i ==> !((#[trigger] self.entries@[k]).kind == kind
                        && self.entries@[k].id@ == id@),
            decreases self.entries@.len() - i,
        {
            if self.entries[i].kind == kind && same_text(&self.entries[i].id, id) {
                proof {
                    lemma_anchor_pos(self.entries@, kind, id@, i as int);
                }
                return Some(i);
            }
            i += 1;
        }
        proof {
            lemma_anchor_pos(self.entries@, kind, id@, i as int);
        }
        None
    }

    /// Judges a stored object: the one that belongs under `id`, as new as what was
    /// seen of it, or newer.
    pub fn check(&self, kind: StateObjectType, id: &str, stamp: &Option<Stamp>) -> (r: Result<
        (),
        StateFault,
    >)
        ensures
            match r {
                Ok(_) => verdict(self.newest(kind, id@), id@, *stamp) is None,
                Err(f) => verdict(self.newest(kind, id@), id@, *stamp) == Some(f),
            },
    {
        let s = match stamp {
            None => return Err(StateFault::Legacy),
            Some(s) => s,
        };
        if !same_text(&s.object_id, id) {
            return Err(StateFault::WrongObject);
        }
        match self.position(kind, id) {
            None => Ok(()),
            Some(k) => {
                let e = &self.entries[k];
                if s.epoch < e.epoch {
                    Err(StateFault::Rollback)
                } else if s.epoch == e.epoch && !same_fpr(&s.hash, &e.hash) {
                    Err(StateFault::Mismatch)
                } else {
                    Ok(())
                }
            },
        }
    }

    /// Judges a stored object, and remembers the state of one that is accepted. A
    /// refused one leaves no trace.
    pub fn accept(&mut self, kind: StateObjectType, id: &str, stamp: &Option<Stamp>) -> (r: Result<
        (),
        StateFault,
    >)
        ensures
            match r {
                Ok(_) => {
                    &&& verdict(old(self).newest(kind, id@), id@, *stamp) is None
                    &&& final(self).newest(kind, id@) == Some((stamp->0.epoch, stamp->0.hash@))
                    &&& forall|k2: StateObjectType, id2: Seq<char>|
                        (k2 != kind || id2 != id@) ==> #[trigger] final(self).newest(k2, id2)
                            == old(self).newest(k2, id2)
                },
                Err(f) => verdict(old(self).newest(kind, id@), id@, *stamp) == Some(f)
                    && *final(self) == *old(self),
            },
    {
        match self.check(kind, id, stamp) {
            Err(f) => Err(f),
            Ok(_) => {
                if let Some(s) = stamp {
                    self.remember(kind, id, s);
                }
                Ok(())
            },
        }
    }

    /// Remembers the state of an object that was saved, or accepted.
    pub fn remember(&mut self, kind: StateObjectType, id: &str, stamp: &Stamp)
        ensures
            final(self).newest(kind, id@) == Some((stamp.epoch, stamp.hash@)),
            forall|k2: StateObjectType, id2: Seq<char>|
                (k2 != kind || id2 != id@) ==> #[trigger] final(self).newest(k2, id2) == old(
                    self,
                ).newest(k2, id2),
    {
        let ghost before = self.entries@;
        let entry = AnchorEntry { kind, id: owned(id), epoch: stamp.epoch, hash: stamp.hash };
        match self.position(kind, id) {
            Some(k) => {
                self.entries[k] = entry;
                proof {
                    lemma_others_stay(before, self.entries@, kind, id@);
                }
            },
            None => {
                self.entries.push(entry);
                proof {
                    lemma_absent(before, kind, id@);
                    lemma_anchor_pos(self.entries@, kind, id@, before.len() as int);
                }
            },
        }
        proof {
            assert forall|k2: StateObjectType, id2: Seq<char>|
                (k2 != kind || id2 != id@) implies #[trigger] self.newest(k2, id2) == old(
                self,
            ).newest(k2, id2) by {
                lemma_others_stay(before, self.entries@, k2, id2);
                lemma_found(before, k2, id2);
            }
        }
    }
}

proof fn lemma_absent(entries: Seq<AnchorEntry>, kind: StateObjectType, id: Seq<char>)
    requires
        anchor_pos(entries, kind, id) < 0,
    ensures
        forall|i: int|
            0 <= i < entries.len() ==> !((#[trigger] entries[i]).kind == kind && entries[i].id@
                == id),
    decreases entries.len(),
{
    if entries.len() > 0 {
        lemma_absent(entries.drop_last(), kind, id);
        assert forall|i: int| 0 <= i < entries.len() implies !((#[trigger] entries[i]).kind == kind
            && entries[i].id@ == id) by {
            if i < entries.len() - 1 {
                assert(entries.drop_last()[i] == entries[i]);
            }
        }
    }
}

proof fn lemma_found(entries: Seq<AnchorEntry>, kind: StateObjectType, id: Seq<char>)
    ensures
        -1 <= anchor_pos(entries, kind, id) < entries.len(),
        anchor_pos(entries, kind, id) >= 0 ==> entries[anchor_pos(entries, kind, id)].kind == kind
            && entries[anchor_pos(entries, kind, id)].id@ == id,
    decreases entries.len(),
{
    if entries.len() > 0 {
        lemma_found(entries.drop_last(), kind, id);
    }
}

/// Once a newer state of an object was remembered, no older one is accepted again, nor
/// another of the same epoch.
pub proof fn law_rollback_is_always_seen(newest: (u64, Seq<u8>), id: Seq<char>, stamp: Stamp)
    requires
        verdict(Some(newest), id, Some(stamp)) is None,
    ensures
        stamp.object_id@ == id,
        stamp.epoch >= newest.0,
        stamp.epoch == newest.0 ==> stamp.hash@ == newest.1,
{
}

/// Remembering what was accepted never lets the remembered epoch fall.
pub proof fn law_epochs_only_rise(newest: (u64, Seq<u8>), id: Seq<char>, stamp: Stamp, later: Stamp)
    requires
        verdict(Some(newest), id, Some(stamp)) is None,
        verdict(Some((stamp.epoch, stamp.hash@)), id, Some(later)) is None,
    ensures
        verdict(Some(newest), id, Some(later)) is None,
{
}

/// A state saved under the next epoch is accepted when it is read back, and what was
/// saved before it is not.
pub proof fn law_saved_states_supersede(
    newest: Option<(u64, Seq<u8>)>,
    id: Seq<char>,
    saved: Stamp,
    earlier: Stamp,
)
    requires
        epoch_after(newest) == Some(saved.epoch),
        saved.object_id@ == id,
        newest == Some((earlier.epoch, earlier.hash@)),
    ensures
        verdict(newest, id, Some(saved)) is None,
        verdict(Some((saved.epoch, saved.hash@)), id, Some(saved)) is None,
        verdict(Some((saved.epoch, saved.hash@)), id, Some(earlier)) is Some,
{
}

/// A stored object passes exactly if it is the one that belongs there and no older than what
/// was seen: newer, or the very same. One never seen before only has to be in its place.
pub proof fn law_only_current_states_pass(
    a: Anchors,
    kind: StateObjectType,
    id: &str,
    stamp: Option<Stamp>,
    r: Result<(), StateFault>,
)
    requires
        call_ensures(Anchors::check, (&a, kind, id, &stamp), r),
    ensures
        stamp is None ==> r is Err && r->Err_0 == StateFault::Legacy,
        stamp is Some && stamp->0.object_id@ != id@ ==> r is Err && r->Err_0
            == StateFault::WrongObject,
        stamp is Some && stamp->0.object_id@ == id@ && a.newest(kind, id@) is None ==> r is Ok,
        stamp is Some && stamp->0.object_id@ == id@ && a.newest(kind, id@) is Some ==> {
            let seen = a.newest(kind, id@)->0;
            &&& stamp->0.epoch < seen.0 ==> r is Err && r->Err_0 == StateFault::Rollback
            &&& stamp->0.epoch > seen.0 ==> r is Ok
            &&& stamp->0.epoch == seen.0 && stamp->0.hash@ == seen.1 ==> r is Ok
            &&& stamp->0.epoch == seen.0 && stamp->0.hash@ != seen.1 ==> r is Err && r->Err_0
                == StateFault::Mismatch
        },
{
}

/// Every saved state is newer than the one before: the first epoch is one, and each is one
/// more than what was seen.
pub proof fn law_epochs_are_counted_up(
    a: Anchors,
    kind: StateObjectType,
    id: &str,
    r: Option<u64>,
)
    requires
        call_ensures(Anchors::next_epoch, (&a, kind, id), r),
    ensures
        match a.newest(kind, id@) {
            None => r == Some(1u64),
            Some((epoch, _)) => (r is None <==> epoch == u64::MAX) && (r is Some ==> r->0 == epoch
                + 1),
        },
{
}

/// What is kept of an object is found again, and is not taken for what is kept of another.
pub proof fn law_kept_states_are_found_again(
    entries: Vec<AnchorEntry>,
    a: Anchors,
    kind: StateObjectType,
    id: Seq<char>,
    at: int,
)
    requires
        call_ensures(Anchors::from_entries, (entries,), a),
        0 <= at <= entries@.len(),
        forall|i: int|
            0 <= i < at ==> !((#[trigger] entries@[i]).kind == kind && entries@[i].id@ == id),
        at < entries@.len() ==> entries@[at].kind == kind && entries@[at].id@ == id,
    ensures
        at < entries@.len() ==> a.newest(kind, id) == Some(
            (entries@[at].epoch, entries@[at].hash@),
        ),
        at == entries@.len() ==> a.newest(kind, id) is None,
{
    lemma_anchor_pos(entries@, kind, id, at);
    assert(a.newest(kind, id) == newest_in(entries@, kind, id));
}

/// Only an object from before there were states is left where it is.
pub proof fn law_refused_objects_are_set_aside(f: StateFault, moved: bool)
    requires
        call_ensures(StateFault::quarantines, (f,), moved),
    ensures
        moved <==> f is Rollback || f is Mismatch || f is WrongObject,
{
}

} // verus!
