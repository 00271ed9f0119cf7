//! The queue of plaintext temp files to wipe, which one worker takes one by one.

use vstd::prelude::*;
use crate::text::{owned, texts};

verus! {

/// The files to wipe: the one being wiped, and those that wait.
pub struct Wiper {
    current: Option<String>,
    queue: Vec<String>,
    closed: bool,
}

impl Wiper {
    /// The files still on disk, in the order they are wiped.
    pub closed spec fn left(self) -> Seq<Seq<char>> {
        (match self.current {
            Some(p) => seq![p@],
            None => Seq::empty(),
        }) + texts(self.queue@)
    }

    /// Whether a file is being wiped.
    pub closed spec fn busy(self) -> bool {
        self.current is Some
    }

    /// Whether files are no longer taken in.
    pub closed spec fn is_closed(self) -> bool {
        self.closed
    }

    /// An empty queue.
    pub fn new() -> (w: Self)
        ensures
            w.left() == Seq::<Seq<char>>::empty(),
            !w.busy() && !w.is_closed(),
    {
        let w = Wiper { current: None, queue: Vec::new(), closed: false };
        assert(w.left() =~= Seq::<Seq<char>>::empty());
        w
    }

    /// Takes a file in. It counts as pending at once, so that nothing pending means
    /// that nothing is left on disk.
    pub fn enqueue(&mut self, path: &str)
        ensures
            final(self).left() == (if old(self).is_closed() {
                old(self).left()
            } else {
                old(self).left().push(path@)
            }),
            final(self).busy() == old(self).busy(),
            final(self).is_closed() == old(self).is_closed(),
    {
        if !self.closed {
            let ghost before = self.left();
            self.queue.push(owned(path));
            assert(self.left() =~= before.push(path@));
        }
    }

    /// The file to wipe next, if the worker is free and one waits.
    pub fn take_next(&mut self) -> (r: Option<String>)
        ensures
            final(self).left() == old(self).left(),
            final(self).is_closed() == old(self).is_closed(),
            match r {
                Some(p) => !old(self).busy() && old(self).left().len() > 0 && p@ == old(
                    self,
                ).left()[0] && final(self).busy(),
                None => (old(self).busy() || old(self).left().len() == 0) && final(self).busy()
                    == old(self).busy(),
            },
    {
        if self.current.is_some() || self.queue.len() == 0 {
            return None;
        }
        let ghost before = self.left();
        let p = self.queue.remove(0);
        let r = owned(&p);
        self.current = Some(p);
        assert(self.left() =~= before);
        assert(before[0] == r@);
        Some(r)
    }

    /// Notes that the current file is wiped.
    pub fn wiped(&mut self)
        requires
            old(self).busy(),
        ensures
            final(self).left() == old(self).left().skip(1),
            !final(self).busy(),
            final(self).is_closed() == old(self).is_closed(),
    {
        let ghost before = self.left();
        self.current = None;
        assert(self.left() =~= before.skip(1));
    }

    /// How many files are still on disk, as far as it can be counted.
    pub fn pending(&self) -> (n: usize)
        ensures
            n == (if self.left().len() > usize::MAX {
                usize::MAX as nat
            } else {
                self.left().len()
            }),
    {
        let waiting: usize = self.queue.len();
        if self.current.is_some() && waiting < usize::MAX {
            waiting + 1
        } else {
            waiting
        }
    }

    /// Takes no more files in; whether to go on waiting for the rest.
    pub fn finish(&mut self, now: u64, deadline: u64) -> (wait: bool)
        ensures
            wait == (old(self).left().len() > 0 && now < deadline),
            final(self).left() == old(self).left(),
            final(self).busy() == old(self).busy(),
            final(self).is_closed(),
    {
        self.closed = true;
        (self.current.is_some() || self.queue.len() > 0) && now < deadline
    }
}

impl Default for Wiper {
    /// An empty queue.
    fn default() -> (w: Wiper)
        ensures
            w.left() == Seq::<Seq<char>>::empty(),
    {
        Wiper::new()
    }
}

// ---------------------------------------------------------------------------
// Laws
// ---------------------------------------------------------------------------

/// Files are wiped in the order they came, each once: what was taken is the oldest that is
/// left, it counts as left until it is wiped, and then the rest are as they were.
pub proof fn law_files_are_wiped_in_order(
    a: &mut Wiper,
    b: &mut Wiper,
    r: Option<String>,
)
    requires
        call_ensures(Wiper::take_next, (a,), r),
        r is Some,
        *old(b) == *final(a),
        call_ensures(Wiper::wiped, (b,), ()),
    ensures
        old(a).left().len() > 0 && r->0@ == old(a).left()[0],
        final(a).left() == old(a).left(),
        final(b).left() == old(a).left().skip(1),
        !final(b).busy(),
{
}

/// A file that was taken in is wiped after all that came before it, and a free worker never
/// idles while one waits.
pub proof fn law_no_file_is_left_unwiped(
    a: &mut Wiper,
    path: &str,
    b: &mut Wiper,
    r: Option<String>,
)
    requires
        !old(a).is_closed(),
        call_ensures(Wiper::enqueue, (a, path), ()),
        *old(b) == *final(a),
        call_ensures(Wiper::take_next, (b,), r),
    ensures
        final(a).left().last() == path@,
        final(a).left().drop_last() == old(a).left(),
        !old(a).busy() ==> r is Some,
{
    assert(final(a).left().drop_last() =~= old(a).left());
}

/// Leaving waits for what is left, but no longer than to the deadline, and nothing more is
/// taken in.
pub proof fn law_leaving_waits_for_the_rest(
    a: &mut Wiper,
    now: u64,
    deadline: u64,
    wait: bool,
    b: &mut Wiper,
    path: &str,
)
    requires
        call_ensures(Wiper::finish, (a, now, deadline), wait),
        *old(b) == *final(a),
        call_ensures(Wiper::enqueue, (b, path), ()),
    ensures
        wait <==> old(a).left().len() > 0 && now < deadline,
        final(b).left() == old(a).left(),
{
}

} // verus!
