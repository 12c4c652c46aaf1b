use vstd::prelude::*;
use crate::error::Error;

verus! {

/// A readiness report for one descriptor: which descriptor, and the event
/// bits the kernel set for it.
#[derive(Debug, Clone, Copy, PartialEq, Eq)]
pub struct Readiness {
    pub fd: i32,
    pub events: u32,
}

/// What a connection's state machine offers the dispatch loop.
pub trait Controller {
    /// The connection is finished and its descriptor can be reclaimed. An
    /// implementation outside verified code writes it as an ordinary method
    /// that returns what `is_terminated` returns.
    spec fn terminated(&self) -> bool;

    /// Whether the connection is finished and its descriptor can be reclaimed.
    fn is_terminated(&self) -> (r: bool)
        ensures
            r == self.terminated(),
    ;

    /// Reacts to one readiness report, doing a bounded amount of I/O.
    fn ready(&mut self, event: &Readiness) -> Result<(), Error>;
}

/// What dispatching a readiness report did.
#[derive(Debug, PartialEq, Eq)]
pub enum Dispatch {
    /// No handler owns the descriptor: the table and the kernel's interest
    /// set disagree.
    Unknown,
    /// The handler ran and stays registered.
    Live,
    /// The handler finished or failed, with this outcome; it has been removed
    /// and its descriptor must leave the interest set.
    Removed(Result<(), Error>),
}

/// What becomes of a handler after it reacted to a report with outcome
/// `res`: it stays only when it succeeded and is not finished; otherwise it
/// is removed, carrying the outcome.
pub fn outcome(res: Result<(), Error>, terminated: bool) -> (d: Dispatch)
    ensures
        d is Live <==> (res is Ok && !terminated),
        d matches Dispatch::Removed(x) ==> x == res,
        !(d is Unknown),
{
    if res.is_err() || terminated {
        Dispatch::Removed(res)
    } else {
        Dispatch::Live
    }
}

/// The handlers of the registered descriptors, in a table indexed by the
/// descriptor itself, so that a report finds its handler in constant time.
pub struct Registry<H> {
    slots: Vec<Option<H>>,
}

impl<H> Registry<H> {
    /// The handler of each registered descriptor.
    pub closed spec fn handlers(&self) -> Map<int, H> {
        Map::new(
            |fd: int| 0 <= fd < self.slots@.len() && fd <= 0x7fff_ffff && self.slots@[fd] is Some,
            |fd: int| self.slots@[fd]->Some_0,
        )
    }

    /// An empty registry.
    pub fn new() -> (r: Registry<H>)
        ensures
            r.handlers() == Map::<int, H>::empty(),
    {
        let r = Registry { slots: Vec::new() };
        assert(r.handlers() =~= Map::<int, H>::empty());
        r
    }

    /// Whether `fd` has a handler.
    pub fn contains(&self, fd: i32) -> (r: bool)
        ensures
            r == self.handlers().dom().contains(fd as int),
    {
        fd >= 0 && (fd as usize) < self.slots.len() && self.slots[fd as usize].is_some()
    }

    /// Number of leading slots that can hold a descriptor.
    fn span(&self) -> (n: usize)
        ensures
            n <= self.slots@.len(),
            n <= 0x8000_0000,
            forall|fd: int| self.handlers().dom().contains(fd) ==> 0 <= fd < n,
    {
        if self.slots.len() > 0x8000_0000 {
            0x8000_0000
        } else {
            self.slots.len()
        }
    }

    /// Whether no descriptor is registered.
    pub fn is_empty(&self) -> (r: bool)
        ensures
            r == (self.handlers().dom() == Set::<int>::empty()),
    {
        let n = self.span();
        let mut i: usize = 0;
        while i < n
            invariant
                i <= n,
                n <= self.slots@.len(),
                n <= 0x8000_0000,
                forall|j: int| 0 <= j < i ==> self.slots@[j] is None,
            decreases n - i,
        {
            if self.slots[i].is_some() {
                assert(self.handlers().dom().contains(i as int));
                return false;
            }
            i = i + 1;
        }
        assert(self.handlers().dom() =~= Set::<int>::empty());
        true
    }

    /// The registered descriptors, in increasing order.
    pub fn fds(&self) -> (r: Vec<i32>)
        ensures
            forall|i: int| 0 <= i < r@.len() ==> self.handlers().dom().contains(r@[i] as int),
            forall|fd: int| #[trigger] self.handlers().dom().contains(fd) ==> exists|i: int|
                0 <= i < r@.len() && r@[i] == fd,
    {
        let n = self.span();
        let mut r: Vec<i32> = Vec::new();
        let mut i: usize = 0;
        while i < n
            invariant
                i <= n,
                n <= self.slots@.len(),
                n <= 0x8000_0000,
                forall|fd: int| 0 <= fd < n ==> self.handlers().dom().contains(fd) == (self.slots@[fd] is Some),
                forall|k: int| 0 <= k < r@.len() ==> 0 <= r@[k] < i && self.handlers().dom().contains(r@[k] as int),
                forall|fd: int| #[trigger] self.handlers().dom().contains(fd) && fd < i ==> exists|k: int|
                    0 <= k < r@.len() && r@[k] == fd,
            decreases n - i,
        {
            if self.slots[i].is_some() {
                let ghost r0 = r@;
                r.push(i as i32);
                assert(r@[r@.len() - 1] == i);
                assert forall|fd: int| #[trigger] self.handlers().dom().contains(fd) && fd < i + 1 implies exists|k: int|
                    0 <= k < r@.len() && r@[k] == fd by {
                    if fd < i {
                        let k = choose|k: int| 0 <= k < r0.len() && r0[k] == fd;
                        assert(r@[k] == fd);
                    }
                }
            }
            i = i + 1;
        }
        r
    }

    /// Adds the handler of `fd`. Fails when `fd` is negative or already has
    /// a handler, leaving the registry as it was.
    pub fn register(&mut self, fd: i32, h: H) -> (r: Result<(), Error>)
        ensures
            r is Ok <==> fd >= 0 && !old(self).handlers().dom().contains(fd as int),
            r is Ok ==> final(self).handlers() == old(self).handlers().insert(fd as int, h),
            r is Err ==> final(self).handlers() == old(self).handlers(),
            r matches Err(e) ==> e is OtherError,
    {
        if fd < 0 {
            return Err(Error::OtherError("negative file descriptor".to_owned()));
        }
        let ufd = fd as usize;
        if ufd < self.slots.len() && self.slots[ufd].is_some() {
            return Err(Error::OtherError("file descriptor already registered".to_owned()));
        }
        let ghost before = self.handlers();
        while self.slots.len() <= ufd
            invariant
                self.handlers() == before,
                ufd < self.slots@.len() ==> self.slots@[ufd as int] is None,
            decreases ufd + 1 - self.slots.len(),
        {
            let ghost s0 = self.slots@;
            self.slots.push(None);
            assert(self.handlers() =~= before) by {
                assert forall|k: int| 0 <= k < s0.len() implies self.slots@[k] == s0[k] by {}
            }
        }
        let ghost s1 = self.slots@;
        self.slots.set(ufd, Some(h));
        assert(self.handlers() =~= before.insert(fd as int, h));
        Ok(())
    }

    /// Removes the handler of `fd` and hands it back; a descriptor without
    /// handler is left alone.
    pub fn deregister(&mut self, fd: i32) -> (r: Option<H>)
        ensures
            final(self).handlers() == old(self).handlers().remove(fd as int),
            r is Some <==> old(self).handlers().dom().contains(fd as int),
            r matches Some(h) ==> h == old(self).handlers()[fd as int],
    {
        if fd < 0 || fd as usize >= self.slots.len() {
            assert(self.handlers() =~= self.handlers().remove(fd as int));
            return None;
        }
        let ghost before = self.handlers();
        let mut slot: Option<H> = None;
        self.slots.set_and_swap(fd as usize, &mut slot);
        assert(self.handlers() =~= before.remove(fd as int));
        slot
    }
}

impl<H: Controller> Registry<H> {
    /// Hands a readiness report to the handler of its descriptor. A handler
    /// that fails, or is finished afterwards, is removed.
    pub fn dispatch(&mut self, event: &Readiness) -> (r: Dispatch)
        ensures
            r is Unknown <==> !old(self).handlers().dom().contains(event.fd as int),
            r is Unknown ==> final(self).handlers() == old(self).handlers(),
            r is Removed ==> final(self).handlers() == old(self).handlers().remove(event.fd as int),
            r is Live ==> final(self).handlers().dom() == old(self).handlers().dom(),
            r is Live ==> final(self).handlers().remove(event.fd as int) == old(self).handlers().remove(
                event.fd as int,
            ),
            r is Live ==> !final(self).handlers()[event.fd as int].terminated(),
    {
        let fd = event.fd;
        match self.deregister(fd) {
            None => {
                Dispatch::Unknown
            },
            Some(mut h) => {
                let res = h.ready(event);
                let terminated = h.is_terminated();
                let d = outcome(res, terminated);
                if let Dispatch::Live = d {
                    let ghost mid = self.handlers();
                    let _ = self.register(fd, h);
                    assert(self.handlers().remove(fd as int) =~= mid);
                }
                d
            },
        }
    }

    /// Removes every handler that reports itself finished; gives their
    /// descriptors, which must leave the interest set.
    pub fn sweep(&mut self) -> (r: Vec<i32>)
        ensures
            forall|i: int| 0 <= i < r@.len() ==> old(self).handlers().dom().contains(r@[i] as int),
            forall|i: int| 0 <= i < r@.len() ==> !final(self).handlers().dom().contains(r@[i] as int),
            forall|fd: int| final(self).handlers().dom().contains(fd) ==> old(self).handlers().dom().contains(fd)
                && final(self).handlers()[fd] == old(self).handlers()[fd],
            forall|fd: int| #[trigger] old(self).handlers().dom().contains(fd) ==>
                final(self).handlers().dom().contains(fd) || exists|i: int| 0 <= i < r@.len() && r@[i] == fd,
            forall|fd: int| #[trigger] old(self).handlers().dom().contains(fd) ==> (
            final(self).handlers().dom().contains(fd) <==> !old(self).handlers()[fd].terminated()),
    {
        let n = self.span();
        let mut removed: Vec<i32> = Vec::new();
        let ghost before = self.handlers();
        let ghost s0 = self.slots@;
        let mut i: usize = 0;
        while i < n
            invariant
                i <= n,
                n <= s0.len(),
                n <= 0x8000_0000,
                before == Map::new(
                    |fd: int| 0 <= fd < s0.len() && fd <= 0x7fff_ffff && s0[fd] is Some,
                    |fd: int| s0[fd]->Some_0,
                ),
                self.slots@.len() == s0.len(),
                forall|j: int| i <= j < s0.len() ==> self.slots@[j] == s0[j],
                forall|j: int| 0 <= j < i ==> self.slots@[j] == s0[j] || self.slots@[j] is None,
                forall|k: int| 0 <= k < removed@.len() ==> 0 <= removed@[k] < i && s0[removed@[k] as int] is Some
                    && self.slots@[removed@[k] as int] is None,
                forall|j: int| 0 <= j < i && s0[j] is Some && self.slots@[j] is None ==> exists|k: int|
                    0 <= k < removed@.len() && removed@[k] == j,
                forall|j: int| 0 <= j < i && s0[j] is Some ==> (self.slots@[j] is None <==> s0[j]->Some_0.terminated()),
            decreases n - i,
        {
            let done = match &self.slots[i] {
                Some(h) => h.is_terminated(),
                None => false,
            };
            if done {
                let ghost r0 = removed@;
                let mut slot: Option<H> = None;
                self.slots.set_and_swap(i, &mut slot);
                removed.push(i as i32);
                assert(removed@[removed@.len() - 1] == i);
                assert forall|j: int| 0 <= j < i + 1 && s0[j] is Some && self.slots@[j] is None implies exists|k: int|
                    0 <= k < removed@.len() && removed@[k] == j by {
                    if j < i {
                        let k = choose|k: int| 0 <= k < r0.len() && r0[k] == j;
                        assert(removed@[k] == j);
                    }
                }
            }
            i = i + 1;
        }
        assert forall|fd: int| #[trigger] before.dom().contains(fd) implies (self.handlers().dom().contains(fd)
            || exists|k: int| 0 <= k < removed@.len() && removed@[k] == fd) && (self.handlers().dom().contains(fd)
            <==> !before[fd].terminated()) by {
            assert(fd < n);
        }
        removed
    }
}

/// Removing a descriptor twice is removing it once: the second removal finds
/// no handler and leaves the table as it is.
pub proof fn lemma_deregister_twice<H>(handlers: Map<int, H>, fd: int)
    ensures
        !handlers.remove(fd).dom().contains(fd),
        handlers.remove(fd).remove(fd) == handlers.remove(fd),
{
    assert(handlers.remove(fd).remove(fd) =~= handlers.remove(fd));
}

} // verus!
