//! Mutex based on the Ticket Lock spin lock described in "Algorithms for
//! Scalable Synchronization on Shared-Memory Multiprocessors".
//!
//! A caller takes the next ticket and enters when that ticket is served;
//! leaving serves the ticket after it. `Tickets` holds the two counters and
//! the three steps on them, for any number of callers, one step at a time.
//! `TicketMutex` is the lock as one owner at a time sees it. Ownership
//! stands in for the waiting: `lock` takes the mutex and keeps it in the
//! guard, so that no second caller can take a ticket before the first one
//! has left, and the guard can be given up only once. The counters move as
//! those of a lock shared between processors do, wrapping around at the
//! largest machine word.

use vstd::prelude::*;

verus! {

/// The ticket that follows `ticket`.
pub open spec fn ticket_after(ticket: usize) -> usize {
    if ticket == usize::MAX {
        0
    } else {
        (ticket + 1) as usize
    }
}

/// How many times the lock has to be released before `ticket` is served,
/// where `now_serving` is served now: the place of `ticket` in the queue.
pub open spec fn turns_until(now_serving: usize, ticket: usize) -> int {
    if ticket >= now_serving {
        ticket - now_serving
    } else {
        ticket - now_serving + usize::MAX + 1
    }
}

/// The counters of a ticket lock.
#[derive(Debug, Clone, Copy)]
pub struct Tickets {
    /// Next ticket.
    next_ticket: usize,
    /// Ticket being served.
    now_serving: usize,
}

impl Tickets {
    /// The ticket that the next caller takes.
    pub closed spec fn spec_next_ticket(&self) -> usize {
        self.next_ticket
    }

    /// The ticket that may enter.
    pub closed spec fn spec_now_serving(&self) -> usize {
        self.now_serving
    }

    /// The number of tickets taken and not given up yet, short of a whole
    /// turn of the counters: the holder's and those of the callers that
    /// wait.
    pub open spec fn taken(&self) -> int {
        turns_until(self.now_serving(), self.next_ticket())
    }

    /// Returns the counters of a lock that nobody holds.
    pub fn new() -> (tickets: Self)
        ensures
            tickets.next_ticket() == 0,
            tickets.now_serving() == 0,
    {
        Tickets { next_ticket: 0, now_serving: 0 }
    }

    /// Returns the ticket that the next caller takes.
    #[verifier::when_used_as_spec(spec_next_ticket)]
    pub fn next_ticket(&self) -> (ticket: usize)
        ensures
            ticket == self.next_ticket(),
    {
        self.next_ticket
    }

    /// Returns the ticket that may enter.
    #[verifier::when_used_as_spec(spec_now_serving)]
    pub fn now_serving(&self) -> (ticket: usize)
        ensures
            ticket == self.now_serving(),
    {
        self.now_serving
    }

    /// Gets the next ticket and increments it. The ticket comes after all
    /// those that are taken.
    pub fn take(&mut self) -> (ticket: usize)
        ensures
            ticket == old(self).next_ticket(),
            final(self).next_ticket() == ticket_after(ticket),
            final(self).now_serving() == old(self).now_serving(),
            turns_until(final(self).now_serving(), ticket) == old(self).taken(),
    {
        let ticket = self.next_ticket;
        self.next_ticket = ticket.wrapping_add(1);
        ticket
    }

    /// Tells whether `ticket` is served: whether its holder may enter, or
    /// has to look again.
    pub fn is_served(&self, ticket: usize) -> (served: bool)
        ensures
            served == (ticket == self.now_serving()),
            served == (turns_until(self.now_serving(), ticket) == 0),
    {
        self.now_serving == ticket
    }

    /// Releases the lock by incrementing the ticket being served.
    pub fn release(&mut self)
        ensures
            final(self).now_serving() == ticket_after(old(self).now_serving()),
            final(self).next_ticket() == old(self).next_ticket(),
    {
        self.now_serving = self.now_serving.wrapping_add(1);
    }
}

/// No two tickets are served at a time.
pub proof fn lemma_one_ticket_served(now_serving: usize, a: usize, b: usize)
    requires
        turns_until(now_serving, a) == 0,
        turns_until(now_serving, b) == 0,
    ensures
        a == b,
{
}

/// A release brings every ticket that waits one turn closer, and none gets
/// ahead of another: tickets are served in the order in which they were
/// taken.
pub proof fn lemma_release_keeps_order(now_serving: usize, a: usize, b: usize)
    requires
        0 < turns_until(now_serving, a) < turns_until(now_serving, b),
    ensures
        turns_until(ticket_after(now_serving), a) == turns_until(now_serving, a) - 1,
        turns_until(ticket_after(now_serving), b) == turns_until(now_serving, b) - 1,
        turns_until(ticket_after(now_serving), a) < turns_until(ticket_after(now_serving), b),
{
}

/// Represents a mutex based on a Ticket Lock.
pub struct TicketMutex<T> {
    /// Next ticket and ticket being served.
    tickets: Tickets,
    /// Protected data.
    data: T,
}

impl<T> View for TicketMutex<T> {
    type V = T;

    /// The protected data.
    closed spec fn view(&self) -> T {
        self.data
    }
}

impl<T> TicketMutex<T> {
    /// The ticket that the next caller takes.
    pub closed spec fn spec_next_ticket(&self) -> usize {
        self.tickets.next_ticket
    }

    /// The ticket that may enter.
    pub closed spec fn spec_now_serving(&self) -> usize {
        self.tickets.now_serving
    }

    /// Returns the ticket that the next caller takes.
    #[verifier::when_used_as_spec(spec_next_ticket)]
    pub fn next_ticket(&self) -> (ticket: usize)
        ensures
            ticket == self.next_ticket(),
    {
        self.tickets.next_ticket()
    }

    /// Returns the ticket that may enter.
    #[verifier::when_used_as_spec(spec_now_serving)]
    pub fn now_serving(&self) -> (ticket: usize)
        ensures
            ticket == self.now_serving(),
    {
        self.tickets.now_serving()
    }

    /// Nobody holds the mutex: the next ticket is the one that is served.
    #[verifier::type_invariant]
    pub closed spec fn is_free(&self) -> bool {
        self.tickets.now_serving == self.tickets.next_ticket
    }

    /// What `lock` returns.
    pub closed spec fn locked(self) -> TicketMutexGuard<T> {
        TicketMutexGuard {
            tickets: Tickets {
                next_ticket: ticket_after(self.tickets.next_ticket),
                now_serving: self.tickets.now_serving,
            },
            ticket: self.tickets.next_ticket,
            data: self.data,
        }
    }

    /// Returns a `TicketMutex` protecting `data`.
    pub fn new(data: T) -> (mutex: Self)
        ensures
            mutex.next_ticket() == 0,
            mutex.now_serving() == 0,
            mutex@ == data,
    {
        TicketMutex { tickets: Tickets::new(), data }
    }

    /// Locks the `TicketMutex` and returns a `TicketMutexGuard` that allows
    /// exclusive access to the protected data.
    pub fn lock(self) -> (guard: TicketMutexGuard<T>)
        ensures
            guard == self.locked(),
            guard.is_held(),
            guard.ticket() == self.next_ticket(),
            guard.next_ticket() == ticket_after(self.next_ticket()),
            guard@ == self@,
    {
        proof {
            use_type_invariant(&self);
        }
        let TicketMutex { mut tickets, data } = self;
        // Get the next ticket and increment it.
        let ticket = tickets.take();
        // Our ticket is the one that is served: there is nothing to wait
        // for.
        assert(turns_until(tickets.now_serving(), ticket) == 0);
        TicketMutexGuard::new(tickets, ticket, data)
    }
}

/// An implementation of a "scoped lock" of a `TicketMutex`. It holds the
/// mutex while the mutex is locked, and gives it back, unlocked, when it is
/// given up with `unlock`.
///
/// The data protected by the mutex can be accessed through this guard via its
/// `Deref` implementation and its method `get_mut`.
///
/// This structure is created by the `lock` method on `TicketMutex`.
pub struct TicketMutexGuard<T> {
    /// Counters of the `TicketMutex` associated with this
    /// `TicketMutexGuard`.
    tickets: Tickets,
    /// Ticket of the holder of this guard.
    ticket: usize,
    /// Protected data.
    data: T,
}

impl<T> View for TicketMutexGuard<T> {
    type V = T;

    /// The protected data.
    closed spec fn view(&self) -> T {
        self.data
    }
}

impl<T> TicketMutexGuard<T> {
    /// The ticket that the holder of the guard took.
    pub closed spec fn spec_ticket(&self) -> usize {
        self.ticket
    }

    /// The ticket that the next caller takes.
    pub closed spec fn spec_next_ticket(&self) -> usize {
        self.tickets.next_ticket
    }

    /// The ticket that may enter.
    pub closed spec fn spec_now_serving(&self) -> usize {
        self.tickets.now_serving
    }

    /// Returns the ticket that the holder of the guard took.
    #[verifier::when_used_as_spec(spec_ticket)]
    pub fn ticket(&self) -> (ticket: usize)
        ensures
            ticket == self.ticket(),
    {
        self.ticket
    }

    /// Returns the ticket that the next caller takes.
    #[verifier::when_used_as_spec(spec_next_ticket)]
    pub fn next_ticket(&self) -> (ticket: usize)
        ensures
            ticket == self.next_ticket(),
    {
        self.tickets.next_ticket()
    }

    /// Returns the ticket that may enter.
    #[verifier::when_used_as_spec(spec_now_serving)]
    pub fn now_serving(&self) -> (ticket: usize)
        ensures
            ticket == self.now_serving(),
    {
        self.tickets.now_serving()
    }

    /// The holder's ticket is the one that is served, and the last one
    /// taken. This holds of every guard that `lock` returned, whatever was
    /// done to the data since.
    pub open spec fn is_held(&self) -> bool {
        self.now_serving() == self.ticket() && self.next_ticket() == ticket_after(self.ticket())
    }

    /// What `unlock` returns.
    pub closed spec fn unlocked(self) -> TicketMutex<T> {
        TicketMutex {
            tickets: Tickets {
                next_ticket: self.tickets.next_ticket,
                now_serving: ticket_after(self.tickets.now_serving),
            },
            data: self.data,
        }
    }

    /// Returns a new `TicketMutexGuard` for the holder of `ticket`.
    fn new(tickets: Tickets, ticket: usize, data: T) -> (guard: Self)
        ensures
            guard.tickets == tickets,
            guard.ticket == ticket,
            guard.data == data,
    {
        TicketMutexGuard { tickets, ticket, data }
    }

    /// Returns the protected data, for the holder to change it.
    pub fn get_mut(&mut self) -> (data: &mut T)
        ensures
            *data == old(self)@,
            final(self)@ == *final(data),
            final(self).ticket() == old(self).ticket(),
            final(self).now_serving() == old(self).now_serving(),
            final(self).next_ticket() == old(self).next_ticket(),
    {
        &mut self.data
    }

    /// Releases the lock by incrementing the ticket being served, and gives
    /// the mutex back.
    pub fn unlock(self) -> (mutex: TicketMutex<T>)
        requires
            self.is_held(),
        ensures
            mutex == self.unlocked(),
            mutex.now_serving() == ticket_after(self.ticket()),
            mutex.next_ticket() == self.next_ticket(),
            mutex@ == self@,
    {
        let TicketMutexGuard { mut tickets, ticket: _, data } = self;
        tickets.release();
        TicketMutex { tickets, data }
    }
}

impl<T> core::ops::Deref for TicketMutexGuard<T> {
    type Target = T;

    fn deref(&self) -> (data: &T)
        ensures
            *data == self@,
    {
        &self.data
    }
}

/// Cycles of `lock` and `unlock` on a free mutex hand out ticket after
/// ticket, each the one after the last, and each `unlock` moves the ticket
/// being served on by exactly one: to the ticket after the one given up,
/// which is the next to be taken. Short of the largest machine word the
/// tickets strictly increase.
pub proof fn lemma_cycles<T>(mutex: TicketMutex<T>)
    requires
        mutex.is_free(),
    ensures
        mutex.locked().is_held(),
        mutex.locked().ticket() == mutex.next_ticket(),
        mutex.locked().unlocked().is_free(),
        mutex.locked().unlocked().now_serving() == ticket_after(mutex.now_serving()),
        mutex.locked().unlocked().locked().ticket() == ticket_after(mutex.locked().ticket()),
        mutex.locked().ticket() < usize::MAX ==> mutex.locked().unlocked().locked().ticket()
            == mutex.locked().ticket() + 1,
        mutex.locked().unlocked()@ == mutex@,
{
}

} // verus!
