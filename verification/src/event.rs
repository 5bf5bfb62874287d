use vstd::prelude::*;

verus! {

/// Something that can be told of an event, whatever the payload.
pub trait Listener<T>: Send + Sync {
    fn handle(&self, t: T);
}

/// A closure as a listener. Only a closure that takes every payload can
/// be one.
#[verifier::reject_recursive_types(T)]
pub struct FnListener<T, F: Fn(T)> {
    f: F,
    payload: core::marker::PhantomData<T>,
}

impl<T, F: Fn(T)> FnListener<T, F> {
    #[verifier::type_invariant]
    spec fn total(&self) -> bool {
        forall|t: T| self.f.requires((t,))
    }

    /// The closure that the listener calls.
    pub closed spec fn closure(&self) -> F {
        self.f
    }

    /// Makes a listener of a closure that takes every payload: the
    /// listener that calls `f`.
    pub fn new(f: F) -> (r: Self)
        requires
            forall|t: T| f.requires((t,)),
        ensures
            r.closure() == f,
    {
        FnListener { f, payload: core::marker::PhantomData }
    }
}

impl<T: Send + Sync, F: Fn(T) + Send + Sync> Listener<T> for FnListener<T, F> {
    /// Calls the closure with `t`.
    fn handle(&self, t: T)
        ensures
            self.closure().ensures((t,), ()),
    {
        proof {
            use_type_invariant(self);
        }
        (self.f)(t)
    }
}

/// One registration: the event name and the listener.
#[verifier::reject_recursive_types(T)]
struct Slot<T> {
    name: String,
    listener: Box<dyn Listener<T>>,
}

impl<T> Slot<T> {
    fn new<L>(name: String, listener: L) -> (s: Self) where L: Listener<T> + 'static
        ensures
            s.name@ == name@,
    {
        Slot { name, listener: Box::new(listener) }
    }
}

/// A dispatcher: listeners registered under event names, told of an event
/// in the order of their registration.
#[verifier::reject_recursive_types(T)]
pub struct EventHandler<T> {
    listeners: Vec<Slot<T>>,
}

/// The test for "is the name `name`".
pub open spec fn named(name: Seq<char>) -> spec_fn(Seq<char>) -> bool {
    |n: Seq<char>| n == name
}

impl<T: Clone + Send + Sync + 'static> EventHandler<T> {
    /// The event names of the registrations, in the order in which they
    /// were made.
    pub closed spec fn names(&self) -> Seq<Seq<char>> {
        self.listeners@.map_values(|s: Slot<T>| s.name@)
    }

    /// How many listeners are registered under `name`.
    pub open spec fn count(&self, name: Seq<char>) -> nat {
        self.names().filter(named(name)).len()
    }

    /// A dispatcher without listeners.
    pub fn new() -> (r: Self)
        ensures
            r.names() == Seq::<Seq<char>>::empty(),
    {
        let r = EventHandler { listeners: Vec::new() };
        assert(r.names() =~= Seq::<Seq<char>>::empty());
        r
    }

    /// Registers `listener` under `name`, behind the listeners that are
    /// already there. Nothing is taken out and nothing is merged: a second
    /// registration of the same listener is a second listener.
    pub fn append<L>(&mut self, name: String, listener: L) where L: Listener<T> + 'static
        ensures
            final(self).names() == old(self).names().push(name@),
    {
        let slot = Slot::new(name, listener);
        self.listeners.push(slot);
        assert(self.names() =~= old(self).names().push(slot.name@));
    }

    /// Registers the closure `listener` under `name`.
    pub fn registry<F>(&mut self, name: String, listener: F) where F: Fn(T) + Send + Sync + 'static
        requires
            forall|t: T| listener.requires((t,)),
        ensures
            final(self).names() == old(self).names().push(name@),
    {
        self.append(name, FnListener::new(listener));
    }

    /// Hands a copy of `data` to every listener registered under `name`, in
    /// the order of registration, and returns how many there were.
    pub fn event(&self, name: String, data: T) -> (n: usize)
        ensures
            n == self.count(name@),
    {
        let mut n: usize = 0;
        let mut i: usize = 0;
        proof {
            reveal(Seq::filter);
            assert(self.names().take(0).filter(named(name@)) =~= Seq::<Seq<char>>::empty());
        }
        while i < self.listeners.len()
            invariant
                i <= self.listeners@.len(),
                self.names().len() == self.listeners@.len(),
                n == self.names().take(i as int).filter(named(name@)).len(),
                n <= i,
            decreases self.listeners@.len() - i,
        {
            proof {
                assert(self.names().take(i + 1) =~= self.names().take(i as int).push(self.names()[i as int]));
                crate::seqs::lemma_filter_push(
                    self.names().take(i as int),
                    self.names()[i as int],
                    named(name@),
                );
            }
            if self.listeners[i].name == name {
                self.listeners[i].listener.handle(data.clone());
                n = n + 1;
            }
            i = i + 1;
        }
        assert(self.names().take(i as int) =~= self.names());
        n
    }

    /// As `registry`.
    pub fn subscribe<F>(&mut self, name: String, listener: F) where F: Fn(T) + Send + Sync + 'static
        requires
            forall|t: T| listener.requires((t,)),
        ensures
            final(self).names() == old(self).names().push(name@),
    {
        self.append(name, FnListener::new(listener));
    }

    /// As `event`.
    pub fn publish(&self, name: String, data: T) -> (n: usize)
        ensures
            n == self.count(name@),
    {
        self.event(name, data)
    }
}

} // verus!
